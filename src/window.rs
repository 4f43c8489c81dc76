use vstd::prelude::*;

verus! {

/// Number of bytes in every window.
pub const WINDOW_WIDTH: usize = 32;

/// The window of `stream` that starts at offset `i`: the bytes `[i, i + 32)`.
pub open spec fn window_at(stream: Seq<u8>, i: int) -> Seq<u8> {
    stream.subrange(i, i + WINDOW_WIDTH as int)
}

/// How many windows a stream of `len` bytes holds: `len - 31`, or none when it is
/// shorter than a window.
pub open spec fn window_count(len: nat) -> nat {
    if len >= WINDOW_WIDTH {
        (len - (WINDOW_WIDTH - 1)) as nat
    } else {
        0
    }
}

/// Every window of `stream`, in order of offset, with stride one.
pub open spec fn windows(stream: Seq<u8>) -> Seq<Seq<u8>> {
    Seq::new(window_count(stream.len()), |i: int| window_at(stream, i))
}

/// A sliding window over a byte stream that is fed one byte at a time. It keeps the
/// last 32 bytes fed and hands out a copy of them once it has seen 32 bytes.
pub struct WindowScanner {
    buf: [u8; 32],
    filled: usize,
    fed: Ghost<Seq<u8>>,
}

impl WindowScanner {
    /// Every byte fed so far, in order.
    pub closed spec fn consumed(&self) -> Seq<u8> {
        self.fed@
    }

    /// The buffer holds the last `min(32, fed)` bytes at its front.
    pub closed spec fn wf(&self) -> bool {
        let fed = self.fed@;
        &&& self.filled as nat == if fed.len() < WINDOW_WIDTH {
            fed.len()
        } else {
            WINDOW_WIDTH as nat
        }
        &&& self.buf@.subrange(0, self.filled as int) == fed.subrange(
            fed.len() - self.filled,
            fed.len() as int,
        )
    }

    /// A scanner that has been fed nothing.
    pub fn new() -> (r: WindowScanner)
        ensures
            r.wf(),
            r.consumed() == Seq::<u8>::empty(),
    {
        let r = WindowScanner { buf: [0u8; 32], filled: 0, fed: Ghost(Seq::empty()) };
        assert(r.buf@.subrange(0, 0) =~= r.fed@.subrange(0, 0));
        r
    }

    /// Feeds one byte; evicts the oldest byte once the window is full. Returns the
    /// window that ends with this byte, once 32 bytes have been fed.
    pub fn push(&mut self, b: u8) -> (r: Option<[u8; 32]>)
        requires
            old(self).wf(),
        ensures
            final(self).wf(),
            final(self).consumed() == old(self).consumed().push(b),
            r is Some <==> final(self).consumed().len() >= WINDOW_WIDTH,
            r matches Some(w) ==> w@ == window_at(
                final(self).consumed(),
                final(self).consumed().len() - WINDOW_WIDTH,
            ),
    {
        let ghost before = self.buf@;
        let ghost fed = self.fed@.push(b);
        if self.filled < WINDOW_WIDTH {
            self.buf[self.filled] = b;
            self.filled = self.filled + 1;
            self.fed = Ghost(fed);
            assert(self.buf@.subrange(0, self.filled as int) =~= fed.subrange(
                fed.len() - self.filled,
                fed.len() as int,
            )) by {
                assert(before.subrange(0, self.filled - 1) =~= self.buf@.subrange(
                    0,
                    self.filled - 1,
                ));
            }
        } else {
            let mut i: usize = 0;
            while i < WINDOW_WIDTH - 1
                invariant
                    self.filled == WINDOW_WIDTH,
                    0 <= i < WINDOW_WIDTH,
                    forall|j: int| 0 <= j < i ==> self.buf@[j] == before[j + 1],
                    forall|j: int| i <= j < WINDOW_WIDTH ==> self.buf@[j] == before[j],
                decreases WINDOW_WIDTH - i,
            {
                self.buf[i] = self.buf[i + 1];
                i = i + 1;
            }
            self.buf[WINDOW_WIDTH - 1] = b;
            self.fed = Ghost(fed);
            assert(self.buf@.subrange(0, self.filled as int) =~= fed.subrange(
                fed.len() - self.filled,
                fed.len() as int,
            )) by {
                assert forall|j: int| 0 <= j < WINDOW_WIDTH - 1 implies self.buf@[j]
                    == fed[fed.len() - WINDOW_WIDTH + j] by {
                    assert(before.subrange(0, WINDOW_WIDTH as int)[j + 1] == before[j + 1]);
                }
            }
        }
        if self.filled == WINDOW_WIDTH {
            assert(self.buf@ =~= self.buf@.subrange(0, WINDOW_WIDTH as int));
            Some(self.buf)
        } else {
            None
        }
    }
}

/// Every window of `stream`, in order. Meant for inspection: a scan feeds a
/// `WindowScanner` instead and keeps only the current window.
pub fn collect_windows(stream: &[u8]) -> (r: Vec<[u8; 32]>)
    ensures
        r@.len() == window_count(stream@.len()),
        forall|i: int| 0 <= i < r@.len() ==> (#[trigger] r@[i])@ == windows(stream@)[i],
{
    let mut scanner = WindowScanner::new();
    let mut out: Vec<[u8; 32]> = Vec::new();
    let mut k: usize = 0;
    while k < stream.len()
        invariant
            0 <= k <= stream@.len(),
            scanner.wf(),
            scanner.consumed() == stream@.subrange(0, k as int),
            out@.len() == window_count(k as nat),
            forall|i: int| 0 <= i < out@.len() ==> (#[trigger] out@[i])@ == window_at(stream@, i),
        decreases stream@.len() - k,
    {
        let w = scanner.push(stream[k]);
        assert(scanner.consumed() =~= stream@.subrange(0, k + 1));
        match w {
            Some(w) => {
                assert(window_at(scanner.consumed(), k + 1 - WINDOW_WIDTH) =~= window_at(
                    stream@,
                    k + 1 - WINDOW_WIDTH,
                ));
                out.push(w);
            },
            None => {},
        }
        k = k + 1;
    }
    assert(stream@.subrange(0, k as int) =~= stream@);
    out
}

} // verus!
