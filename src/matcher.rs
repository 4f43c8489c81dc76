use vstd::prelude::*;
use crate::curve::{
    derive_public_key, is_valid_scalar, is_valid_secret, public_key_of, PUBLIC_KEY_SIZE,
};
use crate::window::{window_at, window_count, windows, WindowScanner, WINDOW_WIDTH};

verus! {

/// `candidate` is a private key whose compressed public key is exactly `target`.
pub open spec fn is_match(candidate: Seq<u8>, target: Seq<u8>) -> bool {
    is_valid_scalar(candidate) && public_key_of(candidate) == target
}

/// The first window of `stream` at offset `i` or later that matches `target`.
pub open spec fn first_match_from(stream: Seq<u8>, target: Seq<u8>, i: int) -> Option<Seq<u8>>
    decreases stream.len() - i,
{
    if i < 0 || i + WINDOW_WIDTH > stream.len() {
        None
    } else if is_match(window_at(stream, i), target) {
        Some(window_at(stream, i))
    } else {
        first_match_from(stream, target, i + 1)
    }
}

/// The result of a scan: the earliest window of `stream` that matches `target`.
pub open spec fn first_match(stream: Seq<u8>, target: Seq<u8>) -> Option<Seq<u8>> {
    first_match_from(stream, target, 0)
}

/// A found key as a sequence of bytes.
pub open spec fn key_view(r: Option<[u8; 32]>) -> Option<Seq<u8>> {
    match r {
        Some(k) => Some(k@),
        None => None,
    }
}

/// Compares two encoded public keys byte for byte.
pub fn same_public_key(a: &[u8; 33], b: &[u8; 33]) -> (r: bool)
    ensures
        r == (a@ == b@),
{
    let mut i: usize = 0;
    while i < PUBLIC_KEY_SIZE
        invariant
            0 <= i <= PUBLIC_KEY_SIZE,
            forall|j: int| 0 <= j < i ==> a@[j] == b@[j],
        decreases PUBLIC_KEY_SIZE - i,
    {
        if a[i] != b[i] {
            return false;
        }
        i = i + 1;
    }
    assert(a@ =~= b@);
    true
}

/// Tries one window as a private key: `Some` of the window exactly when it is a valid
/// scalar whose compressed public key equals `target`. An invalid scalar is rejected
/// before any public key is derived.
pub fn try_match(window: [u8; 32], target: &[u8; 33]) -> (r: Option<[u8; 32]>)
    ensures
        r is Some <==> is_match(window@, target@),
        r matches Some(k) ==> k@ == window@,
{
    if !is_valid_secret(window) {
        return None;
    }
    let derived = derive_public_key(window);
    if same_public_key(&derived, target) {
        Some(window)
    } else {
        None
    }
}

/// Drives a `WindowScanner` through the key matcher one byte at a time, so that a
/// reader of any length is scanned in constant memory.
pub struct KeyScanner {
    windows: WindowScanner,
    target: [u8; 33],
}

impl KeyScanner {
    /// Every byte fed so far, in order.
    pub closed spec fn consumed(&self) -> Seq<u8> {
        self.windows.consumed()
    }

    /// The compressed public key searched for.
    pub closed spec fn target(&self) -> Seq<u8> {
        self.target@
    }

    /// The window scanner inside is well formed.
    pub closed spec fn wf(&self) -> bool {
        self.windows.wf()
    }

    /// A scanner for `target` that has been fed nothing.
    pub fn new(target: [u8; 33]) -> (r: KeyScanner)
        ensures
            r.wf(),
            r.consumed() == Seq::<u8>::empty(),
            r.target() == target@,
    {
        KeyScanner { windows: WindowScanner::new(), target }
    }

    /// Feeds one byte. Returns the key when the window that ends with this byte matches
    /// the target.
    pub fn feed(&mut self, b: u8) -> (r: Option<[u8; 32]>)
        requires
            old(self).wf(),
        ensures
            final(self).wf(),
            final(self).consumed() == old(self).consumed().push(b),
            final(self).target() == old(self).target(),
            r is Some <==> final(self).consumed().len() >= WINDOW_WIDTH && is_match(
                window_at(final(self).consumed(), final(self).consumed().len() - WINDOW_WIDTH),
                final(self).target(),
            ),
            r matches Some(k) ==> k@ == window_at(
                final(self).consumed(),
                final(self).consumed().len() - WINDOW_WIDTH,
            ),
    {
        match self.windows.push(b) {
            Some(w) => try_match(w, &self.target),
            None => None,
        }
    }
}

/// Scans `stream` for the first window, in order of offset, that is a private key of
/// `target`, and stops there.
pub fn scan_for_key(stream: &[u8], target: &[u8; 33]) -> (r: Option<[u8; 32]>)
    ensures
        key_view(r) == first_match(stream@, target@),
{
    let mut scanner = KeyScanner::new(*target);
    let mut k: usize = 0;
    while k < stream.len()
        invariant
            0 <= k <= stream@.len(),
            scanner.wf(),
            scanner.consumed() == stream@.subrange(0, k as int),
            scanner.target() == target@,
            forall|i: int|
                0 <= i < window_count(k as nat) ==> !is_match(
                    #[trigger] window_at(stream@, i),
                    target@,
                ),
        decreases stream@.len() - k,
    {
        let found = scanner.feed(stream[k]);
        assert(scanner.consumed() =~= stream@.subrange(0, k + 1));
        if k + 1 >= WINDOW_WIDTH {
            assert(window_at(scanner.consumed(), k + 1 - WINDOW_WIDTH) =~= window_at(
                stream@,
                k + 1 - WINDOW_WIDTH,
            ));
        }
        match found {
            Some(key) => {
                proof {
                    lemma_first_embedded_key_found(stream@, target@, k + 1 - WINDOW_WIDTH);
                }
                return Some(key);
            },
            None => {},
        }
        k = k + 1;
    }
    proof {
        lemma_no_match_before(stream@, target@, window_count(stream@.len()) as int);
        assert(first_match_from(stream@, target@, window_count(stream@.len()) as int) is None);
    }
    None
}

/// Skipping windows that do not match leaves the first match unchanged.
proof fn lemma_no_match_before(stream: Seq<u8>, target: Seq<u8>, k: int)
    requires
        0 <= k,
        forall|i: int|
            0 <= i < k && i + WINDOW_WIDTH <= stream.len() ==> !is_match(
                #[trigger] window_at(stream, i),
                target,
            ),
    ensures
        first_match(stream, target) == first_match_from(stream, target, k),
    decreases k,
{
    if k > 0 {
        lemma_no_match_before(stream, target, k - 1);
        if k - 1 + WINDOW_WIDTH > stream.len() {
            lemma_nothing_past_end(stream, target, k);
        }
    }
}

proof fn lemma_nothing_past_end(stream: Seq<u8>, target: Seq<u8>, i: int)
    requires
        i + WINDOW_WIDTH > stream.len(),
    ensures
        first_match_from(stream, target, i) is None,
{
}

/// A key embedded at offset `k`, with no matching window before it, is exactly what
/// the scan returns.
pub proof fn lemma_first_embedded_key_found(stream: Seq<u8>, target: Seq<u8>, k: int)
    requires
        0 <= k,
        k + WINDOW_WIDTH <= stream.len(),
        is_match(window_at(stream, k), target),
        forall|i: int| 0 <= i < k ==> !is_match(#[trigger] window_at(stream, i), target),
    ensures
        first_match(stream, target) == Some(window_at(stream, k)),
{
    lemma_no_match_before(stream, target, k);
}

/// A stream shorter than one window holds no windows and yields no key.
pub proof fn lemma_short_stream_not_found(stream: Seq<u8>, target: Seq<u8>)
    requires
        stream.len() < WINDOW_WIDTH,
    ensures
        windows(stream).len() == 0,
        first_match(stream, target) is None,
{
}

/// A stream of `L >= 32` bytes holds `L - 31` windows; window `i` is the 32 bytes at
/// offsets `[i, i + 32)`.
pub proof fn lemma_window_layout(stream: Seq<u8>)
    requires
        stream.len() >= WINDOW_WIDTH,
    ensures
        windows(stream).len() == stream.len() - (WINDOW_WIDTH - 1),
        forall|i: int|
            0 <= i < windows(stream).len() ==> (#[trigger] windows(stream)[i]).len()
                == WINDOW_WIDTH && windows(stream)[i] == stream.subrange(i, i + WINDOW_WIDTH),
{
}

/// Matching depends on the candidate bytes and the target alone: equal inputs give
/// equal answers.
pub proof fn lemma_match_deterministic(
    window_a: Seq<u8>,
    target_a: Seq<u8>,
    window_b: Seq<u8>,
    target_b: Seq<u8>,
)
    requires
        window_a == window_b,
        target_a == target_b,
    ensures
        is_match(window_a, target_a) == is_match(window_b, target_b),
{
}

/// A valid private key matches its own derived public key.
pub proof fn lemma_round_trip(secret: Seq<u8>)
    requires
        is_valid_scalar(secret),
    ensures
        is_match(secret, public_key_of(secret)),
{
}

} // verus!
