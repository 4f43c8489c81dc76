use rip_eth_key::curve::{parse_target, public_key_for};
use rip_eth_key::matcher::{same_public_key, scan_for_key, try_match, KeyScanner};
use rip_eth_key::window::{collect_windows, WindowScanner};

const G_COMPRESSED: &str = "0279be667ef9dcbbac55a06295ce870b07029bfcdb2dce28d959f2815b16f81798";
const G_UNCOMPRESSED: &str = "0479be667ef9dcbbac55a06295ce870b07029bfcdb2dce28d959f2815b16f81798483ada7726a3c4655da4fbfc0e1108a8fd17b448a68554199c47d08ffb10d4b8";
const ORDER: &str = "fffffffffffffffffffffffffffffffebaaedce6af48a03bbfd25e8cd0364141";

fn from_hex(s: &str) -> Vec<u8> {
    (0..s.len() / 2).map(|i| u8::from_str_radix(&s[2 * i..2 * i + 2], 16).unwrap()).collect()
}

fn key_one() -> [u8; 32] {
    let mut k = [0u8; 32];
    k[31] = 1;
    k
}

fn order_plus(delta: i8) -> [u8; 32] {
    let mut k = [0u8; 32];
    k.copy_from_slice(&from_hex(ORDER));
    k[31] = (k[31] as i16 + delta as i16) as u8;
    k
}

#[test]
fn test_planted_key() {
    let key = [0xcdu8; 32];
    let target = public_key_for(key).unwrap();
    let mut stream: Vec<u8> = (0..200u32).map(|i| (i * 7 % 13) as u8).collect();
    stream.splice(57..57 + 32, key.iter().cloned());
    assert_eq!(scan_for_key(&stream, &target), Some(key));
}

#[test]
fn generator_is_public_key_of_one() {
    let expected = from_hex(G_COMPRESSED);
    assert_eq!(public_key_for(key_one()).unwrap().to_vec(), expected);
}

#[test]
fn parse_target_compressed_and_uncompressed() {
    let expected = from_hex(G_COMPRESSED);
    assert_eq!(parse_target(G_COMPRESSED).unwrap().to_vec(), expected);
    assert_eq!(parse_target(G_UNCOMPRESSED).unwrap().to_vec(), expected);
}

#[test]
fn parse_target_rejects_bad_text() {
    assert_eq!(parse_target(""), None);
    assert_eq!(parse_target("zz"), None);
    assert_eq!(parse_target(&G_COMPRESSED[..64]), None);
    let not_a_point = format!("02{}", "00".repeat(32));
    assert_eq!(parse_target(&not_a_point), None);
}

#[test]
fn scalar_range_edges() {
    assert_eq!(public_key_for([0u8; 32]), None);
    assert_eq!(public_key_for(order_plus(0)), None);
    assert_eq!(public_key_for(order_plus(1)), None);
    assert_eq!(public_key_for([0xffu8; 32]), None);
    assert!(public_key_for(order_plus(-1)).is_some());
    assert!(public_key_for(key_one()).is_some());
}

#[test]
fn short_stream_not_found() {
    let target = public_key_for(key_one()).unwrap();
    let stream = [0u8; 31];
    assert_eq!(scan_for_key(&stream, &target), None);
    assert!(collect_windows(&stream).is_empty());
    assert!(collect_windows(&[]).is_empty());
    assert_eq!(scan_for_key(&[], &target), None);
}

#[test]
fn window_count_and_offsets() {
    let stream: Vec<u8> = (0..40u8).collect();
    let ws = collect_windows(&stream);
    assert_eq!(ws.len(), 9);
    for (i, w) in ws.iter().enumerate() {
        assert_eq!(&w[..], &stream[i..i + 32]);
    }
    assert_eq!(collect_windows(&stream[..32]).len(), 1);
}

#[test]
fn window_scanner_emits_from_the_32nd_byte() {
    let mut scanner = WindowScanner::new();
    for b in 0..31u8 {
        assert_eq!(scanner.push(b), None);
    }
    let first = scanner.push(31).unwrap();
    assert_eq!(first.to_vec(), (0..32u8).collect::<Vec<u8>>());
    let second = scanner.push(32).unwrap();
    assert_eq!(second.to_vec(), (1..33u8).collect::<Vec<u8>>());
}

#[test]
fn exact_key_stream() {
    let key = key_one();
    let target = public_key_for(key).unwrap();
    assert_eq!(scan_for_key(&key, &target), Some(key));
}

#[test]
fn match_in_second_half_only() {
    let key = [0x42u8; 32];
    let other = [0x17u8; 32];
    let target = public_key_for(key).unwrap();
    let mut stream = other.to_vec();
    stream.extend_from_slice(&key);
    assert_eq!(try_match(other, &target), None);
    assert_eq!(scan_for_key(&stream, &target), Some(key));
}

#[test]
fn earliest_match_wins() {
    let key = [0x42u8; 32];
    let target = public_key_for(key).unwrap();
    let stream = vec![0x42u8; 40];
    assert_eq!(scan_for_key(&stream, &target), Some(key));
    let mut scanner = KeyScanner::new(target);
    let hits: Vec<usize> = (0..stream.len()).filter(|&i| scanner.feed(stream[i]).is_some()).collect();
    assert_eq!(hits, (31..40).collect::<Vec<usize>>());
}

#[test]
fn matcher_is_deterministic() {
    let key = [0x99u8; 32];
    let target = public_key_for(key).unwrap();
    assert_eq!(try_match(key, &target), try_match(key, &target));
    assert_eq!(try_match([0u8; 32], &target), try_match([0u8; 32], &target));
    assert_eq!(try_match(key, &target), Some(key));
}

#[test]
fn round_trip() {
    for key in [key_one(), order_plus(-1), [0x5au8; 32]] {
        let target = public_key_for(key).unwrap();
        assert_eq!(try_match(key, &target), Some(key));
    }
}

#[test]
fn invalid_scalar_never_matches() {
    let target = public_key_for(key_one()).unwrap();
    assert_eq!(try_match([0u8; 32], &target), None);
    assert_eq!(try_match(order_plus(0), &target), None);
    assert_eq!(try_match([0xffu8; 32], &target), None);
}

#[test]
fn key_scanner_reports_at_window_end() {
    let key = key_one();
    let target = public_key_for(key).unwrap();
    let mut stream = vec![0u8; 10];
    stream.extend_from_slice(&key);
    stream.extend_from_slice(&[7u8; 5]);
    let mut scanner = KeyScanner::new(target);
    let mut found = None;
    for (i, b) in stream.iter().enumerate() {
        if let Some(k) = scanner.feed(*b) {
            found = Some((i, k));
            break;
        }
    }
    assert_eq!(found, Some((41, key)));
}

#[test]
fn public_key_comparison_is_bytewise() {
    let a = public_key_for(key_one()).unwrap();
    let mut b = a;
    assert!(same_public_key(&a, &b));
    b[32] ^= 1;
    assert!(!same_public_key(&a, &b));
    b = a;
    b[0] = 0x03;
    assert!(!same_public_key(&a, &b));
}
