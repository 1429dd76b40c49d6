use latency_probe::frame::find_sentinel;
use latency_probe::{decode, encode, DecodeError, EncodeError, SENTINEL};

#[test]
fn sentinel_is_the_zero_byte() {
    assert_eq!(SENTINEL, 0u8);
}

#[test]
fn encode_appends_one_sentinel() {
    assert_eq!(encode(vec![1, 2, 3]), Ok(vec![1, 2, 3, 0]));
    assert_eq!(encode(b"{\"a\":1}".to_vec()), Ok(b"{\"a\":1}\0".to_vec()));
}

#[test]
fn encode_of_empty_body_is_the_sentinel_alone() {
    assert_eq!(encode(vec![]), Ok(vec![0]));
}

#[test]
fn encode_refuses_a_body_with_a_sentinel() {
    assert_eq!(encode(vec![0]), Err(EncodeError::SentinelInBody { at: 0 }));
    assert_eq!(encode(vec![5, 6, 0, 7]), Err(EncodeError::SentinelInBody { at: 2 }));
    assert_eq!(encode(vec![5, 0, 0, 7, 0]), Err(EncodeError::SentinelInBody { at: 1 }));
    assert_eq!(encode(vec![9, 9, 9, 0]), Err(EncodeError::SentinelInBody { at: 3 }));
}

#[test]
fn decode_gives_the_body_back() {
    assert_eq!(decode(&[1, 2, 3, 0]), Ok(vec![1, 2, 3]));
    assert_eq!(decode(&[0]), Ok(vec![]));
    assert_eq!(decode(&[255, 0]), Ok(vec![255]));
}

#[test]
fn decode_without_sentinel_is_truncated() {
    assert_eq!(decode(&[]), Err(DecodeError::Truncated));
    assert_eq!(decode(&[1, 2, 3]), Err(DecodeError::Truncated));
}

#[test]
fn decode_refuses_bytes_behind_the_sentinel() {
    assert_eq!(decode(&[1, 0, 2]), Err(DecodeError::TrailingBytes { at: 1 }));
    assert_eq!(decode(&[0, 0]), Err(DecodeError::TrailingBytes { at: 0 }));
    assert_eq!(decode(&[1, 2, 0, 3, 0]), Err(DecodeError::TrailingBytes { at: 2 }));
}

#[test]
fn round_trip_for_every_body_without_sentinel() {
    let mut bodies: Vec<Vec<u8>> = vec![vec![], vec![1], vec![255; 300]];
    bodies.push((1..=255u8).collect());
    for a in 1..=4u8 {
        for b in 1..=4u8 {
            bodies.push(vec![a, b]);
            bodies.push(vec![a, b, a]);
        }
    }
    for body in bodies {
        let frame = encode(body.clone()).unwrap();
        assert_eq!(decode(&frame), Ok(body));
    }
}

#[test]
fn frame_holds_the_sentinel_once_and_last() {
    let bodies: Vec<Vec<u8>> = vec![vec![], vec![7], vec![1, 2, 3, 4, 5], (1..=255u8).collect()];
    for body in bodies {
        let frame = encode(body.clone()).unwrap();
        assert_eq!(frame.len(), body.len() + 1);
        assert_eq!(frame.iter().filter(|b| **b == SENTINEL).count(), 1);
        assert_eq!(*frame.last().unwrap(), SENTINEL);
        assert_eq!(find_sentinel(&frame), frame.len() - 1);
    }
}

#[test]
fn find_sentinel_gives_the_first_one_or_the_length() {
    assert_eq!(find_sentinel(&[]), 0);
    assert_eq!(find_sentinel(&[0]), 0);
    assert_eq!(find_sentinel(&[4, 5, 6]), 3);
    assert_eq!(find_sentinel(&[4, 0, 6, 0]), 1);
    assert_eq!(find_sentinel(&[4, 5, 6, 0]), 3);
}

#[test]
fn decode_accepts_exactly_what_encode_gives() {
    // every byte string of length up to 3 over {0, 1, 2}
    let mut strings: Vec<Vec<u8>> = vec![vec![]];
    for len in 1..=3usize {
        let count = 3usize.pow(len as u32);
        for code in 0..count {
            let mut s = Vec::new();
            let mut c = code;
            for _ in 0..len {
                s.push((c % 3) as u8);
                c /= 3;
            }
            strings.push(s);
        }
    }
    for s in strings {
        match decode(&s) {
            Ok(body) => assert_eq!(encode(body), Ok(s)),
            Err(DecodeError::Truncated) => assert!(!s.contains(&0)),
            Err(DecodeError::TrailingBytes { at }) => {
                assert_eq!(s[at], 0);
                assert!(at + 1 < s.len());
                assert!(!s[..at].contains(&0));
            }
        }
    }
}
