use latency_probe::{encode, DecodeError, StreamDecoder};

fn wire_of(bodies: &[Vec<u8>]) -> Vec<u8> {
    let mut wire = Vec::new();
    for body in bodies {
        wire.extend(encode(body.clone()).unwrap());
    }
    wire
}

fn feed_in_pieces(wire: &[u8], cuts: &[usize]) -> (Vec<Vec<u8>>, StreamDecoder) {
    let mut decoder = StreamDecoder::new();
    let mut bodies = Vec::new();
    let mut from = 0;
    for &cut in cuts {
        bodies.extend(decoder.feed(&wire[from..cut]));
        from = cut;
    }
    bodies.extend(decoder.feed(&wire[from..]));
    (bodies, decoder)
}

#[test]
fn new_decoder_holds_nothing() {
    let decoder = StreamDecoder::new();
    assert_eq!(decoder.pending_len(), 0);
    assert_eq!(decoder.finish(), Ok(()));
}

#[test]
fn whole_frame_in_one_piece() {
    let mut decoder = StreamDecoder::new();
    assert_eq!(decoder.feed(&[1, 2, 3, 0]), vec![vec![1, 2, 3]]);
    assert_eq!(decoder.pending_len(), 0);
    assert_eq!(decoder.finish(), Ok(()));
}

#[test]
fn empty_piece_changes_nothing() {
    let mut decoder = StreamDecoder::new();
    assert_eq!(decoder.feed(&[]), Vec::<Vec<u8>>::new());
    assert_eq!(decoder.feed(&[4, 5]), Vec::<Vec<u8>>::new());
    assert_eq!(decoder.feed(&[]), Vec::<Vec<u8>>::new());
    assert_eq!(decoder.pending_len(), 2);
    assert_eq!(decoder.feed(&[0]), vec![vec![4, 5]]);
}

#[test]
fn several_frames_in_one_piece() {
    let mut decoder = StreamDecoder::new();
    let bodies = decoder.feed(&[1, 0, 2, 2, 0, 0, 3, 0]);
    assert_eq!(bodies, vec![vec![1], vec![2, 2], vec![], vec![3]]);
    assert_eq!(decoder.pending_len(), 0);
}

#[test]
fn frame_byte_by_byte() {
    let mut decoder = StreamDecoder::new();
    assert!(decoder.feed(&[9]).is_empty());
    assert!(decoder.feed(&[8]).is_empty());
    assert!(decoder.feed(&[7]).is_empty());
    assert_eq!(decoder.pending_len(), 3);
    assert_eq!(decoder.feed(&[0]), vec![vec![9, 8, 7]]);
    assert_eq!(decoder.pending_len(), 0);
}

#[test]
fn read_spanning_tail_whole_frame_and_head() {
    let k = vec![10u8, 11, 12, 13];
    let k1 = vec![20u8, 21];
    let k2 = vec![30u8, 31, 32];
    let wire = wire_of(&[k.clone(), k1.clone(), k2.clone()]);
    let mut decoder = StreamDecoder::new();
    // first read: the head of frame K
    assert!(decoder.feed(&wire[..2]).is_empty());
    assert_eq!(decoder.pending_len(), 2);
    // second read: the tail of K, all of K+1, the head of K+2
    let out = decoder.feed(&wire[2..10]);
    assert_eq!(out, vec![k, k1]);
    assert_eq!(decoder.pending_len(), 2);
    assert_eq!(decoder.finish(), Err(DecodeError::Truncated));
    // third read: the rest of K+2
    assert_eq!(decoder.feed(&wire[10..]), vec![k2]);
    assert_eq!(decoder.pending_len(), 0);
    assert_eq!(decoder.finish(), Ok(()));
}

#[test]
fn every_single_cut_gives_the_same_bodies() {
    let bodies = vec![vec![1u8, 2, 3], vec![], vec![4u8], vec![5u8, 6, 7, 8, 9], vec![10u8; 40]];
    let wire = wire_of(&bodies);
    for cut in 0..=wire.len() {
        let (out, decoder) = feed_in_pieces(&wire, &[cut]);
        assert_eq!(out, bodies);
        assert_eq!(decoder.pending_len(), 0);
        assert_eq!(decoder.finish(), Ok(()));
    }
}

#[test]
fn every_pair_of_cuts_gives_the_same_bodies() {
    let bodies = vec![vec![1u8, 2], vec![], vec![3u8, 4, 5], vec![6u8]];
    let wire = wire_of(&bodies);
    for first in 0..=wire.len() {
        for second in first..=wire.len() {
            let (out, decoder) = feed_in_pieces(&wire, &[first, second]);
            assert_eq!(out, bodies);
            assert_eq!(decoder.finish(), Ok(()));
        }
    }
}

#[test]
fn cut_at_every_byte_gives_the_same_bodies() {
    let bodies: Vec<Vec<u8>> = (1..=20u8).map(|n| vec![n; n as usize]).collect();
    let wire = wire_of(&bodies);
    let cuts: Vec<usize> = (1..wire.len()).collect();
    let (out, decoder) = feed_in_pieces(&wire, &cuts);
    assert_eq!(out, bodies);
    assert_eq!(decoder.finish(), Ok(()));
}

#[test]
fn stream_that_ends_inside_a_frame_is_truncated() {
    let mut decoder = StreamDecoder::new();
    assert_eq!(decoder.feed(&[1, 2, 0, 3, 4]), vec![vec![1, 2]]);
    assert_eq!(decoder.pending_len(), 2);
    assert_eq!(decoder.finish(), Err(DecodeError::Truncated));
}

#[test]
fn stream_that_ends_between_frames_is_clean() {
    let mut decoder = StreamDecoder::new();
    assert_eq!(decoder.feed(&[1, 2, 0, 3, 4, 0]), vec![vec![1, 2], vec![3, 4]]);
    assert_eq!(decoder.finish(), Ok(()));
}

#[test]
fn stream_of_one_byte_without_sentinel_is_truncated() {
    let mut decoder = StreamDecoder::new();
    assert!(decoder.feed(&[200]).is_empty());
    assert_eq!(decoder.pending_len(), 1);
    assert_eq!(decoder.finish(), Err(DecodeError::Truncated));
}

#[test]
fn every_truncation_point_is_reported() {
    let bodies = vec![vec![1u8, 2, 3], vec![4u8, 5], vec![6u8]];
    let wire = wire_of(&bodies);
    for end in 0..=wire.len() {
        let mut decoder = StreamDecoder::new();
        let out = decoder.feed(&wire[..end]);
        let whole = wire[..end].iter().filter(|b| **b == 0).count();
        assert_eq!(out, bodies[..whole].to_vec());
        let clean = end == 0 || wire[end - 1] == 0;
        assert_eq!(decoder.finish().is_ok(), clean);
        assert_eq!(decoder.pending_len() == 0, clean);
    }
}

#[test]
fn feeding_pieces_together_is_feeding_them_as_one() {
    let bodies = vec![vec![1u8, 2, 3], vec![], vec![4u8], vec![5u8, 6, 7]];
    let wire = wire_of(&bodies);
    for first in 0..=wire.len() {
        for second in first..=wire.len() {
            let pieces = vec![
                wire[..first].to_vec(),
                wire[first..second].to_vec(),
                wire[second..].to_vec(),
            ];
            let mut together = StreamDecoder::new();
            assert_eq!(together.feed_all(&pieces), bodies);
            assert_eq!(together.pending_len(), 0);

            let mut one_by_one = StreamDecoder::new();
            let mut out = Vec::new();
            for piece in &pieces {
                out.extend(one_by_one.feed(piece));
            }
            assert_eq!(out, bodies);
        }
    }
}

#[test]
fn feeding_no_pieces_changes_nothing() {
    let mut decoder = StreamDecoder::new();
    decoder.feed(&[8, 9]);
    assert_eq!(decoder.feed_all(&[]), Vec::<Vec<u8>>::new());
    assert_eq!(decoder.pending_len(), 2);
    assert_eq!(decoder.feed_all(&[vec![], vec![7], vec![0, 1]]), vec![vec![8, 9, 7]]);
    assert_eq!(decoder.pending_len(), 1);
}
