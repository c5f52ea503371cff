use highwayhash::{highway_hash128, highway_hash256, highway_hash64, HighwayHashCat};

const KEY_A: [u64; 4] = [
    0x0706050403020100u64,
    0x0F0E0D0C0B0A0908u64,
    0x1716151413121110u64,
    0x1F1E1D1C1B1A1918u64,
];

const KEY_B: [u64; 4] = [1u64, 2u64, 3u64, 4u64];

fn sample_data(len: usize) -> Vec<u8> {
    (0..len).map(|i| (i as u8).wrapping_mul(7).wrapping_add(3)).collect()
}

#[test]
fn determinism_all_widths() {
    for len in [0usize, 1, 7, 31, 32, 33, 64, 100] {
        let data = sample_data(len);
        assert_eq!(highway_hash64(&data, KEY_A), highway_hash64(&data, KEY_A));
        assert_eq!(highway_hash128(&data, KEY_A), highway_hash128(&data, KEY_A));
        assert_eq!(highway_hash256(&data, KEY_A), highway_hash256(&data, KEY_A));
        assert_eq!(highway_hash64(&data, KEY_B), highway_hash64(&data, KEY_B));
    }
}

#[test]
fn streaming_matches_one_shot_for_every_chunk_size() {
    for len in [33usize, 70] {
        let data = sample_data(len);
        let h64 = highway_hash64(&data, KEY_A);
        let h128 = highway_hash128(&data, KEY_A);
        let h256 = highway_hash256(&data, KEY_A);
        for chunk in 1..=len {
            let mut cat = HighwayHashCat::new(KEY_A);
            for piece in data.chunks(chunk) {
                cat.append(piece);
            }
            assert_eq!(h64, cat.finish64());
            assert_eq!(h128, cat.finish128());
            assert_eq!(h256, cat.finalize256());
        }
    }
}

#[test]
fn streaming_matches_one_shot_at_every_split_point() {
    let data = sample_data(65);
    let expected = highway_hash64(&data, KEY_B);
    for split in 0..=data.len() {
        let mut cat = HighwayHashCat::new(KEY_B);
        cat.append(&data[..split]);
        cat.append(&data[split..]);
        assert_eq!(expected, cat.finish64());
    }
}

#[test]
fn finish_is_idempotent_and_does_not_block_appends() {
    let data = sample_data(40);
    let mut cat = HighwayHashCat::new(KEY_A);
    cat.append(&data);
    let first64 = cat.finish64();
    assert_eq!(first64, cat.finish64());
    assert_eq!(first64, cat.finish64());
    let first128 = cat.finish128();
    assert_eq!(first128, cat.finish128());
    let first256 = cat.finalize256();
    assert_eq!(first256, cat.finalize256());
    assert_eq!(first64, highway_hash64(&data, KEY_A));

    let more = sample_data(13);
    cat.append(&more);
    let mut joined = data.clone();
    joined.extend_from_slice(&more);
    assert_eq!(highway_hash64(&joined, KEY_A), cat.finish64());
}

#[test]
fn empty_appends_change_nothing() {
    let data = sample_data(17);
    let mut cat = HighwayHashCat::new(KEY_A);
    cat.append(&[]);
    cat.append(&data);
    cat.append(&[]);
    assert_eq!(highway_hash64(&data, KEY_A), cat.finish64());

    let empty: Vec<u8> = Vec::new();
    let mut cat2 = HighwayHashCat::new(KEY_A);
    cat2.append(&[]);
    assert_eq!(highway_hash64(&empty, KEY_A), cat2.finish64());
}

#[test]
fn boundary_lengths_agree_across_paths() {
    for len in [0usize, 1, 3, 4, 15, 16, 17, 31, 32, 33] {
        let data = sample_data(len);
        let h64 = highway_hash64(&data, KEY_B);
        let h128 = highway_hash128(&data, KEY_B);
        let h256 = highway_hash256(&data, KEY_B);

        let mut whole = HighwayHashCat::new(KEY_B);
        whole.append(&data);
        assert_eq!(h64, whole.finish64());
        assert_eq!(h128, whole.finish128());
        assert_eq!(h256, whole.finalize256());

        let mut bytewise = HighwayHashCat::new(KEY_B);
        for b in data.iter() {
            bytewise.append(&[*b]);
        }
        assert_eq!(h64, bytewise.finish64());
        assert_eq!(h128, bytewise.finish128());
        assert_eq!(h256, bytewise.finalize256());
    }
}
