use tlsh::{b_mapping, find_quartiles, l_capturing, BucketKind, ChecksumKind, Tlsh, TlshBuilder, TlshError, Version};

fn fixture(seed: &str, len: usize) -> Vec<u8> {
    let mut data = Vec::with_capacity(len);
    for ii in 0..(len - 1) {
        data.push(b'A' + (ii % 26) as u8);
    }
    data.push(0);
    data[..seed.len()].copy_from_slice(seed.as_bytes());
    data
}

fn digest_of(seed: &str, len: usize, bucket: BucketKind, checksum: ChecksumKind, ver: Version) -> Tlsh {
    let mut builder = TlshBuilder::new(bucket, checksum, ver);
    builder.update(&fixture(seed, len));
    builder.build().unwrap()
}

#[test]
fn test_b_mapping_values() {
    assert_eq!(124, b_mapping(0, 0, 0, 0));
    assert_eq!(37, b_mapping(2, 65, 66, 67));
    assert_eq!(170, b_mapping(13, 255, 1, 2));
}

#[test]
fn test_l_capturing_boundaries() {
    assert_eq!(0, l_capturing(0).unwrap());
    assert_eq!(0, l_capturing(1).unwrap());
    assert_eq!(1, l_capturing(2).unwrap());
    assert_eq!(2, l_capturing(3).unwrap());
    assert_eq!(7, l_capturing(25).unwrap());
    assert_eq!(8, l_capturing(26).unwrap());
    assert_eq!(15, l_capturing(512).unwrap());
    assert_eq!(169, l_capturing(4224281216).unwrap());
    assert_eq!(Err(TlshError::DataLenOverflow), l_capturing(4224281217));
}

#[test]
fn test_find_quartiles_small() {
    let buckets: Vec<u32> = vec![5, 1, 9, 2, 7, 3, 8, 0];
    assert_eq!((1, 3, 7), find_quartiles(&buckets, 8));
}

#[test]
fn test_find_quartiles_matches_full_sort() {
    let mut buckets: Vec<u32> = Vec::new();
    for ii in 0..128u32 {
        buckets.push(ii * 37 % 101);
    }
    let (q1, q2, q3) = find_quartiles(&buckets, 128);
    let mut sorted = buckets.clone();
    sorted.sort();
    assert_eq!(sorted[31], q1);
    assert_eq!(sorted[63], q2);
    assert_eq!(sorted[95], q3);
}

#[test]
fn test_diff_self_is_zero() {
    let t = digest_of("self distance", 512, BucketKind::Bucket128, ChecksumKind::OneByte, Version::Version4);
    assert_eq!(0, t.diff(&t, true));
    assert_eq!(0, t.diff(&t, false));
}

#[test]
fn test_diff_is_symmetric() {
    let a = digest_of("first string", 512, BucketKind::Bucket128, ChecksumKind::OneByte, Version::Version4);
    let b = digest_of("second string", 1024, BucketKind::Bucket128, ChecksumKind::OneByte, Version::Version4);
    assert_eq!(a.diff(&b, true), b.diff(&a, true));
    assert_eq!(a.diff(&b, false), b.diff(&a, false));
}

#[test]
fn test_diff_length_penalty_only_adds() {
    let a = digest_of("first string", 512, BucketKind::Bucket256, ChecksumKind::ThreeByte, Version::Version4);
    let b = digest_of("second string", 1024, BucketKind::Bucket256, ChecksumKind::ThreeByte, Version::Version4);
    assert!(a.diff(&b, true) >= a.diff(&b, false));
}

#[test]
fn test_build_rejects_degenerate_histogram() {
    let mut builder = TlshBuilder::new(BucketKind::Bucket128, ChecksumKind::OneByte, Version::Version4);
    assert_eq!(Err(TlshError::DegenerateHistogram), builder.build().map(|_| ()));

    builder.update(b"short");
    assert_eq!(Err(TlshError::DegenerateHistogram), builder.build().map(|_| ()));
}

#[test]
fn test_hash_round_trip() {
    let configs = [
        (BucketKind::Bucket128, ChecksumKind::OneByte),
        (BucketKind::Bucket128, ChecksumKind::ThreeByte),
        (BucketKind::Bucket256, ChecksumKind::OneByte),
        (BucketKind::Bucket256, ChecksumKind::ThreeByte),
    ];
    for (bucket, checksum) in configs {
        for ver in [Version::Original, Version::Version4] {
            let t = digest_of("round trip", 512, bucket, checksum, ver);
            let h = t.hash();
            let back = Tlsh::from_hash(&h).unwrap();
            assert!(t == back);
            assert_eq!(h, back.hash());
            assert_eq!(0, t.diff(&back, true));
        }
    }
}

#[test]
fn test_from_hash_rejects_bad_length() {
    assert_eq!(
        Err(TlshError::InvalidHashValue),
        Tlsh::from_hash("T1ABCD").map(|_| ())
    );
    assert_eq!(Err(TlshError::InvalidHashValue), Tlsh::from_hash("").map(|_| ()));
}

#[test]
fn test_from_hash_rejects_bad_characters() {
    let t = digest_of("bad characters", 512, BucketKind::Bucket128, ChecksumKind::OneByte, Version::Version4);
    let h = t.hash();
    let mut chars: Vec<char> = h.chars().collect();
    chars[5] = 'G';
    let broken: String = chars.into_iter().collect();
    assert_eq!(Err(TlshError::ParseHexFailed), Tlsh::from_hash(&broken).map(|_| ()));
    let lower = format!("T1{}", h[2..].to_lowercase());
    assert_eq!(Err(TlshError::ParseHexFailed), Tlsh::from_hash(&lower).map(|_| ()));
}

#[test]
fn test_chunk_boundary_invariance() {
    let data = fixture("chunk invariance", 768);

    let mut one = TlshBuilder::new(BucketKind::Bucket256, ChecksumKind::ThreeByte, Version::Version4);
    one.update(&data);
    let whole = one.build().unwrap().hash();

    for chunk in [1usize, 3, 7, 100] {
        let mut many = TlshBuilder::new(BucketKind::Bucket256, ChecksumKind::ThreeByte, Version::Version4);
        for piece in data.chunks(chunk) {
            many.update(piece);
        }
        assert_eq!(whole, many.build().unwrap().hash());
    }
}

#[test]
fn test_legacy_hash_has_no_prefix() {
    let t = digest_of("legacy prefix", 512, BucketKind::Bucket128, ChecksumKind::OneByte, Version::Original);
    let h = t.hash();
    assert_eq!(70, h.len());
    assert!(!h.starts_with("T1"));
    let t4 = digest_of("legacy prefix", 512, BucketKind::Bucket128, ChecksumKind::OneByte, Version::Version4);
    assert_eq!(format!("T1{}", h), t4.hash());
}

#[test]
fn test_reset_clears_checksum_chain() {
    let data = fixture("reset chain", 512);

    let mut fresh = TlshBuilder::new(BucketKind::Bucket128, ChecksumKind::ThreeByte, Version::Version4);
    fresh.update(&data);
    let expected = fresh.build().unwrap().hash();

    let mut reused = TlshBuilder::new(BucketKind::Bucket128, ChecksumKind::ThreeByte, Version::Version4);
    reused.update(&fixture("something else entirely", 1024));
    reused.reset();
    reused.update(&data);
    assert_eq!(expected, reused.build().unwrap().hash());
}
