use multipart::partition::{
    plan_parts, slice_parts, PartRange, PartitionError, DEFAULT_PART_SIZE, MAX_PARTS,
    MAX_PART_SIZE, MIN_PART_SIZE,
};

const MIB: usize = 1_048_576;

#[test]
fn forty_mib_four_parts() {
    let parts = plan_parts(40 * MIB, Some(4)).unwrap();
    assert_eq!(parts.len(), 4);
    for (i, p) in parts.iter().enumerate() {
        assert_eq!(p.offset, i * 10 * MIB);
        assert_eq!(p.len, 10 * MIB);
    }
}

#[test]
fn forty_two_mib_four_parts() {
    // Byte-level division of 42 MiB by 4 is exact: four equal parts,
    // none below the minimum, covering the file with no extra part.
    let total = 42 * MIB;
    let parts = plan_parts(total, Some(4)).unwrap();
    assert_eq!(parts.len(), 4);
    let mut covered = 0;
    for p in &parts {
        assert_eq!(p.offset, covered);
        assert!(p.len >= MIN_PART_SIZE);
        covered += p.len;
    }
    assert_eq!(covered, total);
}

#[test]
fn remainder_folds_into_last_part() {
    // 40 MiB plus 3 bytes over 4 parts: the 3 leftover bytes go into
    // the fourth part; no undersized fifth part appears.
    let total = 40 * MIB + 3;
    let parts = plan_parts(total, Some(4)).unwrap();
    assert_eq!(parts.len(), 4);
    assert_eq!(parts[0].len, 10 * MIB);
    assert_eq!(parts[1].len, 10 * MIB);
    assert_eq!(parts[2].len, 10 * MIB);
    assert_eq!(parts[3].len, 10 * MIB + 3);
    assert!(parts[3].len >= MIN_PART_SIZE);
    assert_eq!(parts[3].offset + parts[3].len, total);
}

#[test]
fn unredistributable_remainder_fails() {
    // Two parts of exactly the maximum size are accepted; one more
    // byte would push the folded last part over the maximum.
    let max = MAX_PART_SIZE as usize;
    let parts = plan_parts(2 * max, Some(2)).unwrap();
    assert_eq!(parts.len(), 2);
    assert_eq!(parts[1].len, max);
    let err = plan_parts(2 * max + 1, Some(2)).unwrap_err();
    assert_eq!(err, PartitionError::PartSizeTooLarge);
}

#[test]
fn part_size_below_minimum_rejected() {
    let err = plan_parts(8 * MIB, Some(4)).unwrap_err();
    assert_eq!(err, PartitionError::PartSizeTooSmall);
}

#[test]
fn part_size_above_maximum_rejected() {
    let err = plan_parts(MAX_PART_SIZE as usize + 1, Some(1)).unwrap_err();
    assert_eq!(err, PartitionError::PartSizeTooLarge);
    let err = plan_parts(2 * (MAX_PART_SIZE as usize + 8), Some(2)).unwrap_err();
    assert_eq!(err, PartitionError::PartSizeTooLarge);
}

#[test]
fn zero_part_count_rejected() {
    let err = plan_parts(40 * MIB, Some(0)).unwrap_err();
    assert_eq!(err, PartitionError::InvalidPartCount);
}

#[test]
fn derives_count_from_default_part_size() {
    let total = 64 * MIB;
    let parts = plan_parts(total, None).unwrap();
    assert_eq!(parts.len(), total / DEFAULT_PART_SIZE);
    for p in &parts {
        assert_eq!(p.len, DEFAULT_PART_SIZE);
    }
}

#[test]
fn cannot_derive_count_when_too_many_parts() {
    let total = DEFAULT_PART_SIZE * (MAX_PARTS + 1);
    let err = plan_parts(total, None).unwrap_err();
    assert_eq!(err, PartitionError::CannotDerivePartCount);
}

#[test]
fn small_file_becomes_single_part() {
    // A file below the minimum part size is allowed as one part.
    let total = 3 * MIB;
    let parts = plan_parts(total, None).unwrap();
    assert_eq!(parts.len(), 1);
    assert_eq!(parts[0], PartRange { offset: 0, len: total });
    let parts = plan_parts(total, Some(1)).unwrap();
    assert_eq!(parts.len(), 1);
    assert_eq!(parts[0].len, total);
}

#[test]
fn final_part_meets_minimum_after_fold() {
    let total = 2 * MIN_PART_SIZE + 1;
    let parts = plan_parts(total, Some(2)).unwrap();
    assert_eq!(parts.len(), 2);
    assert!(parts[0].len >= MIN_PART_SIZE);
    assert!(parts[1].len >= MIN_PART_SIZE);
}

#[test]
fn parts_concatenate_to_original() {
    let total = 2 * MIN_PART_SIZE + 3;
    let mut data: Vec<u8> = Vec::with_capacity(total);
    for i in 0..total {
        data.push((i % 251) as u8);
    }
    let parts = plan_parts(total, Some(2)).unwrap();
    let chunks = slice_parts(&data, &parts);
    assert_eq!(chunks.len(), 2);
    assert_eq!(chunks[0].len(), parts[0].len);
    assert_eq!(chunks[1].len(), parts[1].len);
    let mut rebuilt: Vec<u8> = Vec::with_capacity(total);
    for c in &chunks {
        rebuilt.extend_from_slice(c);
    }
    assert_eq!(rebuilt, data);
}

#[test]
fn single_part_slice_is_whole_file() {
    let data: Vec<u8> = vec![7, 1, 9, 3, 5];
    let parts = plan_parts(data.len(), Some(1)).unwrap();
    let chunks = slice_parts(&data, &parts);
    assert_eq!(chunks.len(), 1);
    assert_eq!(chunks[0], data);
}
