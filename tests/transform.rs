use fastq_add_cell::sequence::{process_cell_sequence, transform};

#[test]
fn identity_without_clip_or_revcomp() {
    for s in [&b""[..], b"A", b"ACGTN", b"acgtXYZ", &[0u8, 255, 128][..]] {
        assert_eq!(transform(s, None, None, false), s.to_vec());
    }
}

#[test]
fn double_revcomp_is_identity_on_canonical_bases() {
    let s = b"ACGTNNAGCT";
    let once = transform(s, None, None, true);
    assert_eq!(transform(&once, None, None, true), s.to_vec());
}

#[test]
fn double_revcomp_loses_lower_case_and_other_symbols() {
    let once = transform(b"aX", None, None, true);
    assert_eq!(once, b"NT".to_vec());
    assert_eq!(transform(&once, None, None, true), b"AN".to_vec());
}

#[test]
fn clip_then_revcomp() {
    assert_eq!(process_cell_sequence(b"ACGTTAGC", Some(2), Some(5), true), "AAC");
}

#[test]
fn revcomp_whole_sequence() {
    assert_eq!(process_cell_sequence(b"ATGC", None, None, true), "GCAT");
}

#[test]
fn invalid_window_falls_back_to_whole_sequence() {
    assert_eq!(process_cell_sequence(b"ATGC", Some(10), Some(0), false), "ATGC");
}

#[test]
fn single_base_window_complemented() {
    assert_eq!(process_cell_sequence(b"CCACCC", Some(2), Some(3), true), "T");
}

#[test]
fn window_past_end_falls_back() {
    assert_eq!(transform(b"ACGT", Some(1), Some(5), false), b"ACGT".to_vec());
    assert_eq!(transform(b"ACGT", Some(2), Some(2), false), b"ACGT".to_vec());
    assert_eq!(transform(b"ACGT", Some(1), None, false), b"CGT".to_vec());
    assert_eq!(transform(b"ACGT", None, Some(2), false), b"AC".to_vec());
    assert_eq!(transform(b"ACGT", Some(0), Some(4), false), b"ACGT".to_vec());
}

#[test]
fn complement_table_is_case_insensitive() {
    assert_eq!(transform(b"acgtnACGTN", None, None, true), b"NACGTNACGT".to_vec());
    assert_eq!(transform(b"-.R", None, None, true), b"NNN".to_vec());
}

#[test]
fn empty_sequence() {
    assert_eq!(transform(b"", None, None, true), Vec::<u8>::new());
    assert_eq!(process_cell_sequence(b"", Some(0), Some(1), false), "");
}

#[test]
fn invalid_utf8_is_replaced() {
    assert_eq!(process_cell_sequence(&[b'A', 0xff, b'C'], None, None, false), "A\u{FFFD}C");
    assert_eq!(process_cell_sequence(&[0xff], None, None, true), "N");
}
