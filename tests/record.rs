use fastq_add_cell::record::{fastq_record_to_string, format_record, AnnotationStyle};

#[test]
fn fused_header_replaces_spaces() {
    let s = fastq_record_to_string(b"read1 extra info", b"GCAT", b"ACGT", Some(b"IIII"));
    assert_eq!(s, "@read1:extra:info:GCAT\nACGT\n+\nIIII\n");
}

#[test]
fn missing_quality_keeps_four_lines() {
    let s = fastq_record_to_string(b"r", b"AC", b"GG", None);
    assert_eq!(s, "@r:AC\nGG\n+\n\n");
    assert_eq!(s.lines().count(), 4);
}

#[test]
fn described_header_keeps_identifier() {
    let s = format_record(AnnotationStyle::Described, b"read1 x", b"TTA", b"AC", Some(b"!!"));
    assert_eq!(s, "@read1 x TTA\nAC\n+\n!!\n");
}

#[test]
fn formatter_decodes_invalid_bytes_lossily() {
    let s = format_record(AnnotationStyle::Fused, &[b'r', 0xfe], b"A", &[0xff], None);
    assert_eq!(s, "@r\u{FFFD}:A\n\u{FFFD}\n+\n\n");
}

#[test]
fn empty_fields() {
    assert_eq!(fastq_record_to_string(b"", b"", b"", Some(b"")), "@:\n\n+\n\n");
}

#[test]
fn described_style_with_missing_quality() {
    assert_eq!(format_record(AnnotationStyle::Described, b"id", b"", b"N", None), "@id \nN\n+\n\n");
}
