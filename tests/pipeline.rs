use fastq_add_cell::record::AnnotationStyle;
use fastq_add_cell::sequence::process_cell_sequence;
use fastq_add_cell::sync::{initial_state, step, PipelineConfig, Record, SecondaryPolicy, SyncState};

fn rec(id: &str, seq: &str) -> Record {
    Record { id: id.as_bytes().to_vec(), seq: seq.as_bytes().to_vec(), qual: Some(vec![b'I'; seq.len()]) }
}

fn config(policy: SecondaryPolicy) -> PipelineConfig {
    PipelineConfig { from_char: Some(0), to_char: Some(4), revcomp: true, style: AnnotationStyle::Fused, policy }
}

/// Drives the synchronizer over in-memory streams, as the program does over files.
fn run(cfg: &PipelineConfig, cells: &[Record], r1: &[Record], r2: Option<&[Record]>) -> (Vec<String>, Vec<String>) {
    let mut state = initial_state(r2.is_some());
    let (mut o1, mut o2) = (Vec::new(), Vec::new());
    let mut i = 0;
    while state != SyncState::Finished {
        let s = if state == SyncState::Running { r2.and_then(|v| v.get(i)) } else { None };
        let (next, out) = step(cfg, state, cells.get(i), r1.get(i), s);
        if let Some(t) = out.primary {
            o1.push(t);
        }
        if let Some(t) = out.secondary {
            o2.push(t);
        }
        state = next;
        i += 1;
    }
    (o1, o2)
}

fn cells(n: usize) -> Vec<Record> {
    let seqs = ["AAAACCC", "CCCCGGG", "GATTACA", "TTTTAAA", "ACGTACG"];
    (0..n).map(|i| rec(&format!("cell{}", i), seqs[i])).collect()
}

fn reads(prefix: &str, n: usize) -> Vec<Record> {
    (0..n).map(|i| rec(&format!("{}_{} x", prefix, i), "ACGTACGT")).collect()
}

fn header(t: &str) -> &str {
    t.lines().next().unwrap()
}

#[test]
fn three_records_each_annotated_with_matching_barcode() {
    let cfg = config(SecondaryPolicy::StopAll);
    let c = cells(3);
    let (o1, o2) = run(&cfg, &c, &reads("r1", 3), Some(&reads("r2", 3)));
    assert_eq!(o1.len(), 3);
    assert_eq!(o2.len(), 3);
    for i in 0..3 {
        let bc = process_cell_sequence(&c[i].seq, cfg.from_char, cfg.to_char, cfg.revcomp);
        assert!(header(&o1[i]).contains(&bc));
        assert!(header(&o2[i]).contains(&bc));
    }
    assert_eq!(o1[0], "@r1_0:x:TTTT\nACGTACGT\n+\nIIIIIIII\n");
    assert_eq!(header(&o2[2]), "@r2_2:x:AATC");
}

#[test]
fn short_secondary_stops_the_run() {
    let (o1, o2) = run(&config(SecondaryPolicy::StopAll), &cells(5), &reads("r1", 5), Some(&reads("r2", 3)));
    assert_eq!(o1.len(), 3);
    assert_eq!(o2.len(), 3);
}

#[test]
fn short_secondary_dropped_when_configured() {
    let (o1, o2) = run(&config(SecondaryPolicy::DropSecondary), &cells(5), &reads("r1", 5), Some(&reads("r2", 3)));
    assert_eq!(o1.len(), 5);
    assert_eq!(o2.len(), 3);
    assert_eq!(header(&o1[4]), "@r1_4:x:ACGT");
}

#[test]
fn short_barcode_stream_ends_run() {
    let (o1, o2) = run(&config(SecondaryPolicy::DropSecondary), &cells(2), &reads("r1", 5), Some(&reads("r2", 5)));
    assert_eq!((o1.len(), o2.len()), (2, 2));
}

#[test]
fn primary_only_run() {
    let (o1, o2) = run(&config(SecondaryPolicy::StopAll), &cells(4), &reads("r1", 3), None);
    assert_eq!((o1.len(), o2.len()), (3, 0));
}

#[test]
fn finished_state_writes_nothing() {
    let cfg = config(SecondaryPolicy::StopAll);
    let c = rec("c", "ACGT");
    let (next, out) = step(&cfg, SyncState::Finished, Some(&c), Some(&c), Some(&c));
    assert!(next == SyncState::Finished);
    assert!(out.primary.is_none() && out.secondary.is_none());
}
