//! The lockstep synchronizer: one decision per iteration over the barcode,
//! primary and optional secondary read streams. The caller pulls the reads,
//! hands them to `step`, writes what comes back and stops on `Finished`.
use vstd::prelude::*;
use crate::record::{format_record, record_text, AnnotationStyle};
use crate::sequence::{transform, transformed};

verus! {

/// One decoded read.
#[derive(Clone, Debug)]
pub struct Record {
    pub id: Vec<u8>,
    pub seq: Vec<u8>,
    pub qual: Option<Vec<u8>>,
}

/// What happens when the secondary stream runs out before the others.
#[derive(Clone, Copy, Debug, PartialEq, Eq, Structural)]
pub enum SecondaryPolicy {
    /// The whole run ends: unequal mate files point to damaged input.
    StopAll,
    /// Secondary output stops for good; primary output goes on.
    DropSecondary,
}

/// Settings fixed for a whole run.
#[derive(Clone, Copy, Debug)]
pub struct PipelineConfig {
    pub from_char: Option<usize>,
    pub to_char: Option<usize>,
    pub revcomp: bool,
    pub style: AnnotationStyle,
    pub policy: SecondaryPolicy,
}

/// Where a run stands.
#[derive(Clone, Copy, Debug, PartialEq, Eq, Structural)]
pub enum SyncState {
    /// Barcode, primary and secondary streams all advance.
    Running,
    /// Only barcode and primary streams advance: no secondary stream was
    /// configured, or it ran out under `DropSecondary`.
    PrimaryOnly,
    /// Nothing more is read or written.
    Finished,
}

/// The records to write in one iteration.
pub struct StepOutput {
    pub primary: Option<String>,
    pub secondary: Option<String>,
}

/// The bytes of an optional quality string.
pub open spec fn qual_bytes(q: Option<Vec<u8>>) -> Option<Seq<u8>> {
    match q {
        Some(v) => Some(v@),
        None => None,
    }
}

/// The barcode that read `b` gives under `cfg`.
pub open spec fn annotation(cfg: PipelineConfig, b: Record) -> Seq<u8> {
    transformed(b.seq@, cfg.from_char, cfg.to_char, cfg.revcomp)
}

/// Read `r` as a record annotated with barcode `ann`.
pub open spec fn annotated(cfg: PipelineConfig, r: Record, ann: Seq<u8>) -> Seq<char> {
    record_text(cfg.style, r.id@, ann, r.seq@, qual_bytes(r.qual))
}

/// `o` holds a string whose text is `t`.
pub open spec fn holds_text(o: Option<String>, t: Seq<char>) -> bool {
    match o {
        Some(s) => s@ == t,
        None => false,
    }
}

/// An iteration that ends the run: a mandatory stream gave no read, or
/// the secondary stream gave none under `StopAll`.
pub open spec fn ends_run(
    cfg: PipelineConfig,
    state: SyncState,
    has_barcode: bool,
    has_primary: bool,
    has_secondary: bool,
) -> bool {
    state == SyncState::Finished || !has_barcode || !has_primary || (state == SyncState::Running
        && !has_secondary && cfg.policy == SecondaryPolicy::StopAll)
}

/// The state a run starts in.
pub fn initial_state(has_secondary: bool) -> (r: SyncState)
    ensures
        r == (if has_secondary {
            SyncState::Running
        } else {
            SyncState::PrimaryOnly
        }),
{
    if has_secondary {
        SyncState::Running
    } else {
        SyncState::PrimaryOnly
    }
}

fn annotate(cfg: &PipelineConfig, r: &Record, ann: &[u8]) -> (t: String)
    ensures
        t@ == annotated(*cfg, *r, ann@),
{
    let q: Option<&[u8]> = match &r.qual {
        Some(v) => Some(v.as_slice()),
        None => None,
    };
    format_record(cfg.style, r.id.as_slice(), ann, r.seq.as_slice(), q)
}

/// One iteration. `barcode`, `primary` and `secondary` are the next reads of
/// each stream, `None` where the stream is exhausted or failed to decode
/// (`secondary` is not looked at unless the state is `Running`). Both
/// annotated records carry the barcode derived from the barcode read.
pub fn step(
    cfg: &PipelineConfig,
    state: SyncState,
    barcode: Option<&Record>,
    primary: Option<&Record>,
    secondary: Option<&Record>,
) -> (r: (SyncState, StepOutput))
    ensures
        ends_run(*cfg, state, barcode is Some, primary is Some, secondary is Some) ==> r.0
            == SyncState::Finished && r.1.primary is None && r.1.secondary is None,
        !ends_run(*cfg, state, barcode is Some, primary is Some, secondary is Some) ==> {
            let ann = annotation(*cfg, *barcode.unwrap());
            &&& holds_text(r.1.primary, annotated(*cfg, *primary.unwrap(), ann))
            &&& state == SyncState::PrimaryOnly ==> r.0 == SyncState::PrimaryOnly
                && r.1.secondary is None
            &&& state == SyncState::Running && secondary is Some ==> r.0 == SyncState::Running
                && holds_text(r.1.secondary, annotated(*cfg, *secondary.unwrap(), ann))
            &&& state == SyncState::Running && secondary is None ==> r.0
                == SyncState::PrimaryOnly && r.1.secondary is None
        },
{
    let none = StepOutput { primary: None, secondary: None };
    if state == SyncState::Finished {
        return (SyncState::Finished, none);
    }
    let (b, p) = match (barcode, primary) {
        (Some(b), Some(p)) => (b, p),
        _ => return (SyncState::Finished, none),
    };
    if state == SyncState::Running && secondary.is_none() && cfg.policy
        == SecondaryPolicy::StopAll {
        return (SyncState::Finished, none);
    }
    let ann = transform(b.seq.as_slice(), cfg.from_char, cfg.to_char, cfg.revcomp);
    let first = annotate(cfg, p, ann.as_slice());
    if state == SyncState::PrimaryOnly {
        return (SyncState::PrimaryOnly, StepOutput { primary: Some(first), secondary: None });
    }
    match secondary {
        Some(s) => {
            let second = annotate(cfg, s, ann.as_slice());
            (SyncState::Running, StepOutput { primary: Some(first), secondary: Some(second) })
        },
        None => (SyncState::PrimaryOnly, StepOutput { primary: Some(first), secondary: None }),
    }
}

} // verus!
