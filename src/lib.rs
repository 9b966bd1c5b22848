//! Barcode annotation of sequencing reads: the sequence transformer, the
//! record formatter, output naming and the lockstep synchronizer that ties a
//! barcode stream to one or two read streams.
pub mod naming;
pub mod record;
pub mod sequence;
pub mod sync;
pub mod text;
