//! The four-line text form of an annotated read.
use vstd::prelude::*;
use vstd::string::StringExecFns;
use crate::sequence::is_ascii_bytes;
use crate::text::{ascii_text, decode_lossy, lossy_of};

verus! {

pub const SPACE: u8 = 32;
pub const COLON: u8 = 58;

/// How the barcode is joined to a read's identifier.
#[derive(Clone, Copy, Debug, PartialEq, Eq, Structural)]
pub enum AnnotationStyle {
    /// Spaces in the identifier become colons, then `:` and the barcode follow it.
    Fused,
    /// The identifier is kept, and the barcode follows it as a description
    /// after one space.
    Described,
}

/// `id` with every space replaced by a colon.
pub open spec fn colon_for_space(id: Seq<u8>) -> Seq<u8> {
    id.map_values(|b: u8| if b == SPACE { COLON } else { b })
}

/// The header line's text after `@`: identifier and barcode, joined by `style`.
pub open spec fn header_text(style: AnnotationStyle, id: Seq<u8>, ann: Seq<u8>) -> Seq<char> {
    match style {
        AnnotationStyle::Fused => lossy_of(colon_for_space(id)) + seq![':'] + lossy_of(ann),
        AnnotationStyle::Described => lossy_of(id) + seq![' '] + lossy_of(ann),
    }
}

/// The quality line's text: empty where the read has no qualities.
pub open spec fn quality_text(qual: Option<Seq<u8>>) -> Seq<char> {
    match qual {
        Some(q) => lossy_of(q),
        None => Seq::empty(),
    }
}

/// The whole record: `@` and the header, the sequence, `+`, and the quality
/// line, each ended by a newline.
pub open spec fn record_text(
    style: AnnotationStyle,
    id: Seq<u8>,
    ann: Seq<u8>,
    sq: Seq<u8>,
    qual: Option<Seq<u8>>,
) -> Seq<char> {
    seq!['@'] + header_text(style, id, ann) + seq!['\n'] + lossy_of(sq) + seq!['\n', '+', '\n']
        + quality_text(qual) + seq!['\n']
}

/// Every field is plain ASCII.
pub open spec fn ascii_fields(id: Seq<u8>, ann: Seq<u8>, sq: Seq<u8>, qual: Option<Seq<u8>>) -> bool {
    &&& is_ascii_bytes(id)
    &&& is_ascii_bytes(ann)
    &&& is_ascii_bytes(sq)
    &&& match qual {
        Some(q) => is_ascii_bytes(q),
        None => true,
    }
}

/// The record of ASCII fields, each byte read as its character.
pub open spec fn ascii_record_text(
    style: AnnotationStyle,
    id: Seq<u8>,
    ann: Seq<u8>,
    sq: Seq<u8>,
    qual: Option<Seq<u8>>,
) -> Seq<char> {
    let head = match style {
        AnnotationStyle::Fused => ascii_text(colon_for_space(id)) + seq![':'] + ascii_text(ann),
        AnnotationStyle::Described => ascii_text(id) + seq![' '] + ascii_text(ann),
    };
    let q = match qual {
        Some(b) => ascii_text(b),
        None => Seq::empty(),
    };
    seq!['@'] + head + seq!['\n'] + ascii_text(sq) + seq!['\n', '+', '\n'] + q + seq!['\n']
}

/// The bytes of an optional borrowed slice.
pub open spec fn opt_bytes(q: Option<&[u8]>) -> Option<Seq<u8>> {
    match q {
        Some(b) => Some(b@),
        None => None,
    }
}

fn replace_spaces(id: &[u8]) -> (r: Vec<u8>)
    ensures
        r@ == colon_for_space(id@),
{
    let mut out: Vec<u8> = Vec::new();
    let mut i: usize = 0;
    while i < id.len()
        invariant
            i <= id@.len(),
            out@ =~= colon_for_space(id@.subrange(0, i as int)),
        decreases id@.len() - i,
    {
        let b = id[i];
        out.push(if b == SPACE { COLON } else { b });
        i = i + 1;
        assert(colon_for_space(id@.subrange(0, i as int)) =~= colon_for_space(
            id@.subrange(0, i - 1),
        ).push(if b == SPACE { COLON } else { b }));
    }
    assert(id@.subrange(0, id@.len() as int) =~= id@);
    out
}

/// Formats one read as a four-line record whose header carries the barcode
/// `desc` in the given `style`. All bytes are decoded as lossy UTF-8; an
/// absent quality gives an empty quality line.
pub fn format_record(style: AnnotationStyle, id: &[u8], desc: &[u8], seq: &[u8], qual: Option<&[u8]>) -> (r: String)
    ensures
        r@ == record_text(style, id@, desc@, seq@, opt_bytes(qual)),
        ascii_fields(id@, desc@, seq@, opt_bytes(qual)) ==> r@ == ascii_record_text(
            style,
            id@,
            desc@,
            seq@,
            opt_bytes(qual),
        ),
{
    proof {
        reveal_strlit("@");
        reveal_strlit(":");
        reveal_strlit(" ");
        reveal_strlit("\n");
        reveal_strlit("\n+\n");
    }
    let mut s = String::new();
    s.append("@");
    match style {
        AnnotationStyle::Fused => {
            let cleaned = replace_spaces(id);
            assert(is_ascii_bytes(id@) ==> is_ascii_bytes(cleaned@));
            let t = decode_lossy(cleaned.as_slice());
            s.append(t.as_str());
            s.append(":");
        },
        AnnotationStyle::Described => {
            let t = decode_lossy(id);
            s.append(t.as_str());
            s.append(" ");
        },
    }
    let a = decode_lossy(desc);
    s.append(a.as_str());
    s.append("\n");
    let q = decode_lossy(seq);
    s.append(q.as_str());
    s.append("\n+\n");
    match qual {
        Some(qb) => {
            let t = decode_lossy(qb);
            s.append(t.as_str());
        },
        None => {},
    }
    s.append("\n");
    assert(s@ =~= record_text(style, id@, desc@, seq@, opt_bytes(qual)));
    assert(ascii_fields(id@, desc@, seq@, opt_bytes(qual)) ==> s@ =~= ascii_record_text(
        style,
        id@,
        desc@,
        seq@,
        opt_bytes(qual),
    ));
    s
}

/// Formats one read in the fused style: spaces in `id` become colons, and
/// `:` and the barcode `desc` are appended to it.
pub fn fastq_record_to_string(id: &[u8], desc: &[u8], seq: &[u8], qual: Option<&[u8]>) -> (r: String)
    ensures
        r@ == record_text(AnnotationStyle::Fused, id@, desc@, seq@, opt_bytes(qual)),
        ascii_fields(id@, desc@, seq@, opt_bytes(qual)) ==> r@ == ascii_record_text(
            AnnotationStyle::Fused,
            id@,
            desc@,
            seq@,
            opt_bytes(qual),
        ),
{
    format_record(AnnotationStyle::Fused, id, desc, seq, qual)
}

} // verus!
