//! Clipping and reverse-complementing of barcode sequences.
use vstd::prelude::*;
use crate::text::{ascii_text, decode_lossy, lossy_of};

verus! {

pub const UPPER_A: u8 = 65;
pub const UPPER_C: u8 = 67;
pub const UPPER_G: u8 = 71;
pub const UPPER_T: u8 = 84;
pub const UPPER_N: u8 = 78;
pub const LOWER_A: u8 = 97;
pub const LOWER_C: u8 = 99;
pub const LOWER_G: u8 = 103;
pub const LOWER_T: u8 = 116;

/// The complement of one symbol: `A`/`T` and `C`/`G` swap in either case,
/// and every other byte (including `N`) becomes `N`.
pub open spec fn complement(b: u8) -> u8 {
    if b == UPPER_A || b == LOWER_A {
        UPPER_T
    } else if b == UPPER_T || b == LOWER_T {
        UPPER_A
    } else if b == UPPER_G || b == LOWER_G {
        UPPER_C
    } else if b == UPPER_C || b == LOWER_C {
        UPPER_G
    } else {
        UPPER_N
    }
}

/// An upper-case symbol of the alphabet `{A, C, G, T, N}`.
pub open spec fn is_canonical_base(b: u8) -> bool {
    b == UPPER_A || b == UPPER_C || b == UPPER_G || b == UPPER_T || b == UPPER_N
}

/// The window `[start, end)` of `s`, where `start` defaults to 0 and `end` to
/// the length; a window that is empty, reversed or out of bounds yields the
/// whole of `s`.
pub open spec fn clip_window(s: Seq<u8>, from: Option<usize>, to: Option<usize>) -> Seq<u8> {
    let start: int = match from {
        Some(v) => v as int,
        None => 0,
    };
    let end: int = match to {
        Some(v) => v as int,
        None => s.len() as int,
    };
    if start < end && end <= s.len() {
        s.subrange(start, end)
    } else {
        s
    }
}

/// `s` read backwards, each symbol complemented.
pub open spec fn reverse_complement(s: Seq<u8>) -> Seq<u8> {
    Seq::new(s.len(), |i: int| complement(s[s.len() - 1 - i]))
}

/// The barcode derived from `s`: its clip window, reverse-complemented on request.
pub open spec fn transformed(s: Seq<u8>, from: Option<usize>, to: Option<usize>, revcomp: bool) -> Seq<u8> {
    let w = clip_window(s, from, to);
    if revcomp {
        reverse_complement(w)
    } else {
        w
    }
}

/// Bytes below 128, each one an ASCII character.
pub open spec fn is_ascii_bytes(s: Seq<u8>) -> bool {
    forall|i: int| 0 <= i < s.len() ==> s[i] < 128
}

fn complement_byte(b: u8) -> (r: u8)
    ensures
        r == complement(b),
{
    if b == UPPER_A || b == LOWER_A {
        UPPER_T
    } else if b == UPPER_T || b == LOWER_T {
        UPPER_A
    } else if b == UPPER_G || b == LOWER_G {
        UPPER_C
    } else if b == UPPER_C || b == LOWER_C {
        UPPER_G
    } else {
        UPPER_N
    }
}

/// Clips `seq` to the window `[from_char, to_char)` and, if `revcomp` holds,
/// reverse-complements the result. Never fails: an unusable window keeps the
/// whole sequence.
pub fn transform(seq: &[u8], from_char: Option<usize>, to_char: Option<usize>, revcomp: bool) -> (r: Vec<u8>)
    ensures
        r@ == transformed(seq@, from_char, to_char, revcomp),
        from_char is None && to_char is None && !revcomp ==> r@ == seq@,
        revcomp || is_ascii_bytes(seq@) ==> is_ascii_bytes(r@),
{
    let n = seq.len();
    let start: usize = match from_char {
        Some(v) => v,
        None => 0,
    };
    let end: usize = match to_char {
        Some(v) => v,
        None => n,
    };
    let lo: usize = if start < end && end <= n { start } else { 0 };
    let hi: usize = if start < end && end <= n { end } else { n };
    let ghost w = clip_window(seq@, from_char, to_char);
    assert(w =~= seq@.subrange(lo as int, hi as int));
    let mut out: Vec<u8> = Vec::new();
    if revcomp {
        let mut i: usize = hi;
        while i > lo
            invariant
                lo <= i <= hi <= n,
                n == seq@.len(),
                out@.len() == hi - i,
                forall|k: int| 0 <= k < out@.len() ==> out@[k] == complement(seq@[hi - 1 - k]),
            decreases i,
        {
            i = i - 1;
            out.push(complement_byte(seq[i]));
        }
        assert(out@ =~= reverse_complement(w));
    } else {
        let mut i: usize = lo;
        while i < hi
            invariant
                lo <= i <= hi <= n,
                n == seq@.len(),
                out@ =~= seq@.subrange(lo as int, i as int),
            decreases hi - i,
        {
            out.push(seq[i]);
            i = i + 1;
        }
    }
    out
}

/// Reverse-complementing twice gives back any sequence over the upper-case
/// alphabet `{A, C, G, T, N}`.
pub proof fn lemma_double_reverse_complement(s: Seq<u8>)
    requires
        forall|i: int| 0 <= i < s.len() ==> is_canonical_base(#[trigger] s[i]),
    ensures
        transformed(transformed(s, None, None, true), None, None, true) == s,
{
    let once = transformed(s, None, None, true);
    assert(once == reverse_complement(s));
    assert(transformed(once, None, None, true) == reverse_complement(once));
    assert(reverse_complement(once) =~= s);
}

/// The barcode text of a read: `transform` of `seq`, decoded as lossy UTF-8.
/// A reverse complement is plain ASCII, one character per base.
pub fn process_cell_sequence(seq: &[u8], from_char: Option<usize>, to_char: Option<usize>, revcomp: bool) -> (r: String)
    ensures
        r@ == lossy_of(transformed(seq@, from_char, to_char, revcomp)),
        revcomp || is_ascii_bytes(seq@) ==> r@ == ascii_text(
            transformed(seq@, from_char, to_char, revcomp),
        ),
{
    let bytes = transform(seq, from_char, to_char, revcomp);
    decode_lossy(bytes.as_slice())
}

} // verus!
