//! Naming of output files after their inputs.
use vstd::prelude::*;

verus! {

pub const SLASH: u8 = 47;
pub const DOT: u8 = 46;

/// The marker inserted into an input's file name.
pub open spec fn marker() -> Seq<u8> {
    seq![95, 99, 101, 108, 108, 115, 95, 97, 100, 100, 101, 100]
}

/// The record-file suffixes that are kept whole: `.fastq.gz`, `.fq.gz`,
/// `.fastq` and `.fq`, in the order they are tried.
pub open spec fn known_suffix(k: int) -> Seq<u8> {
    if k == 0 {
        seq![46, 102, 97, 115, 116, 113, 46, 103, 122]
    } else if k == 1 {
        seq![46, 102, 113, 46, 103, 122]
    } else if k == 2 {
        seq![46, 102, 97, 115, 116, 113]
    } else {
        seq![46, 102, 113]
    }
}

/// The index of the last `c` in `s`, or -1 where there is none.
pub open spec fn last_index_of(s: Seq<u8>, c: u8) -> int
    decreases s.len(),
{
    if s.len() == 0 {
        -1
    } else if s.last() == c {
        s.len() - 1
    } else {
        last_index_of(s.drop_last(), c)
    }
}

pub open spec fn ends_with(s: Seq<u8>, suf: Seq<u8>) -> bool {
    suf.len() <= s.len() && s.subrange(s.len() - suf.len(), s.len() as int) == suf
}

/// The first known suffix that `name` ends with.
pub open spec fn matched_suffix(name: Seq<u8>) -> Option<Seq<u8>> {
    if ends_with(name, known_suffix(0)) {
        Some(known_suffix(0))
    } else if ends_with(name, known_suffix(1)) {
        Some(known_suffix(1))
    } else if ends_with(name, known_suffix(2)) {
        Some(known_suffix(2))
    } else if ends_with(name, known_suffix(3)) {
        Some(known_suffix(3))
    } else {
        None
    }
}

/// Where the file name of path `p` begins: after its last `/`.
pub open spec fn file_name_start(p: Seq<u8>) -> int {
    last_index_of(p, SLASH) + 1
}

/// Where path `p` ends once trailing separators and trailing `/.` are
/// dropped; a lone leading `/` is kept.
pub open spec fn name_end(p: Seq<u8>) -> int
    decreases p.len(),
{
    if p.len() > 1 && p.last() == SLASH {
        name_end(p.drop_last())
    } else if p.len() > 2 && p.last() == DOT && p[p.len() - 2] == SLASH {
        name_end(p.subrange(0, p.len() - 2))
    } else {
        p.len() as int
    }
}

/// The output path for input path `p`: the same path with its last
/// component renamed, and no trailing separator.
pub open spec fn output_name(p: Seq<u8>) -> Seq<u8> {
    renamed_path(p.subrange(0, name_end(p)))
}

/// `p` with its file name (what follows the last `/`) renamed: the marker
/// goes before a known suffix of the name, else before its last extension
/// (a dot that does not open the name), else at the end.
pub open spec fn renamed_path(p: Seq<u8>) -> Seq<u8> {
    let ns = file_name_start(p);
    let name = p.subrange(ns, p.len() as int);
    match matched_suffix(name) {
        Some(suf) => p.subrange(0, p.len() - suf.len()) + marker() + suf,
        None => {
            let d = last_index_of(name, DOT);
            if d > 0 {
                p.subrange(0, ns + d) + marker() + p.subrange(ns + d, p.len() as int)
            } else {
                p + marker()
            }
        },
    }
}

proof fn lemma_output_name_with_suffix(p: Seq<u8>, suf: Seq<u8>)
    requires
        matched_suffix(p.subrange(file_name_start(p), p.len() as int)) == Some(suf),
    ensures
        renamed_path(p) == p.subrange(0, p.len() - suf.len()) + marker() + suf,
{
}

fn marker_bytes() -> (r: Vec<u8>)
    ensures
        r@ == marker(),
{
    let r: Vec<u8> = vec![95, 99, 101, 108, 108, 115, 95, 97, 100, 100, 101, 100];
    assert(r@ =~= marker());
    r
}

fn known_suffix_bytes(k: usize) -> (r: Vec<u8>)
    ensures
        r@ == known_suffix(k as int),
{
    let r: Vec<u8> = if k == 0 {
        vec![46, 102, 97, 115, 116, 113, 46, 103, 122]
    } else if k == 1 {
        vec![46, 102, 113, 46, 103, 122]
    } else if k == 2 {
        vec![46, 102, 97, 115, 116, 113]
    } else {
        vec![46, 102, 113]
    };
    assert(r@ =~= known_suffix(k as int));
    r
}

proof fn lemma_last_index_bounds(s: Seq<u8>, c: u8)
    ensures
        -1 <= last_index_of(s, c) < s.len(),
        last_index_of(s, c) >= 0 ==> s[last_index_of(s, c)] == c,
    decreases s.len(),
{
    if s.len() > 0 && s.last() != c {
        lemma_last_index_bounds(s.drop_last(), c);
    }
}

/// The index of the last `c` in `s[lo..]`, counted from `lo`, or -1.
fn last_position(s: &[u8], lo: usize, c: u8) -> (r: i64)
    requires
        lo <= s@.len(),
        s@.len() < i64::MAX,
    ensures
        r == last_index_of(s@.subrange(lo as int, s@.len() as int), c),
{
    let mut i: usize = s.len();
    while i > lo
        invariant
            lo <= i <= s@.len() < i64::MAX,
            last_index_of(s@.subrange(lo as int, s@.len() as int), c) == last_index_of(
                s@.subrange(lo as int, i as int),
                c,
            ),
        decreases i,
    {
        let ghost t = s@.subrange(lo as int, i as int);
        assert(t.drop_last() =~= s@.subrange(lo as int, i - 1));
        if s[i - 1] == c {
            return (i - 1 - lo) as i64;
        }
        i = i - 1;
    }
    -1
}

fn has_suffix(s: &[u8], lo: usize, suf: &[u8]) -> (r: bool)
    requires
        lo <= s@.len(),
    ensures
        r == ends_with(s@.subrange(lo as int, s@.len() as int), suf@),
{
    let n = s.len();
    let m = suf.len();
    if m > n - lo {
        return false;
    }
    let base = n - m;
    let mut j: usize = 0;
    while j < m
        invariant
            lo <= base,
            base + m == n,
            n == s@.len(),
            m == suf@.len(),
            j <= m,
            forall|k: int| 0 <= k < j ==> s@[base + k] == suf@[k],
        decreases m - j,
    {
        if s[base + j] != suf[j] {
            assert(s@.subrange(lo as int, n as int).subrange(base - lo, n - lo)[j as int] != suf@[j as int]);
            return false;
        }
        j = j + 1;
    }
    assert(s@.subrange(lo as int, n as int).subrange(base - lo, n - lo) =~= suf@);
    true
}

fn push_range(out: &mut Vec<u8>, s: &[u8], lo: usize, hi: usize)
    requires
        lo <= hi <= s@.len(),
    ensures
        final(out)@ == old(out)@ + s@.subrange(lo as int, hi as int),
{
    let mut i: usize = lo;
    while i < hi
        invariant
            lo <= i <= hi <= s@.len(),
            out@ =~= old(out)@ + s@.subrange(lo as int, i as int),
        decreases hi - i,
    {
        out.push(s[i]);
        i = i + 1;
    }
}

/// Which known suffix, if any, the file name `s[lo..]` ends with.
fn suffix_index(s: &[u8], lo: usize) -> (r: Option<usize>)
    requires
        lo <= s@.len(),
    ensures
        ({
            let name = s@.subrange(lo as int, s@.len() as int);
            match r {
                Some(k) => k < 4 && matched_suffix(name) == Some(known_suffix(k as int))
                    && ends_with(name, known_suffix(k as int)),
                None => matched_suffix(name) is None,
            }
        }),
{
    let ghost name = s@.subrange(lo as int, s@.len() as int);
    let mut k: usize = 0;
    while k < 4
        invariant
            k <= 4,
            lo <= s@.len(),
            name == s@.subrange(lo as int, s@.len() as int),
            forall|j: int| 0 <= j < k ==> !ends_with(name, #[trigger] known_suffix(j)),
        decreases 4 - k,
    {
        let suf = known_suffix_bytes(k);
        if has_suffix(s, lo, suf.as_slice()) {
            return Some(k);
        }
        k = k + 1;
    }
    assert(!ends_with(name, known_suffix(0)));
    assert(!ends_with(name, known_suffix(1)));
    assert(!ends_with(name, known_suffix(2)));
    assert(!ends_with(name, known_suffix(3)));
    None
}

/// Renames the last component of a path, taken as what follows its last `/`.
fn rename_last(input_path: &[u8]) -> (r: Vec<u8>)
    requires
        input_path@.len() < i64::MAX,
    ensures
        r@ == renamed_path(input_path@),
{
    let p = input_path;
    let n = p.len();
    let slash = last_position(p, 0, SLASH);
    proof {
        assert(p@.subrange(0, n as int) =~= p@);
        lemma_last_index_bounds(p@, SLASH);
    }
    let ns: usize = (slash + 1) as usize;
    let ghost name = p@.subrange(ns as int, n as int);
    let mark = marker_bytes();
    let mut out: Vec<u8> = Vec::new();
    assert(mark@.subrange(0, mark@.len() as int) =~= mark@);
    match suffix_index(p, ns) {
        Some(k) => {
            let suf = known_suffix_bytes(k);
            push_range(&mut out, p, 0, n - suf.len());
            push_range(&mut out, mark.as_slice(), 0, mark.len());
            push_range(&mut out, suf.as_slice(), 0, suf.len());
            assert(suf@.subrange(0, suf@.len() as int) =~= suf@);
            proof {
                lemma_output_name_with_suffix(p@, suf@);
            }
            assert(out@ =~= p@.subrange(0, n - suf@.len()) + marker() + suf@);
            return out;
        },
        None => {},
    }
    assert(matched_suffix(name) is None);
    let d = last_position(p, ns, DOT);
    proof {
        lemma_last_index_bounds(name, DOT);
    }
    if d > 0 {
        let cut: usize = ns + d as usize;
        push_range(&mut out, p, 0, cut);
        push_range(&mut out, mark.as_slice(), 0, mark.len());
        push_range(&mut out, p, cut, n);
    } else {
        push_range(&mut out, p, 0, n);
        push_range(&mut out, mark.as_slice(), 0, mark.len());
        assert(p@.subrange(0, n as int) =~= p@);
    }
    out
}

/// The output path for `input_path`, in the same directory: `_cells_added`
/// goes before a known record suffix of the file name (`dir/x.fastq.gz`
/// gives `dir/x_cells_added.fastq.gz`), else before the last extension, else
/// at the end. As with `std::path::Path`, trailing separators (and a
/// trailing `/.`) are not part of the file name and are dropped
/// (`x.fq/` gives `x_cells_added.fq`).
pub fn make_output_name(input_path: &[u8]) -> (r: Vec<u8>)
    requires
        input_path@.len() < i64::MAX,
    ensures
        r@ == output_name(input_path@),
{
    let p = input_path;
    let mut end: usize = p.len();
    assert(p@.subrange(0, end as int) =~= p@);
    while (end > 1 && p[end - 1] == SLASH) || (end > 2 && p[end - 1] == DOT && p[end - 2] == SLASH)
        invariant
            end <= p@.len(),
            name_end(p@) == name_end(p@.subrange(0, end as int)),
        decreases end,
    {
        let ghost t = p@.subrange(0, end as int);
        if end > 1 && p[end - 1] == SLASH {
            assert(t.drop_last() =~= p@.subrange(0, end - 1));
            end = end - 1;
        } else {
            assert(t.subrange(0, t.len() - 2) =~= p@.subrange(0, end - 2));
            end = end - 2;
        }
    }
    let mut trimmed: Vec<u8> = Vec::new();
    push_range(&mut trimmed, p, 0, end);
    rename_last(trimmed.as_slice())
}

} // verus!
