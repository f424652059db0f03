//! The text that shows a report against its source: a header with the stage and the position,
//! the line before the offending range, the range itself between `!!` marks, and the lines
//! after it.
use vstd::prelude::*;
use vstd::utf8::{valid_utf8, decode_utf8};
use crate::diagnostics::{Report, ReportV, stage_name};
use crate::text::{nat_digits, push_nat_digits, utf8_text};

verus! {

/// The positions just after each newline byte at `from <= p < to`, in order.
pub open spec fn nl_marks(src: Seq<u8>, from: int, to: int) -> Seq<usize>
    decreases to - from,
{
    if to <= from {
        Seq::empty()
    } else if src[to - 1] == 10u8 {
        nl_marks(src, from, to - 1).push(to as usize)
    } else {
        nl_marks(src, from, to - 1)
    }
}

/// At most the first two of `m`.
pub open spec fn first_two(m: Seq<usize>) -> Seq<usize> {
    if m.len() <= 2 { m } else { m.take(2) }
}

/// Where the scan for the lines after the range starts: the last byte of a range that spans
/// more than one byte, else its start.
pub open spec fn scan_mid(start: int, end: int) -> int {
    if start + 1 < end { end - 1 } else { start }
}

/// The line starts that the report refers to: the start of the file, each line start up to the
/// range's start, those inside the range, and the first two after it (a newline in the last
/// byte of the file is not counted).
pub open spec fn line_starts(src: Seq<u8>, start: int, end: int) -> Seq<usize> {
    let mid = scan_mid(start, end);
    seq![0usize] + nl_marks(src, 0, start) + nl_marks(src, start, mid) + first_two(
        nl_marks(src, mid, src.len() - 1),
    )
}

/// The text of the bytes `[a, b)`, or nothing where they are not valid UTF-8.
pub open spec fn slice_text(src: Seq<u8>, a: int, b: int) -> Seq<char> {
    let bytes = src.subrange(a, b);
    if valid_utf8(bytes) { decode_utf8(bytes) } else { Seq::empty() }
}

/// `k` spaces.
pub open spec fn spaces(k: int) -> Seq<char>
    decreases k,
{
    if k <= 0 { Seq::empty() } else { spaces(k - 1).push(' ') }
}

/// The number of line `n` in the margin: coloured, left-aligned in four columns, then two
/// spaces.
pub open spec fn line_prefix(n: nat) -> Seq<char> {
    "\x1b[34m"@ + nat_digits(n) + spaces(4 - nat_digits(n).len()) + "\x1b[0m  "@
}

/// The lines `from..stop` of the range, each with its number, the first numbered `ln`.
pub open spec fn middle_lines(src: Seq<u8>, nls: Seq<usize>, from: int, stop: int, ln: nat) -> Seq<
    char,
>
    decreases stop - from,
{
    if stop <= from {
        Seq::empty()
    } else {
        middle_lines(src, nls, from, stop - 1, ln) + line_prefix((ln + (stop - 1 - from)) as nat)
            + slice_text(src, nls[stop - 1] as int, nls[stop] as int)
    }
}

/// The header: the stage, the file name, and the line and column of the range's start.
pub open spec fn report_header(r: ReportV, fname: Seq<char>, line: nat, col: nat) -> Seq<char> {
    "Error during the \x1b[34m"@ + stage_name(r.stage) + "\x1b[0m stage.\n"@ + "-> \x1b[34m"@
        + fname + "\x1b[0m:"@ + nat_digits(line) + ":"@ + nat_digits(col) + "\n\n"@
}

/// The line before the range, where there is one, and the start of the range's first line.
pub open spec fn report_before(src: Seq<u8>, nls: Seq<usize>, beg: int, s: int) -> Seq<char> {
    let line = (beg + 1) as nat;
    let prev = if beg > 0 {
        line_prefix((line - 1) as nat) + slice_text(src, nls[beg - 1] as int, nls[beg] as int)
    } else {
        Seq::empty()
    };
    prev + line_prefix(line) + slice_text(src, nls[beg] as int, s)
}

/// The range itself, with the numbers of the lines that it runs over.
pub open spec fn report_inside(
    src: Seq<u8>,
    nls: Seq<usize>,
    beg: int,
    end_idx: int,
    s: int,
    e: int,
) -> Seq<char> {
    if beg < end_idx {
        slice_text(src, s, nls[beg + 1] as int) + middle_lines(
            src,
            nls,
            beg + 1,
            end_idx,
            (beg + 2) as nat,
        ) + slice_text(src, nls[end_idx] as int, e)
    } else {
        slice_text(src, s, e)
    }
}

/// The rest of the range's last line and one line after it, or a line break where the range
/// reaches the last line.
pub open spec fn report_after(
    src: Seq<u8>,
    nls: Seq<usize>,
    beg: int,
    end_idx: int,
    e: int,
) -> Seq<char> {
    let len = nls.len() as int;
    if end_idx < len - 1 {
        let next = if end_idx < len - 2 {
            slice_text(src, nls[beg + 1] as int, nls[beg + 2] as int)
        } else {
            slice_text(src, nls[beg + 1] as int, src.len() as int)
        };
        slice_text(src, e, nls[end_idx + 1] as int) + line_prefix((end_idx + 2) as nat) + next
    } else {
        "\n"@
    }
}

/// The text that shows `r` in the file `fname` whose bytes are `src`.
pub open spec fn report_text(r: ReportV, fname: Seq<char>, src: Seq<u8>) -> Seq<char> {
    let s = r.range.start as int;
    let e = r.range.end as int;
    let nls = line_starts(src, s, e);
    let beg = nl_marks(src, 0, s).len() as int;
    let end_idx = beg + nl_marks(src, s, scan_mid(s, e)).len();
    report_header(r, fname, (beg + 1) as nat, (s - nls[beg] + 1) as nat) + report_before(
        src,
        nls,
        beg,
        s,
    ) + "\x1b[31m!! "@ + report_inside(src, nls, beg, end_idx, s, e) + " !!\x1b[0m"@
        + report_after(src, nls, beg, end_idx, e) + "\n"@ + r.msg + "\n"@
}

/// The marks lie in `(from, to]`, in increasing order.
proof fn lemma_marks_bounds(src: Seq<u8>, from: int, to: int)
    requires
        0 <= from,
        to <= src.len() <= usize::MAX,
    ensures
        forall|i: int| 0 <= i < nl_marks(src, from, to).len() ==> from < #[trigger] nl_marks(src, from, to)[i] <= to,
        forall|i: int, j: int|
            0 <= i < j < nl_marks(src, from, to).len() ==> nl_marks(src, from, to)[i] < nl_marks(src, from, to)[j],
        nl_marks(src, from, to).len() <= if to > from { to - from } else { 0 },
    decreases to - from,
{
    if to > from {
        lemma_marks_bounds(src, from, to - 1);
        let m = nl_marks(src, from, to - 1);
        if src[to - 1] == 10u8 {
            assert(nl_marks(src, from, to) == m.push(to as usize));
            let mp = m.push(to as usize);
            assert forall|i: int, j: int|
                0 <= i < j < mp.len() implies #[trigger] mp[i] < #[trigger] mp[j] by {
                if j < m.len() {
                    assert(mp[j] == m[j]);
                }
            }
        }
    }
}

/// Scanning `[from, to)` in two parts gives the marks of both parts, one after the other.
proof fn lemma_marks_split(src: Seq<u8>, from: int, mid: int, to: int)
    requires
        from <= mid <= to,
    ensures
        nl_marks(src, from, to) == nl_marks(src, from, mid) + nl_marks(src, mid, to),
    decreases to - mid,
{
    if to > mid {
        lemma_marks_split(src, from, mid, to - 1);
        assert(nl_marks(src, from, to) =~= nl_marks(src, from, mid) + nl_marks(src, mid, to));
    } else {
        assert(nl_marks(src, mid, to) =~= Seq::<usize>::empty());
        assert(nl_marks(src, from, to) =~= nl_marks(src, from, mid) + nl_marks(src, mid, to));
    }
}

/// Appends the text of the bytes `[a, b)`, or nothing where they are not valid UTF-8.
fn push_slice_text(out: &mut String, src: &[u8], a: usize, b: usize)
    requires
        a <= b <= src@.len(),
    ensures
        final(out)@ == old(out)@ + slice_text(src@, a as int, b as int),
{
    let bytes = vstd::slice::slice_subrange(src, a, b);
    match utf8_text(bytes) {
        Some(t) => {
            proof {
                vstd::utf8::encode_utf8_decode_utf8(t@);
            }
            out.append(t);
        },
        None => {
            assert(old(out)@ + Seq::<char>::empty() =~= old(out)@);
        },
    }
}

/// Appends the margin with the number `n`.
fn push_line_prefix(out: &mut String, n: usize)
    ensures
        final(out)@ == old(out)@ + line_prefix(n as nat),
{
    proof {
        reveal_strlit("\x1b[34m");
        reveal_strlit("\x1b[0m  ");
        reveal_strlit(" ");
    }
    out.append("\x1b[34m");
    let ghost at_digits = out@;
    let mut digits = String::new();
    push_nat_digits(&mut digits, n as u64);
    assert(digits@ =~= nat_digits(n as nat));
    let mut k: usize = digits.as_str().unicode_len();
    out.append(digits.as_str());
    let ghost at_pad = out@;
    while k < 4
        invariant
            digits@ == nat_digits(n as nat),
            digits@.len() <= k,
            k <= 4 || k == digits@.len(),
            out@ == at_pad + spaces(k - digits@.len()),
        decreases 4 - k,
    {
        proof {
            reveal_strlit(" ");
        }
        out.append(" ");
        assert(spaces(k + 1 - digits@.len()) == spaces(k - digits@.len()).push(' '));
        assert(out@ =~= at_pad + spaces(k + 1 - digits@.len()));
        k = k + 1;
    }
    assert(spaces(k - digits@.len()) == spaces(4 - nat_digits(n as nat).len()));
    out.append("\x1b[0m  ");
    assert(final(out)@ =~= old(out)@ + line_prefix(n as nat));
}

/// The line starts of `line_starts`, with the index of the last one before the range, the
/// index of the last one inside it, and the column of the range's start.
#[verifier::spinoff_prover]
fn collect_line_starts(src: &[u8], s: usize, e: usize) -> (res: (Vec<usize>, usize, usize, usize))
    requires
        s <= e <= src@.len(),
        src@.len() <= isize::MAX,
    ensures
        res.0@ == line_starts(src@, s as int, e as int),
        res.1 == nl_marks(src@, 0, s as int).len(),
        res.2 == res.1 + nl_marks(src@, s as int, scan_mid(s as int, e as int)).len(),
        res.3 == s - res.0@[res.1 as int] + 1,
        res.1 <= res.2 < res.0@.len() <= src@.len() + 1,
        forall|i: int, j: int| 0 <= i < j < res.0@.len() ==> res.0@[i] < res.0@[j],
        forall|i: int| 0 <= i < res.0@.len() ==> #[trigger] res.0@[i] <= src@.len(),
        res.0@[res.1 as int] <= s,
        res.1 < res.2 ==> s < res.0@[res.1 + 1] <= e,
        res.0@[res.2 as int] <= e,
        res.2 + 1 < res.0@.len() ==> e <= res.0@[res.2 + 1],
{
    let ghost sv = src@;
    let limit = src.len();
    let mut nls: Vec<usize> = vec![0];
    let mut col: usize = 1;
    let mut cur: usize = 0;
    while cur < s
        invariant
            s <= limit == sv.len() <= isize::MAX,
            sv == src@,
            cur <= s,
            nls@ == seq![0usize] + nl_marks(sv, 0, cur as int),
            nls@.last() <= cur,
            col == cur - nls@.last() + 1,
        decreases s - cur,
    {
        proof { lemma_marks_bounds(sv, 0, cur as int); }
        if src[cur] == 10u8 {
            nls.push(cur + 1);
            col = 1;
        } else {
            col = col + 1;
        }
        cur = cur + 1;
        proof {
            assert(nls@ =~= seq![0usize] + nl_marks(sv, 0, cur as int));
        }
    }
    let beg = nls.len() - 1;
    let ghost marks_a = nls@;
    while cur + 1 < e
        invariant
            s <= e <= limit == sv.len() <= isize::MAX,
            sv == src@,
            s <= cur,
            cur <= scan_mid(s as int, e as int),
            nls@ == marks_a + nl_marks(sv, s as int, cur as int),
        decreases e - cur,
    {
        if src[cur] == 10u8 {
            nls.push(cur + 1);
        }
        cur = cur + 1;
        proof {
            assert(nls@ =~= marks_a + nl_marks(sv, s as int, cur as int));
        }
    }
    let end_idx = nls.len() - 1;
    let ghost marks_b = nls@;
    let ghost mid = cur as int;
    assert(mid == scan_mid(s as int, e as int));
    let mut cnt: usize = 0;
    while cur + 1 < limit && cnt < 2
        invariant
            s <= e <= limit == sv.len() <= isize::MAX,
            sv == src@,
            mid <= cur <= limit,
            mid < limit ==> cur <= limit - 1,
            mid >= limit ==> cur == mid,
            nls@ == marks_b + nl_marks(sv, mid, cur as int),
            cnt == nl_marks(sv, mid, cur as int).len(),
            cnt <= 2,
        decreases limit - cur,
    {
        if src[cur] == 10u8 {
            nls.push(cur + 1);
            cnt = cnt + 1;
        }
        cur = cur + 1;
        proof {
            assert(nls@ =~= marks_b + nl_marks(sv, mid, cur as int));
        }
    }
    proof {
        let t = sv.len() - 1;
        if mid < t {
            lemma_marks_split(sv, mid, cur as int, t);
            if cnt == 2 {
                assert(first_two(nl_marks(sv, mid, t)) =~= nl_marks(sv, mid, cur as int));
            } else {
                assert(cur == t);
            }
        } else {
            assert(nl_marks(sv, mid, t) =~= Seq::<usize>::empty());
            assert(nl_marks(sv, mid, cur as int) =~= Seq::<usize>::empty());
        }
        assert(nls@ =~= line_starts(sv, s as int, e as int));
        lemma_marks_bounds(sv, 0, s as int);
        lemma_marks_bounds(sv, s as int, mid);
        lemma_marks_bounds(sv, mid, t);
        let c = first_two(nl_marks(sv, mid, t));
        assert(forall|i: int| 0 <= i < c.len() ==> c[i] == nl_marks(sv, mid, t)[i]);
    }
    (nls, beg, end_idx, col)
}

/// Appends the header of the report.
fn push_header(out: &mut String, r: &Report, fname: &str, line: usize, col: usize)
    ensures
        final(out)@ == old(out)@ + report_header(r@, fname@, line as nat, col as nat),
{
    proof {
        reveal_strlit("Error during the \x1b[34m");
        reveal_strlit("\x1b[0m stage.\n");
        reveal_strlit("-> \x1b[34m");
        reveal_strlit("\x1b[0m:");
        reveal_strlit(":");
        reveal_strlit("\n\n");
    }
    out.append("Error during the \x1b[34m");
    out.append(r.stage.name());
    out.append("\x1b[0m stage.\n");
    out.append("-> \x1b[34m");
    out.append(fname);
    out.append("\x1b[0m:");
    push_nat_digits(out, line as u64);
    out.append(":");
    push_nat_digits(out, col as u64);
    out.append("\n\n");
    assert(final(out)@ =~= old(out)@ + report_header(r@, fname@, line as nat, col as nat));
}

/// Appends the line before the range and the start of the range's first line.
fn push_before(out: &mut String, src: &[u8], nls: &Vec<usize>, beg: usize, s: usize)
    requires
        beg < nls@.len() <= usize::MAX,
        nls@[beg as int] <= s <= src@.len(),
        beg > 0 ==> nls@[beg - 1] <= nls@[beg as int],
    ensures
        final(out)@ == old(out)@ + report_before(src@, nls@, beg as int, s as int),
{
    if beg > 0 {
        push_line_prefix(out, beg);
        push_slice_text(out, src, nls[beg - 1], nls[beg]);
    }
    push_line_prefix(out, beg + 1);
    push_slice_text(out, src, nls[beg], s);
    assert(final(out)@ =~= old(out)@ + report_before(src@, nls@, beg as int, s as int));
}

/// Appends the numbered lines `from..stop` of the range, the first numbered `from + 1`.
fn push_middle_lines(out: &mut String, src: &[u8], nls: &Vec<usize>, from: usize, stop: usize)
    requires
        1 <= from <= stop < nls@.len(),
        forall|i: int| 0 <= i < nls@.len() ==> #[trigger] nls@[i] <= src@.len(),
        forall|i: int, j: int| 0 <= i < j < nls@.len() ==> nls@[i] < nls@[j],
    ensures
        final(out)@ == old(out)@ + middle_lines(src@, nls@, from as int, stop as int, (from + 1) as nat),
{
    let mut k = from;
    while k < stop
        invariant
            from <= k <= stop < nls@.len(),
            forall|i: int| 0 <= i < nls@.len() ==> #[trigger] nls@[i] <= src@.len(),
            forall|i: int, j: int| 0 <= i < j < nls@.len() ==> nls@[i] < nls@[j],
            out@ == old(out)@ + middle_lines(src@, nls@, from as int, k as int, (from + 1) as nat),
        decreases stop - k,
    {
        push_line_prefix(out, k + 1);
        push_slice_text(out, src, nls[k], nls[k + 1]);
        k = k + 1;
        assert(out@ =~= old(out)@ + middle_lines(src@, nls@, from as int, k as int, (from + 1) as nat));
    }
}

/// Appends the range itself.
fn push_inside(out: &mut String, src: &[u8], nls: &Vec<usize>, beg: usize, end_idx: usize, s: usize, e: usize)
    requires
        beg <= end_idx < nls@.len(),
        s <= e <= src@.len(),
        forall|i: int| 0 <= i < nls@.len() ==> #[trigger] nls@[i] <= src@.len(),
        forall|i: int, j: int| 0 <= i < j < nls@.len() ==> nls@[i] < nls@[j],
        beg < end_idx ==> s < nls@[beg + 1] <= e,
        nls@[end_idx as int] <= e,
    ensures
        final(out)@ == old(out)@ + report_inside(src@, nls@, beg as int, end_idx as int, s as int, e as int),
{
    if beg < end_idx {
        push_slice_text(out, src, s, nls[beg + 1]);
        push_middle_lines(out, src, nls, beg + 1, end_idx);
        push_slice_text(out, src, nls[end_idx], e);
    } else {
        push_slice_text(out, src, s, e);
    }
    assert(final(out)@ =~= old(out)@ + report_inside(src@, nls@, beg as int, end_idx as int, s as int, e as int));
}

/// Appends what follows the range.
fn push_after(out: &mut String, src: &[u8], nls: &Vec<usize>, beg: usize, end_idx: usize, e: usize)
    requires
        beg <= end_idx < nls@.len(),
        e <= src@.len(),
        forall|i: int| 0 <= i < nls@.len() ==> #[trigger] nls@[i] <= src@.len(),
        forall|i: int, j: int| 0 <= i < j < nls@.len() ==> nls@[i] < nls@[j],
        end_idx + 1 < nls@.len() ==> e <= nls@[end_idx + 1],
    ensures
        final(out)@ == old(out)@ + report_after(src@, nls@, beg as int, end_idx as int, e as int),
{
    let len = nls.len();
    if end_idx < len - 1 {
        push_slice_text(out, src, e, nls[end_idx + 1]);
        push_line_prefix(out, end_idx + 2);
        if end_idx < len - 2 {
            push_slice_text(out, src, nls[beg + 1], nls[beg + 2]);
        } else {
            push_slice_text(out, src, nls[beg + 1], src.len());
        }
    } else {
        proof {
            reveal_strlit("\n");
        }
        out.append("\n");
    }
    assert(final(out)@ =~= old(out)@ + report_after(src@, nls@, beg as int, end_idx as int, e as int));
}

/// The text that shows the report `r` against the bytes `src` of the file `fname`: a header
/// with the stage and the line and column where the range starts, the line before the range
/// and the range between `!!` marks, with line numbers in a margin, the rest of its last line
/// and one line after it, then the message (see `report_text`).
pub fn deliver_text(r: &Report, fname: &str, src: &[u8]) -> (out: String)
    requires
        r.range.start <= r.range.end <= src@.len(),
        src@.len() <= isize::MAX,
    ensures
        out@ == report_text(r@, fname@, src@),
{
    let s = r.range.start;
    let e = r.range.end;
    let (nls, beg, end_idx, col) = collect_line_starts(src, s, e);
    let mut out = String::new();
    push_header(&mut out, r, fname, beg + 1, col);
    push_before(&mut out, src, &nls, beg, s);
    proof {
        reveal_strlit("\x1b[31m!! ");
        reveal_strlit(" !!\x1b[0m");
        reveal_strlit("\n");
    }
    out.append("\x1b[31m!! ");
    push_inside(&mut out, src, &nls, beg, end_idx, s, e);
    out.append(" !!\x1b[0m");
    push_after(&mut out, src, &nls, beg, end_idx, e);
    out.append("\n");
    out.append(r.msg.as_str());
    out.append("\n");
    assert(out@ =~= report_text(r@, fname@, src@));
    out
}

} // verus!
