//! Line-level model of one SSE frame and the parser for it.
//!
//! A frame is a block of `\n`-separated lines. The parser keeps the last
//! `data: ` line and the last `event: ` line; every other line is skipped.
use vstd::prelude::*;

verus! {

pub const LF: u8 = 10;

pub const CR: u8 = 13;

/// `data: `
pub open spec fn data_prefix() -> Seq<u8> {
    seq![100u8, 97u8, 116u8, 97u8, 58u8, 32u8]
}

/// `event: `
pub open spec fn event_prefix() -> Seq<u8> {
    seq![101u8, 118u8, 101u8, 110u8, 116u8, 58u8, 32u8]
}

pub open spec fn has_prefix(line: Seq<u8>, p: Seq<u8>) -> bool {
    p.len() <= line.len() && line.subrange(0, p.len() as int) == p
}

/// The fields found so far: (event type, data), both as raw bytes.
pub type Fields = (Option<Seq<u8>>, Option<Seq<u8>>);

pub open spec fn no_fields() -> Fields {
    (None, None)
}

/// Effect of one line on the fields; `data: ` is tested before `event: `.
pub open spec fn apply_line(acc: Fields, line: Seq<u8>) -> Fields {
    if has_prefix(line, data_prefix()) {
        (acc.0, Some(line.subrange(6, line.len() as int)))
    } else if has_prefix(line, event_prefix()) {
        (Some(line.subrange(7, line.len() as int)), acc.1)
    } else {
        acc
    }
}

/// A line that ended with `\n` loses one trailing `\r`.
pub open spec fn strip_cr(line: Seq<u8>) -> Seq<u8> {
    if line.len() > 0 && line.last() == CR {
        line.drop_last()
    } else {
        line
    }
}

/// Scan `s` from `i`, the current line having started at `ls`.
pub open spec fn parse_from(s: Seq<u8>, ls: int, i: int, acc: Fields) -> Fields
    decreases s.len() - i,
{
    if i >= s.len() {
        if ls < s.len() {
            apply_line(acc, s.subrange(ls, s.len() as int))
        } else {
            acc
        }
    } else if s[i] == LF {
        parse_from(s, i + 1, i + 1, apply_line(acc, strip_cr(s.subrange(ls, i))))
    } else {
        parse_from(s, ls, i + 1, acc)
    }
}

/// The fields of one frame.
pub open spec fn parse_frame(s: Seq<u8>) -> Fields {
    parse_from(s, 0, 0, no_fields())
}

/// A byte run that can stand on one line and keep its last byte.
pub open spec fn line_safe(b: Seq<u8>) -> bool {
    !b.contains(LF) && !b.contains(CR)
}

/// The wire form of one event: `event: <t>\ndata: <d>\n\n`.
pub open spec fn frame_bytes(t: Seq<u8>, d: Seq<u8>) -> Seq<u8> {
    event_prefix() + t + seq![LF] + data_prefix() + d + seq![LF, LF]
}

pub open spec fn range_of(s: Seq<u8>, r: Option<(usize, usize)>) -> Option<Seq<u8>> {
    match r {
        Some((a, b)) => Some(s.subrange(a as int, b as int)),
        None => None,
    }
}

/// Moving over bytes that are not `\n` changes nothing.
pub proof fn lemma_skip_line(s: Seq<u8>, ls: int, i: int, e: int, acc: Fields)
    requires
        0 <= i <= e <= s.len(),
        forall|k: int| i <= k < e ==> s[k] != LF,
    ensures
        parse_from(s, ls, i, acc) == parse_from(s, ls, e, acc),
    decreases e - i,
{
    if i < e {
        lemma_skip_line(s, ls, i + 1, e, acc);
    }
}

/// A frame read back gives the event type and the data it was built from.
pub proof fn lemma_frame_round_trip(t: Seq<u8>, d: Seq<u8>)
    requires
        line_safe(t),
        line_safe(d),
    ensures
        parse_frame(frame_bytes(t, d)) == (Some(t), Some(d)),
{
    let s = frame_bytes(t, d);
    let e1: int = 7 + t.len() as int;
    let e2: int = e1 + 7 + d.len() as int;
    assert(s.len() == e2 + 2);
    assert forall|k: int| 0 <= k < e1 implies s[k] != LF by {
        if k >= 7 {
            assert(s[k] == t[k - 7]);
            assert(!t.contains(LF));
        }
    }
    lemma_skip_line(s, 0, 0, e1, no_fields());
    assert(s[e1] == LF);
    let l1 = s.subrange(0, e1);
    assert(l1 =~= event_prefix() + t);
    assert(l1.subrange(0, 7) =~= event_prefix());
    assert(l1.subrange(0, 6) != data_prefix()) by {
        assert(l1.subrange(0, 6)[0] == 101u8);
    }
    if t.len() > 0 {
        assert(l1.last() == t.last());
        assert(t.contains(t.last()));
    }
    assert(strip_cr(l1) == l1);
    assert(l1.subrange(7, l1.len() as int) =~= t);
    let acc1: Fields = (Some(t), None);
    assert(apply_line(no_fields(), strip_cr(l1)) == acc1);
    assert(parse_from(s, 0, e1, no_fields()) == parse_from(s, e1 + 1, e1 + 1, acc1));
    assert forall|k: int| e1 + 1 <= k < e2 implies s[k] != LF by {
        if k >= e1 + 7 {
            assert(s[k] == d[k - e1 - 7]);
            assert(!d.contains(LF));
        }
    }
    lemma_skip_line(s, e1 + 1, e1 + 1, e2, acc1);
    assert(s[e2] == LF);
    let l2 = s.subrange(e1 + 1, e2);
    assert(l2 =~= data_prefix() + d);
    assert(l2.subrange(0, 6) =~= data_prefix());
    if d.len() > 0 {
        assert(l2.last() == d.last());
        assert(d.contains(d.last()));
    }
    assert(strip_cr(l2) == l2);
    assert(l2.subrange(6, l2.len() as int) =~= d);
    let acc2: Fields = (Some(t), Some(d));
    assert(apply_line(acc1, strip_cr(l2)) == acc2);
    assert(parse_from(s, e1 + 1, e2, acc1) == parse_from(s, e2 + 1, e2 + 1, acc2));
    assert(s[e2 + 1] == LF);
    let l3 = s.subrange(e2 + 1, e2 + 1);
    assert(!has_prefix(strip_cr(l3), data_prefix()));
    assert(!has_prefix(strip_cr(l3), event_prefix()));
    assert(apply_line(acc2, strip_cr(l3)) == acc2);
    assert(parse_from(s, e2 + 2, e2 + 2, acc2) == acc2);
    assert(parse_from(s, e2 + 1, e2 + 1, acc2) == parse_from(s, e2 + 2, e2 + 2, acc2));
}

/// A block of complete lines: empty, or ending with `\n`.
pub open spec fn whole_lines(s: Seq<u8>) -> bool {
    s.len() == 0 || s.last() == LF
}

/// Bytes after a block of complete lines are read from the fields of that block.
pub proof fn lemma_parse_after_lines(s: Seq<u8>, x: Seq<u8>, ls: int, i: int, acc: Fields)
    requires
        whole_lines(s),
        0 <= ls <= i <= s.len(),
        i == s.len() ==> ls == i,
    ensures
        parse_from(s + x, ls, i, acc) == parse_from(
            s + x,
            s.len() as int,
            s.len() as int,
            parse_from(s, ls, i, acc),
        ),
    decreases s.len() - i,
{
    let sx = s + x;
    if i < s.len() {
        assert(sx[i] == s[i]);
        assert(sx.subrange(ls, i) =~= s.subrange(ls, i));
        if s[i] == LF {
            lemma_parse_after_lines(s, x, i + 1, i + 1, apply_line(acc, strip_cr(s.subrange(ls, i))));
        } else {
            lemma_parse_after_lines(s, x, ls, i + 1, acc);
        }
    }
}

/// One line `line` followed by `\n` at offset `n` of `s`.
pub proof fn lemma_one_line(s: Seq<u8>, n: int, line: Seq<u8>, acc: Fields)
    requires
        0 <= n,
        n + line.len() < s.len(),
        s.subrange(n, n + line.len()) == line,
        s[n + line.len()] == LF,
        !line.contains(LF),
    ensures
        parse_from(s, n, n, acc) == parse_from(
            s,
            n + line.len() + 1,
            n + line.len() + 1,
            apply_line(acc, strip_cr(line)),
        ),
{
    let e = n + line.len();
    assert forall|k: int| n <= k < e implies s[k] != LF by {
        assert(s[k] == line[k - n]);
    }
    lemma_skip_line(s, n, n, e, acc);
}

/// Of several `data: ` lines in a frame, the last one is kept.
pub proof fn lemma_last_data_line_wins(s: Seq<u8>, d: Seq<u8>)
    requires
        whole_lines(s),
        line_safe(d),
    ensures
        parse_frame(s + data_prefix() + d + seq![LF]) == (parse_frame(s).0, Some(d)),
{
    let line = data_prefix() + d;
    let x = line + seq![LF];
    let sx = s + x;
    assert(s + data_prefix() + d + seq![LF] =~= sx);
    lemma_parse_after_lines(s, x, 0, 0, no_fields());
    let n = s.len() as int;
    assert(sx.subrange(n, n + line.len()) =~= line);
    assert(sx[n + line.len()] == LF);
    assert(!line.contains(LF)) by {
        if line.contains(LF) {
            let k = choose|k: int| 0 <= k < line.len() && line[k] == LF;
            if k >= 6 {
                assert(d[k - 6] == LF);
            }
        }
    }
    lemma_one_line(sx, n, line, parse_frame(s));
    if d.len() > 0 {
        assert(line.last() == d.last());
        assert(d.contains(d.last()));
    }
    assert(strip_cr(line) == line);
    assert(line.subrange(0, 6) =~= data_prefix());
    assert(line.subrange(6, line.len() as int) =~= d);
}

/// Of several `event: ` lines in a frame, the last one is kept.
pub proof fn lemma_last_event_line_wins(s: Seq<u8>, t: Seq<u8>)
    requires
        whole_lines(s),
        line_safe(t),
    ensures
        parse_frame(s + event_prefix() + t + seq![LF]) == (Some(t), parse_frame(s).1),
{
    let line = event_prefix() + t;
    let x = line + seq![LF];
    let sx = s + x;
    assert(s + event_prefix() + t + seq![LF] =~= sx);
    lemma_parse_after_lines(s, x, 0, 0, no_fields());
    let n = s.len() as int;
    assert(sx.subrange(n, n + line.len()) =~= line);
    assert(sx[n + line.len()] == LF);
    assert(!line.contains(LF)) by {
        if line.contains(LF) {
            let k = choose|k: int| 0 <= k < line.len() && line[k] == LF;
            if k >= 7 {
                assert(t[k - 7] == LF);
            }
        }
    }
    lemma_one_line(sx, n, line, parse_frame(s));
    if t.len() > 0 {
        assert(line.last() == t.last());
        assert(t.contains(t.last()));
    }
    assert(strip_cr(line) == line);
    assert(line.subrange(0, 7) =~= event_prefix());
    assert(line.subrange(0, 6) != data_prefix()) by {
        assert(line.subrange(0, 6)[0] == 101u8);
    }
    assert(line.subrange(7, line.len() as int) =~= t);
}

/// The bytes `v[lo..hi]` as a vector of their own.
pub fn copy_range(v: &[u8], lo: usize, hi: usize) -> (r: Vec<u8>)
    requires
        lo <= hi <= v@.len(),
    ensures
        r@ == v@.subrange(lo as int, hi as int),
{
    let mut r: Vec<u8> = Vec::new();
    let mut i: usize = lo;
    while i < hi
        invariant
            lo <= i <= hi <= v@.len(),
            r@ == v@.subrange(lo as int, i as int),
        decreases hi - i,
    {
        r.push(v[i]);
        i = i + 1;
        assert(r@ =~= v@.subrange(lo as int, i as int));
    }
    r
}

fn data_prefix_bytes() -> (r: Vec<u8>)
    ensures
        r@ == data_prefix(),
{
    let r = vec![100u8, 97u8, 116u8, 97u8, 58u8, 32u8];
    assert(r@ =~= data_prefix());
    r
}

fn event_prefix_bytes() -> (r: Vec<u8>)
    ensures
        r@ == event_prefix(),
{
    let r = vec![101u8, 118u8, 101u8, 110u8, 116u8, 58u8, 32u8];
    assert(r@ =~= event_prefix());
    r
}

/// Whether the line `s[lo..hi]` starts with `p`.
fn line_has_prefix(s: &[u8], lo: usize, hi: usize, p: &Vec<u8>) -> (r: bool)
    requires
        lo <= hi <= s@.len(),
    ensures
        r == has_prefix(s@.subrange(lo as int, hi as int), p@),
{
    let ghost line = s@.subrange(lo as int, hi as int);
    if hi - lo < p.len() {
        return false;
    }
    let mut k: usize = 0;
    while k < p.len()
        invariant
            lo <= hi <= s@.len(),
            p@.len() <= hi - lo,
            k <= p@.len(),
            line == s@.subrange(lo as int, hi as int),
            forall|j: int| 0 <= j < k ==> line[j] == p@[j],
        decreases p@.len() - k,
    {
        if s[lo + k] != p[k] {
            assert(line.subrange(0, p@.len() as int)[k as int] != p@[k as int]);
            return false;
        }
        k = k + 1;
    }
    assert(line.subrange(0, p@.len() as int) =~= p@);
    true
}

/// The line `s[lo..hi]` applied to the fields found so far.
fn apply_line_exec(
    s: &[u8],
    lo: usize,
    hi: usize,
    acc: (Option<(usize, usize)>, Option<(usize, usize)>),
) -> (r: (Option<(usize, usize)>, Option<(usize, usize)>))
    requires
        lo <= hi <= s@.len(),
    ensures
        (range_of(s@, r.0), range_of(s@, r.1)) == apply_line(
            (range_of(s@, acc.0), range_of(s@, acc.1)),
            s@.subrange(lo as int, hi as int),
        ),
        fields_in(r, s@.len()) || !fields_in(acc, s@.len()),
{
    let line = Ghost(s@.subrange(lo as int, hi as int));
    let dp = data_prefix_bytes();
    if line_has_prefix(s, lo, hi, &dp) {
        assert(line@.subrange(6, line@.len() as int) =~= s@.subrange(lo + 6, hi as int));
        (acc.0, Some((lo + 6, hi)))
    } else {
        let ep = event_prefix_bytes();
        if line_has_prefix(s, lo, hi, &ep) {
            assert(line@.subrange(7, line@.len() as int) =~= s@.subrange(lo + 7, hi as int));
            (Some((lo + 7, hi)), acc.1)
        } else {
            acc
        }
    }
}

/// Both ranges lie within a text of length `n`.
pub open spec fn fields_in(r: (Option<(usize, usize)>, Option<(usize, usize)>), n: nat) -> bool {
    &&& r.0 matches Some((a, b)) ==> a <= b <= n
    &&& r.1 matches Some((a, b)) ==> a <= b <= n
}

/// Where the event type and the data of one frame stand in it.
pub fn parse_fields(s: &[u8]) -> (r: (Option<(usize, usize)>, Option<(usize, usize)>))
    ensures
        fields_in(r, s@.len()),
        (range_of(s@, r.0), range_of(s@, r.1)) == parse_frame(s@),
{
    let mut acc: (Option<(usize, usize)>, Option<(usize, usize)>) = (None, None);
    let mut ls: usize = 0;
    let mut i: usize = 0;
    while i < s.len()
        invariant
            ls <= i <= s@.len(),
            fields_in(acc, s@.len()),
            parse_frame(s@) == parse_from(s@, ls as int, i as int, (range_of(s@, acc.0), range_of(s@, acc.1))),
        decreases s@.len() - i,
    {
        if s[i] == LF {
            let end: usize = if i > ls && s[i - 1] == CR { i - 1 } else { i };
            assert(strip_cr(s@.subrange(ls as int, i as int)) =~= s@.subrange(ls as int, end as int));
            acc = apply_line_exec(s, ls, end, acc);
            ls = i + 1;
        }
        i = i + 1;
    }
    if ls < s.len() {
        acc = apply_line_exec(s, ls, s.len(), acc);
    }
    acc
}

} // verus!
