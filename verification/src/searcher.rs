//! In-content search for trace markers.
//!
//! A file's content is a byte sequence. It is split into lines on `\n` (a
//! final line without a terminator still counts). Each line that decodes as
//! UTF-8 and contains the configured prefix as a literal substring yields one
//! match: the line's 0-based number together with the identifier text, which
//! is the remainder of the line after the first occurrence of the prefix,
//! with surrounding blanks removed. Lines that do not decode are skipped,
//! but keep their place in the numbering.

use vstd::prelude::*;
use vstd::utf8::{decode_utf8, valid_utf8};

verus! {

/// Blank characters removed around an extracted identifier.
pub open spec fn is_blank(c: char) -> bool {
    c == ' ' || c == '\t' || c == '\r'
}

/// Drops leading blanks.
pub open spec fn trim_start(s: Seq<char>) -> Seq<char>
    decreases s.len(),
{
    if s.len() > 0 && is_blank(s[0]) {
        trim_start(s.skip(1))
    } else {
        s
    }
}

/// Drops trailing blanks.
pub open spec fn trim_end(s: Seq<char>) -> Seq<char>
    decreases s.len(),
{
    if s.len() > 0 && is_blank(s[s.len() - 1]) {
        trim_end(s.take(s.len() - 1))
    } else {
        s
    }
}

/// Drops blanks on both sides.
pub open spec fn trimmed(s: Seq<char>) -> Seq<char> {
    trim_end(trim_start(s))
}

/// The least position at or after `from` where `p` occurs in `s` as a
/// contiguous subsequence; `None` when there is none. An empty `p` is never
/// found: an unusable prefix matches nothing.
pub open spec fn find_pat(s: Seq<char>, p: Seq<char>, from: int) -> Option<int>
    decreases s.len() - from,
{
    if from < 0 || p.len() <= 0 || from + p.len() > s.len() {
        None
    } else if s.subrange(from, from + p.len()) == p {
        Some(from)
    } else {
        find_pat(s, p, from + 1)
    }
}

/// What one decoded line yields: the trimmed remainder after the first
/// occurrence of the prefix, or nothing when the prefix does not occur.
pub open spec fn match_of(s: Seq<char>, p: Seq<char>) -> Option<Seq<char>> {
    match find_pat(s, p, 0) {
        Some(k) => Some(trimmed(s.subrange(k + p.len(), s.len() as int))),
        None => None,
    }
}

/// Line splitting, written as a left fold: `cur` is the line being read,
/// `rest` the bytes still to come. A byte 10 ends the current line; a final
/// unterminated line still counts; a terminator at the very end opens no
/// empty extra line.
pub open spec fn lines_acc(cur: Seq<u8>, rest: Seq<u8>) -> Seq<Seq<u8>>
    decreases rest.len(),
{
    if rest.len() == 0 {
        if cur.len() == 0 {
            seq![]
        } else {
            seq![cur]
        }
    } else if rest[0] == 10 {
        seq![cur] + lines_acc(seq![], rest.skip(1))
    } else {
        lines_acc(cur.push(rest[0]), rest.skip(1))
    }
}

/// The lines of a byte sequence, split on `\n`.
pub open spec fn lines_of(bytes: Seq<u8>) -> Seq<Seq<u8>> {
    lines_acc(Seq::empty(), bytes)
}

/// What one raw line yields: a line that is not valid UTF-8 yields nothing.
pub open spec fn line_hit(line: Seq<u8>, p: Seq<char>) -> Option<Seq<char>> {
    if valid_utf8(line) {
        match_of(decode_utf8(line), p)
    } else {
        None
    }
}

/// All matches over a sequence of raw lines, in line order: one entry per
/// line whose decoded text contains the prefix, carrying the 0-based line
/// number and the extracted identifier.
pub open spec fn hits_of(lines: Seq<Seq<u8>>, p: Seq<char>) -> Seq<(usize, Seq<char>)>
    decreases lines.len(),
{
    if lines.len() == 0 {
        seq![]
    } else {
        let prev = hits_of(lines.drop_last(), p);
        match line_hit(lines.last(), p) {
            Some(id) => prev.push((((lines.len() - 1) as usize), id)),
            None => prev,
        }
    }
}

/// All matches in a file's content.
pub open spec fn matches_of(content: Seq<u8>, p: Seq<char>) -> Seq<(usize, Seq<char>)> {
    hits_of(lines_of(content), p)
}

/// The views of a sequence of byte vectors.
pub open spec fn views_of(s: Seq<Vec<u8>>) -> Seq<Seq<u8>> {
    s.map_values(|v: Vec<u8>| v@)
}

proof fn lemma_trim_start_at(s: Seq<char>, k: int)
    requires
        0 <= k <= s.len(),
        forall|j: int| 0 <= j < k ==> is_blank(s[j]),
        k == s.len() || !is_blank(s[k]),
    ensures
        trim_start(s) == s.subrange(k, s.len() as int),
    decreases k,
{
    if k == 0 {
        assert(s.subrange(0, s.len() as int) =~= s);
    } else {
        let t = s.skip(1);
        assert(forall|j: int| 0 <= j < k - 1 ==> is_blank(#[trigger] t[j]));
        lemma_trim_start_at(t, k - 1);
        assert(t.subrange(k - 1, t.len() as int) =~= s.subrange(k, s.len() as int));
    }
}

proof fn lemma_trim_end_at(s: Seq<char>, k: int)
    requires
        0 <= k <= s.len(),
        forall|j: int| k <= j < s.len() ==> is_blank(s[j]),
        k == 0 || !is_blank(s[k - 1]),
    ensures
        trim_end(s) == s.subrange(0, k),
    decreases s.len(),
{
    if k == s.len() {
        assert(s.subrange(0, s.len() as int) =~= s);
    } else {
        let t = s.take(s.len() - 1);
        assert(forall|j: int| k <= j < t.len() ==> is_blank(#[trigger] t[j]));
        lemma_trim_end_at(t, k);
        assert(t.subrange(0, k) =~= s.subrange(0, k));
    }
}

/// Relies on std::str::from_utf8: it succeeds exactly on valid UTF-8 input
/// and yields the decoded character sequence.
#[verifier::external_body]
fn decode_line(bytes: &[u8]) -> (r: Option<String>)
    ensures
        r is Some <==> valid_utf8(bytes@),
        r matches Some(s) ==> s@ == decode_utf8(bytes@),
{
    match std::str::from_utf8(bytes) {
        Ok(s) => Some(s.to_owned()),
        Err(_) => None,
    }
}

/// Looks for `pat` in `line`; on the first occurrence, returns the trimmed
/// remainder of the line after it.
pub fn match_line(line: &str, pat: &str) -> (r: Option<String>)
    requires
        pat@.len() >= 1,
    ensures
        r is Some <==> match_of(line@, pat@) is Some,
        r matches Some(id) ==> match_of(line@, pat@) == Some(id@),
{
    let n = line.unicode_len();
    let m = pat.unicode_len();
    if m > n {
        assert(find_pat(line@, pat@, 0) is None);
        return None;
    }
    let mut i: usize = 0;
    let mut at: usize = 0;
    let mut found: bool = false;
    while !found && i <= n - m
        invariant
            n == line@.len(),
            m == pat@.len(),
            1 <= m <= n,
            i <= n,
            found ==> (i <= n - m && find_pat(line@, pat@, 0) == Some(i as int) && at == i),
            !found ==> find_pat(line@, pat@, 0) == find_pat(line@, pat@, i as int),
        decreases n - i + (if found { 0int } else { 1int }),
    {
        let mut j: usize = 0;
        let mut same: bool = true;
        while same && j < m
            invariant
                n == line@.len(),
                m == pat@.len(),
                i + m <= n,
                j <= m,
                same ==> forall|t: int| 0 <= t < j ==> line@[i + t] == pat@[t],
                !same ==> line@.subrange(i as int, i + m) != pat@,
            decreases m - j + (if same { 1int } else { 0int }),
        {
            if line.get_char(i + j) != pat.get_char(j) {
                assert(line@.subrange(i as int, i + m)[j as int] == line@[i + j]);
                same = false;
            } else {
                j += 1;
            }
        }
        if same {
            assert(line@.subrange(i as int, i + m) =~= pat@);
            assert(find_pat(line@, pat@, i as int) == Some(i as int));
            at = i;
            found = true;
        } else {
            assert(find_pat(line@, pat@, i as int) == find_pat(line@, pat@, i + 1));
            i += 1;
        }
    }
    if !found {
        assert(i + m > n);
        assert(find_pat(line@, pat@, i as int) is None);
        return None;
    }
    let start = at + m;
    let mut ts: usize = start;
    while ts < n && (line.get_char(ts) == ' ' || line.get_char(ts) == '\t' || line.get_char(ts)
        == '\r')
        invariant
            n == line@.len(),
            start <= ts <= n,
            forall|j: int| start <= j < ts ==> is_blank(line@[j]),
        decreases n - ts,
    {
        ts += 1;
    }
    let mut te: usize = n;
    while te > ts && (line.get_char(te - 1) == ' ' || line.get_char(te - 1) == '\t'
        || line.get_char(te - 1) == '\r')
        invariant
            n == line@.len(),
            ts <= te <= n,
            forall|j: int| te <= j < n ==> is_blank(line@[j]),
        decreases te,
    {
        te -= 1;
    }
    proof {
        let tail = line@.subrange(start as int, n as int);
        assert(forall|j: int| 0 <= j < ts - start ==> is_blank(#[trigger] tail[j]));
        lemma_trim_start_at(tail, ts - start);
        assert(tail.subrange(ts - start, tail.len() as int) =~= line@.subrange(
            ts as int,
            n as int,
        ));
        let u = line@.subrange(ts as int, n as int);
        assert(forall|j: int| te - ts <= j < u.len() ==> is_blank(#[trigger] u[j]));
        lemma_trim_end_at(u, te - ts);
        assert(u.subrange(0, te - ts) =~= line@.subrange(ts as int, te as int));
        assert(trimmed(tail) == line@.subrange(ts as int, te as int));
    }
    let id = line.substring_char(ts, te).to_owned();
    Some(id)
}

/// Splits content into lines on the byte 10.
pub fn split_lines(content: &[u8]) -> (r: Vec<Vec<u8>>)
    ensures
        views_of(r@) == lines_of(content@),
{
    let mut out: Vec<Vec<u8>> = Vec::new();
    let mut cur: Vec<u8> = Vec::new();
    let mut i: usize = 0;
    proof {
        assert(content@.skip(0) =~= content@);
        assert(views_of(out@) + lines_acc(cur@, content@.skip(0)) =~= lines_of(content@));
    }
    while i < content.len()
        invariant
            i <= content@.len(),
            views_of(out@) + lines_acc(cur@, content@.skip(i as int)) == lines_of(content@),
        decreases content@.len() - i,
    {
        let ghost rest = content@.skip(i as int);
        assert(rest[0] == content@[i as int]);
        assert(rest.skip(1) =~= content@.skip(i + 1));
        let b = content[i];
        if b == 10 {
            let ghost old_views = views_of(out@);
            let ghost old_cur = cur@;
            out.push(cur);
            cur = Vec::new();
            proof {
                assert(views_of(out@) =~= old_views.push(old_cur));
                assert(lines_acc(old_cur, rest) == seq![old_cur] + lines_acc(
                    Seq::empty(),
                    rest.skip(1),
                ));
                assert(views_of(out@) + lines_acc(cur@, content@.skip(i + 1)) =~= lines_of(
                    content@,
                ));
            }
        } else {
            let ghost old_cur = cur@;
            cur.push(b);
            proof {
                assert(lines_acc(old_cur, rest) == lines_acc(old_cur.push(rest[0]), rest.skip(1)));
            }
        }
        i += 1;
    }
    assert(content@.skip(i as int) =~= Seq::<u8>::empty());
    if cur.len() > 0 {
        let ghost old_views = views_of(out@);
        let ghost old_cur = cur@;
        out.push(cur);
        proof {
            assert(views_of(out@) =~= old_views.push(old_cur));
            assert(views_of(out@) =~= lines_of(content@));
        }
    } else {
        assert(views_of(out@) + lines_acc(cur@, content@.skip(i as int)) =~= views_of(out@));
    }
    out
}

/// A compiled search for one literal prefix. Construction fails on an empty
/// prefix, the one unusable configuration; afterwards the pattern never
/// changes.
#[derive(Debug)]
pub struct Searcher {
    pattern: String,
}

impl Searcher {
    /// The literal prefix this searcher looks for.
    pub closed spec fn pattern_view(&self) -> Seq<char> {
        self.pattern@
    }

    /// A usable searcher holds a non-empty prefix.
    pub closed spec fn wf(&self) -> bool {
        self.pattern@.len() >= 1
    }

    /// Compiles the search; an empty prefix is refused.
    pub fn new(pattern: String) -> (r: Option<Searcher>)
        ensures
            r is Some <==> pattern@.len() >= 1,
            r matches Some(s) ==> s.wf() && s.pattern_view() == pattern@,
    {
        if pattern.unicode_len() == 0 {
            None
        } else {
            Some(Searcher { pattern })
        }
    }

    /// All matches in one file's content: for every line that decodes and
    /// contains the prefix, the 0-based line number and the identifier text.
    pub fn find_matches(&self, content: &[u8]) -> (r: Vec<(usize, String)>)
        requires
            self.wf(),
        ensures
            r@.len() == matches_of(content@, self.pattern_view()).len(),
            forall|k: int|
                0 <= k < r@.len() ==> r@[k].0 == matches_of(content@, self.pattern_view())[k].0
                    && r@[k].1@ == matches_of(content@, self.pattern_view())[k].1,
    {
        let ghost p = self.pattern_view();
        let lines = split_lines(content);
        let ghost lv = views_of(lines@);
        let mut r: Vec<(usize, String)> = Vec::new();
        let mut j: usize = 0;
        while j < lines.len()
            invariant
                self.wf(),
                p == self.pattern_view(),
                lv == views_of(lines@),
                lv == lines_of(content@),
                j <= lines@.len(),
                lv.len() == lines@.len(),
                r@.len() == hits_of(lv.take(j as int), p).len(),
                forall|k: int|
                    0 <= k < r@.len() ==> r@[k].0 == hits_of(lv.take(j as int), p)[k].0
                        && r@[k].1@ == hits_of(lv.take(j as int), p)[k].1,
            decreases lines@.len() - j,
        {
            let ghost prev = lv.take(j as int);
            let ghost step = lv.take(j + 1);
            proof {
                assert(step.drop_last() =~= prev);
                assert(step.last() == lv[j as int]);
                assert(lv[j as int] == lines@[j as int]@);
            }
            match decode_line(lines[j].as_slice()) {
                Some(text) => {
                    match match_line(text.as_str(), self.pattern.as_str()) {
                        Some(id) => {
                            assert(line_hit(lv[j as int], p) == Some(id@));
                            r.push((j, id));
                            assert(hits_of(step, p) =~= hits_of(prev, p).push(((j as usize), id@)));
                        },
                        None => {
                            assert(line_hit(lv[j as int], p) is None);
                            assert(hits_of(step, p) == hits_of(prev, p));
                        },
                    }
                },
                None => {
                    assert(line_hit(lv[j as int], p) is None);
                    assert(hits_of(step, p) == hits_of(prev, p));
                },
            }
            j += 1;
        }
        assert(lv.take(j as int) =~= lv);
        r
    }
}

} // verus!
