//! Properties that hold across the library's functions.

use crate::correlate::{orphans_of, traces_for};
use crate::record::TraceView;
use crate::registry::ReqView;
use crate::scanner::{file_records, files_records};
use crate::searcher::{hits_of, line_hit, lines_of, matches_of};
use vstd::prelude::*;

verus! {

/// Law: over any list of raw lines, the search yields exactly one hit per
/// line whose decoded text contains the prefix — hits carry strictly
/// increasing line numbers, each hit's identifier is exactly what its line
/// yields, and every matching line is represented.
pub proof fn lemma_one_hit_per_matching_line(lines: Seq<Seq<u8>>, p: Seq<char>)
    requires
        lines.len() <= usize::MAX,
    ensures
        forall|k: int|
            0 <= k < hits_of(lines, p).len() ==> (#[trigger] hits_of(lines, p)[k]).0
                < lines.len(),
        forall|k1: int, k2: int|
            0 <= k1 < k2 < hits_of(lines, p).len() ==> (hits_of(lines, p)[k1]).0 < (hits_of(
                lines,
                p,
            )[k2]).0,
        forall|k: int|
            0 <= k < hits_of(lines, p).len() ==> line_hit(
                lines[(#[trigger] hits_of(lines, p)[k]).0 as int],
                p,
            ) == Some(hits_of(lines, p)[k].1),
        forall|i: int|
            0 <= i < lines.len() && (#[trigger] line_hit(lines[i], p)) is Some ==> exists|k: int|
                0 <= k < hits_of(lines, p).len() && (#[trigger] hits_of(lines, p)[k]).0 == i,
    decreases lines.len(),
{
    if lines.len() == 0 {
    } else {
        let front = lines.drop_last();
        lemma_one_hit_per_matching_line(front, p);
        let prev = hits_of(front, p);
        let h = hits_of(lines, p);
        assert(forall|i: int| 0 <= i < front.len() ==> front[i] == lines[i]);
        match line_hit(lines.last(), p) {
            Some(id) => {
                assert(h == prev.push((((lines.len() - 1) as usize), id)));
                assert(h[h.len() - 1].0 == lines.len() - 1);
                assert(forall|i: int|
                    0 <= i < lines.len() && (#[trigger] line_hit(lines[i], p)) is Some
                        ==> exists|k: int|
                        0 <= k < h.len() && (#[trigger] h[k]).0 == i) by {
                    assert(forall|i: int|
                        0 <= i < front.len() && (#[trigger] line_hit(front[i], p)) is Some
                            ==> exists|k: int|
                            0 <= k < prev.len() && (#[trigger] prev[k]).0 == i);
                    assert(forall|k: int| 0 <= k < prev.len() ==> h[k] == prev[k]);
                }
            },
            None => {
                assert(h == prev);
            },
        }
    }
}

/// Law: scanning one file yields exactly one record per line that decodes
/// and contains the prefix. Records carry the file's path and strictly
/// increasing 0-based line numbers; each record's identifier is exactly
/// what its line yields; and every matching line is represented.
pub proof fn lemma_one_record_per_matching_line(path: Seq<char>, content: Seq<u8>, p: Seq<char>)
    requires
        lines_of(content).len() <= usize::MAX,
    ensures
        forall|k: int|
            0 <= k < file_records(path, content, p).len() ==> (#[trigger] file_records(
                path,
                content,
                p,
            )[k]).file_path == path,
        forall|k: int|
            0 <= k < file_records(path, content, p).len() ==> (#[trigger] file_records(
                path,
                content,
                p,
            )[k]).line_number < lines_of(content).len(),
        forall|k1: int, k2: int|
            0 <= k1 < k2 < file_records(path, content, p).len() ==> (file_records(
                path,
                content,
                p,
            )[k1]).line_number < (file_records(path, content, p)[k2]).line_number,
        forall|k: int|
            0 <= k < file_records(path, content, p).len() ==> line_hit(
                lines_of(content)[(#[trigger] file_records(path, content, p)[k]).line_number as int],
                p,
            ) == Some(file_records(path, content, p)[k].requirement_id),
        forall|i: int|
            0 <= i < lines_of(content).len() && (#[trigger] line_hit(lines_of(content)[i], p))
                is Some ==> exists|k: int|
                0 <= k < file_records(path, content, p).len() && (#[trigger] file_records(
                    path,
                    content,
                    p,
                )[k]).line_number == i,
{
    lemma_one_hit_per_matching_line(lines_of(content), p);
    let hits = matches_of(content, p);
    let recs = file_records(path, content, p);
    assert(recs.len() == hits.len());
    assert(forall|k: int|
        0 <= k < recs.len() ==> (#[trigger] recs[k]) == (TraceView {
            file_path: path,
            line_number: hits[k].0,
            requirement_id: hits[k].1,
        }));
    assert forall|i: int|
        0 <= i < lines_of(content).len() && (#[trigger] line_hit(lines_of(content)[i], p))
            is Some implies exists|k: int|
        0 <= k < recs.len() && (#[trigger] recs[k]).line_number == i by {
        let k0 = choose|k: int| 0 <= k < hits.len() && (#[trigger] hits[k]).0 == i;
        assert(recs[k0].line_number == i);
    }
}

/// Law: the whole pipeline is deterministic. Scanning equal file lists with
/// equal prefixes yields equal trace lists, and correlating equal trace
/// lists against equal registry entries yields, entry for entry, equal
/// trace sets and equal orphans — so a second run over an unchanged tree
/// reports exactly what the first did.
pub proof fn lemma_pipeline_deterministic(
    files1: Seq<(Seq<char>, Seq<u8>)>,
    files2: Seq<(Seq<char>, Seq<u8>)>,
    pat1: Seq<char>,
    pat2: Seq<char>,
    reqs1: Seq<ReqView>,
    reqs2: Seq<ReqView>,
)
    requires
        files1 == files2,
        pat1 == pat2,
        reqs1 == reqs2,
    ensures
        files_records(files1, pat1) == files_records(files2, pat2),
        forall|k: int|
            0 <= k < reqs1.len() ==> traces_for(files_records(files1, pat1), (#[trigger] reqs1[k]).id)
                == traces_for(files_records(files2, pat2), reqs2[k].id),
        orphans_of(files_records(files1, pat1), reqs1) == orphans_of(
            files_records(files2, pat2),
            reqs2,
        ),
{
}

/// Law: a trace whose id is registered under some entry id lands in that
/// entry's trace list, and one whose id is unregistered lands among the
/// orphans — no trace is dropped by the merge.
pub proof fn lemma_no_trace_dropped(traces: Seq<TraceView>, reqs: Seq<ReqView>, t: int)
    requires
        0 <= t < traces.len(),
    ensures
        forall|k: int|
            0 <= k < reqs.len() && (#[trigger] reqs[k]).id == traces[t].requirement_id
                ==> traces_for(traces, reqs[k].id).contains(traces[t]),
        !crate::registry::holds_id(reqs, traces[t].requirement_id) ==> orphans_of(
            traces,
            reqs,
        ).contains(traces[t]),
    decreases traces.len(),
{
    let front = traces.drop_last();
    if t == traces.len() - 1 {
        assert(forall|k: int|
            0 <= k < reqs.len() && (#[trigger] reqs[k]).id == traces[t].requirement_id
                ==> traces_for(traces, reqs[k].id).contains(traces[t])) by {
            assert(forall|k: int|
                0 <= k < reqs.len() && (#[trigger] reqs[k]).id == traces[t].requirement_id
                    ==> traces_for(traces, reqs[k].id).last() == traces[t]);
        }
        if !crate::registry::holds_id(reqs, traces[t].requirement_id) {
            assert(orphans_of(traces, reqs).last() == traces[t]);
        }
    } else {
        lemma_no_trace_dropped(front, reqs, t);
        assert(front[t] == traces[t]);
        assert(forall|k: int|
            0 <= k < reqs.len() && (#[trigger] reqs[k]).id == traces[t].requirement_id
                ==> traces_for(traces, reqs[k].id).contains(traces[t])) by {
            assert(forall|k: int|
                0 <= k < reqs.len() ==> is_extension_of(
                    traces_for(traces, (#[trigger] reqs[k]).id),
                    traces_for(front, reqs[k].id),
                ));
        }
        if !crate::registry::holds_id(reqs, traces[t].requirement_id) {
            assert(is_extension_of(orphans_of(traces, reqs), orphans_of(front, reqs)));
        }
    }
}

/// `b` is a prefix of `a`, so everything `b` holds, `a` holds.
pub open spec fn is_extension_of(a: Seq<TraceView>, b: Seq<TraceView>) -> bool {
    b.len() <= a.len() && forall|j: int| 0 <= j < b.len() ==> a[j] == b[j]
}

} // verus!


