//! Turning file contents into trace records.
//!
//! The tree walk itself and the reading of each file are the caller's work;
//! this module takes one file's path and bytes at a time and yields the
//! records its lines produce, in line order. A file that could not be read
//! is simply never handed in, and contributes nothing — no file's records
//! depend on any other file.

use crate::record::{trace_views, TraceRecord, TraceView};
use crate::searcher::{matches_of, Searcher};
use vstd::prelude::*;

verus! {

/// The records one file contributes: its matches, each stamped with the
/// file's path.
pub open spec fn file_records(path: Seq<char>, content: Seq<u8>, p: Seq<char>) -> Seq<TraceView> {
    matches_of(content, p).map_values(
        |h: (usize, Seq<char>)|
            TraceView { file_path: path, line_number: h.0, requirement_id: h.1 },
    )
}

/// One file of a scan held in memory: where it came from and what it holds.
#[derive(Debug)]
pub struct ScanFile {
    pub path: String,
    pub content: Vec<u8>,
}

/// The views of a sequence of scan files.
pub open spec fn scan_file_views(s: Seq<ScanFile>) -> Seq<(Seq<char>, Seq<u8>)> {
    s.map_values(|f: ScanFile| (f.path@, f.content@))
}

/// The records a whole list of files contributes, file by file in order.
pub open spec fn files_records(files: Seq<(Seq<char>, Seq<u8>)>, p: Seq<char>) -> Seq<TraceView>
    decreases files.len(),
{
    if files.len() == 0 {
        seq![]
    } else {
        files_records(files.drop_last(), p) + file_records(
            files.last().0,
            files.last().1,
            p,
        )
    }
}

/// Scans one file's content and stamps every match with the file's path.
pub fn scan_file(path: &str, content: &[u8], searcher: &Searcher) -> (r: Vec<TraceRecord>)
    requires
        searcher.wf(),
    ensures
        trace_views(r@) == file_records(path@, content@, searcher.pattern_view()),
{
    let ghost p = searcher.pattern_view();
    let ghost fr = file_records(path@, content@, p);
    let hits = searcher.find_matches(content);
    let mut r: Vec<TraceRecord> = Vec::new();
    let mut k: usize = 0;
    proof {
        assert(trace_views(r@) =~= fr.take(0));
    }
    while k < hits.len()
        invariant
            fr == file_records(path@, content@, p),
            k <= hits@.len(),
            hits@.len() == matches_of(content@, p).len(),
            fr.len() == matches_of(content@, p).len(),
            forall|t: int|
                0 <= t < hits@.len() ==> hits@[t].0 == matches_of(content@, p)[t].0
                    && hits@[t].1@ == matches_of(content@, p)[t].1,
            trace_views(r@) == fr.take(k as int),
            r@.len() == k,
        decreases hits@.len() - k,
    {
        let line = hits[k].0;
        let id = hits[k].1.clone();
        let ghost old_rv = r@;
        r.push(TraceRecord { file_path: path.to_owned(), line_number: line, requirement_id: id });
        proof {
            assert(fr[k as int] == (TraceView {
                file_path: path@,
                line_number: matches_of(content@, p)[k as int].0,
                requirement_id: matches_of(content@, p)[k as int].1,
            }));
            assert(r@[k as int]@ == fr[k as int]);
            assert(trace_views(r@) =~= trace_views(old_rv).push(r@[k as int]@));
            assert(fr.take(k + 1) =~= fr.take(k as int).push(fr[k as int]));
        }
        k += 1;
    }
    assert(fr.take(k as int) =~= fr);
    r
}

/// Scans a list of files; the result is the concatenation of what each file
/// contributes on its own.
pub fn scan_files(files: &Vec<ScanFile>, searcher: &Searcher) -> (r: Vec<TraceRecord>)
    requires
        searcher.wf(),
    ensures
        trace_views(r@) == files_records(scan_file_views(files@), searcher.pattern_view()),
{
    let ghost p = searcher.pattern_view();
    let ghost fv = scan_file_views(files@);
    let mut r: Vec<TraceRecord> = Vec::new();
    let mut k: usize = 0;
    proof {
        assert(fv.take(0) =~= Seq::<(Seq<char>, Seq<u8>)>::empty());
        assert(trace_views(r@) =~= files_records(fv.take(0), p));
    }
    while k < files.len()
        invariant
            searcher.wf(),
            p == searcher.pattern_view(),
            fv == scan_file_views(files@),
            fv.len() == files@.len(),
            k <= files@.len(),
            trace_views(r@) == files_records(fv.take(k as int), p),
        decreases files@.len() - k,
    {
        let ghost prev = fv.take(k as int);
        let ghost step = fv.take(k + 1);
        proof {
            assert(step.drop_last() =~= prev);
            assert(step.last() == fv[k as int]);
        }
        let f = &files[k];
        let mut part = scan_file(f.path.as_str(), f.content.as_slice(), searcher);
        let ghost old_r = trace_views(r@);
        let ghost part_v = trace_views(part@);
        r.append(&mut part);
        proof {
            assert(trace_views(r@) =~= old_r + part_v);
        }
        k += 1;
    }
    assert(fv.take(k as int) =~= fv);
    r
}

} // verus!
