//! Merging scan results with the registry.
//!
//! Every registry requirement gets exactly one entry, in registry order,
//! holding the traces that reference it in discovery order — possibly none,
//! a reportable gap. Every trace whose id no requirement declares goes to
//! the orphan list, also in discovery order. No trace and no requirement is
//! dropped: each input trace ends up in exactly one entry or among the
//! orphans.

use crate::record::{trace_views, TraceRecord, TraceView};
use crate::registry::{holds_id, Registry, ReqView, Requirement};
use vstd::prelude::*;

verus! {

/// The traces referencing `id`, in discovery order.
pub open spec fn traces_for(traces: Seq<TraceView>, id: Seq<char>) -> Seq<TraceView>
    decreases traces.len(),
{
    if traces.len() == 0 {
        seq![]
    } else {
        let prev = traces_for(traces.drop_last(), id);
        if traces.last().requirement_id == id {
            prev.push(traces.last())
        } else {
            prev
        }
    }
}

/// The traces referencing no registered requirement, in discovery order.
pub open spec fn orphans_of(traces: Seq<TraceView>, reqs: Seq<ReqView>) -> Seq<TraceView>
    decreases traces.len(),
{
    if traces.len() == 0 {
        seq![]
    } else {
        let prev = orphans_of(traces.drop_last(), reqs);
        if !holds_id(reqs, traces.last().requirement_id) {
            prev.push(traces.last())
        } else {
            prev
        }
    }
}

/// One requirement with the traces that implement it.
#[derive(Debug)]
pub struct CorrelationEntry {
    pub requirement: Requirement,
    pub traces: Vec<TraceRecord>,
}

/// The full result of a run: one entry per requirement, plus the traces
/// that reference nothing known.
#[derive(Debug)]
pub struct Correlation {
    pub entries: Vec<CorrelationEntry>,
    pub orphans: Vec<TraceRecord>,
}

/// Merges the scanned traces with the registry.
pub fn correlate(traces: Vec<TraceRecord>, registry: &Registry) -> (c: Correlation)
    requires
        registry.wf(),
    ensures
        c.entries@.len() == registry.reqs().len(),
        forall|k: int|
            0 <= k < c.entries@.len() ==> (#[trigger] c.entries@[k]).requirement@
                == registry.reqs()[k],
        forall|k: int|
            0 <= k < c.entries@.len() ==> trace_views((#[trigger] c.entries@[k]).traces@)
                == traces_for(trace_views(traces@), registry.reqs()[k].id),
        trace_views(c.orphans@) == orphans_of(trace_views(traces@), registry.reqs()),
{
    let ghost tv = trace_views(traces@);
    let ghost reqs = registry.reqs();
    let mut entries: Vec<CorrelationEntry> = Vec::new();
    let mut k: usize = 0;
    let reg_len = registry.len();
    while k < reg_len
        invariant
            registry.wf(),
            tv == trace_views(traces@),
            tv.len() == traces@.len(),
            reqs == registry.reqs(),
            reg_len == reqs.len(),
            k <= reg_len,
            entries@.len() == k,
            forall|j: int|
                0 <= j < k ==> (#[trigger] entries@[j]).requirement@ == reqs[j],
            forall|j: int|
                0 <= j < k ==> trace_views((#[trigger] entries@[j]).traces@) == traces_for(
                    tv,
                    reqs[j].id,
                ),
        decreases reg_len - k,
    {
        let req = registry.get(k).duplicate();
        let ghost idv = reqs[k as int].id;
        assert(req.id@ == idv);
        let mut ts: Vec<TraceRecord> = Vec::new();
        let mut i: usize = 0;
        proof {
            assert(tv.take(0) =~= Seq::<TraceView>::empty());
        }
        while i < traces.len()
            invariant
                tv == trace_views(traces@),
                tv.len() == traces@.len(),
                i <= tv.len(),
                req.id@ == idv,
                trace_views(ts@) == traces_for(tv.take(i as int), idv),
            decreases tv.len() - i,
        {
            let ghost prev = tv.take(i as int);
            let ghost step = tv.take(i + 1);
            proof {
                assert(step.drop_last() =~= prev);
                assert(step.last() == tv[i as int]);
                assert(tv[i as int] == traces@[i as int]@);
            }
            if traces[i].requirement_id == req.id {
                let ghost old_ts = trace_views(ts@);
                ts.push(traces[i].duplicate());
                proof {
                    assert(trace_views(ts@) =~= old_ts.push(tv[i as int]));
                }
            }
            i += 1;
        }
        assert(tv.take(i as int) =~= tv);
        let ghost old_entries = entries@;
        entries.push(CorrelationEntry { requirement: req, traces: ts });
        proof {
            assert(forall|j: int| 0 <= j < k ==> entries@[j] == old_entries[j]);
        }
        k += 1;
    }
    let mut orphans: Vec<TraceRecord> = Vec::new();
    let mut i: usize = 0;
    proof {
        assert(tv.take(0) =~= Seq::<TraceView>::empty());
    }
    while i < traces.len()
        invariant
            registry.wf(),
            tv == trace_views(traces@),
            tv.len() == traces@.len(),
            reqs == registry.reqs(),
            i <= tv.len(),
            trace_views(orphans@) == orphans_of(tv.take(i as int), reqs),
        decreases tv.len() - i,
    {
        let ghost prev = tv.take(i as int);
        let ghost step = tv.take(i + 1);
        proof {
            assert(step.drop_last() =~= prev);
            assert(step.last() == tv[i as int]);
            assert(tv[i as int] == traces@[i as int]@);
        }
        if !registry.contains_id(&traces[i].requirement_id) {
            let ghost old_o = trace_views(orphans@);
            orphans.push(traces[i].duplicate());
            proof {
                assert(trace_views(orphans@) =~= old_o.push(tv[i as int]));
            }
        }
        i += 1;
    }
    assert(tv.take(i as int) =~= tv);
    Correlation { entries, orphans }
}

} // verus!
