//! The records the scan produces.

use vstd::prelude::*;

verus! {

/// One trace marker found in a file: where it stands and which requirement
/// it references.
#[derive(Debug)]
pub struct TraceRecord {
    pub file_path: String,
    pub line_number: usize,
    pub requirement_id: String,
}

/// The mathematical value of a trace record.
pub ghost struct TraceView {
    pub file_path: Seq<char>,
    pub line_number: usize,
    pub requirement_id: Seq<char>,
}

impl View for TraceRecord {
    type V = TraceView;

    open spec fn view(&self) -> TraceView {
        TraceView {
            file_path: self.file_path@,
            line_number: self.line_number,
            requirement_id: self.requirement_id@,
        }
    }
}

impl TraceRecord {
    /// A fresh record with the same value.
    pub fn duplicate(&self) -> (r: TraceRecord)
        ensures
            r@ == self@,
    {
        TraceRecord {
            file_path: self.file_path.clone(),
            line_number: self.line_number,
            requirement_id: self.requirement_id.clone(),
        }
    }
}

/// The views of a sequence of trace records.
pub open spec fn trace_views(s: Seq<TraceRecord>) -> Seq<TraceView> {
    s.map_values(|t: TraceRecord| t@)
}

} // verus!
