//! Run configuration: the trace-marker prefix and the requirements directory.

use vstd::prelude::*;

verus! {

/// Settings for one run: the literal prefix that marks a trace in source
/// text, and the name of the subdirectory that holds requirement documents.
#[derive(Debug)]
pub struct TraceConfig {
    pub identifier: String,
    pub requirements_dir: String,
}

impl TraceConfig {
    /// The built-in defaults: prefix `~tr:` and directory `req`.
    pub fn new() -> (c: TraceConfig)
        ensures
            c.identifier@ == "~tr:"@,
            c.requirements_dir@ == "req"@,
    {
        TraceConfig {
            identifier: "~tr:".to_owned(),
            requirements_dir: "req".to_owned(),
        }
    }
}

} // verus!
