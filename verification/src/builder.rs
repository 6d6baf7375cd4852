//! Configuration for a watcher, gathered before the driving loop starts.

use vstd::prelude::*;

use crate::LogReaderMode;

verus! {

/// What a watcher is built from: the path to tail, the chunking mode, and
/// whether content already in the file at start is skipped.
#[derive(Debug)]
pub struct LogWatcherBuilder {
    pub path: String,
    pub mode: LogReaderMode,
    pub skip_to_end: bool,
}

impl LogWatcherBuilder {
    /// A builder with the defaults: drain-to-end chunking, existing content
    /// skipped.
    pub fn new(path: String) -> (r: Self)
        ensures
            r.path@ == path@,
            r.mode is ReadToEnd,
            r.skip_to_end,
    {
        LogWatcherBuilder { path, mode: LogReaderMode::ReadToEnd, skip_to_end: true }
    }

    /// Choose the chunking mode.
    pub fn mode(self, mode: LogReaderMode) -> (r: Self)
        ensures
            r.path@ == self.path@,
            r.mode == mode,
            r.skip_to_end == self.skip_to_end,
    {
        Self { mode, ..self }
    }

    /// Choose whether content already in the file when the watcher starts is
    /// skipped (the default) or tailed from the beginning.
    pub fn skip_to_end(self, skip_to_end: bool) -> (r: Self)
        ensures
            r.path@ == self.path@,
            r.mode == self.mode,
            r.skip_to_end == skip_to_end,
    {
        Self { skip_to_end, ..self }
    }
}

} // verus!
