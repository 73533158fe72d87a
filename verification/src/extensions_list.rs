//! The list of extension progressions a consumer shows after a run.
use vstd::prelude::*;

use crate::collection::ExtensionProgression;

verus! {

/// A consumer's request to open one extension's card list.
#[derive(Debug, Clone)]
pub enum Message {
    ToDetails(ExtensionProgression),
}

/// The progressions of all extensions, in display order.
#[derive(Debug, Clone)]
pub struct ExtensionsList {
    pub extensions_progress: Vec<ExtensionProgression>,
}

impl ExtensionsList {
    /// Hold the given progressions for display.
    pub fn new(progressions: Vec<ExtensionProgression>) -> (r: Self)
        ensures
            r.extensions_progress == progressions,
    {
        ExtensionsList { extensions_progress: progressions }
    }
}

} // verus!
