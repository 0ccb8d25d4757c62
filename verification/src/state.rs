//! What is known of one display after its settings were fetched.

use crate::text::opt_text;
use crate::textmap::TextMap;
use vstd::prelude::*;

verus! {

/// The last known state of one display.
///
/// `values` maps the text of a setting code to the value last read.
/// `ready` says that the fetch ended without an error, so a state that is
/// ready holds no error (see [`DisplayState::wf`]).
#[derive(Debug)]
pub struct DisplayState {
    pub caps: Option<String>,
    pub values: TextMap<u32>,
    pub ready: bool,
    pub last_updated: Option<u64>,
    pub error: Option<String>,
}

/// What a [`DisplayState`] holds, as plain values.
pub ghost struct DisplayStateView {
    pub caps: Option<Seq<char>>,
    pub values: Map<Seq<char>, u32>,
    pub ready: bool,
    pub last_updated: Option<u64>,
    pub error: Option<Seq<char>>,
}

impl DisplayStateView {
    /// The state of a display of which nothing is known yet.
    pub open spec fn empty() -> DisplayStateView {
        DisplayStateView {
            caps: None,
            values: Map::empty(),
            ready: false,
            last_updated: None,
            error: None,
        }
    }

    /// A state that is ready holds no error.
    pub open spec fn wf(self) -> bool {
        self.ready ==> self.error is None
    }
}

impl View for DisplayState {
    type V = DisplayStateView;

    open spec fn view(&self) -> DisplayStateView {
        DisplayStateView {
            caps: opt_text(self.caps),
            values: self.values@,
            ready: self.ready,
            last_updated: self.last_updated,
            error: opt_text(self.error),
        }
    }
}

impl Default for DisplayState {
    /// The state of a display of which nothing is known yet.
    fn default() -> (s: DisplayState)
        ensures
            s@ == DisplayStateView::empty(),
    {
        DisplayState {
            caps: None,
            values: TextMap::new(),
            ready: false,
            last_updated: None,
            error: None,
        }
    }
}

impl DisplayState {
    /// A state that is ready holds no error.
    pub open spec fn wf(&self) -> bool {
        self@.wf()
    }

}

impl Clone for DisplayState {
    /// A copy of this state.
    fn clone(&self) -> (s: DisplayState)
        ensures
            s@ == self@,
    {
        DisplayState {
            caps: self.caps.clone(),
            values: self.values.clone(),
            ready: self.ready,
            last_updated: self.last_updated,
            error: self.error.clone(),
        }
    }
}

} // verus!
