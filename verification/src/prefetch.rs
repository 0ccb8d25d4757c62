//! Fetching the state of one display, as a sequence of queries and replies.
//!
//! A fetch asks first for the capabilities of the display and then, one
//! after the other, for the value of each setting of
//! [`prefetch_codes`](crate::vcp::prefetch_codes). The caller makes the
//! calls; this module says which call comes next and what each reply adds
//! to the state. No failed call ends the fetch: a failed capabilities call
//! leaves its message in the state, a failed value query leaves no value.

use crate::ddcutil::{
    capabilities_args, capabilities_command, getvcp_args, getvcp_command, outcome_text, texts,
    ProcessError,
};
use crate::detect::{DisplayInfo, DisplayInfoView};
use crate::state::{DisplayState, DisplayStateView};
use crate::vcp::{
    code_text, current_value, format_code, parse_current_value, prefetch_code_list,
    prefetch_codes,
};
use vstd::prelude::*;

verus! {

/// The arguments of the call that follows `asked` replies, for the display
/// `key`; none once all replies are in.
pub open spec fn query_for(asked: nat, key: Seq<char>) -> Option<Seq<Seq<char>>> {
    if asked == 0 {
        Some(capabilities_args(key))
    } else if asked <= prefetch_codes().len() {
        Some(getvcp_args(prefetch_codes()[asked - 1], key))
    } else {
        None
    }
}

/// The value that a reply to a value query gives: the value it states, and
/// zero if it states none.
pub open spec fn value_or_zero(reply: Seq<char>) -> u32 {
    match current_value(reply) {
        Some(v) => v,
        None => 0,
    }
}

/// The state `s` after the reply that follows `asked` earlier replies.
pub open spec fn after_reply(
    asked: nat,
    s: DisplayStateView,
    reply: Result<Seq<char>, Seq<char>>,
) -> DisplayStateView {
    if asked == 0 {
        match reply {
            Ok(caps) => DisplayStateView { caps: Some(caps), ..s },
            Err(message) => DisplayStateView { error: Some(message), ..s },
        }
    } else if asked <= prefetch_codes().len() {
        match reply {
            Ok(text) => DisplayStateView {
                values: s.values.insert(
                    code_text(prefetch_codes()[asked - 1]),
                    value_or_zero(text),
                ),
                ..s
            },
            Err(_) => s,
        }
    } else {
        s
    }
}

/// The number of replies after one more, which stops at the number of
/// queries of a fetch.
pub open spec fn asked_after(asked: nat) -> nat {
    if asked <= prefetch_codes().len() {
        asked + 1
    } else {
        asked
    }
}

/// The state `s` as a fetch that ends at the time `now` leaves it: ready
/// exactly if it holds no error.
pub open spec fn sealed(s: DisplayStateView, now: u64) -> DisplayStateView {
    DisplayStateView { ready: s.error is None, last_updated: Some(now), ..s }
}

/// The state after the replies `replies`, the first `asked` of which are
/// already in `s`.
pub open spec fn after_replies(
    asked: nat,
    s: DisplayStateView,
    replies: Seq<Result<Seq<char>, Seq<char>>>,
) -> DisplayStateView
    decreases replies.len(),
{
    if replies.len() == 0 {
        s
    } else {
        after_replies(asked_after(asked), after_reply(asked, s, replies[0]), replies.drop_first())
    }
}

/// A fetch in progress.
pub struct Prefetch {
    display: DisplayInfo,
    state: DisplayState,
    asked: usize,
}

/// What a [`Prefetch`] holds: the display, the state so far, and the
/// number of replies that are in.
pub ghost struct PrefetchView {
    pub display: DisplayInfoView,
    pub state: DisplayStateView,
    pub asked: nat,
}

impl View for Prefetch {
    type V = PrefetchView;

    closed spec fn view(&self) -> PrefetchView {
        PrefetchView { display: self.display@, state: self.state@, asked: self.asked as nat }
    }
}

impl Prefetch {
    /// A fetch for `display`, before its first query.
    pub fn begin(display: DisplayInfo) -> (p: Prefetch)
        ensures
            p@ == (PrefetchView { display: display@, state: DisplayStateView::empty(), asked: 0 }),
    {
        Prefetch { display, state: DisplayState::default(), asked: 0 }
    }

    /// The arguments of the call to make next; none if the fetch has all
    /// its replies.
    pub fn next_query(&self) -> (q: Option<Vec<String>>)
        ensures
            match q {
                Some(args) => query_for(self@.asked, self@.display.display_key) == Some(
                    texts(args@),
                ),
                None => query_for(self@.asked, self@.display.display_key) is None,
            },
    {
        let codes = prefetch_code_list();
        if self.asked == 0 {
            Some(capabilities_command(self.display.display_key.as_str()))
        } else if self.asked <= codes.len() {
            Some(getvcp_command(codes[self.asked - 1], self.display.display_key.as_str()))
        } else {
            None
        }
    }

    /// Takes the reply to the call that [`next_query`](Self::next_query)
    /// named. A reply that comes when no call is open changes nothing.
    pub fn record(self, reply: Result<String, ProcessError>) -> (p: Prefetch)
        ensures
            p@ == (PrefetchView {
                display: self@.display,
                state: after_reply(self@.asked, self@.state, outcome_text(reply)),
                asked: asked_after(self@.asked),
            }),
    {
        let codes = prefetch_code_list();
        let mut state = self.state;
        if self.asked == 0 {
            match reply {
                Ok(caps) => {
                    state.caps = Some(caps);
                },
                Err(e) => {
                    state.error = Some(e.message());
                },
            }
        } else if self.asked <= codes.len() {
            match reply {
                Ok(text) => {
                    let code = codes[self.asked - 1];
                    let value = match parse_current_value(text.as_str(), code) {
                        Some(v) => v,
                        None => 0,
                    };
                    state.values.insert(format_code(code), value);
                },
                Err(_) => {},
            }
        }
        let asked = if self.asked <= codes.len() {
            self.asked + 1
        } else {
            self.asked
        };
        Prefetch { display: self.display, state, asked }
    }

    /// Ends the fetch at the time `now`, in seconds since the epoch: the
    /// display and its state, which is ready exactly if it holds no error.
    pub fn finish(self, now: u64) -> (r: (DisplayInfo, DisplayState))
        ensures
            r.0@ == self@.display,
            r.1@ == sealed(self@.state, now),
            r.1.wf(),
    {
        let mut state = self.state;
        state.ready = state.error.is_none();
        state.last_updated = Some(now);
        (self.display, state)
    }
}

/// The state that a whole fetch leaves: that of the empty state after the
/// replies, sealed at `now`.
pub open spec fn fetched_state(replies: Seq<Result<Seq<char>, Seq<char>>>, now: u64) -> DisplayStateView {
    sealed(after_replies(0, DisplayStateView::empty(), replies), now)
}

/// Whatever the replies were, the state that a fetch leaves is ready
/// exactly if its capabilities call did not fail, and it holds an error
/// exactly if that call failed.
pub proof fn lemma_fetch_ready(replies: Seq<Result<Seq<char>, Seq<char>>>, now: u64)
    requires
        replies.len() > 0,
    ensures
        fetched_state(replies, now).wf(),
        fetched_state(replies, now).ready <==> replies[0] is Ok,
        fetched_state(replies, now).error is Some <==> replies[0] is Err,
        fetched_state(replies, now).last_updated == Some(now),
{
    let first = after_reply(0, DisplayStateView::empty(), replies[0]);
    lemma_values_leave_error(1, first, replies.drop_first());
}

/// The replies to value queries leave the error and the capabilities of a
/// state as they are.
proof fn lemma_values_leave_error(
    asked: nat,
    s: DisplayStateView,
    replies: Seq<Result<Seq<char>, Seq<char>>>,
)
    requires
        asked >= 1,
    ensures
        after_replies(asked, s, replies).error == s.error,
        after_replies(asked, s, replies).caps == s.caps,
    decreases replies.len(),
{
    if replies.len() > 0 {
        lemma_values_leave_error(
            asked_after(asked),
            after_reply(asked, s, replies[0]),
            replies.drop_first(),
        );
    }
}

} // verus!
