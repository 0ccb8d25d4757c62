//! The registry of displays: the identities that the last discovery pass
//! brought, and the last known state of each display.
//!
//! The registry is a plain owned value. Whoever shares it between tasks
//! puts it behind one lock and holds the lock for one call: every method
//! here is one whole step, so that no reader sees half of a write.
//!
//! A state stays in the registry when its display leaves the listing; it
//! is replaced when a later pass fetches the display again. A registry is
//! well formed ([`Registry::wf`]) if every state it holds belongs to a
//! display that some discovery pass has brought; the refresh cycle keeps
//! it so.

use crate::detect::{views, DisplayInfo, DisplayInfoView};
use crate::state::{DisplayState, DisplayStateView};
use crate::textmap::TextMap;
use vstd::prelude::*;

verus! {

/// The identities of the records `ds`.
pub open spec fn ids_of(ds: Seq<DisplayInfoView>) -> Set<Seq<char>> {
    Set::new(|id: Seq<char>| exists|i: int| 0 <= i < ds.len() && (#[trigger] ds[i]).id == id)
}

/// The first of the records `ds` with the identity `id`.
pub open spec fn first_with_id(ds: Seq<DisplayInfoView>, id: Seq<char>) -> Option<DisplayInfoView>
    decreases ds.len(),
{
    if ds.len() == 0 {
        None
    } else if ds[0].id == id {
        Some(ds[0])
    } else {
        first_with_id(ds.drop_first(), id)
    }
}

/// A record is found under an identity exactly if some record has it.
pub proof fn lemma_first_with_id(ds: Seq<DisplayInfoView>, id: Seq<char>)
    ensures
        first_with_id(ds, id) is Some <==> ids_of(ds).contains(id),
        first_with_id(ds, id) matches Some(d) ==> d.id == id && ds.contains(d),
    decreases ds.len(),
{
    if ds.len() == 0 {
    } else if ds[0].id == id {
        assert(ds[0].id == id);
    } else {
        let rest = ds.drop_first();
        lemma_first_with_id(rest, id);
        if ids_of(rest).contains(id) {
            let i = choose|i: int| 0 <= i < rest.len() && (#[trigger] rest[i]).id == id;
            assert(ds[i + 1].id == id);
        }
        if ids_of(ds).contains(id) {
            let i = choose|i: int| 0 <= i < ds.len() && (#[trigger] ds[i]).id == id;
            assert(rest[i - 1].id == id);
        }
        match first_with_id(rest, id) {
            Some(d) => {
                let i = choose|i: int| 0 <= i < rest.len() && rest[i] == d;
                assert(ds[i + 1] == d);
            },
            None => {},
        }
    }
}

/// Merging a batch of states puts the states of the batch in place and
/// leaves the state of every display that the batch does not name.
pub proof fn lemma_merge_per_display(
    states: Map<Seq<char>, DisplayStateView>,
    batch: Map<Seq<char>, DisplayStateView>,
    id: Seq<char>,
)
    ensures
        states.union_prefer_right(batch).contains_key(id) <==> states.contains_key(id)
            || batch.contains_key(id),
        batch.contains_key(id) ==> states.union_prefer_right(batch)[id] == batch[id],
        !batch.contains_key(id) && states.contains_key(id) ==> states.union_prefer_right(batch)[id]
            == states[id],
{
}

/// Merging the same batch of states a second time changes nothing.
pub proof fn lemma_merge_idempotent(
    states: Map<Seq<char>, DisplayStateView>,
    batch: Map<Seq<char>, DisplayStateView>,
)
    ensures
        states.union_prefer_right(batch).union_prefer_right(batch) == states.union_prefer_right(
            batch,
        ),
{
    assert(states.union_prefer_right(batch).union_prefer_right(batch) =~= states.union_prefer_right(
        batch,
    ));
}

/// Two batches that name no display in common can be merged in either
/// order.
pub proof fn lemma_merge_commutes(
    states: Map<Seq<char>, DisplayStateView>,
    a: Map<Seq<char>, DisplayStateView>,
    b: Map<Seq<char>, DisplayStateView>,
)
    requires
        forall|id: Seq<char>| !(a.contains_key(id) && b.contains_key(id)),
    ensures
        states.union_prefer_right(a).union_prefer_right(b) == states.union_prefer_right(
            b,
        ).union_prefer_right(a),
{
    assert(states.union_prefer_right(a).union_prefer_right(b) =~= states.union_prefer_right(
        b,
    ).union_prefer_right(a));
}

/// The displays of the last discovery pass and the last known states.
pub struct Registry {
    identities: Vec<DisplayInfo>,
    states: TextMap<DisplayState>,
    known: Ghost<Set<Seq<char>>>,
}

impl Registry {
    /// The identities of the last discovery pass, in the order of the listing.
    pub closed spec fn identities(&self) -> Seq<DisplayInfoView> {
        views(self.identities@)
    }

    /// The last known state of each display, by identity.
    pub closed spec fn states(&self) -> Map<Seq<char>, DisplayStateView> {
        self.states@
    }

    /// Every identity that a discovery pass has brought so far.
    pub closed spec fn known(&self) -> Set<Seq<char>> {
        self.known@
    }

    /// Every identity of the list, and every identity for which a state is
    /// held, has been brought by a discovery pass.
    pub open spec fn wf(&self) -> bool {
        &&& forall|id: Seq<char>| #[trigger]
            self.states().contains_key(id) ==> self.known().contains(id)
        &&& forall|id: Seq<char>| #[trigger]
            ids_of(self.identities()).contains(id) ==> self.known().contains(id)
    }

    /// A registry that knows no display.
    pub fn new() -> (r: Registry)
        ensures
            r.wf(),
            r.identities() == Seq::<DisplayInfoView>::empty(),
            r.states() == Map::<Seq<char>, DisplayStateView>::empty(),
            r.known() == Set::<Seq<char>>::empty(),
    {
        let r = Registry { identities: Vec::new(), states: TextMap::new(), known: Ghost(Set::empty()) };
        assert(r.identities() =~= Seq::<DisplayInfoView>::empty());
        r
    }

    /// Puts `list` in place of the identities, as a whole. The states are
    /// left as they are.
    pub fn replace_identities(&mut self, list: Vec<DisplayInfo>)
        ensures
            old(self).wf() ==> final(self).wf(),
            final(self).identities() == views(list@),
            final(self).states() == old(self).states(),
            final(self).known() == old(self).known().union(ids_of(views(list@))),
    {
        self.known = Ghost(self.known@.union(ids_of(views(list@))));
        self.identities = list;
        assert(old(self).wf() ==> self.wf()) by {
            if old(self).wf() {
                assert forall|id: Seq<char>| self.states().contains_key(id) implies self.known().contains(
                    id,
                ) by {
                    assert(old(self).states().contains_key(id));
                }
            }
        }
    }

    /// Puts every state of `batch` into the registry, in place of the state
    /// held for the same display if there is one. States of displays that
    /// `batch` does not name are left as they are. The registry stays well
    /// formed if every display that `batch` names has been brought by a
    /// discovery pass.
    pub fn merge_states(&mut self, batch: TextMap<DisplayState>)
        ensures
            final(self).states() == old(self).states().union_prefer_right(batch@),
            old(self).wf() && (forall|id: Seq<char>| #[trigger]
                batch@.contains_key(id) ==> old(self).known().contains(id)) ==> final(self).wf(),
            final(self).identities() == old(self).identities(),
            final(self).known() == old(self).known(),
    {
        let mut batch = batch;
        let ghost whole = batch@;
        loop
            invariant
                self.states@.union_prefer_right(batch@) == old(self).states@.union_prefer_right(
                    whole,
                ),
                self.identities == old(self).identities,
                self.known == old(self).known,
                forall|id: Seq<char>| #[trigger] batch@.contains_key(id) ==> whole.contains_key(id),
            ensures
                self.states@ == old(self).states@.union_prefer_right(whole),
            decreases batch.keys().len(),
        {
            let ghost held = self.states@;
            let ghost left = batch@;
            match batch.pop() {
                Some(entry) => {
                    self.states.insert(entry.0, entry.1);
                    assert(self.states@.union_prefer_right(batch@) =~= held.union_prefer_right(left));
                },
                None => {
                    assert(self.states@.union_prefer_right(batch@) =~= self.states@);
                    break ;
                },
            }
        }
        proof {
            if old(self).wf() && (forall|id: Seq<char>| #[trigger]
                whole.contains_key(id) ==> old(self).known().contains(id)) {
                assert forall|id: Seq<char>| self.states().contains_key(id) implies self.known().contains(
                    id,
                ) by {
                    assert(old(self).states().contains_key(id) || whole.contains_key(id));
                }
                assert forall|id: Seq<char>| ids_of(self.identities()).contains(id) implies self.known().contains(
                    id,
                ) by {
                    assert(ids_of(old(self).identities()).contains(id));
                }
            }
        }
    }

    /// A copy of the identities of the last discovery pass.
    pub fn read_identities(&self) -> (list: Vec<DisplayInfo>)
        ensures
            views(list@) == self.identities(),
    {
        let mut list: Vec<DisplayInfo> = Vec::new();
        let mut i: usize = 0;
        while i < self.identities.len()
            invariant
                i <= self.identities@.len(),
                list@.len() == i,
                forall|j: int| 0 <= j < i ==> (#[trigger] list@[j]) == self.identities@[j],
            decreases self.identities@.len() - i,
        {
            list.push(self.identities[i].clone());
            i += 1;
        }
        assert(views(list@) =~= views(self.identities@));
        list
    }

    /// A copy of the state held for the display `id`, if one is held. None
    /// means that no fetch for the display has ended yet.
    pub fn read_state(&self, id: &str) -> (r: Option<DisplayState>)
        ensures
            match r {
                Some(s) => self.states().contains_key(id@) && s@ == self.states()[id@],
                None => !self.states().contains_key(id@),
            },
    {
        match self.states.get(id) {
            Some(s) => Some(s.clone()),
            None => None,
        }
    }

    /// A copy of the state held for the display `id`, and the empty state
    /// if none is held: a display that was not fetched yet is no error.
    pub fn state_or_default(&self, id: &str) -> (s: DisplayState)
        ensures
            s@ == if self.states().contains_key(id@) {
                self.states()[id@]
            } else {
                DisplayStateView::empty()
            },
    {
        match self.read_state(id) {
            Some(s) => s,
            None => DisplayState::default(),
        }
    }

    /// The place of the first identity of the list that is `id`.
    fn position(&self, id: &str) -> (r: Option<usize>)
        ensures
            match r {
                Some(i) => i < self.identities@.len() && first_with_id(self.identities(), id@)
                    == Some(self.identities@[i as int]@),
                None => first_with_id(self.identities(), id@) is None,
            },
    {
        let wanted = id.to_owned();
        let ghost ds = views(self.identities@);
        let mut i: usize = 0;
        proof {
            assert(ds.skip(0) =~= ds);
        }
        while i < self.identities.len()
            invariant
                i <= self.identities@.len(),
                ds == views(self.identities@),
                wanted@ == id@,
                first_with_id(ds.skip(i as int), id@) == first_with_id(ds, id@),
            decreases self.identities@.len() - i,
        {
            assert(ds.skip(i as int)[0] == self.identities@[i as int]@);
            if self.identities[i].id == wanted {
                return Some(i);
            }
            proof {
                assert(ds.skip(i as int).drop_first() =~= ds.skip(i + 1));
            }
            i += 1;
        }
        None
    }

    /// Whether the list holds the identity `id`.
    pub fn has_identity(&self, id: &str) -> (r: bool)
        ensures
            r == ids_of(self.identities()).contains(id@),
    {
        proof {
            lemma_first_with_id(self.identities(), id@);
        }
        self.position(id).is_some()
    }

    /// A copy of the first identity of the list that is `id`, if there is one.
    pub fn find_identity(&self, id: &str) -> (r: Option<DisplayInfo>)
        ensures
            match r {
                Some(d) => first_with_id(self.identities(), id@) == Some(d@),
                None => first_with_id(self.identities(), id@) is None,
            },
    {
        match self.position(id) {
            Some(i) => Some(self.identities[i].clone()),
            None => None,
        }
    }
}

} // verus!
