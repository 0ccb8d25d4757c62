//! The settings that are kept between runs: the display last selected, the
//! preset to apply at start, and the presets that the user has made.

use crate::text::opt_text;
use crate::textmap::TextMap;
use vstd::prelude::*;

verus! {

/// To which displays the values of a preset apply.
#[derive(Clone, Copy, Debug, PartialEq, Eq, Structural)]
pub enum PresetScope {
    /// `values` applies to every display.
    AllMonitors,
    /// Each display has its own values, under its identity in
    /// `monitor_overrides`.
    PerMonitor,
}

impl Default for PresetScope {
    fn default() -> (scope: PresetScope)
        ensures
            scope == PresetScope::AllMonitors,
    {
        PresetScope::AllMonitors
    }
}

/// A named set of setting values.
///
/// `values` maps the text of a setting code to a value. `monitor_overrides`
/// maps the identity of a display to such a map of its own.
#[derive(Debug)]
pub struct UserPreset {
    pub id: String,
    pub name: String,
    pub scope: PresetScope,
    pub values: TextMap<u32>,
    pub monitor_overrides: TextMap<TextMap<u32>>,
}

/// What a [`UserPreset`] holds, as plain values.
pub ghost struct UserPresetView {
    pub id: Seq<char>,
    pub name: Seq<char>,
    pub scope: PresetScope,
    pub values: Map<Seq<char>, u32>,
    pub monitor_overrides: Map<Seq<char>, Map<Seq<char>, u32>>,
}

impl UserPresetView {
    /// The values that the preset holds for the display `display_id`: its
    /// one set of values if it applies to all displays, and else the set
    /// kept under the identity of the display, if there is one.
    pub open spec fn values_for(self, display_id: Seq<char>) -> Option<Map<Seq<char>, u32>> {
        match self.scope {
            PresetScope::AllMonitors => Some(self.values),
            PresetScope::PerMonitor => if self.monitor_overrides.contains_key(display_id) {
                Some(self.monitor_overrides[display_id])
            } else {
                None
            },
        }
    }
}

impl View for UserPreset {
    type V = UserPresetView;

    open spec fn view(&self) -> UserPresetView {
        UserPresetView {
            id: self.id@,
            name: self.name@,
            scope: self.scope,
            values: self.values@,
            monitor_overrides: self.monitor_overrides@,
        }
    }
}

impl UserPreset {
    /// The values that the preset holds for the display `display_id`.
    pub fn values_for(&self, display_id: &str) -> (r: Option<&TextMap<u32>>)
        ensures
            match r {
                Some(values) => self@.values_for(display_id@) == Some(values@),
                None => self@.values_for(display_id@) is None,
            },
    {
        match self.scope {
            PresetScope::AllMonitors => Some(&self.values),
            PresetScope::PerMonitor => self.monitor_overrides.get(display_id),
        }
    }
}

/// A copy of the values that a preset keeps for single displays.
fn clone_overrides(overrides: &TextMap<TextMap<u32>>) -> (copy: TextMap<TextMap<u32>>)
    ensures
        copy@ == overrides@,
{
    let n = overrides.len();
    let ghost keys = overrides.keys();
    let mut copy: TextMap<TextMap<u32>> = TextMap::new();
    let mut i: usize = 0;
    while i < n
        invariant
            i <= n == keys.len(),
            keys == overrides.keys(),
            forall|k: Seq<char>| overrides@.contains_key(k) <==> keys.contains(k),
            forall|k: Seq<char>| #[trigger]
                copy@.contains_key(k) <==> exists|j: int| 0 <= j < i && keys[j] == k,
            forall|k: Seq<char>| #[trigger]
                copy@.contains_key(k) ==> copy@[k] == overrides@[k],
        decreases n - i,
    {
        let key = overrides.key_at(i).clone();
        let values = overrides.value_at(i).clone();
        let ghost before = copy@;
        copy.insert(key, values);
        proof {
            assert forall|k: Seq<char>| #[trigger]
                copy@.contains_key(k) <==> exists|j: int| 0 <= j < i + 1 && keys[j] == k by {
                if copy@.contains_key(k) {
                    if k == keys[i as int] {
                    } else {
                        assert(before.contains_key(k));
                        let j = choose|j: int| 0 <= j < i && keys[j] == k;
                        assert(0 <= j < i + 1 && keys[j] == k);
                    }
                }
                if exists|j: int| 0 <= j < i + 1 && keys[j] == k {
                    let j = choose|j: int| 0 <= j < i + 1 && keys[j] == k;
                    if j < i {
                        assert(before.contains_key(k));
                    }
                }
            }
        }
        i += 1;
    }
    proof {
        assert forall|k: Seq<char>| copy@.contains_key(k) <==> overrides@.contains_key(k) by {
            if copy@.contains_key(k) {
                let j = choose|j: int| 0 <= j < i && keys[j] == k;
                assert(keys.contains(k));
            }
            if overrides@.contains_key(k) {
                assert(keys.contains(k));
                let j = choose|j: int| 0 <= j < keys.len() && keys[j] == k;
                assert(0 <= j < i && keys[j] == k);
            }
        }
        assert(copy@ =~= overrides@);
    }
    copy
}

impl Clone for UserPreset {
    /// A copy of this preset.
    fn clone(&self) -> (p: UserPreset)
        ensures
            p@ == self@,
    {
        UserPreset {
            id: self.id.clone(),
            name: self.name.clone(),
            scope: self.scope,
            values: self.values.clone(),
            monitor_overrides: clone_overrides(&self.monitor_overrides),
        }
    }
}

/// The settings that are kept between runs.
#[derive(Debug)]
pub struct Settings {
    pub last_selected_display_id: Option<String>,
    pub startup_preset: Option<String>,
    pub presets: Vec<UserPreset>,
}

/// What [`Settings`] hold, as plain values.
pub ghost struct SettingsView {
    pub last_selected_display_id: Option<Seq<char>>,
    pub startup_preset: Option<Seq<char>>,
    pub presets: Seq<UserPresetView>,
}

impl SettingsView {
    /// The settings of a first run: nothing selected, no preset.
    pub open spec fn empty() -> SettingsView {
        SettingsView { last_selected_display_id: None, startup_preset: None, presets: Seq::empty() }
    }

    /// No two presets have the same id.
    pub open spec fn wf(self) -> bool {
        forall|i: int, j: int|
            0 <= i < self.presets.len() && 0 <= j < self.presets.len() && (
            #[trigger] self.presets[i]).id == (#[trigger] self.presets[j]).id ==> i == j
    }
}

impl View for Settings {
    type V = SettingsView;

    open spec fn view(&self) -> SettingsView {
        SettingsView {
            last_selected_display_id: opt_text(self.last_selected_display_id),
            startup_preset: opt_text(self.startup_preset),
            presets: self.presets@.map_values(|p: UserPreset| p@),
        }
    }
}

impl Default for Settings {
    /// The settings of a first run.
    fn default() -> (s: Settings)
        ensures
            s@ == SettingsView::empty(),
            s.wf(),
    {
        let s = Settings { last_selected_display_id: None, startup_preset: None, presets: Vec::new() };
        assert(s@.presets =~= Seq::<UserPresetView>::empty());
        s
    }
}

impl Clone for Settings {
    /// A copy of these settings.
    fn clone(&self) -> (s: Settings)
        ensures
            s@ == self@,
    {
        let mut presets: Vec<UserPreset> = Vec::new();
        let mut i: usize = 0;
        while i < self.presets.len()
            invariant
                i <= self.presets@.len(),
                presets@.len() == i,
                forall|j: int| 0 <= j < i ==> (#[trigger] presets@[j])@ == self.presets@[j]@,
            decreases self.presets@.len() - i,
        {
            presets.push(self.presets[i].clone());
            i += 1;
        }
        let s = Settings {
            last_selected_display_id: self.last_selected_display_id.clone(),
            startup_preset: self.startup_preset.clone(),
            presets,
        };
        assert(s@.presets =~= self@.presets);
        s
    }
}

impl Settings {
    /// No two presets have the same id.
    pub open spec fn wf(&self) -> bool {
        self@.wf()
    }

    /// Whether no two presets have the same id.
    pub fn has_unique_preset_ids(&self) -> (r: bool)
        ensures
            r == self.wf(),
    {
        let ghost ps = self@.presets;
        let mut i: usize = 0;
        while i < self.presets.len()
            invariant
                i <= self.presets@.len(),
                ps == self@.presets,
                forall|a: int, b: int|
                    0 <= a < i && 0 <= b < a && (#[trigger] ps[a]).id == (#[trigger] ps[b]).id
                        ==> false,
            decreases self.presets@.len() - i,
        {
            let mut j: usize = 0;
            while j < i
                invariant
                    j <= i < self.presets@.len(),
                    ps == self@.presets,
                    forall|b: int| 0 <= b < j ==> (#[trigger] ps[b]).id != ps[i as int].id,
                decreases i - j,
            {
                if self.presets[i].id == self.presets[j].id {
                    assert(ps[i as int].id == ps[j as int].id);
                    return false;
                }
                j += 1;
            }
            i += 1;
        }
        assert forall|a: int, b: int|
            0 <= a < ps.len() && 0 <= b < ps.len() && (#[trigger] ps[a]).id == (#[trigger] ps[b]).id implies a
            == b by {
            if b < a {
                assert(ps[a].id != ps[b].id);
            } else if a < b {
                assert(ps[b].id != ps[a].id);
            }
        }
        true
    }

    /// The settings to start with: those that were read, and the settings of
    /// a first run where none could be read.
    pub fn loaded_or_default(loaded: Option<Settings>) -> (s: Settings)
        ensures
            match loaded {
                Some(read) => s == read,
                None => s@ == SettingsView::empty(),
            },
    {
        match loaded {
            Some(read) => read,
            None => Settings::default(),
        }
    }
}

} // verus!
