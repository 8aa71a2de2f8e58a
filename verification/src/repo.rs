//! The repository being scaffolded: its owner, name and description, and
//! the tools that the user can select.

use vstd::prelude::*;
use crate::text::{chars_of, chars_equal};

verus! {

/// One selectable tool of the form.
pub struct ToolOption {
    /// The tool's name, as templates refer to it in `{if:<tool>}` markers.
    pub name: String,
    /// Whether the user selected the tool.
    pub checked: bool,
}

/// What the user entered about the repository to generate.
pub struct RepoBuilder {
    pub owner: String,
    pub name: String,
    pub desc: String,
    pub options: Vec<ToolOption>,
}

/// A named selection of tools that the form offers in one step.
pub struct Preset {
    /// The names of the tools that the preset selects; all others are deselected.
    pub tools: Vec<String>,
}

/// Some selected option of `options` is named `tool`.
pub open spec fn selects(options: Seq<ToolOption>, tool: Seq<char>) -> bool {
    exists|i: int| 0 <= i < options.len() && options[i].name@ == tool && options[i].checked
}

/// `preset` lists a tool named `tool`.
pub open spec fn preset_has(preset: Seq<String>, tool: Seq<char>) -> bool {
    exists|i: int| 0 <= i < preset.len() && #[trigger] preset[i]@ == tool
}

/// The selection of `options` is exactly the one that `preset` describes.
pub open spec fn matches_preset(options: Seq<ToolOption>, preset: Seq<String>) -> bool {
    forall|i: int|
        0 <= i < options.len() ==> #[trigger] options[i].checked == preset_has(
            preset,
            options[i].name@,
        )
}

/// `options` after applying `preset`: same tools, in the same order, each
/// checked exactly when the preset lists it.
pub open spec fn applied(old: Seq<ToolOption>, new: Seq<ToolOption>, preset: Seq<String>) -> bool {
    &&& new.len() == old.len()
    &&& forall|i: int| 0 <= i < old.len() ==> #[trigger] new[i].name@ == old[i].name@
    &&& matches_preset(new, preset)
}

/// Whether some name of `names` equals `tool`.
fn names_contain(names: &Vec<String>, tool: &Vec<char>) -> (r: bool)
    ensures
        r == preset_has(names@, tool@),
{
    let mut i: usize = 0;
    while i < names.len()
        invariant
            i <= names.len(),
            forall|j: int| 0 <= j < i ==> #[trigger] names@[j]@ != tool@,
        decreases names.len() - i,
    {
        let n = chars_of(names[i].as_str());
        if chars_equal(&n, tool) {
            return true;
        }
        i += 1;
    }
    false
}

impl RepoBuilder {
    /// A repository with no owner, name or description yet, offering `options`.
    pub fn new(options: Vec<ToolOption>) -> (r: RepoBuilder)
        ensures
            r.owner@.len() == 0,
            r.name@.len() == 0,
            r.desc@.len() == 0,
            r.options == options,
    {
        RepoBuilder { owner: String::new(), name: String::new(), desc: String::new(), options }
    }

    /// Whether the user selected the tool named `tool`.
    pub fn is_selected(&self, tool: &str) -> (r: bool)
        ensures
            r == selects(self.options@, tool@),
    {
        let t = chars_of(tool);
        self.is_selected_chars(&t)
    }

    /// `is_selected`, for a tool name held as characters.
    pub fn is_selected_chars(&self, tool: &Vec<char>) -> (r: bool)
        ensures
            r == selects(self.options@, tool@),
    {
        let mut i: usize = 0;
        while i < self.options.len()
            invariant
                i <= self.options.len(),
                forall|j: int|
                    0 <= j < i ==> !(#[trigger] self.options@[j].name@ == tool@
                        && self.options@[j].checked),
            decreases self.options.len() - i,
        {
            let n = chars_of(self.options[i].name.as_str());
            if self.options[i].checked && chars_equal(&n, tool) {
                return true;
            }
            i += 1;
        }
        false
    }

    /// Selects exactly the tools that `preset` lists.
    pub fn apply_preset(&mut self, preset: &Preset)
        ensures
            applied(old(self).options@, final(self).options@, preset.tools@),
            final(self).owner == old(self).owner,
            final(self).name == old(self).name,
            final(self).desc == old(self).desc,
    {
        let n = self.options.len();
        let mut i: usize = 0;
        while i < n
            invariant
                n == self.options.len() == old(self).options.len(),
                i <= n,
                self.owner == old(self).owner,
                self.name == old(self).name,
                self.desc == old(self).desc,
                forall|j: int| 0 <= j < n ==> #[trigger] self.options@[j].name@ == old(self).options@[j].name@,
                forall|j: int| i <= j < n ==> #[trigger] self.options@[j] == old(self).options@[j],
                forall|j: int|
                    0 <= j < i ==> #[trigger] self.options@[j].checked == preset_has(
                        preset.tools@,
                        self.options@[j].name@,
                    ),
            decreases n - i,
        {
            let name = chars_of(self.options[i].name.as_str());
            let on = names_contain(&preset.tools, &name);
            self.options[i].checked = on;
            i += 1;
        }
    }

    /// The index of the first of `presets` whose selection is this one.
    pub open spec fn active_preset_spec(&self, presets: Seq<Preset>) -> Option<usize> {
        if exists|k: int| 0 <= k < presets.len() && matches_preset(self.options@, #[trigger] presets[k].tools@) {
            Some(choose|k: usize|
                k < presets.len() && matches_preset(self.options@, presets[k as int].tools@)
                    && forall|j: int| 0 <= j < k ==> !matches_preset(self.options@, #[trigger] presets[j].tools@))
        } else {
            None
        }
    }

    /// The index of the first of `presets` whose selection is the current one.
    pub fn active_preset(&self, presets: &Vec<Preset>) -> (r: Option<usize>)
        ensures
            r == self.active_preset_spec(presets@),
            r matches Some(k) ==> k < presets.len() && matches_preset(self.options@, presets@[k as int].tools@)
                && forall|j: int| 0 <= j < k ==> !matches_preset(self.options@, #[trigger] presets@[j].tools@),
            r is None ==> forall|j: int| 0 <= j < presets.len() ==> !matches_preset(self.options@, #[trigger] presets@[j].tools@),
    {
        let mut k: usize = 0;
        while k < presets.len()
            invariant
                k <= presets.len(),
                forall|j: int| 0 <= j < k ==> !matches_preset(self.options@, #[trigger] presets@[j].tools@),
            decreases presets.len() - k,
        {
            if self.matches(&presets[k]) {
                return Some(k);
            }
            k += 1;
        }
        None
    }

    /// Whether the current selection is exactly the one `preset` describes.
    fn matches(&self, preset: &Preset) -> (r: bool)
        ensures
            r == matches_preset(self.options@, preset.tools@),
    {
        let mut i: usize = 0;
        while i < self.options.len()
            invariant
                i <= self.options.len(),
                forall|j: int|
                    0 <= j < i ==> #[trigger] self.options@[j].checked == preset_has(
                        preset.tools@,
                        self.options@[j].name@,
                    ),
            decreases self.options.len() - i,
        {
            let name = chars_of(self.options[i].name.as_str());
            if names_contain(&preset.tools, &name) != self.options[i].checked {
                return false;
            }
            i += 1;
        }
        true
    }
}

/// `options` offers a tool named `tool`.
pub open spec fn offers(options: Seq<ToolOption>, tool: Seq<char>) -> bool {
    exists|i: int| 0 <= i < options.len() && #[trigger] options[i].name@ == tool
}

/// After a preset is applied, a tool is selected exactly when the form
/// offers it and the preset lists it.
pub proof fn lemma_applied_preset_selects(
    old: Seq<ToolOption>,
    new: Seq<ToolOption>,
    preset: Seq<String>,
    tool: Seq<char>,
)
    requires
        applied(old, new, preset),
    ensures
        selects(new, tool) <==> offers(old, tool) && preset_has(preset, tool),
{
    if offers(old, tool) && preset_has(preset, tool) {
        let i = choose|i: int| 0 <= i < old.len() && #[trigger] old[i].name@ == tool;
        assert(new[i].name@ == tool);
        assert(new[i].checked);
    }
    if selects(new, tool) {
        let i = choose|i: int| 0 <= i < new.len() && new[i].name@ == tool && new[i].checked;
        assert(old[i].name@ == new[i].name@);
    }
}

} // verus!
