//! The task-runner tool that the generator offers.

use vstd::prelude::*;
use crate::repo::ToolOption;
use crate::text::string_of;

verus! {

/// The group a tool is listed under.
#[derive(Clone, Copy, Debug, PartialEq, Eq, Structural)]
pub enum Category {
    Build,
}

impl Category {
    /// The name a category is shown under.
    pub open spec fn label_spec(self) -> Seq<char> {
        match self {
            Category::Build => seq!['B', 'u', 'i', 'l', 'd'],
        }
    }
}

/// The text of a category's badge, a pill: its name with a space on each side.
pub fn badge_text(category: Category) -> (t: String)
    ensures
        t@ == seq![' '] + category.label_spec() + seq![' '],
{
    let v = match category {
        Category::Build => vec![' ', 'B', 'u', 'i', 'l', 'd', ' '],
    };
    assert(v@ =~= seq![' '] + category.label_spec() + seq![' ']);
    string_of(&v)
}

/// Task runner recipes: check, lint, fmt, ci.
#[derive(Clone, Copy, Debug)]
pub struct Just;

impl Just {
    /// The tool's name, which templates use in their `{if:justfile}` markers.
    pub fn name(&self) -> (n: String)
        ensures
            n@ == "justfile"@,
    {
        "justfile".to_owned()
    }

    /// One line on what the tool sets up.
    pub fn desc(&self) -> (d: String)
        ensures
            d@ == "Task runner recipes: check, lint, fmt, ci."@,
    {
        "Task runner recipes: check, lint, fmt, ci.".to_owned()
    }

    /// The group the tool is listed under.
    pub fn category(&self) -> (c: Category)
        ensures
            c == Category::Build,
    {
        Category::Build
    }

    /// Whether the tool is selected before the user changes anything.
    pub fn default_setup(&self) -> (on: bool)
        ensures
            on,
    {
        true
    }

    /// The form's option for this tool, checked as it is by default.
    pub fn option(&self) -> (o: ToolOption)
        ensures
            o.name@ == "justfile"@,
            o.checked,
    {
        ToolOption { name: self.name(), checked: self.default_setup() }
    }
}

} // verus!
