use vstd::prelude::*;
use crate::common::Entity;

verus! {

/// The tabs of the editor window.
#[derive(Clone, Copy, Debug, PartialEq, Eq, Structural)]
pub enum EditorTab {
    General,
    Summonings,
}

impl EditorTab {
    /// Every tab, in the order the window shows them.
    pub fn all() -> (r: [EditorTab; 2])
        ensures
            r@ == seq![EditorTab::General, EditorTab::Summonings],
    {
        [EditorTab::General, EditorTab::Summonings]
    }

    pub open spec fn spec_name(self) -> Seq<char> {
        match self {
            EditorTab::General => "General"@,
            EditorTab::Summonings => "Summonings"@,
        }
    }

    /// The tab's label.
    pub fn as_ref(&self) -> (r: &'static str)
        ensures
            r@ == self.spec_name(),
    {
        match self {
            EditorTab::General => "General",
            EditorTab::Summonings => "Summonings",
        }
    }
}

impl Default for EditorTab {
    fn default() -> (r: Self)
        ensures
            r == EditorTab::General,
    {
        EditorTab::General
    }
}

/// What the editor window shows.
#[derive(Clone, Copy, Debug, PartialEq, Eq, Structural)]
pub struct EditorState {
    pub active_tab: EditorTab,
    pub selected_summoning: Option<Entity>,
}

impl Default for EditorState {
    fn default() -> (r: Self)
        ensures
            r.active_tab == EditorTab::General,
            r.selected_summoning is None,
    {
        EditorState { active_tab: EditorTab::General, selected_summoning: None }
    }
}

} // verus!
