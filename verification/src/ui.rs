//! The sections of the server's window and what flows to a buffer's status
//! channel.

use vstd::prelude::*;

verus! {

/// The sections of the window, in the order they are listed.
#[derive(Debug, Clone, Copy, PartialEq, Eq, Structural, PartialOrd, Ord)]
pub enum UiSectionSelection {
    Home,
    Agents,
    Documents,
    Database,
}

impl Default for UiSectionSelection {
    /// The window opens on the home section.
    fn default() -> (s: Self)
        ensures
            s == UiSectionSelection::Home,
    {
        UiSectionSelection::Home
    }
}

impl UiSectionSelection {
    /// The section's name, as its tab shows it.
    pub fn as_ref(&self) -> (s: &'static str)
        ensures
            s@ == section_name(*self),
    {
        match self {
            UiSectionSelection::Home => "Home",
            UiSectionSelection::Agents => "Agents",
            UiSectionSelection::Documents => "Documents",
            UiSectionSelection::Database => "Database",
        }
    }

    /// Every section, in the order they are listed.
    pub fn all_variants() -> (v: Vec<Self>)
        ensures
            v@ == seq![
                UiSectionSelection::Home,
                UiSectionSelection::Agents,
                UiSectionSelection::Documents,
                UiSectionSelection::Database,
            ],
    {
        let v = vec![
            UiSectionSelection::Home,
            UiSectionSelection::Agents,
            UiSectionSelection::Documents,
            UiSectionSelection::Database,
        ];
        assert(v@ =~= seq![
            UiSectionSelection::Home,
            UiSectionSelection::Agents,
            UiSectionSelection::Documents,
            UiSectionSelection::Database,
        ]);
        v
    }
}

pub open spec fn section_name(s: UiSectionSelection) -> Seq<char> {
    match s {
        UiSectionSelection::Home => "Home"@,
        UiSectionSelection::Agents => "Agents"@,
        UiSectionSelection::Documents => "Documents"@,
        UiSectionSelection::Database => "Database"@,
    }
}

/// Each section is listed exactly once, and no two sections share a name.
pub proof fn lemma_sections_listed_once()
    ensures
        forall|s: UiSectionSelection|
            #![trigger section_name(s)]
            seq![
                UiSectionSelection::Home,
                UiSectionSelection::Agents,
                UiSectionSelection::Documents,
                UiSectionSelection::Database,
            ].contains(s),
        forall|a: UiSectionSelection, b: UiSectionSelection|
            a != b ==> section_name(a) != section_name(b),
{
    reveal_strlit("Home");
    reveal_strlit("Agents");
    reveal_strlit("Documents");
    reveal_strlit("Database");
    let all = seq![
        UiSectionSelection::Home,
        UiSectionSelection::Agents,
        UiSectionSelection::Documents,
        UiSectionSelection::Database,
    ];
    assert forall|s: UiSectionSelection| #![trigger section_name(s)] all.contains(s) by {
        match s {
            UiSectionSelection::Home => assert(all[0] == s),
            UiSectionSelection::Agents => assert(all[1] == s),
            UiSectionSelection::Documents => assert(all[2] == s),
            UiSectionSelection::Database => assert(all[3] == s),
        }
    }
    assert forall|a: UiSectionSelection, b: UiSectionSelection|
        a != b implies section_name(a) != section_name(b) by {
        assert(section_name(a).len() != section_name(b).len() || section_name(a)[0] != section_name(
            b,
        )[0] || section_name(a)[1] != section_name(b)[1]);
    }
}

/// The home section keeps no state.
#[derive(Debug, Default, Clone, Copy, PartialEq, Eq)]
pub struct HomeSectionState;

/// What a buffer's status channel carries: an operation being worked on, or
/// the end of the work.
#[derive(Debug, Clone, PartialEq, Eq)]
pub enum BufferOpChannelStatus<Op> {
    Working(Op),
    Finished,
}

impl<Op> BufferOpChannelStatus<Op> {
    /// The status of working on `value`.
    pub fn from_operation(value: Op) -> (s: Self)
        ensures
            s == BufferOpChannelStatus::Working(value),
    {
        BufferOpChannelStatus::Working(value)
    }
}

} // verus!
