//! The 6 sections of the sidebar, in their frozen order.
use vstd::prelude::*;

use crate::text::str_eq;

verus! {

broadcast use vstd::string::group_string_axioms;

/// A navigation section. The declaration order IS the display order.
#[derive(Debug, Clone, Copy, PartialEq, Eq, Structural)]
pub enum Section {
    Home,
    News,
    History,
    Schedule,
    Voices,
    About,
}

/// Position of a section in the frozen order.
pub open spec fn section_index(s: Section) -> int {
    match s {
        Section::Home => 0,
        Section::News => 1,
        Section::History => 2,
        Section::Schedule => 3,
        Section::Voices => 4,
        Section::About => 5,
    }
}

/// The section at a position of the frozen order.
pub open spec fn section_at(i: int) -> Option<Section> {
    if i == 0 {
        Some(Section::Home)
    } else if i == 1 {
        Some(Section::News)
    } else if i == 2 {
        Some(Section::History)
    } else if i == 3 {
        Some(Section::Schedule)
    } else if i == 4 {
        Some(Section::Voices)
    } else if i == 5 {
        Some(Section::About)
    } else {
        None
    }
}

pub open spec fn section_id(s: Section) -> Seq<char> {
    match s {
        Section::Home => "home"@,
        Section::News => "news"@,
        Section::History => "history"@,
        Section::Schedule => "schedule"@,
        Section::Voices => "voices"@,
        Section::About => "about"@,
    }
}

impl Section {
    /// The 6 sections in their exact order (Accueil → À propos).
    pub const ALL: [Section; 6] = [
        Section::Home,
        Section::News,
        Section::History,
        Section::Schedule,
        Section::Voices,
        Section::About,
    ];

    /// Technical identifier (page name of the view stack).
    pub fn id(self) -> (r: &'static str)
        ensures
            r@ == section_id(self),
    {
        match self {
            Section::Home => "home",
            Section::News => "news",
            Section::History => "history",
            Section::Schedule => "schedule",
            Section::Voices => "voices",
            Section::About => "about",
        }
    }

    /// Displayed label.
    pub fn title(self) -> (r: &'static str)
        ensures
            self == Section::Home ==> r@ == "Accueil"@,
            self == Section::News ==> r@ == "Actualités"@,
            self == Section::History ==> r@ == "Historique"@,
            self == Section::Schedule ==> r@ == "Grille"@,
            self == Section::Voices ==> r@ == "Voix & Formats"@,
            self == Section::About ==> r@ == "À propos"@,
    {
        match self {
            Section::Home => "Accueil",
            Section::News => "Actualités",
            Section::History => "Historique",
            Section::Schedule => "Grille",
            Section::Voices => "Voix & Formats",
            Section::About => "À propos",
        }
    }

    /// Symbolic icon name.
    pub fn icon_name(self) -> (r: &'static str)
        ensures
            self == Section::Home ==> r@ == "go-home-symbolic"@,
            self == Section::News ==> r@ == "mail-unread-symbolic"@,
            self == Section::History ==> r@ == "document-open-recent-symbolic"@,
            self == Section::Schedule ==> r@ == "x-office-calendar-symbolic"@,
            self == Section::Voices ==> r@ == "audio-input-microphone-symbolic"@,
            self == Section::About ==> r@ == "help-about-symbolic"@,
    {
        match self {
            Section::Home => "go-home-symbolic",
            Section::News => "mail-unread-symbolic",
            Section::History => "document-open-recent-symbolic",
            Section::Schedule => "x-office-calendar-symbolic",
            Section::Voices => "audio-input-microphone-symbolic",
            Section::About => "help-about-symbolic",
        }
    }

    /// The section at a sidebar row index.
    pub fn from_index(index: i32) -> (r: Option<Section>)
        ensures
            r == section_at(index as int),
    {
        match index {
            0 => Some(Section::Home),
            1 => Some(Section::News),
            2 => Some(Section::History),
            3 => Some(Section::Schedule),
            4 => Some(Section::Voices),
            5 => Some(Section::About),
            _ => None,
        }
    }

    /// The section with a technical identifier.
    pub fn from_id(id: &str) -> (r: Option<Section>)
        ensures
            r matches Some(s) ==> section_id(s) == id@,
            r is None ==> forall|s: Section| section_id(s) != id@,
    {
        if str_eq(id, "home") {
            Some(Section::Home)
        } else if str_eq(id, "news") {
            Some(Section::News)
        } else if str_eq(id, "history") {
            Some(Section::History)
        } else if str_eq(id, "schedule") {
            Some(Section::Schedule)
        } else if str_eq(id, "voices") {
            Some(Section::Voices)
        } else if str_eq(id, "about") {
            Some(Section::About)
        } else {
            assert forall|s: Section| section_id(s) != id@ by {
                match s {
                    Section::Home => {},
                    Section::News => {},
                    Section::History => {},
                    Section::Schedule => {},
                    Section::Voices => {},
                    Section::About => {},
                }
            }
            None
        }
    }

    /// Index in the frozen order (= sidebar row index).
    pub fn index(self) -> (r: i32)
        ensures
            r == section_index(self),
    {
        match self {
            Section::Home => 0,
            Section::News => 1,
            Section::History => 2,
            Section::Schedule => 3,
            Section::Voices => 4,
            Section::About => 5,
        }
    }
}

/// Index and section are inverse: every section sits at its index, and the indices
/// `0..6` are exactly the positions that hold a section.
pub proof fn section_order_round_trips(s: Section, i: int)
    ensures
        section_at(section_index(s)) == Some(s),
        0 <= section_index(s) < 6,
        section_at(i) is Some <==> 0 <= i < 6,
        section_at(i) matches Some(t) ==> section_index(t) == i,
{
}

/// Identifiers are distinct, so an identifier names at most one section.
pub proof fn section_ids_are_distinct(s: Section, t: Section)
    ensures
        section_id(s) == section_id(t) ==> s == t,
{
    reveal_strlit("home");
    reveal_strlit("news");
    reveal_strlit("history");
    reveal_strlit("schedule");
    reveal_strlit("voices");
    reveal_strlit("about");
    assert("home"@[0] == 'h' && "news"@[0] == 'n' && "history"@[0] == 'h' && "schedule"@[0] == 's'
        && "voices"@[0] == 'v' && "about"@[0] == 'a');
    assert("home"@.len() == 4 && "history"@.len() == 7 && "schedule"@.len() == 8);
    if section_id(s) == section_id(t) {
        assert(section_id(s)[0] == section_id(t)[0]);
        assert(section_id(s).len() == section_id(t).len());
    }
}

} // verus!
