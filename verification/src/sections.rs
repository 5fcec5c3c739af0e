//! The sections of the settings window, how a search selects them, and the build
//! information shown in the General section.
use vstd::prelude::*;

use crate::text::{
    chars_of, contains_chars, contains_seq, lowercase_range, slices, split_bounds, split_on,
    string_of, to_ascii_lowercase, trim, trim_bounds,
};

verus! {

/// A section of the settings window.
#[derive(Clone, Copy, Debug, PartialEq, Eq, Structural)]
pub enum Section {
    Account,
    General,
    Appearance,
    Input,
    Network,
    Security,
    DefaultApps,
    Applications,
}

/// The symbol shown beside a section in the sidebar.
#[derive(Clone, Copy, Debug, PartialEq, Eq)]
pub enum SectionSymbol {
    Info,
    Paintbrush,
    Keyboard,
    Network,
    Grid,
}

/// The position of `s` in the order of the sections.
pub open spec fn section_index(s: Section) -> usize {
    match s {
        Section::Account => 0,
        Section::General => 1,
        Section::Appearance => 2,
        Section::Input => 3,
        Section::Network => 4,
        Section::Security => 5,
        Section::DefaultApps => 6,
        Section::Applications => 7,
    }
}

/// The section at position `i`; positions past the last section give the General section.
pub open spec fn section_at(i: usize) -> Section {
    if i == 0 {
        Section::Account
    } else if i == 1 {
        Section::General
    } else if i == 2 {
        Section::Appearance
    } else if i == 3 {
        Section::Input
    } else if i == 4 {
        Section::Network
    } else if i == 5 {
        Section::Security
    } else if i == 6 {
        Section::DefaultApps
    } else if i == 7 {
        Section::Applications
    } else {
        Section::General
    }
}

/// The title of `s`.
pub open spec fn section_label(s: Section) -> Seq<char> {
    match s {
        Section::Account => "Account"@,
        Section::General => "General"@,
        Section::Appearance => "Appearance"@,
        Section::Input => "Input"@,
        Section::Network => "Network"@,
        Section::Security => "Security"@,
        Section::DefaultApps => "Default Apps"@,
        Section::Applications => "Applications"@,
    }
}

/// The description of `s`.
pub open spec fn section_description(s: Section) -> Seq<char> {
    match s {
        Section::Account => "Users, passwords, and sign-in options"@,
        Section::General => "Device, language, region, date, and system information"@,
        Section::Appearance => "Theme, accent, wallpaper, and interface sizing"@,
        Section::Input => "Keyboard, mouse, touchpad, and shortcuts"@,
        Section::Network => "Ethernet, Wi-Fi, addressing, DNS, and proxy"@,
        Section::Security => "Certificates, trust, execution policy, and events"@,
        Section::DefaultApps => "Choose which application opens each file type"@,
        Section::Applications => "Review and revoke application capabilities"@,
    }
}

/// Whether the search `query` selects `s`: an empty query selects every section, and
/// otherwise the query, trimmed, must occur in the title or the description, without
/// regard to the case of ASCII letters.
pub open spec fn matches_search(s: Section, query: Seq<char>) -> bool {
    let q = to_ascii_lowercase(trim(query));
    q.len() == 0 || contains_seq(to_ascii_lowercase(section_label(s)), q) || contains_seq(
        to_ascii_lowercase(section_description(s)),
        q,
    )
}

impl Section {
    /// The position of the section in the order of the sections.
    pub fn index(self) -> (i: usize)
        ensures
            i == section_index(self),
    {
        match self {
            Section::Account => 0,
            Section::General => 1,
            Section::Appearance => 2,
            Section::Input => 3,
            Section::Network => 4,
            Section::Security => 5,
            Section::DefaultApps => 6,
            Section::Applications => 7,
        }
    }

    /// The section at position `index`; positions past the last section give General.
    pub fn from_index(index: usize) -> (s: Section)
        ensures
            s == section_at(index),
    {
        match index {
            0 => Section::Account,
            1 => Section::General,
            2 => Section::Appearance,
            3 => Section::Input,
            4 => Section::Network,
            5 => Section::Security,
            6 => Section::DefaultApps,
            7 => Section::Applications,
            _ => Section::General,
        }
    }

    /// The title of the section.
    pub fn label(self) -> (l: &'static str)
        ensures
            l@ == section_label(self),
    {
        match self {
            Section::Account => "Account",
            Section::General => "General",
            Section::Appearance => "Appearance",
            Section::Input => "Input",
            Section::Network => "Network",
            Section::Security => "Security",
            Section::DefaultApps => "Default Apps",
            Section::Applications => "Applications",
        }
    }

    /// The description of the section.
    pub fn description(self) -> (d: &'static str)
        ensures
            d@ == section_description(self),
    {
        match self {
            Section::Account => "Users, passwords, and sign-in options",
            Section::General => "Device, language, region, date, and system information",
            Section::Appearance => "Theme, accent, wallpaper, and interface sizing",
            Section::Input => "Keyboard, mouse, touchpad, and shortcuts",
            Section::Network => "Ethernet, Wi-Fi, addressing, DNS, and proxy",
            Section::Security => "Certificates, trust, execution policy, and events",
            Section::DefaultApps => "Choose which application opens each file type",
            Section::Applications => "Review and revoke application capabilities",
        }
    }

    /// The symbol shown beside the section, if any.
    pub fn symbol(self) -> (s: Option<SectionSymbol>)
        ensures
            s == match self {
                Section::General => Some(SectionSymbol::Info),
                Section::Appearance => Some(SectionSymbol::Paintbrush),
                Section::Input => Some(SectionSymbol::Keyboard),
                Section::Network => Some(SectionSymbol::Network),
                Section::Applications => Some(SectionSymbol::Grid),
                _ => None::<SectionSymbol>,
            },
    {
        match self {
            Section::General => Some(SectionSymbol::Info),
            Section::Appearance => Some(SectionSymbol::Paintbrush),
            Section::Input => Some(SectionSymbol::Keyboard),
            Section::Network => Some(SectionSymbol::Network),
            Section::Applications => Some(SectionSymbol::Grid),
            Section::Account | Section::Security | Section::DefaultApps => None,
        }
    }
}

/// The position of a section and the section at that position correspond.
pub proof fn lemma_section_index_round_trip(s: Section, i: usize)
    ensures
        section_at(section_index(s)) == s,
        i <= 7 ==> section_index(section_at(i)) == i,
{
}

/// Whether `query`, whose trimmed lower-case text is `q`, selects the section `s`.
fn matches_lowered(s: Section, q: &Vec<char>) -> (b: bool)
    ensures
        b == (q@.len() == 0 || contains_seq(to_ascii_lowercase(section_label(s)), q@) || contains_seq(
            to_ascii_lowercase(section_description(s)),
            q@,
        )),
{
    if q.len() == 0 {
        return true;
    }
    let l = chars_of(s.label());
    assert(l@.subrange(0, l@.len() as int) == l@);
    let label = lowercase_range(&l, 0, l.len());
    if contains_chars(&label, q) {
        return true;
    }
    let d = chars_of(s.description());
    assert(d@.subrange(0, d@.len() as int) == d@);
    let description = lowercase_range(&d, 0, d.len());
    contains_chars(&description, q)
}

/// The trimmed lower-case text of `query`.
fn lowered_query(query: &str) -> (q: Vec<char>)
    ensures
        q@ == to_ascii_lowercase(trim(query@)),
{
    let v = chars_of(query);
    assert(v@.subrange(0, v@.len() as int) == v@);
    let (a, b) = trim_bounds(&v, 0, v.len());
    lowercase_range(&v, a, b)
}

/// Whether the search `query` selects the section `section`.
pub fn section_matches_search(section: Section, query: &str) -> (b: bool)
    ensures
        b == matches_search(section, query@),
{
    let q = lowered_query(query);
    matches_lowered(section, &q)
}

/// The sections of the group Personal, in order.
pub open spec fn primary_sections() -> Seq<Section> {
    seq![Section::Account, Section::General, Section::Appearance, Section::Input, Section::Network]
}

/// The sections of the group System, in order.
pub open spec fn system_sections() -> Seq<Section> {
    seq![Section::Security, Section::DefaultApps, Section::Applications]
}

/// The sections of `all` that `query` selects, in order.
pub open spec fn selected_sections(all: Seq<Section>, query: Seq<char>) -> Seq<Section>
    decreases all.len(),
{
    if all.len() == 0 {
        seq![]
    } else if matches_search(all.last(), query) {
        selected_sections(all.drop_last(), query).push(all.last())
    } else {
        selected_sections(all.drop_last(), query)
    }
}

/// The sections of `all` that `query` selects, in order.
fn select_sections(all: Vec<Section>, query: &str) -> (out: Vec<Section>)
    ensures
        out@ == selected_sections(all@, query@),
{
    let mut out: Vec<Section> = Vec::new();
    let mut i: usize = 0;
    while i < all.len()
        invariant
            i <= all@.len(),
            out@ == selected_sections(all@.take(i as int), query@),
        decreases all.len() - i,
    {
        assert(all@.take(i + 1).drop_last() == all@.take(i as int));
        if section_matches_search(all[i], query) {
            out.push(all[i]);
        }
        i = i + 1;
    }
    assert(all@.take(all@.len() as int) == all@);
    out
}

/// The sections the sidebar lists under Personal and under System while the section at
/// `current` is shown and `search` is typed: those the search selects, except that the
/// search, which on the Applications section filters applications, selects every
/// section there.
pub fn sidebar_sections(current: usize, search: &str) -> (r: (Vec<Section>, Vec<Section>))
    ensures
        section_at(current) == Section::Applications ==> r.0@ == selected_sections(primary_sections(), ""@)
            && r.1@ == selected_sections(system_sections(), ""@),
        section_at(current) != Section::Applications ==> r.0@ == selected_sections(
            primary_sections(),
            trim(search@),
        ) && r.1@ == selected_sections(system_sections(), trim(search@)),
{
    let v = chars_of(search);
    assert(v@.subrange(0, v@.len() as int) == v@);
    let query = if Section::from_index(current) == Section::Applications {
        String::new()
    } else {
        let (a, b) = trim_bounds(&v, 0, v.len());
        string_of(&v, a, b)
    };
    proof {
        if section_at(current) == Section::Applications {
            assert(query@ == ""@) by {
                reveal_strlit("");
            }
        }
    }
    let primary = vec![Section::Account, Section::General, Section::Appearance, Section::Input, Section::Network];
    let system = vec![Section::Security, Section::DefaultApps, Section::Applications];
    assert(primary@ == primary_sections());
    assert(system@ == system_sections());
    (select_sections(primary, query.as_str()), select_sections(system, query.as_str()))
}

/// The line at position `index` of the build information `metadata` (lines separated by
/// line feeds), or `unavailable` when there is no such line.
pub open spec fn metadata_line(metadata: Seq<char>, index: int) -> Seq<char> {
    let lines = split_on(metadata, '\n');
    if 0 <= index < lines.len() {
        lines[index]
    } else {
        "unavailable"@
    }
}

/// The line at position `index` of the build information `metadata`.
pub fn build_metadata(metadata: &str, index: usize) -> (line: String)
    ensures
        line@ == metadata_line(metadata@, index as int),
{
    let v = chars_of(metadata);
    assert(v@.subrange(0, v@.len() as int) == v@);
    let pieces = split_bounds(&v, 0, v.len(), '\n');
    if index < pieces.len() {
        let (a, b) = pieces[index];
        assert(pieces@[index as int] == (a, b));
        assert(slices(v@, pieces@)[index as int] == v@.subrange(a as int, b as int));
        string_of(&v, a, b)
    } else {
        String::from_str("unavailable")
    }
}

} // verus!
