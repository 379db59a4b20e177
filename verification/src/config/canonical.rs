//! Canonical configuration text.

use vstd::prelude::*;

use crate::config::assembly;
use crate::config::error;
use crate::config::error::ConfigError;
use crate::config::inheritance;
use crate::config::module;
use crate::config::module::ModuleConfig;
use crate::config::option;
use crate::config::option::Scope;
use crate::config::rules;
use crate::config::rules::LayerRules;
use crate::config::schema;
use crate::config::section;
use crate::config::section::RawSection;
use crate::config::softkey;
use crate::text;

verus! {

// ---------------------------------------------------------------------------
// Values

/// A text with a backslash before every quote and every backslash.
pub open spec fn escaped(s: text::Text) -> text::Text
    decreases s.len(),
{
    if s.len() == 0 {
        s
    } else {
        let head = escaped(s.drop_last());
        if s.last() == '"' || s.last() == '\\' {
            head.push('\\').push(s.last())
        } else {
            head.push(s.last())
        }
    }
}

/// A text with a backslash before every quote.
pub open spec fn quotes_escaped(s: text::Text) -> text::Text
    decreases s.len(),
{
    if s.len() == 0 {
        s
    } else {
        let head = quotes_escaped(s.drop_last());
        if s.last() == '"' {
            head.push('\\').push('"')
        } else {
            head.push(s.last())
        }
    }
}

/// Whether a written text is read as a value: no comment begins in it, and it
/// stands for the value.
pub open spec fn is_read_as(written: text::Text, v: text::Text) -> bool {
    &&& section::without_comment(written) == written
    &&& section::unquoted(written) == v
}

/// Whether a value cannot be written as it stands.
pub open spec fn is_ambiguous(s: text::Text) -> bool {
    ||| text::trimmed(s) != s
    ||| s.contains(';')
    ||| text::starts_with(s, "#"@)
    ||| section::is_quoted(s)
}

/// A value as it is written. Between quotes its backslashes stand as they are,
/// unless it would then be read as another value.
pub open spec fn written(s: text::Text) -> text::Text {
    let quoted = "\""@ + quotes_escaped(s) + "\""@;
    if !is_ambiguous(s) {
        s
    } else if is_read_as(quoted, s) {
        quoted
    } else {
        "\""@ + escaped(s) + "\""@
    }
}

/// Writes a backslash before every quote and every backslash.
fn escape(s: &str) -> (r: String)
    ensures
        r@ == escaped(s@),
{
    let v = text::to_chars(s);
    let mut r = String::new();
    let mut i: usize = 0;
    assert(s@.take(0) =~= Seq::empty());
    assert(r@ =~= Seq::empty());
    while i < v.len()
        invariant
            v@ == s@,
            i <= v@.len(),
            r@ == escaped(s@.take(i as int)),
        decreases v.len() - i,
    {
        assert(s@.take(i + 1).drop_last() =~= s@.take(i as int));
        if v[i] == '"' || v[i] == '\\' {
            r.push('\\');
        }
        r.push(v[i]);
        i += 1;
    }
    assert(s@.take(i as int) =~= s@);
    r
}

/// Writes a backslash before every quote.
fn escape_quotes(s: &str) -> (r: String)
    ensures
        r@ == quotes_escaped(s@),
{
    let v = text::to_chars(s);
    let mut r = String::new();
    let mut i: usize = 0;
    assert(s@.take(0) =~= Seq::empty());
    assert(r@ =~= Seq::empty());
    while i < v.len()
        invariant
            v@ == s@,
            i <= v@.len(),
            r@ == quotes_escaped(s@.take(i as int)),
        decreases v.len() - i,
    {
        assert(s@.take(i + 1).drop_last() =~= s@.take(i as int));
        if v[i] == '"' {
            r.push('\\');
        }
        r.push(v[i]);
        i += 1;
    }
    assert(s@.take(i as int) =~= s@);
    r
}

/// Writes a value, between quotes where it would not be read back otherwise.
pub fn value(s: &str) -> (r: String)
    ensures
        r@ == written(s@),
{
    if !text::same(text::trim(s).as_str(), s) || text::contains_char(s, ';') || text::has_prefix(
        s,
        "#",
    ) || section::stands_quoted(s) {
        let quoted = error::cat3("\"", escape_quotes(s).as_str(), "\"");
        if text::same(section::strip_inline_comment(quoted.as_str()).as_str(), quoted.as_str())
            && text::same(section::unquote(quoted.as_str()).as_str(), s) {
            quoted
        } else {
            error::cat3("\"", escape(s).as_str(), "\"")
        }
    } else {
        text::copy(s)
    }
}

/// Reduces a profile name.
pub fn profile_name(raw: &str) -> (r: String)
    ensures
        r@ == softkey::name_of_profile(raw@),
{
    softkey::canonical_profile_name(raw)
}

// ---------------------------------------------------------------------------
// Entries

/// A setting by its canonical name.
pub struct CanonicalEntry {
    pub key: String,
    pub value: String,
}

pub struct CanonicalEntryView {
    pub key: text::Text,
    pub value: text::Text,
}

impl DeepView for CanonicalEntry {
    type V = CanonicalEntryView;

    open spec fn deep_view(&self) -> CanonicalEntryView {
        CanonicalEntryView { key: self.key@, value: self.value@ }
    }
}

/// The settings of a section by the canonical names of their options.
pub open spec fn option_entries(o: option::OptionsView) -> Seq<CanonicalEntryView> {
    Seq::new(
        o.settings.len(),
        |i: int|
            CanonicalEntryView {
                key: option::canonical_name(o.settings[i]),
                value: o.section.values[i].value,
            },
    )
}

/// The settings of a section by their names in lower case.
pub open spec fn field_entries(s: section::RawSectionView) -> Seq<CanonicalEntryView> {
    Seq::new(
        s.values.len(),
        |i: int| CanonicalEntryView { key: text::lower(s.values[i].key), value: s.values[i].value },
    )
}

/// The settings of a section of options by their canonical names.
pub open spec fn scope_entries(scope: Scope, s: section::RawSectionView) -> Result<
    Seq<CanonicalEntryView>,
    error::ErrorView,
> {
    match option::decoded(scope, s) {
        Err(e) => Err(e),
        Ok(o) => Ok(option_entries(o)),
    }
}

/// The settings of a section of a kind by their canonical names.
pub open spec fn entries_of(s: section::RawSectionView, kind: text::Text) -> Result<
    Seq<CanonicalEntryView>,
    error::ErrorView,
> {
    if kind == "general"@ {
        scope_entries(Scope::General, s)
    } else if kind == "device"@ {
        scope_entries(Scope::Device, s)
    } else if kind == "line"@ {
        scope_entries(Scope::Line, s)
    } else if kind == "softkey_profile"@ {
        match schema::first_fault(s, softkey::profile_fields(), 0) {
            Some(e) => Err(e),
            None => Ok(field_entries(s)),
        }
    } else {
        Err(error::ErrorView::UnknownSectionType { section: s.name, kind })
    }
}

/// The settings of a section of options by their canonical names.
fn typed_entries(scope: Scope, s: &RawSection) -> (r: Result<Vec<CanonicalEntry>, ConfigError>)
    ensures
        error::outcome(r) == scope_entries(scope, s.deep_view()),
{
    let o = match option::deserialize_entries(scope, s) {
        Ok(o) => o,
        Err(e) => return Err(e),
    };
    let ghost whole = option_entries(o.deep_view());
    let mut r: Vec<CanonicalEntry> = Vec::new();
    let mut i: usize = 0;
    assert(r.deep_view() =~= whole.take(0));
    while i < o.settings.len()
        invariant
            o.deep_view().matched(),
            whole == option_entries(o.deep_view()),
            i <= o.settings@.len(),
            r.deep_view() == whole.take(i as int),
        decreases o.settings.len() - i,
    {
        let entry = o.entry(i);
        let ghost before = r.deep_view();
        let x = CanonicalEntry {
            key: text::copy(option::serialized_key(entry.key)),
            value: text::copy(entry.value()),
        };
        r.push(x);
        assert(r.deep_view() =~= before.push(x.deep_view()));
        i += 1;
        assert(r.deep_view() =~= whole.take(i as int));
    }
    assert(whole.take(i as int) =~= whole);
    Ok(r)
}

/// The settings of a section by their names in lower case.
fn lower_entries(s: &RawSection) -> (r: Vec<CanonicalEntry>)
    ensures
        r.deep_view() == field_entries(s.deep_view()),
{
    let ghost whole = field_entries(s.deep_view());
    let mut r: Vec<CanonicalEntry> = Vec::new();
    let mut i: usize = 0;
    assert(r.deep_view() =~= whole.take(0));
    while i < s.values.len()
        invariant
            whole == field_entries(s.deep_view()),
            i <= s.values@.len(),
            r.deep_view() == whole.take(i as int),
        decreases s.values.len() - i,
    {
        assert(s.deep_view().values[i as int] == s.values@[i as int].deep_view());
        let ghost before = r.deep_view();
        let x = CanonicalEntry {
            key: text::to_ascii_lowercase(s.values[i].key.as_str()),
            value: text::copy(s.values[i].value.as_str()),
        };
        r.push(x);
        assert(r.deep_view() =~= before.push(x.deep_view()));
        i += 1;
        assert(r.deep_view() =~= whole.take(i as int));
    }
    assert(whole.take(i as int) =~= whole);
    r
}

/// The settings of a section of a kind by their canonical names.
pub fn canonical_section_entries(s: &RawSection, kind: &str) -> (r: Result<
    Vec<CanonicalEntry>,
    ConfigError,
>)
    ensures
        error::outcome(r) == entries_of(s.deep_view(), kind@),
{
    if text::same(kind, "general") {
        typed_entries(Scope::General, s)
    } else if text::same(kind, "device") {
        typed_entries(Scope::Device, s)
    } else if text::same(kind, "line") {
        typed_entries(Scope::Line, s)
    } else if text::same(kind, "softkey_profile") {
        match schema::check_section(s, &softkey::soft_key_fields()) {
            Some(e) => Err(e),
            None => Ok(lower_entries(s)),
        }
    } else {
        Err(
            ConfigError::UnknownSectionType {
                section: text::copy(s.name.as_str()),
                kind: text::copy(kind),
            },
        )
    }
}

// ---------------------------------------------------------------------------
// Order of sections

/// The kind of a section, in lower case, where it says one.
pub open spec fn kind_of(s: section::RawSectionView) -> Option<text::Text> {
    if assembly::is_general(s) {
        Some("general"@)
    } else {
        match section::value_of(s, "type"@) {
            Some(kind) => Some(text::lower(kind)),
            None => None,
        }
    }
}

/// The kind of a section, in lower case, where it says one.
fn section_kind(s: &RawSection) -> (r: Option<String>)
    ensures
        r.deep_view() == kind_of(s.deep_view()),
{
    if assembly::general_section(s) {
        return Some(text::copy("general"));
    }
    match s.value("type") {
        Some(kind) => Some(text::to_ascii_lowercase(kind.as_str())),
        None => None,
    }
}

/// The rank of a section: general, profiles, devices, lines, others.
pub open spec fn rank(s: section::RawSectionView) -> u8 {
    match kind_of(s) {
        Some(kind) => if kind == "general"@ {
            0
        } else if kind == "softkey_profile"@ {
            1
        } else if kind == "device"@ {
            2
        } else if kind == "line"@ {
            3
        } else {
            4
        },
        None => 4,
    }
}

/// The rank of a section.
pub fn canonical_section_rank(s: &RawSection) -> (r: u8)
    ensures
        r == rank(s.deep_view()),
{
    match section_kind(s) {
        Some(kind) => {
            let k = kind.as_str();
            if text::same(k, "general") {
                0
            } else if text::same(k, "softkey_profile") {
                1
            } else if text::same(k, "device") {
                2
            } else if text::same(k, "line") {
                3
            } else {
                4
            }
        },
        None => 4,
    }
}

/// Whether a section is written before another: by rank, then by name.
pub open spec fn precedes(a: section::RawSectionView, b: section::RawSectionView) -> bool {
    rank(a) < rank(b) || rank(a) == rank(b) && text::less(text::lower(a.name), text::lower(b.name))
}

/// A sorted list with one more section, behind those that it does not precede.
pub open spec fn with_section(
    list: Seq<section::RawSectionView>,
    s: section::RawSectionView,
) -> Seq<section::RawSectionView>
    decreases list.len(),
{
    if list.len() == 0 || !precedes(s, list.last()) {
        list.push(s)
    } else {
        with_section(list.drop_last(), s).push(list.last())
    }
}

/// Sections in the order in which they are written.
pub open spec fn sorted(sections: Seq<section::RawSectionView>) -> Seq<section::RawSectionView>
    decreases sections.len(),
{
    if sections.len() == 0 {
        Seq::empty()
    } else {
        with_section(sorted(sections.drop_last()), sections.last())
    }
}

/// Whether a section is written before another.
fn comes_before(a: &RawSection, b: &RawSection) -> (r: bool)
    ensures
        r == precedes(a.deep_view(), b.deep_view()),
{
    let x: u8 = canonical_section_rank(a);
    let y: u8 = canonical_section_rank(b);
    x < y || (x == y && text::before(
        text::to_ascii_lowercase(a.name.as_str()).as_str(),
        text::to_ascii_lowercase(b.name.as_str()).as_str(),
    ))
}

/// Puts a section into a sorted list.
fn insert_section(list: &mut Vec<RawSection>, s: &RawSection)
    ensures
        final(list).deep_view() == with_section(old(list).deep_view(), s.deep_view()),
{
    let ghost all = list.deep_view();
    let ghost x = s.deep_view();
    let mut at: usize = list.len();
    assert(all.take(at as int) =~= all);
    assert(with_section(all, x) + all.skip(at as int) =~= with_section(all, x));
    while at > 0
        invariant_except_break
            with_section(all, x) == with_section(all.take(at as int), x) + all.skip(at as int),
        invariant
            all == list.deep_view(),
            x == s.deep_view(),
            at <= list@.len(),
        ensures
            with_section(all, x) == all.take(at as int).push(x) + all.skip(at as int),
        decreases at,
    {
        let ghost t = all.take(at as int);
        assert(t.last() == list@[at - 1].deep_view());
        if !comes_before(s, &list[at - 1]) {
            break ;
        }
        assert(t.drop_last() =~= all.take(at - 1));
        assert(with_section(t.drop_last(), x).push(t.last()) + all.skip(at as int)
            =~= with_section(t.drop_last(), x) + all.skip(at - 1));
        at -= 1;
    }
    let copy = s.clone();
    list.insert(at, copy);
    assert(list.deep_view() =~= all.take(at as int).push(x) + all.skip(at as int));
}

/// Brings sections into the order in which they are written.
fn sort_sections(sections: &Vec<RawSection>) -> (r: Vec<RawSection>)
    ensures
        r.deep_view() == sorted(sections.deep_view()),
{
    let ghost all = sections.deep_view();
    let mut r: Vec<RawSection> = Vec::new();
    let mut i: usize = 0;
    assert(all.take(0) =~= Seq::empty());
    assert(r.deep_view() =~= Seq::empty());
    while i < sections.len()
        invariant
            all == sections.deep_view(),
            i <= sections@.len(),
            r.deep_view() == sorted(all.take(i as int)),
        decreases sections.len() - i,
    {
        assert(all.take(i + 1).drop_last() =~= all.take(i as int));
        assert(all.take(i + 1).last() == sections@[i as int].deep_view());
        insert_section(&mut r, &sections[i]);
        i += 1;
    }
    assert(all.take(i as int) =~= all);
    r
}

// ---------------------------------------------------------------------------
// Rendering

/// A setting as it is written.
pub open spec fn entry_text(e: CanonicalEntryView) -> text::Text {
    e.key + " = "@ + written(e.value) + "\n"@
}

/// The settings of a section as they are written.
pub open spec fn entries_text(entries: Seq<CanonicalEntryView>) -> text::Text
    decreases entries.len(),
{
    if entries.len() == 0 {
        Seq::empty()
    } else {
        entries_text(entries.drop_last()) + entry_text(entries.last())
    }
}

/// A section as it is written.
pub open spec fn section_text(s: section::RawSectionView) -> Result<text::Text, error::ErrorView> {
    match kind_of(s) {
        None => Err(error::ErrorView::MissingSectionType(s.name)),
        Some(kind) => match entries_of(s, kind) {
            Err(e) => Err(e),
            Ok(entries) => Ok("["@ + s.name + "]\n"@ + entries_text(entries)),
        },
    }
}

/// The sections from one on as they are written, behind what is written.
pub open spec fn text_from(sections: Seq<section::RawSectionView>, i: int, out: text::Text) -> Result<
    text::Text,
    error::ErrorView,
>
    decreases sections.len() - i,
{
    if i >= sections.len() {
        Ok(out)
    } else {
        match section_text(sections[i]) {
            Err(e) => Err(e),
            Ok(t) => text_from(
                sections,
                i + 1,
                if i == 0 {
                    out + t
                } else {
                    out + "\n"@ + t
                },
            ),
        }
    }
}

/// The canonical text of a configuration that is accepted.
pub open spec fn canonical_text(input: text::Text, w: rules::LayerRulesView) -> Result<
    text::Text,
    error::ErrorView,
> {
    match module::config_in(input, w) {
        Err(e) => Err(e),
        Ok(_) => match section::parsed(input) {
            Err(e) => Err(e),
            Ok(sections) => match inheritance::all_resolved(sections) {
                Err(e) => Err(e),
                Ok(resolved) => text_from(sorted(resolved), 0, Seq::empty()),
            },
        },
    }
}

/// Writes the settings of a section.
fn write_entries(entries: &Vec<CanonicalEntry>) -> (r: String)
    ensures
        r@ == entries_text(entries.deep_view()),
{
    let ghost all = entries.deep_view();
    let mut r = String::new();
    let mut i: usize = 0;
    assert(all.take(0) =~= Seq::empty());
    assert(r@ =~= Seq::empty());
    while i < entries.len()
        invariant
            all == entries.deep_view(),
            i <= entries@.len(),
            r@ == entries_text(all.take(i as int)),
        decreases entries.len() - i,
    {
        assert(all.take(i + 1).drop_last() =~= all.take(i as int));
        assert(all.take(i + 1).last() == entries@[i as int].deep_view());
        let line = error::cat4(
            entries[i].key.as_str(),
            " = ",
            value(entries[i].value.as_str()).as_str(),
            "\n",
        );
        r.append(line.as_str());
        i += 1;
    }
    assert(all.take(i as int) =~= all);
    r
}

/// Writes a section.
fn write_section(s: &RawSection) -> (r: Result<String, ConfigError>)
    ensures
        error::outcome(r) == section_text(s.deep_view()),
{
    let kind = match section_kind(s) {
        Some(kind) => kind,
        None => return Err(ConfigError::MissingSectionType(text::copy(s.name.as_str()))),
    };
    match canonical_section_entries(s, kind.as_str()) {
        Err(e) => Err(e),
        Ok(entries) => Ok(
            error::cat4("[", s.name.as_str(), "]\n", write_entries(&entries).as_str()),
        ),
    }
}

impl ModuleConfig {
    /// Writes an accepted configuration with canonical option names, templates
    /// resolved and sections in a fixed order.
    pub fn to_canonical_string(input: &str, with: &LayerRules) -> (r: Result<String, ConfigError>)
        ensures
            error::outcome(r) == canonical_text(input@, with.deep_view()),
    {
        match ModuleConfig::parse(input, with) {
            Ok(_) => {},
            Err(e) => return Err(e),
        }
        let sections = match section::parse_sections(input) {
            Ok(x) => x,
            Err(e) => return Err(e),
        };
        let resolved = match inheritance::resolve_inheritance(&sections) {
            Ok(x) => x,
            Err(e) => return Err(e),
        };
        let list = sort_sections(&resolved);
        let ghost all = list.deep_view();
        let mut out = String::new();
        let mut i: usize = 0;
        assert(out@ =~= Seq::empty());
        while i < list.len()
            invariant
                all == list.deep_view(),
                i <= list@.len(),
                canonical_text(input@, with.deep_view()) == text_from(all, i as int, out@),
            decreases list.len() - i,
        {
            assert(all[i as int] == list@[i as int].deep_view());
            let t = match write_section(&list[i]) {
                Ok(t) => t,
                Err(e) => return Err(e),
            };
            if i != 0 {
                out.append("\n");
            }
            out.append(t.as_str());
            i += 1;
        }
        Ok(out)
    }
}

// ---------------------------------------------------------------------------
// Checking names

/// The kind that a source section has: its own, or that of the first parent
/// that has one, at most `depth` templates up.
pub open spec fn source_kind(
    sections: Seq<section::RawSectionView>,
    s: section::RawSectionView,
    depth: nat,
) -> Result<text::Text, error::ErrorView>
    decreases depth, s.parents.len() + 1,
{
    match kind_of(s) {
        Some(kind) => Ok(kind),
        None => parent_kind(sections, s, 0, depth),
    }
}

/// The kind of the first parent from one on that has one.
pub open spec fn parent_kind(
    sections: Seq<section::RawSectionView>,
    s: section::RawSectionView,
    i: int,
    depth: nat,
) -> Result<text::Text, error::ErrorView>
    decreases depth, s.parents.len() - i,
{
    if i < 0 || i >= s.parents.len() || depth == 0 {
        Err(error::ErrorView::MissingSectionType(s.name))
    } else {
        match inheritance::index_of(sections, s.parents[i]) {
            None => Err(
                error::ErrorView::MissingTemplate { section: s.name, parent: s.parents[i] },
            ),
            Some(p) => match source_kind(sections, sections[p as int], (depth - 1) as nat) {
                Ok(kind) => Ok(kind),
                Err(_) => parent_kind(sections, s, i + 1, depth),
            },
        }
    }
}

/// The first setting from one on that is not written by its canonical name.
pub open spec fn spelling_fault(
    s: section::RawSectionView,
    entries: Seq<CanonicalEntryView>,
    i: int,
) -> Option<error::ErrorView>
    decreases s.values.len() - i,
{
    if i >= s.values.len() || i >= entries.len() {
        None
    } else if s.values[i].key != entries[i].key {
        Some(
            error::invalid(
                section::place(s.values[i]),
                s.values[i].value,
                "canonical option name "@ + entries[i].key,
                option::sensitive(s.values[i].key),
            ),
        )
    } else {
        spelling_fault(s, entries, i + 1)
    }
}

/// Why the sections from one on are not written canonically.
pub open spec fn canonical_fault(sections: Seq<section::RawSectionView>, i: int) -> Option<
    error::ErrorView,
>
    decreases sections.len() - i,
{
    if i >= sections.len() {
        None
    } else {
        match source_kind(sections, sections[i], sections.len()) {
            Err(e) => Some(e),
            Ok(kind) => match entries_of(sections[i], kind) {
                Err(e) => Some(e),
                Ok(entries) => match spelling_fault(sections[i], entries, 0) {
                    Some(e) => Some(e),
                    None => canonical_fault(sections, i + 1),
                },
            },
        }
    }
}

/// Why a text is not a canonical configuration.
pub open spec fn check_of(input: text::Text, w: rules::LayerRulesView) -> Option<error::ErrorView> {
    match module::config_in(input, w) {
        Err(e) => Some(e),
        Ok(_) => match section::parsed(input) {
            Err(e) => Some(e),
            Ok(sections) => canonical_fault(sections, 0),
        },
    }
}

/// The kind that a source section has.
fn source_section_kind(sections: &Vec<RawSection>, s: &RawSection, depth: usize) -> (r: Result<
    String,
    ConfigError,
>)
    ensures
        error::outcome(r) == source_kind(sections.deep_view(), s.deep_view(), depth as nat),
    decreases depth, s.parents@.len() + 1,
{
    match section_kind(s) {
        Some(kind) => return Ok(kind),
        None => {},
    }
    let ghost all = sections.deep_view();
    let ghost sv = s.deep_view();
    assert(sv.parents.len() == s.parents@.len());
    if depth == 0 {
        return Err(ConfigError::MissingSectionType(text::copy(s.name.as_str())));
    }
    let mut i: usize = 0;
    while i < s.parents.len()
        invariant
            all == sections.deep_view(),
            sv == s.deep_view(),
            depth > 0,
            i <= s.parents@.len(),
            kind_of(sv) is None,
            source_kind(all, sv, depth as nat) == parent_kind(all, sv, i as int, depth as nat),
        decreases s.parents.len() - i,
    {
        assert(sv.parents[i as int] == s.parents@[i as int]@);
        match inheritance::find_section(sections, s.parents[i].as_str()) {
            None => return Err(
                ConfigError::MissingTemplate {
                    section: text::copy(s.name.as_str()),
                    parent: text::copy(s.parents[i].as_str()),
                },
            ),
            Some(p) => {
                assert(all[p as int] == sections@[p as int].deep_view());
                match source_section_kind(sections, &sections[p], depth - 1) {
                    Ok(kind) => return Ok(kind),
                    Err(_) => {},
                }
            },
        }
        i += 1;
    }
    Err(ConfigError::MissingSectionType(text::copy(s.name.as_str())))
}

/// Refuses the first setting that is not written by its canonical name.
pub fn check_canonical_section(s: &RawSection, kind: &str) -> (r: Option<ConfigError>)
    ensures
        error::refusal(r) == (match entries_of(s.deep_view(), kind@) {
            Err(e) => Some(e),
            Ok(entries) => spelling_fault(s.deep_view(), entries, 0),
        }),
{
    let entries = match canonical_section_entries(s, kind) {
        Ok(x) => x,
        Err(e) => return Some(e),
    };
    let ghost all = entries.deep_view();
    let ghost sv = s.deep_view();
    let mut i: usize = 0;
    while i < s.values.len() && i < entries.len()
        invariant
            all == entries.deep_view(),
            sv == s.deep_view(),
            entries_of(sv, kind@) == Ok::<Seq<CanonicalEntryView>, error::ErrorView>(all),
            i <= s.values@.len(),
            i <= entries@.len(),
            spelling_fault(sv, all, 0) == spelling_fault(sv, all, i as int),
        decreases s.values.len() - i,
    {
        assert(sv.values[i as int] == s.values@[i as int].deep_view());
        assert(all[i as int] == entries@[i as int].deep_view());
        let v = &s.values[i];
        if !text::same(v.key.as_str(), entries[i].key.as_str()) {
            let mut expected = text::copy("canonical option name ");
            expected.append(entries[i].key.as_str());
            return Some(
                error::invalid_option(
                    v.diagnostic_key().as_str(),
                    v.value.as_str(),
                    expected.as_str(),
                    option::sensitive_option_name(v.key.as_str()),
                ),
            );
        }
        i += 1;
    }
    None
}

impl ModuleConfig {
    /// Refuses a configuration, or the first option in it that is not written
    /// by its canonical name.
    pub fn check_canonical(input: &str, with: &LayerRules) -> (r: Option<ConfigError>)
        ensures
            error::refusal(r) == check_of(input@, with.deep_view()),
    {
        match ModuleConfig::parse(input, with) {
            Ok(_) => {},
            Err(e) => return Some(e),
        }
        let sections = match section::parse_sections(input) {
            Ok(x) => x,
            Err(e) => return Some(e),
        };
        let ghost all = sections.deep_view();
        let mut i: usize = 0;
        while i < sections.len()
            invariant
                all == sections.deep_view(),
                i <= sections@.len(),
                check_of(input@, with.deep_view()) == canonical_fault(all, i as int),
            decreases sections.len() - i,
        {
            assert(all[i as int] == sections@[i as int].deep_view());
            let kind = match source_section_kind(&sections, &sections[i], sections.len()) {
                Ok(kind) => kind,
                Err(e) => return Some(e),
            };
            match check_canonical_section(&sections[i], kind.as_str()) {
                Some(e) => return Some(e),
                None => {},
            }
            i += 1;
        }
        None
    }
}

} // verus!
