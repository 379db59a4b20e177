//! Sections of named fields.
//!
//! Names are compared without regard to ASCII case, and punctuation counts. A
//! field holds one value, or, where it repeats, every value in order.

use vstd::prelude::*;

use crate::config::error;
use crate::config::error::ConfigError;
use crate::config::section;
use crate::config::section::RawSection;
use crate::config::section::RawValue;
use crate::text;

verus! {

/// A field that a section may hold.
#[derive(Debug, PartialEq, Eq)]
pub struct SectionField {
    pub name: String,
    pub repeated: bool,
}

pub struct SectionFieldView {
    pub name: text::Text,
    pub repeated: bool,
}

impl DeepView for SectionField {
    type V = SectionFieldView;

    open spec fn deep_view(&self) -> SectionFieldView {
        SectionFieldView { name: self.name@, repeated: self.repeated }
    }
}

// ---------------------------------------------------------------------------
// Lists of names

/// A name between backquotes.
pub open spec fn ticked(name: text::Text) -> text::Text {
    "`"@ + name + "`"@
}

/// The names of fields from one on, each between backquotes, joined by commas.
pub open spec fn listing(fields: Seq<SectionFieldView>, i: int) -> text::Text
    decreases fields.len() - i,
{
    if i >= fields.len() {
        ""@
    } else if i + 1 == fields.len() {
        ticked(fields[i].name)
    } else {
        ticked(fields[i].name) + ", "@ + listing(fields, i + 1)
    }
}

/// What a section of fields expects, in words.
pub open spec fn expectation(fields: Seq<SectionFieldView>) -> text::Text {
    if fields.len() == 0 {
        "there are no fields"@
    } else if fields.len() == 1 {
        "expected "@ + ticked(fields[0].name)
    } else if fields.len() == 2 {
        "expected "@ + ticked(fields[0].name) + " or "@ + ticked(fields[1].name)
    } else {
        "expected one of "@ + listing(fields, 0)
    }
}

/// Writes a name between backquotes.
fn tick(name: &str) -> (r: String)
    ensures
        r@ == ticked(name@),
{
    error::cat3("`", name, "`")
}

/// Writes the names of fields from one on.
fn write_listing(fields: &Vec<SectionField>, i: usize) -> (r: String)
    requires
        i <= fields@.len(),
    ensures
        r@ == listing(fields.deep_view(), i as int),
    decreases fields.len() - i,
{
    if i >= fields.len() {
        return text::copy("");
    }
    assert(fields.deep_view()[i as int] == fields@[i as int].deep_view());
    let head = tick(fields[i].name.as_str());
    if fields.len() - i == 1 {
        return head;
    }
    let rest = write_listing(fields, i + 1);
    error::cat3(head.as_str(), ", ", rest.as_str())
}

/// Says what a section of fields expects.
fn write_expectation(fields: &Vec<SectionField>) -> (r: String)
    ensures
        r@ == expectation(fields.deep_view()),
{
    let ghost all = fields.deep_view();
    if fields.len() == 0 {
        return text::copy("there are no fields");
    }
    assert(all[0] == fields@[0].deep_view());
    if fields.len() == 1 {
        let mut r = text::copy("expected ");
        r.append(tick(fields[0].name.as_str()).as_str());
        return r;
    }
    if fields.len() == 2 {
        assert(all[1] == fields@[1].deep_view());
        return error::cat4(
            "expected ",
            tick(fields[0].name.as_str()).as_str(),
            " or ",
            tick(fields[1].name.as_str()).as_str(),
        );
    }
    let mut r = text::copy("expected one of ");
    r.append(write_listing(fields, 0).as_str());
    r
}

// ---------------------------------------------------------------------------
// Values by field

/// The index of the field of a name.
pub open spec fn field_index(fields: Seq<SectionFieldView>, name: text::Text) -> Option<nat>
    decreases fields.len(),
{
    if fields.len() == 0 {
        None
    } else if fields.last().name == name {
        Some((fields.len() - 1) as nat)
    } else {
        field_index(fields.drop_last(), name)
    }
}

/// The first setting under a key.
pub open spec fn first_entry(
    values: Seq<section::RawValueView>,
    key: text::Text,
) -> Option<section::RawValueView>
    decreases values.len(),
{
    if values.len() == 0 {
        None
    } else if text::same_fold(values[0].key, key) {
        Some(values[0])
    } else {
        first_entry(values.skip(1), key)
    }
}

/// Whether a key is used from one setting on.
pub open spec fn used_from(values: Seq<section::RawValueView>, i: int, key: text::Text) -> bool {
    exists|j: int| i <= j < values.len() && text::same_fold((#[trigger] values[j]).key, key)
}

/// A key up to its first backquote.
pub open spec fn before_tick(key: text::Text) -> text::Text {
    match text::cut(key, '`') {
        Some((head, _)) => head,
        None => key,
    }
}

/// The place that a refused key is reported at.
pub open spec fn unknown_place(s: section::RawSectionView, key: text::Text) -> text::Text {
    match first_entry(s.values, before_tick(key)) {
        Some(v) => section::place(v),
        None => section::section_place(s),
    }
}

/// The refusal of one setting: its key names no field, or a field that holds
/// one value occurs again.
pub open spec fn field_fault(
    s: section::RawSectionView,
    fields: Seq<SectionFieldView>,
    i: int,
) -> Option<error::ErrorView> {
    let key = text::lower(s.values[i].key);
    match field_index(fields, key) {
        None => Some(
            error::refused(
                unknown_place(s, key),
                "unknown field `"@ + key + "`, "@ + expectation(fields),
            ),
        ),
        Some(f) => if !fields[f as int].repeated && used_from(s.values, i + 1, key) {
            Some(
                error::refused(
                    section::key_place(s, key),
                    "duplicate scalar option "@ + key + "; expected one value"@,
                ),
            )
        } else {
            None
        },
    }
}

/// The first refusal from one setting on.
pub open spec fn first_fault(
    s: section::RawSectionView,
    fields: Seq<SectionFieldView>,
    i: int,
) -> Option<error::ErrorView>
    decreases s.values.len() - i,
{
    if i >= s.values.len() {
        None
    } else {
        match field_fault(s, fields, i) {
            Some(e) => Some(e),
            None => first_fault(s, fields, i + 1),
        }
    }
}

/// The values of a field, in order.
pub open spec fn values_named(values: Seq<section::RawValueView>, name: text::Text) -> Seq<
    text::Text,
>
    decreases values.len(),
{
    if values.len() == 0 {
        Seq::empty()
    } else {
        let head = values_named(values.drop_last(), name);
        if text::lower(values.last().key) == name {
            head.push(values.last().value)
        } else {
            head
        }
    }
}

/// A section read as a list of fields: for each, its values in order.
pub open spec fn fields_read(s: section::RawSectionView, fields: Seq<SectionFieldView>) -> Result<
    Seq<Seq<text::Text>>,
    error::ErrorView,
> {
    match first_fault(s, fields, 0) {
        Some(e) => Err(e),
        None => Ok(Seq::new(fields.len(), |i: int| values_named(s.values, fields[i].name))),
    }
}

/// Finds the field of a name.
fn find_field(fields: &Vec<SectionField>, name: &str) -> (r: Option<usize>)
    ensures
        match r {
            Some(i) => field_index(fields.deep_view(), name@) == Some(i as nat) && i < fields@.len(),
            None => field_index(fields.deep_view(), name@) is None,
        },
{
    let ghost all = fields.deep_view();
    let mut i: usize = fields.len();
    assert(all.take(i as int) =~= all);
    while i > 0
        invariant
            all == fields.deep_view(),
            i <= fields@.len(),
            field_index(all, name@) == field_index(all.take(i as int), name@),
        decreases i,
    {
        i -= 1;
        assert(all.take(i + 1).drop_last() =~= all.take(i as int));
        assert(all.take(i + 1).last() == fields@[i as int].deep_view());
        if text::same(fields[i].name.as_str(), name) {
            return Some(i);
        }
    }
    None
}

/// The place of the first setting under a key.
fn first_place(values: &Vec<RawValue>, key: &str) -> (r: Option<String>)
    ensures
        match first_entry(values.deep_view(), key@) {
            Some(v) => r is Some && r->0@ == section::place(v),
            None => r is None,
        },
{
    let ghost all = values.deep_view();
    let mut i: usize = 0;
    assert(all.skip(0) =~= all);
    while i < values.len()
        invariant
            all == values.deep_view(),
            i <= values@.len(),
            first_entry(all, key@) == first_entry(all.skip(i as int), key@),
        decreases values.len() - i,
    {
        assert(all.skip(i as int)[0] == values@[i as int].deep_view());
        if text::eq_ignore_ascii_case(values[i].key.as_str(), key) {
            return Some(values[i].diagnostic_key());
        }
        assert(all.skip(i as int).skip(1) =~= all.skip(i + 1));
        i += 1;
    }
    None
}

/// Whether a key is used from one setting on.
fn is_used(values: &Vec<RawValue>, from: usize, key: &str) -> (r: bool)
    requires
        from <= values@.len(),
    ensures
        r == used_from(values.deep_view(), from as int, key@),
{
    let ghost all = values.deep_view();
    let mut i: usize = from;
    while i < values.len()
        invariant
            all == values.deep_view(),
            from <= i <= values@.len(),
            forall|j: int| from <= j < i ==> !text::same_fold((#[trigger] all[j]).key, key@),
        decreases values.len() - i,
    {
        assert(all[i as int] == values@[i as int].deep_view());
        if text::eq_ignore_ascii_case(values[i].key.as_str(), key) {
            assert(text::same_fold(all[i as int].key, key@));
            return true;
        }
        i += 1;
    }
    false
}

/// Judges one setting.
fn check_field(s: &RawSection, fields: &Vec<SectionField>, i: usize) -> (r: Option<ConfigError>)
    requires
        i < s.values@.len(),
    ensures
        error::refusal(r) == field_fault(s.deep_view(), fields.deep_view(), i as int),
{
    assert(s.deep_view().values[i as int] == s.values@[i as int].deep_view());
    let key = text::to_ascii_lowercase(s.values[i].key.as_str());
    match find_field(fields, key.as_str()) {
        None => {
            let head = match text::split_once(key.as_str(), '`') {
                Some((head, _)) => head,
                None => text::copy(key.as_str()),
            };
            let at = match first_place(&s.values, head.as_str()) {
                Some(at) => at,
                None => s.section_location(),
            };
            let reason = error::cat4(
                "unknown field `",
                key.as_str(),
                "`, ",
                write_expectation(fields).as_str(),
            );
            Some(ConfigError::InvalidValue { key: at, value: reason })
        },
        Some(f) => {
            assert(fields.deep_view()[f as int] == fields@[f as int].deep_view());
            let next: usize = s.values.len() - (s.values.len() - i - 1);
            if !fields[f].repeated && is_used(&s.values, next, key.as_str()) {
                Some(
                    ConfigError::InvalidValue {
                        key: s.diagnostic_key(key.as_str()),
                        value: error::cat3(
                            "duplicate scalar option ",
                            key.as_str(),
                            "; expected one value",
                        ),
                    },
                )
            } else {
                None
            }
        },
    }
}

/// The values of a field.
fn collect_values(values: &Vec<RawValue>, name: &str) -> (r: Vec<String>)
    ensures
        r.deep_view() == values_named(values.deep_view(), name@),
{
    let ghost all = values.deep_view();
    let mut r: Vec<String> = Vec::new();
    let mut i: usize = 0;
    assert(all.take(0) =~= Seq::empty());
    assert(r.deep_view() =~= Seq::empty());
    while i < values.len()
        invariant
            all == values.deep_view(),
            i <= values@.len(),
            r.deep_view() == values_named(all.take(i as int), name@),
        decreases values.len() - i,
    {
        assert(all.take(i + 1).drop_last() =~= all.take(i as int));
        assert(all.take(i + 1).last() == values@[i as int].deep_view());
        if text::same(text::to_ascii_lowercase(values[i].key.as_str()).as_str(), name) {
            let ghost before = r.deep_view();
            let v = text::copy(values[i].value.as_str());
            r.push(v);
            assert(r.deep_view() =~= before.push(v@));
        }
        i += 1;
    }
    assert(all.take(i as int) =~= all);
    r
}

/// Refuses the first setting that a list of fields does not take.
pub fn check_section(s: &RawSection, fields: &Vec<SectionField>) -> (r: Option<ConfigError>)
    ensures
        error::refusal(r) == first_fault(s.deep_view(), fields.deep_view(), 0),
{
    let mut i: usize = 0;
    while i < s.values.len()
        invariant
            i <= s.values@.len(),
            first_fault(s.deep_view(), fields.deep_view(), 0) == first_fault(
                s.deep_view(),
                fields.deep_view(),
                i as int,
            ),
        decreases s.values.len() - i,
    {
        match check_field(s, fields, i) {
            Some(e) => return Some(e),
            None => {},
        }
        i += 1;
    }
    None
}

/// Reads a section as a list of fields.
pub fn deserialize_section(s: &RawSection, fields: &Vec<SectionField>) -> (r: Result<
    Vec<Vec<String>>,
    ConfigError,
>)
    ensures
        error::outcome(r) == fields_read(s.deep_view(), fields.deep_view()),
{
    match check_section(s, fields) {
        Some(e) => return Err(e),
        None => {},
    }
    let ghost whole = fields_read(s.deep_view(), fields.deep_view())->Ok_0;
    let mut r: Vec<Vec<String>> = Vec::new();
    let mut i: usize = 0;
    assert(r.deep_view() =~= whole.take(0));
    while i < fields.len()
        invariant
            whole == Seq::new(
                fields.deep_view().len(),
                |i: int| values_named(s.deep_view().values, fields.deep_view()[i].name),
            ),
            i <= fields@.len(),
            r.deep_view() == whole.take(i as int),
        decreases fields.len() - i,
    {
        assert(fields.deep_view()[i as int] == fields@[i as int].deep_view());
        let ghost before = r.deep_view();
        let v = collect_values(&s.values, fields[i].name.as_str());
        r.push(v);
        assert(r.deep_view() =~= before.push(v.deep_view()));
        i += 1;
        assert(r.deep_view() =~= whole.take(i as int));
    }
    assert(whole.take(i as int) =~= whole);
    Ok(r)
}

} // verus!
