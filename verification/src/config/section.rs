//! The sections of a configuration file.
//!
//! A file is a list of sections. A header `[name](entries)` opens a section; a
//! line `key = value` adds a setting to the section that is open. A semicolon
//! outside quotes begins a comment, as does a number sign at the start of a
//! line.

use vstd::prelude::*;

use crate::config::error;
use crate::config::error::ConfigError;
use crate::number;
use crate::text;

verus! {

/// One setting, with the place that it was read from.
#[derive(Debug, PartialEq, Eq)]
pub struct RawValue {
    pub key: String,
    pub value: String,
    pub line: usize,
    pub section: String,
}

/// The contents of [`RawValue`].
pub struct RawValueView {
    pub key: text::Text,
    pub value: text::Text,
    pub line: usize,
    pub section: text::Text,
}

impl DeepView for RawValue {
    type V = RawValueView;

    open spec fn deep_view(&self) -> RawValueView {
        RawValueView {
            key: self.key@,
            value: self.value@,
            line: self.line,
            section: self.section@,
        }
    }
}

impl Clone for RawValue {
    fn clone(&self) -> (r: Self)
        ensures
            r.deep_view() == self.deep_view(),
    {
        RawValue {
            key: text::copy(self.key.as_str()),
            value: text::copy(self.value.as_str()),
            line: self.line,
            section: text::copy(self.section.as_str()),
        }
    }
}

/// A list with the same contents.
pub fn copy_raw_values(list: &Vec<RawValue>) -> (r: Vec<RawValue>)
    ensures
        r.deep_view() == list.deep_view(),
{
    let mut r: Vec<RawValue> = Vec::new();
    let mut i: usize = 0;
    while i < list.len()
        invariant
            i <= list@.len(),
            r.deep_view() == list.deep_view().take(i as int),
        decreases list.len() - i,
    {
        let ghost before = r.deep_view();
        let x = list[i].clone();
        r.push(x);
        i += 1;
        assert(r.deep_view() =~= before.push(x.deep_view()));
        assert(r.deep_view() =~= list.deep_view().take(i as int));
    }
    assert(list.deep_view().take(i as int) =~= list.deep_view());
    r
}

/// One section: its header and its settings in order.
#[derive(Debug, PartialEq, Eq)]
pub struct RawSection {
    pub name: String,
    pub line: usize,
    pub is_template: bool,
    pub parents: Vec<String>,
    pub values: Vec<RawValue>,
}

/// The contents of [`RawSection`].
pub struct RawSectionView {
    pub name: text::Text,
    pub line: usize,
    pub is_template: bool,
    pub parents: Seq<text::Text>,
    pub values: Seq<RawValueView>,
}

impl DeepView for RawSection {
    type V = RawSectionView;

    open spec fn deep_view(&self) -> RawSectionView {
        RawSectionView {
            name: self.name@,
            line: self.line,
            is_template: self.is_template,
            parents: self.parents.deep_view(),
            values: self.values.deep_view(),
        }
    }
}

impl Clone for RawSection {
    fn clone(&self) -> (r: Self)
        ensures
            r.deep_view() == self.deep_view(),
    {
        RawSection {
            name: text::copy(self.name.as_str()),
            line: self.line,
            is_template: self.is_template,
            parents: text::copy_list(&self.parents),
            values: copy_raw_values(&self.values),
        }
    }
}

/// A list with the same contents.
pub fn copy_raw_sections(list: &Vec<RawSection>) -> (r: Vec<RawSection>)
    ensures
        r.deep_view() == list.deep_view(),
{
    let mut r: Vec<RawSection> = Vec::new();
    let mut i: usize = 0;
    while i < list.len()
        invariant
            i <= list@.len(),
            r.deep_view() == list.deep_view().take(i as int),
        decreases list.len() - i,
    {
        let ghost before = r.deep_view();
        let x = list[i].clone();
        r.push(x);
        i += 1;
        assert(r.deep_view() =~= before.push(x.deep_view()));
        assert(r.deep_view() =~= list.deep_view().take(i as int));
    }
    assert(list.deep_view().take(i as int) =~= list.deep_view());
    r
}

// ---------------------------------------------------------------------------
// Places

/// The place of a setting, as diagnostics name it.
pub open spec fn place(v: RawValueView) -> text::Text {
    "line "@ + number::decimal(v.line as nat) + " ["@ + v.section + "]."@ + v.key
}

/// The place of a section, as diagnostics name it.
pub open spec fn section_place(s: RawSectionView) -> text::Text {
    "line "@ + number::decimal(s.line as nat) + " ["@ + s.name + "]"@
}

/// The last setting under a key, letters compared without regard to case.
pub open spec fn last_entry(values: Seq<RawValueView>, key: text::Text) -> Option<RawValueView>
    decreases values.len(),
{
    if values.len() == 0 {
        None
    } else if text::same_fold(values.last().key, key) {
        Some(values.last())
    } else {
        last_entry(values.drop_last(), key)
    }
}

/// The value of the last setting under a key.
pub open spec fn value_of(s: RawSectionView, key: text::Text) -> Option<text::Text> {
    match last_entry(s.values, key) {
        Some(v) => Some(v.value),
        None => None,
    }
}

/// The place of a key in a section: that of its last setting, or the section.
pub open spec fn key_place(s: RawSectionView, key: text::Text) -> text::Text {
    match last_entry(s.values, key) {
        Some(v) => place(v),
        None => section_place(s) + "."@ + key,
    }
}

impl RawValue {
    /// The place of the setting.
    pub fn diagnostic_key(&self) -> (r: String)
        ensures
            r@ == place(self.deep_view()),
    {
        let mut r = error::cat4(
            "line ",
            number::to_decimal(self.line as u64).as_str(),
            " [",
            self.section.as_str(),
        );
        r.append("].");
        r.append(self.key.as_str());
        r
    }
}

/// The index of the last setting under a key.
fn find_last(values: &Vec<RawValue>, key: &str) -> (r: Option<usize>)
    ensures
        match r {
            Some(i) => i < values@.len() && last_entry(values.deep_view(), key@) == Some(
                values@[i as int].deep_view(),
            ),
            None => last_entry(values.deep_view(), key@) is None,
        },
{
    let mut i: usize = values.len();
    let ghost all = values.deep_view();
    assert(all.take(i as int) =~= all);
    while i > 0
        invariant
            all == values.deep_view(),
            i <= values@.len(),
            last_entry(all, key@) == last_entry(all.take(i as int), key@),
        decreases i,
    {
        i -= 1;
        assert(all.take(i + 1).drop_last() =~= all.take(i as int));
        assert(all.take(i + 1).last() == values@[i as int].deep_view());
        if text::eq_ignore_ascii_case(values[i].key.as_str(), key) {
            return Some(i);
        }
    }
    None
}

impl RawSection {
    /// The place of a key in the section.
    pub fn diagnostic_key(&self, key: &str) -> (r: String)
        ensures
            r@ == key_place(self.deep_view(), key@),
    {
        match find_last(&self.values, key) {
            Some(i) => self.values[i].diagnostic_key(),
            None => {
                let mut r = self.section_location();
                r.append(".");
                r.append(key);
                r
            },
        }
    }

    /// The place of the section.
    pub fn section_location(&self) -> (r: String)
        ensures
            r@ == section_place(self.deep_view()),
    {
        error::cat5(
            "line ",
            number::to_decimal(self.line as u64).as_str(),
            " [",
            self.name.as_str(),
            "]",
        )
    }

    /// The value of the last setting under a key.
    pub fn value(&self, key: &str) -> (r: Option<String>)
        ensures
            r.deep_view() == value_of(self.deep_view(), key@),
    {
        match find_last(&self.values, key) {
            Some(i) => Some(text::copy(self.values[i].value.as_str())),
            None => None,
        }
    }
}

// ---------------------------------------------------------------------------
// Comments and quotes

/// How many characters stand before a comment. A semicolon begins one unless
/// it stands between quotes; a backslash between quotes hides the character
/// behind it.
pub open spec fn before_comment(s: text::Text, in_quotes: bool, escaped: bool) -> nat
    decreases s.len(),
{
    if s.len() == 0 {
        0
    } else if escaped {
        1 + before_comment(s.skip(1), in_quotes, false)
    } else if s[0] == '\\' && in_quotes {
        1 + before_comment(s.skip(1), in_quotes, true)
    } else if s[0] == '"' {
        1 + before_comment(s.skip(1), !in_quotes, false)
    } else if s[0] == ';' && !in_quotes {
        0
    } else {
        1 + before_comment(s.skip(1), in_quotes, false)
    }
}

/// A line without its comment.
pub open spec fn without_comment(s: text::Text) -> text::Text {
    s.take(before_comment(s, false, false) as int)
}

/// Removes the comment from a line.
pub fn strip_inline_comment(line: &str) -> (r: String)
    ensures
        r@ == without_comment(line@),
{
    let v = text::to_chars(line);
    let mut in_quotes = false;
    let mut escaped = false;
    let mut i: usize = 0;
    assert(line@.skip(0) =~= line@);
    while i < v.len()
        invariant
            v@ == line@,
            i <= v@.len(),
            before_comment(line@, false, false) == i + before_comment(
                line@.skip(i as int),
                in_quotes,
                escaped,
            ),
        decreases v.len() - i,
    {
        assert(line@.skip(i as int).skip(1) =~= line@.skip(i + 1));
        let c = v[i];
        if escaped {
            escaped = false;
        } else if c == '\\' && in_quotes {
            escaped = true;
        } else if c == '"' {
            in_quotes = !in_quotes;
        } else if c == ';' && !in_quotes {
            let r = text::from_chars(&v, 0, i);
            assert(r@ =~= line@.take(i as int));
            return r;
        }
        i += 1;
    }
    let r = text::from_chars(&v, 0, i);
    assert(r@ =~= line@.take(i as int));
    r
}

/// The text between quotes: a backslash hides a backslash or a quote behind
/// it, and is itself else.
pub open spec fn unescaped(s: text::Text) -> text::Text
    decreases s.len(),
{
    if s.len() == 0 {
        Seq::empty()
    } else if s[0] != '\\' {
        seq![s[0]] + unescaped(s.skip(1))
    } else if s.len() == 1 {
        seq!['\\']
    } else if s[1] == '\\' || s[1] == '"' {
        seq![s[1]] + unescaped(s.skip(2))
    } else {
        seq!['\\', s[1]] + unescaped(s.skip(2))
    }
}

/// A text that stands between quotes.
pub open spec fn is_quoted(s: text::Text) -> bool {
    s.len() >= 2 && s[0] == '"' && s.last() == '"'
}

/// Whether a text stands between quotes.
pub fn stands_quoted(s: &str) -> (r: bool)
    ensures
        r == is_quoted(s@),
{
    let v = text::to_chars(s);
    v.len() >= 2 && v[0] == '"' && v[v.len() - 1] == '"'
}

/// A value without the quotes around it.
pub open spec fn unquoted(s: text::Text) -> text::Text {
    if is_quoted(s) {
        unescaped(s.subrange(1, s.len() - 1))
    } else {
        s
    }
}

/// Removes the quotes around a value.
pub fn unquote(value: &str) -> (r: String)
    ensures
        r@ == unquoted(value@),
{
    let v = text::to_chars(value);
    if v.len() < 2 || v[0] != '"' || v[v.len() - 1] != '"' {
        return text::copy(value);
    }
    let end: usize = v.len() - 1;
    let ghost inner = value@.subrange(1, end as int);
    let mut r = String::new();
    let mut i: usize = 1;
    assert(inner.skip(0) =~= inner);
    assert(r@ + unescaped(inner) =~= unescaped(inner));
    while i < end
        invariant
            v@ == value@,
            1 <= i <= end < v@.len(),
            inner == value@.subrange(1, end as int),
            unescaped(inner) == r@ + unescaped(inner.skip(i - 1)),
        decreases end - i,
    {
        let ghost rest = inner.skip(i - 1);
        let ghost done = r@;
        assert(rest[0] == v@[i as int]);
        let c = v[i];
        if c != '\\' {
            r.push(c);
            assert(rest.skip(1) =~= inner.skip(i as int));
            assert(done + (seq![c] + unescaped(rest.skip(1))) =~= r@ + unescaped(rest.skip(1)));
            i += 1;
        } else if end - i == 1 {
            r.push('\\');
            assert(rest.len() == 1);
            assert(inner.skip(i as int) =~= Seq::empty());
            assert(done + seq!['\\'] =~= r@ + unescaped(inner.skip(i as int)));
            i += 1;
        } else {
            let e = v[i + 1];
            assert(rest[1] == e);
            assert(rest.skip(2) =~= inner.skip(i + 1));
            if e == '\\' || e == '"' {
                r.push(e);
                assert(done + (seq![e] + unescaped(rest.skip(2))) =~= r@ + unescaped(rest.skip(2)));
            } else {
                r.push('\\');
                r.push(e);
                assert(done + (seq!['\\', e] + unescaped(rest.skip(2))) =~= r@ + unescaped(
                    rest.skip(2),
                ));
            }
            i += 2;
        }
    }
    assert(inner.skip(i - 1) =~= Seq::empty());
    assert(r@ + Seq::<char>::empty() =~= r@);
    r
}

// ---------------------------------------------------------------------------
// Headers

/// What a section header says behind the name: whether the section is a
/// template, and the templates that it inherits from, in order.
pub struct Lineage {
    pub is_template: bool,
    pub parents: Seq<text::Text>,
}

/// Some text of the list is the given one up to the case of letters.
pub open spec fn named_in(list: Seq<text::Text>, name: text::Text) -> bool {
    exists|i: int| 0 <= i < list.len() && text::same_fold(#[trigger] list[i], name)
}

/// The lineage that a list of header entries gives, or what is wrong with it.
pub open spec fn lineage_of(entries: Seq<text::Text>) -> Result<Lineage, text::Text>
    decreases entries.len(),
{
    if entries.len() == 0 {
        Ok(Lineage { is_template: false, parents: Seq::empty() })
    } else {
        match lineage_of(entries.drop_last()) {
            Err(m) => Err(m),
            Ok(l) => {
                let entry = text::trimmed(entries.last());
                if entry.len() == 0 {
                    Err("empty inheritance entry"@)
                } else if entry == "!"@ {
                    if l.is_template {
                        Err("duplicate template marker"@)
                    } else {
                        Ok(Lineage { is_template: true, parents: l.parents })
                    }
                } else if named_in(l.parents, entry) {
                    Err("duplicate parent template ["@ + entry + "]"@)
                } else {
                    Ok(Lineage { is_template: l.is_template, parents: l.parents.push(entry) })
                }
            },
        }
    }
}

/// What stands behind the name in a header.
pub open spec fn suffix_lineage(suffix: text::Text) -> Result<Lineage, text::Text> {
    if suffix.len() == 0 {
        Ok(Lineage { is_template: false, parents: Seq::empty() })
    } else if suffix.len() >= 2 && suffix[0] == '(' && suffix.last() == ')' {
        lineage_of(text::pieces(suffix.subrange(1, suffix.len() - 1), ','))
    } else {
        Err("malformed inheritance list"@)
    }
}

/// The section that a header line opens, or what is wrong with the line.
pub open spec fn header_of(line: text::Text, number: usize) -> Result<RawSectionView, text::Text> {
    let close = text::position(line, ']');
    if close >= line.len() {
        Err("malformed section header"@)
    } else {
        let name = text::trimmed(line.subrange(1, close as int));
        if name.len() == 0 {
            Err("section name cannot be empty"@)
        } else {
            match suffix_lineage(text::trimmed(line.skip(close as int + 1))) {
                Err(m) => Err(m),
                Ok(l) => Ok(
                    RawSectionView {
                        name,
                        line: number,
                        is_template: l.is_template,
                        parents: l.parents,
                        values: Seq::empty(),
                    },
                ),
            }
        }
    }
}

/// Whether a list of texts holds one up to the case of letters.
pub fn holds_name(list: &Vec<String>, name: &str) -> (r: bool)
    ensures
        r == named_in(list.deep_view(), name@),
{
    let mut i: usize = 0;
    let ghost all = list.deep_view();
    while i < list.len()
        invariant
            all == list.deep_view(),
            i <= list@.len(),
            forall|j: int| 0 <= j < i ==> !text::same_fold(#[trigger] all[j], name@),
        decreases list.len() - i,
    {
        assert(all[i as int] == list@[i as int]@);
        if text::eq_ignore_ascii_case(list[i].as_str(), name) {
            return true;
        }
        i += 1;
    }
    false
}

/// An entry that spoils a list of header entries spoils every longer list.
proof fn lemma_lineage_spoiled(entries: Seq<text::Text>, i: int)
    requires
        0 <= i <= entries.len(),
        lineage_of(entries.take(i)) is Err,
    ensures
        lineage_of(entries) == lineage_of(entries.take(i)),
    decreases entries.len(),
{
    if i < entries.len() {
        assert(entries.drop_last().take(i) =~= entries.take(i));
        lemma_lineage_spoiled(entries.drop_last(), i);
    } else {
        assert(entries.take(i) =~= entries);
    }
}

/// Reads the entries of a header.
fn parse_lineage(entries: &Vec<String>) -> (r: Result<(bool, Vec<String>), String>)
    ensures
        match lineage_of(entries.deep_view()) {
            Ok(l) => r is Ok && r->Ok_0.0 == l.is_template && r->Ok_0.1.deep_view() == l.parents,
            Err(m) => r is Err && r->Err_0@ == m,
        },
{
    let mut is_template = false;
    let mut parents: Vec<String> = Vec::new();
    let mut i: usize = 0;
    let ghost all = entries.deep_view();
    assert(all.take(0) =~= Seq::empty());
    assert(parents.deep_view() =~= Seq::empty());
    while i < entries.len()
        invariant
            all == entries.deep_view(),
            i <= entries@.len(),
            lineage_of(all.take(i as int)) == Ok::<Lineage, text::Text>(
                Lineage { is_template, parents: parents.deep_view() },
            ),
        decreases entries.len() - i,
    {
        let ghost next = all.take(i + 1);
        assert(next.drop_last() =~= all.take(i as int));
        assert(next.last() == entries@[i as int]@);
        let entry = text::trim(entries[i].as_str());
        if entry.as_str().is_empty() {
            proof {
                lemma_lineage_spoiled(all, i + 1);
            }
            return Err(text::copy("empty inheritance entry"));
        }
        if text::same(entry.as_str(), "!") {
            if is_template {
                proof {
                    lemma_lineage_spoiled(all, i + 1);
                }
                return Err(text::copy("duplicate template marker"));
            }
            is_template = true;
        } else {
            if holds_name(&parents, entry.as_str()) {
                proof {
                    lemma_lineage_spoiled(all, i + 1);
                }
                return Err(error::cat3("duplicate parent template [", entry.as_str(), "]"));
            }
            let ghost before = parents.deep_view();
            let ghost e = entry@;
            parents.push(entry);
            assert(parents.deep_view() =~= before.push(e));
        }
        i += 1;
    }
    assert(all.take(i as int) =~= all);
    Ok((is_template, parents))
}

/// Reads what stands behind the name in a header.
fn parse_suffix(suffix: &str) -> (r: Result<(bool, Vec<String>), String>)
    ensures
        match suffix_lineage(suffix@) {
            Ok(l) => r is Ok && r->Ok_0.0 == l.is_template && r->Ok_0.1.deep_view() == l.parents,
            Err(m) => r is Err && r->Err_0@ == m,
        },
{
    let v = text::to_chars(suffix);
    if v.len() == 0 {
        let parents: Vec<String> = Vec::new();
        assert(parents.deep_view() =~= Seq::empty());
        return Ok((false, parents));
    }
    if v.len() < 2 || v[0] != '(' || v[v.len() - 1] != ')' {
        return Err(text::copy("malformed inheritance list"));
    }
    let inner = text::from_chars(&v, 1, v.len() - 1);
    let entries = text::split(inner.as_str(), ',');
    parse_lineage(&entries)
}

/// Reads a header line.
fn parse_header(line: &str, number: usize) -> (r: Result<RawSection, String>)
    requires
        line@.len() > 0,
        line@[0] == '[',
    ensures
        match header_of(line@, number) {
            Ok(s) => r is Ok && r->Ok_0.deep_view() == s,
            Err(m) => r is Err && r->Err_0@ == m,
        },
{
    let v = text::to_chars(line);
    assert(line@.skip(0) =~= line@);
    let close = text::find_from(&v, 0, ']');
    if close == v.len() {
        return Err(text::copy("malformed section header"));
    }
    let name = text::trim(text::from_chars(&v, 1, close).as_str());
    if name.as_str().is_empty() {
        return Err(text::copy("section name cannot be empty"));
    }
    let tail = text::from_chars(&v, close + 1, v.len());
    assert(tail@ =~= line@.skip(close as int + 1));
    match parse_suffix(text::trim(tail.as_str()).as_str()) {
        Err(m) => Err(m),
        Ok((is_template, parents)) => {
            let values: Vec<RawValue> = Vec::new();
            assert(values.deep_view() =~= Seq::empty());
            Ok(RawSection { name, line: number, is_template, parents, values })
        },
    }
}

// ---------------------------------------------------------------------------
// Files

/// Some section of the list has the name, up to the case of letters.
pub open spec fn section_named(all: Seq<RawSectionView>, name: text::Text) -> bool {
    exists|i: int| 0 <= i < all.len() && text::same_fold((#[trigger] all[i]).name, name)
}

/// The list with a setting added to its last section.
pub open spec fn with_setting(all: Seq<RawSectionView>, v: RawValueView) -> Seq<RawSectionView> {
    let s = all.last();
    all.drop_last().push(
        RawSectionView {
            name: s.name,
            line: s.line,
            is_template: s.is_template,
            parents: s.parents,
            values: s.values.push(v),
        },
    )
}

/// A refusal of the text at a line.
pub open spec fn bad_line(number: usize, message: text::Text) -> error::ErrorView {
    error::ErrorView::Syntax { line: number, message }
}

/// The sections after one more line.
pub open spec fn after_line(
    all: Seq<RawSectionView>,
    number: usize,
    raw: text::Text,
) -> Result<Seq<RawSectionView>, error::ErrorView> {
    let line = text::trimmed(without_comment(raw));
    if line.len() == 0 || line[0] == '#' {
        Ok(all)
    } else if line[0] == '[' {
        match header_of(line, number) {
            Err(m) => Err(bad_line(number, m)),
            Ok(s) => if section_named(all, s.name) {
                Err(error::ErrorView::DuplicateSection(s.name))
            } else {
                Ok(all.push(s))
            },
        }
    } else if all.len() == 0 {
        Err(bad_line(number, "setting appears before a section"@))
    } else {
        match text::cut(line, '=') {
            None => Err(bad_line(number, "expected key = value"@)),
            Some((key, value)) => Ok(
                with_setting(
                    all,
                    RawValueView {
                        key: text::trimmed(key),
                        value: unquoted(text::trimmed(value)),
                        line: number,
                        section: all.last().name,
                    },
                ),
            ),
        }
    }
}

/// The sections that a list of lines holds.
pub open spec fn sections_of(lines: Seq<text::Text>) -> Result<
    Seq<RawSectionView>,
    error::ErrorView,
>
    decreases lines.len(),
{
    if lines.len() == 0 {
        Ok(Seq::empty())
    } else {
        match sections_of(lines.drop_last()) {
            Err(e) => Err(e),
            Ok(all) => after_line(all, lines.len() as usize, lines.last()),
        }
    }
}

/// A line that spoils the lines up to it spoils the file.
proof fn lemma_sections_spoiled(lines: Seq<text::Text>, i: int)
    requires
        0 <= i <= lines.len(),
        sections_of(lines.take(i)) is Err,
    ensures
        sections_of(lines) == sections_of(lines.take(i)),
    decreases lines.len(),
{
    if i < lines.len() {
        assert(lines.drop_last().take(i) =~= lines.take(i));
        lemma_sections_spoiled(lines.drop_last(), i);
    } else {
        assert(lines.take(i) =~= lines);
    }
}

/// Whether a section of the list has the name.
pub fn has_section(all: &Vec<RawSection>, name: &str) -> (r: bool)
    ensures
        r == section_named(all.deep_view(), name@),
{
    let mut i: usize = 0;
    let ghost views = all.deep_view();
    while i < all.len()
        invariant
            views == all.deep_view(),
            i <= all@.len(),
            forall|j: int| 0 <= j < i ==> !text::same_fold((#[trigger] views[j]).name, name@),
        decreases all.len() - i,
    {
        assert(views[i as int] == all@[i as int].deep_view());
        if text::eq_ignore_ascii_case(all[i].name.as_str(), name) {
            return true;
        }
        i += 1;
    }
    false
}

/// Takes one more line into the sections.
fn take_line(all: &mut Vec<RawSection>, number: usize, raw: &str) -> (r: Option<ConfigError>)
    ensures
        match after_line(old(all).deep_view(), number, raw@) {
            Ok(next) => r is None && final(all).deep_view() == next,
            Err(e) => r is Some && r->0@ == e,
        },
{
    let line = text::trim(strip_inline_comment(raw).as_str());
    let v = text::to_chars(line.as_str());
    if v.len() == 0 || v[0] == '#' {
        return None;
    }
    if v[0] == '[' {
        match parse_header(line.as_str(), number) {
            Err(m) => {
                return Some(ConfigError::Syntax { line: number, message: m });
            },
            Ok(s) => {
                if has_section(all, s.name.as_str()) {
                    return Some(ConfigError::DuplicateSection(s.name));
                }
                let ghost before = all.deep_view();
                let ghost added = s.deep_view();
                all.push(s);
                assert(all.deep_view() =~= before.push(added));
                return None;
            },
        }
    }
    match all.pop() {
        None => Some(
            ConfigError::Syntax {
                line: number,
                message: text::copy("setting appears before a section"),
            },
        ),
        Some(mut s) => {
            match text::split_once(line.as_str(), '=') {
                None => Some(
                    ConfigError::Syntax {
                        line: number,
                        message: text::copy("expected key = value"),
                    },
                ),
                Some((key, value)) => {
                    let ghost last = s.deep_view();
                    let v = RawValue {
                        key: text::trim(key.as_str()),
                        value: unquote(text::trim(value.as_str()).as_str()),
                        line: number,
                        section: text::copy(s.name.as_str()),
                    };
                    let ghost added = v.deep_view();
                    s.values.push(v);
                    assert(s.values.deep_view() =~= last.values.push(added));
                    all.push(s);
                    assert(all.deep_view() =~= with_setting(old(all).deep_view(), added));
                    None
                },
            }
        },
    }
}

/// The sections of a file.
pub open spec fn parsed(input: text::Text) -> Result<Seq<RawSectionView>, error::ErrorView> {
    sections_of(text::lines_of(input))
}

/// Reads the sections of a file.
pub fn parse_sections(input: &str) -> (r: Result<Vec<RawSection>, ConfigError>)
    ensures
        error::outcome(r) == parsed(input@),
{
    let lines = text::lines(input);
    let mut all: Vec<RawSection> = Vec::new();
    let mut i: usize = 0;
    let ghost views = lines.deep_view();
    assert(views.take(0) =~= Seq::empty());
    assert(all.deep_view() =~= Seq::empty());
    while i < lines.len()
        invariant
            views == lines.deep_view(),
            views == text::lines_of(input@),
            i <= lines@.len(),
            sections_of(views.take(i as int)) == Ok::<Seq<RawSectionView>, error::ErrorView>(
                all.deep_view(),
            ),
        decreases lines.len() - i,
    {
        assert(views.take(i + 1).drop_last() =~= views.take(i as int));
        assert(views.take(i + 1).last() == lines@[i as int]@);
        match take_line(&mut all, i + 1, lines[i].as_str()) {
            Some(e) => {
                proof {
                    lemma_sections_spoiled(views, i + 1);
                }
                return Err(e);
            },
            None => {},
        }
        i += 1;
    }
    assert(views.take(i as int) =~= views);
    Ok(all)
}

} // verus!
