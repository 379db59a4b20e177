//! Configuration rows of a database.

use vstd::prelude::*;

use crate::config::error::cat3;
use crate::config::error::cat5;
use crate::config::overlay;
use crate::config::overlay::{ConfigOverlayKind, ConfigOverlaySection, ConfigOverlayValue};
use crate::number;
use crate::text;

verus! {

// ---------------------------------------------------------------------------
// Rows

/// One condition of a query.
#[derive(Debug, PartialEq, Eq)]
pub struct RealtimePredicate {
    pub field: String,
    pub value: String,
}

/// The contents of [`RealtimePredicate`].
pub struct PredicateView {
    pub field: text::Text,
    pub value: text::Text,
}

impl DeepView for RealtimePredicate {
    type V = PredicateView;

    open spec fn deep_view(&self) -> PredicateView {
        PredicateView { field: self.field@, value: self.value@ }
    }
}

impl RealtimePredicate {
    pub fn new(field: &str, value: &str) -> (r: Self)
        ensures
            r.deep_view() == (PredicateView { field: field@, value: value@ }),
    {
        RealtimePredicate { field: text::copy(field), value: text::copy(value) }
    }
}

/// One column of a row; the value is absent where the database has NULL.
#[derive(Debug, PartialEq, Eq)]
pub struct RealtimeField {
    pub name: String,
    pub value: Option<String>,
}

/// The contents of [`RealtimeField`].
pub struct FieldView {
    pub name: text::Text,
    pub value: Option<text::Text>,
}

impl DeepView for RealtimeField {
    type V = FieldView;

    open spec fn deep_view(&self) -> FieldView {
        FieldView { name: self.name@, value: self.value.deep_view() }
    }
}

/// One row, column by column.
#[derive(Debug, PartialEq, Eq)]
pub struct RealtimeRow {
    pub fields: Vec<RealtimeField>,
}

impl DeepView for RealtimeRow {
    type V = Seq<FieldView>;

    open spec fn deep_view(&self) -> Seq<FieldView> {
        self.fields.deep_view()
    }
}

/// What a query came back with.
#[derive(Debug, PartialEq, Eq)]
pub struct RealtimeLoad {
    pub revision: Option<String>,
    pub rows: Vec<RealtimeRow>,
}

/// The contents of [`RealtimeLoad`].
pub struct LoadView {
    pub revision: Option<text::Text>,
    pub rows: Seq<Seq<FieldView>>,
}

impl DeepView for RealtimeLoad {
    type V = LoadView;

    open spec fn deep_view(&self) -> LoadView {
        LoadView { revision: self.revision.deep_view(), rows: self.rows.deep_view() }
    }
}

// ---------------------------------------------------------------------------
// Queries

/// What the rows of a query describe.
#[derive(Clone, Copy, Debug, PartialEq, Eq, Structural)]
pub enum RealtimeSectionKind {
    Device,
    Line,
}

impl RealtimeSectionKind {
    /// The name of the kind.
    pub open spec fn name(self) -> text::Text {
        match self {
            RealtimeSectionKind::Device => "device"@,
            RealtimeSectionKind::Line => "line"@,
        }
    }

    /// The kind of the sections that the rows become.
    pub open spec fn overlay(self) -> ConfigOverlayKind {
        match self {
            RealtimeSectionKind::Device => ConfigOverlayKind::Device,
            RealtimeSectionKind::Line => ConfigOverlayKind::Line,
        }
    }

    pub fn as_str(self) -> (r: &'static str)
        ensures
            r@ == self.name(),
    {
        match self {
            RealtimeSectionKind::Device => "device",
            RealtimeSectionKind::Line => "line",
        }
    }

    pub fn overlay_kind(self) -> (r: ConfigOverlayKind)
        ensures
            r == self.overlay(),
    {
        match self {
            RealtimeSectionKind::Device => ConfigOverlayKind::Device,
            RealtimeSectionKind::Line => ConfigOverlayKind::Line,
        }
    }
}

/// One ordered query whose rows become configuration sections.
#[derive(Debug, PartialEq, Eq)]
pub struct RealtimeConfigurationQuery {
    family: String,
    predicates: Vec<RealtimePredicate>,
    section_name_field: String,
    section_kind: Option<RealtimeSectionKind>,
}

/// The contents of [`RealtimeConfigurationQuery`].
pub struct QueryView {
    pub family: text::Text,
    pub predicates: Seq<PredicateView>,
    pub section_name_field: text::Text,
    pub section_kind: Option<RealtimeSectionKind>,
}

impl DeepView for RealtimeConfigurationQuery {
    type V = QueryView;

    closed spec fn deep_view(&self) -> QueryView {
        QueryView {
            family: self.family@,
            predicates: self.predicates.deep_view(),
            section_name_field: self.section_name_field@,
            section_kind: self.section_kind,
        }
    }
}

/// The query for every current row of a family whose rows are of one kind.
pub open spec fn all_of(family: text::Text, kind: RealtimeSectionKind) -> QueryView {
    QueryView {
        family,
        predicates: seq![PredicateView { field: "_revision LIKE"@, value: "%"@ }],
        section_name_field: "name"@,
        section_kind: Some(kind),
    }
}

impl RealtimeConfigurationQuery {
    pub fn new(family: &str, predicates: Vec<RealtimePredicate>, section_name_field: &str) -> (r: Self)
        ensures
            r.deep_view() == (QueryView {
                family: family@,
                predicates: predicates.deep_view(),
                section_name_field: section_name_field@,
                section_kind: None,
            }),
    {
        RealtimeConfigurationQuery {
            family: text::copy(family),
            predicates,
            section_name_field: text::copy(section_name_field),
            section_kind: None,
        }
    }

    pub fn devices(family: &str) -> (r: Self)
        ensures
            r.deep_view() == all_of(family@, RealtimeSectionKind::Device),
    {
        RealtimeConfigurationQuery::all_named(family, RealtimeSectionKind::Device)
    }

    pub fn lines(family: &str) -> (r: Self)
        ensures
            r.deep_view() == all_of(family@, RealtimeSectionKind::Line),
    {
        RealtimeConfigurationQuery::all_named(family, RealtimeSectionKind::Line)
    }

    fn all_named(family: &str, kind: RealtimeSectionKind) -> (r: Self)
        ensures
            r.deep_view() == all_of(family@, kind),
    {
        let mut predicates: Vec<RealtimePredicate> = Vec::new();
        predicates.push(RealtimePredicate::new("_revision LIKE", "%"));
        let r = RealtimeConfigurationQuery {
            family: text::copy(family),
            predicates,
            section_name_field: text::copy("name"),
            section_kind: Some(kind),
        };
        assert(r.predicates.deep_view() =~= all_of(family@, kind).predicates);
        r
    }

    pub fn with_section_kind(self, kind: RealtimeSectionKind) -> (r: Self)
        ensures
            r.deep_view() == (QueryView { section_kind: Some(kind), ..self.deep_view() }),
    {
        RealtimeConfigurationQuery {
            family: self.family,
            predicates: self.predicates,
            section_name_field: self.section_name_field,
            section_kind: Some(kind),
        }
    }

    pub fn family(&self) -> (r: &str)
        ensures
            r@ == self.deep_view().family,
    {
        self.family.as_str()
    }

    pub fn predicates(&self) -> (r: &Vec<RealtimePredicate>)
        ensures
            r.deep_view() == self.deep_view().predicates,
    {
        &self.predicates
    }

    pub fn section_name_field(&self) -> (r: &str)
        ensures
            r@ == self.deep_view().section_name_field,
    {
        self.section_name_field.as_str()
    }

    pub fn section_kind(&self) -> (r: Option<RealtimeSectionKind>)
        ensures
            r == self.deep_view().section_kind,
    {
        self.section_kind
    }
}

// ---------------------------------------------------------------------------
// Refused rows

/// Why a row is refused.
#[derive(Debug, PartialEq, Eq)]
pub enum RealtimeRowError {
    MissingSectionName { field: String },
    NullSectionName { field: String },
    EmptySectionName { field: String },
    DuplicateSectionName { field: String },
    DuplicateDelete,
    NullDelete,
    InvalidDelete { value: String },
    DeleteWithField { field: String },
    EmptyFieldName,
    ConflictingSectionType { expected: &'static str, actual: String },
}

/// The contents of [`RealtimeRowError`].
pub enum RowErrorView {
    MissingSectionName { field: text::Text },
    NullSectionName { field: text::Text },
    EmptySectionName { field: text::Text },
    DuplicateSectionName { field: text::Text },
    DuplicateDelete,
    NullDelete,
    InvalidDelete { value: text::Text },
    DeleteWithField { field: text::Text },
    EmptyFieldName,
    ConflictingSectionType { expected: text::Text, actual: text::Text },
}

impl View for RealtimeRowError {
    type V = RowErrorView;

    open spec fn view(&self) -> RowErrorView {
        match self {
            RealtimeRowError::MissingSectionName { field } => RowErrorView::MissingSectionName {
                field: field@,
            },
            RealtimeRowError::NullSectionName { field } => RowErrorView::NullSectionName {
                field: field@,
            },
            RealtimeRowError::EmptySectionName { field } => RowErrorView::EmptySectionName {
                field: field@,
            },
            RealtimeRowError::DuplicateSectionName { field } => RowErrorView::DuplicateSectionName {
                field: field@,
            },
            RealtimeRowError::DuplicateDelete => RowErrorView::DuplicateDelete,
            RealtimeRowError::NullDelete => RowErrorView::NullDelete,
            RealtimeRowError::InvalidDelete { value } => RowErrorView::InvalidDelete {
                value: value@,
            },
            RealtimeRowError::DeleteWithField { field } => RowErrorView::DeleteWithField {
                field: field@,
            },
            RealtimeRowError::EmptyFieldName => RowErrorView::EmptyFieldName,
            RealtimeRowError::ConflictingSectionType {
                expected,
                actual,
            } => RowErrorView::ConflictingSectionType { expected: expected@, actual: actual@ },
        }
    }
}

impl RowErrorView {
    /// The diagnostic text of a refused row.
    pub open spec fn text(self) -> text::Text {
        match self {
            RowErrorView::MissingSectionName { field } => "section-name field "@ + text::quoted(
                field,
            ) + " is missing"@,
            RowErrorView::NullSectionName { field } => "section-name field "@ + text::quoted(field)
                + " is database NULL"@,
            RowErrorView::EmptySectionName { field } => "section-name field "@ + text::quoted(field)
                + " is empty"@,
            RowErrorView::DuplicateSectionName { field } => "section-name field "@ + text::quoted(
                field,
            ) + " occurs more than once"@,
            RowErrorView::DuplicateDelete => "reserved field _delete occurs more than once"@,
            RowErrorView::NullDelete => "reserved field _delete is database NULL"@,
            RowErrorView::InvalidDelete { value } => "reserved field _delete has value "@
                + text::quoted(value)
                + "; expected yes/no, true/false, on/off, or 1/0"@,
            RowErrorView::DeleteWithField { field } =>
            "section deletion conflicts with ordinary field "@ + text::quoted(field),
            RowErrorView::EmptyFieldName => "configuration field name is empty"@,
            RowErrorView::ConflictingSectionType { expected, actual } => "row type "@
                + text::quoted(actual) + " conflicts with the "@ + expected + " query"@,
        }
    }
}

impl RealtimeRowError {
    /// The diagnostic text.
    pub fn message(&self) -> (r: String)
        ensures
            r@ == self@.text(),
    {
        match self {
            RealtimeRowError::MissingSectionName { field } => cat3(
                "section-name field ",
                text::quote(field.as_str()).as_str(),
                " is missing",
            ),
            RealtimeRowError::NullSectionName { field } => cat3(
                "section-name field ",
                text::quote(field.as_str()).as_str(),
                " is database NULL",
            ),
            RealtimeRowError::EmptySectionName { field } => cat3(
                "section-name field ",
                text::quote(field.as_str()).as_str(),
                " is empty",
            ),
            RealtimeRowError::DuplicateSectionName { field } => cat3(
                "section-name field ",
                text::quote(field.as_str()).as_str(),
                " occurs more than once",
            ),
            RealtimeRowError::DuplicateDelete => text::copy(
                "reserved field _delete occurs more than once",
            ),
            RealtimeRowError::NullDelete => text::copy("reserved field _delete is database NULL"),
            RealtimeRowError::InvalidDelete { value } => cat3(
                "reserved field _delete has value ",
                text::quote(value.as_str()).as_str(),
                "; expected yes/no, true/false, on/off, or 1/0",
            ),
            RealtimeRowError::DeleteWithField { field } => {
                let mut r = text::copy("section deletion conflicts with ordinary field ");
                r.append(text::quote(field.as_str()).as_str());
                r
            },
            RealtimeRowError::EmptyFieldName => text::copy("configuration field name is empty"),
            RealtimeRowError::ConflictingSectionType { expected, actual } => cat5(
                "row type ",
                text::quote(actual.as_str()).as_str(),
                " conflicts with the ",
                expected,
                " query",
            ),
        }
    }
}

// ---------------------------------------------------------------------------
// Decoding

/// What the value of `_delete` says.
pub open spec fn deletion(raw: text::Text) -> Option<bool> {
    let word = text::lower(text::trimmed(raw));
    if word == "true"@ || word == "yes"@ || word == "on"@ || word == "1"@ {
        Some(true)
    } else if word == "false"@ || word == "no"@ || word == "off"@ || word == "0"@ {
        Some(false)
    } else {
        None
    }
}

/// What the value of `_delete` says.
pub fn parse_delete(raw: &str) -> (r: Option<bool>)
    ensures
        r == deletion(raw@),
{
    let word = text::to_ascii_lowercase(text::trim(raw).as_str());
    let word = word.as_str();
    if text::same(word, "true") || text::same(word, "yes") || text::same(word, "on") || text::same(
        word,
        "1",
    ) {
        Some(true)
    } else if text::same(word, "false") || text::same(word, "no") || text::same(word, "off")
        || text::same(word, "0") {
        Some(false)
    } else {
        None
    }
}

/// What the columns read so far add up to.
pub struct RowView {
    pub name: Option<text::Text>,
    pub delete: Option<bool>,
    pub values: Seq<overlay::ConfigOverlayValueView>,
    /// The first column that a deletion would leave unused.
    pub conflict: Option<text::Text>,
}

/// A row of which nothing has been read.
pub open spec fn unread() -> RowView {
    RowView { name: None, delete: None, values: Seq::empty(), conflict: None }
}

/// The first of `conflict` and `field`.
pub open spec fn first_of(conflict: Option<text::Text>, field: text::Text) -> Option<text::Text> {
    match conflict {
        Some(earlier) => Some(earlier),
        None => Some(field),
    }
}

/// One more column.
pub open spec fn after_field(q: QueryView, s: RowView, f: FieldView) -> Result<RowView, RowErrorView> {
    let field = text::trimmed(f.name);
    if field.len() == 0 {
        Err(RowErrorView::EmptyFieldName)
    } else if text::same_fold(field, q.section_name_field) {
        if s.name is Some {
            Err(RowErrorView::DuplicateSectionName { field: q.section_name_field })
        } else {
            match f.value {
                None => Err(RowErrorView::NullSectionName { field: q.section_name_field }),
                Some(value) => if text::trimmed(value).len() == 0 {
                    Err(RowErrorView::EmptySectionName { field: q.section_name_field })
                } else {
                    Ok(RowView { name: Some(text::trimmed(value)), ..s })
                },
            }
        }
    } else if text::same_fold(field, "_delete"@) {
        if s.delete is Some {
            Err(RowErrorView::DuplicateDelete)
        } else {
            match f.value {
                None => Err(RowErrorView::NullDelete),
                Some(value) => match deletion(value) {
                    None => Err(RowErrorView::InvalidDelete { value }),
                    Some(flag) => Ok(RowView { delete: Some(flag), ..s }),
                },
            }
        }
    } else if text::same_fold(field, "type"@) && q.section_kind is Some && f.value is Some {
        let kind = q.section_kind->0.name();
        if text::same_fold(text::trimmed(f.value->0), kind) {
            Ok(RowView { conflict: first_of(s.conflict, field), ..s })
        } else {
            Err(RowErrorView::ConflictingSectionType { expected: kind, actual: f.value->0 })
        }
    } else {
        Ok(
            RowView {
                values: s.values.push(
                    overlay::ConfigOverlayValueView { key: field, value: f.value },
                ),
                conflict: first_of(s.conflict, field),
                ..s
            },
        )
    }
}

/// The columns from index `i` on.
pub open spec fn row_from(q: QueryView, fields: Seq<FieldView>, i: int, s: RowView) -> Result<
    RowView,
    RowErrorView,
>
    decreases fields.len() - i,
{
    if i < 0 || i >= fields.len() {
        Ok(s)
    } else {
        match after_field(q, s, fields[i]) {
            Ok(next) => row_from(q, fields, i + 1, next),
            Err(e) => Err(e),
        }
    }
}

/// The section that a row read to its end becomes.
pub open spec fn section_from(q: QueryView, number: usize, s: RowView) -> Result<
    overlay::ConfigOverlaySectionView,
    RowErrorView,
> {
    if s.name is None {
        Err(RowErrorView::MissingSectionName { field: q.section_name_field })
    } else if s.delete == Some(true) && s.conflict is Some {
        Err(RowErrorView::DeleteWithField { field: s.conflict->0 })
    } else {
        Ok(
            overlay::ConfigOverlaySectionView {
                name: s.name->0,
                source: "realtime "@ + q.family + " row "@ + number::decimal(number as nat),
                line: number,
                kind: match q.section_kind {
                    Some(kind) => Some(kind.overlay()),
                    None => None,
                },
                delete: s.delete == Some(true),
                values: s.values,
            },
        )
    }
}

/// The section that a row becomes.
pub open spec fn section_of(q: QueryView, number: usize, row: Seq<FieldView>) -> Result<
    overlay::ConfigOverlaySectionView,
    RowErrorView,
> {
    match row_from(q, row, 0, unread()) {
        Ok(s) => section_from(q, number, s),
        Err(e) => Err(e),
    }
}

/// The contents of the outcome of decoding a row.
pub open spec fn decoded(r: Result<ConfigOverlaySection, RealtimeRowError>) -> Result<
    overlay::ConfigOverlaySectionView,
    RowErrorView,
> {
    match r {
        Ok(section) => Ok(section.deep_view()),
        Err(e) => Err(e@),
    }
}

/// What the columns read so far add up to.
struct RowState {
    name: Option<String>,
    delete: Option<bool>,
    values: Vec<ConfigOverlayValue>,
    conflict: Option<String>,
}

impl RowState {
    spec fn contents(&self) -> RowView {
        RowView {
            name: self.name.deep_view(),
            delete: self.delete,
            values: self.values.deep_view(),
            conflict: self.conflict.deep_view(),
        }
    }

    /// Records the first column that a deletion would leave unused.
    fn note(&mut self, field: &str)
        ensures
            final(self).contents() == (RowView {
                conflict: first_of(old(self).contents().conflict, field@),
                ..old(self).contents()
            }),
    {
        if self.conflict.is_none() {
            self.conflict = Some(text::copy(field));
        }
    }

    /// Reads one more column.
    fn read(&mut self, query: &RealtimeConfigurationQuery, column: &RealtimeField) -> (r: Option<
        RealtimeRowError,
    >)
        ensures
            match (r, after_field(query.deep_view(), old(self).contents(), column.deep_view())) {
                (None, Ok(next)) => final(self).contents() == next,
                (Some(e), Err(expected)) => e@ == expected,
                _ => false,
            },
    {
        let field = text::trim(column.name.as_str());
        if field.as_str().is_empty() {
            return Some(RealtimeRowError::EmptyFieldName);
        }
        if text::eq_ignore_ascii_case(field.as_str(), query.section_name_field.as_str()) {
            let named = text::copy(query.section_name_field.as_str());
            if self.name.is_some() {
                return Some(RealtimeRowError::DuplicateSectionName { field: named });
            }
            return match &column.value {
                None => Some(RealtimeRowError::NullSectionName { field: named }),
                Some(value) => {
                    let name = text::trim(value.as_str());
                    if name.as_str().is_empty() {
                        Some(RealtimeRowError::EmptySectionName { field: named })
                    } else {
                        self.name = Some(name);
                        None
                    }
                },
            };
        }
        if text::eq_ignore_ascii_case(field.as_str(), "_delete") {
            if self.delete.is_some() {
                return Some(RealtimeRowError::DuplicateDelete);
            }
            return match &column.value {
                None => Some(RealtimeRowError::NullDelete),
                Some(value) => match parse_delete(value.as_str()) {
                    None => Some(
                        RealtimeRowError::InvalidDelete { value: text::copy(value.as_str()) },
                    ),
                    Some(flag) => {
                        self.delete = Some(flag);
                        None
                    },
                },
            };
        }
        if text::eq_ignore_ascii_case(field.as_str(), "type") {
            match (query.section_kind, &column.value) {
                (Some(expected), Some(actual)) => {
                    self.note(field.as_str());
                    if text::eq_ignore_ascii_case(
                        text::trim(actual.as_str()).as_str(),
                        expected.as_str(),
                    ) {
                        return None;
                    }
                    return Some(
                        RealtimeRowError::ConflictingSectionType {
                            expected: expected.as_str(),
                            actual: text::copy(actual.as_str()),
                        },
                    );
                },
                _ => {},
            }
        }
        self.note(field.as_str());
        let ghost before = self.values.deep_view();
        let value = ConfigOverlayValue { key: field, value: text::copy_option(&column.value) };
        let ghost added = value.deep_view();
        self.values.push(value);
        assert(self.values.deep_view() =~= before.push(added));
        None
    }
}

/// The section that a row becomes, or why the row is refused. `row_number`
/// counts from one within its query.
pub fn decode_realtime_row(
    query: &RealtimeConfigurationQuery,
    row_number: usize,
    row: &RealtimeRow,
) -> (r: Result<ConfigOverlaySection, RealtimeRowError>)
    ensures
        decoded(r) == section_of(query.deep_view(), row_number, row.deep_view()),
{
    let mut state = RowState { name: None, delete: None, values: Vec::new(), conflict: None };
    let ghost q = query.deep_view();
    let ghost fields = row.deep_view();
    assert(state.values.deep_view() =~= Seq::empty());
    assert(fields.len() == row.fields@.len());
    let mut i: usize = 0;
    while i < row.fields.len()
        invariant
            q == query.deep_view(),
            fields == row.fields.deep_view(),
            fields.len() == row.fields@.len(),
            i <= row.fields@.len(),
            row_from(q, fields, 0, unread()) == row_from(q, fields, i as int, state.contents()),
        decreases row.fields.len() - i,
    {
        assert(fields[i as int] == row.fields@[i as int].deep_view());
        match state.read(query, &row.fields[i]) {
            Some(e) => return Err(e),
            None => {},
        }
        i += 1;
    }
    let name = match state.name {
        Some(name) => name,
        None => return Err(
            RealtimeRowError::MissingSectionName {
                field: text::copy(query.section_name_field.as_str()),
            },
        ),
    };
    let delete = match state.delete {
        Some(flag) => flag,
        None => false,
    };
    if delete {
        match state.conflict {
            Some(field) => return Err(RealtimeRowError::DeleteWithField { field }),
            None => {},
        }
    }
    let mut source = cat3("realtime ", query.family.as_str(), " row ");
    source.append(number::to_decimal(row_number as u64).as_str());
    Ok(
        ConfigOverlaySection {
            name,
            source,
            line: row_number,
            kind: match query.section_kind {
                Some(kind) => Some(kind.overlay_kind()),
                None => None,
            },
            delete,
            values: state.values,
        },
    )
}

// ---------------------------------------------------------------------------
// Laws

proof fn lemma_rows_keep_order(q: QueryView, fields: Seq<FieldView>, i: int, s: RowView)
    requires
        row_from(q, fields, i, s) is Ok,
        s.values.len() > 0 ==> s.conflict is Some,
        s.name is Some ==> s.name->0.len() > 0,
        forall|k: int| 0 <= k < s.values.len() ==> (#[trigger] s.values[k]).key.len() > 0,
    ensures
        ({
            let end = row_from(q, fields, i, s)->Ok_0;
            &&& end.values.len() > 0 ==> end.conflict is Some
            &&& end.name is Some ==> end.name->0.len() > 0
            &&& forall|k: int| 0 <= k < end.values.len() ==> (#[trigger] end.values[k]).key.len() > 0
        }),
    decreases fields.len() - i,
{
    if 0 <= i < fields.len() {
        let next = after_field(q, s, fields[i])->Ok_0;
        assert forall|k: int| 0 <= k < next.values.len() implies (#[trigger] next.values[k]).key.len()
            > 0 by {
            if k < s.values.len() {
                assert(next.values[k] == s.values[k]);
            }
        }
        lemma_rows_keep_order(q, fields, i + 1, next);
    }
}

/// An accepted row names its section, is attributed to its family and number,
/// has the kind of its query, holds no unnamed setting, and a deletion carries
/// no setting at all.
pub proof fn law_accepted_rows_are_unambiguous(q: QueryView, number: usize, row: Seq<FieldView>)
    requires
        section_of(q, number, row) is Ok,
    ensures
        ({
            let s = section_of(q, number, row)->Ok_0;
            &&& s.name.len() > 0
            &&& s.line == number
            &&& s.source == "realtime "@ + q.family + " row "@ + number::decimal(number as nat)
            &&& (s.kind is Some <==> q.section_kind is Some)
            &&& s.delete ==> s.values.len() == 0
            &&& forall|k: int| 0 <= k < s.values.len() ==> (#[trigger] s.values[k]).key.len() > 0
        }),
{
    lemma_rows_keep_order(q, row, 0, unread());
}

} // verus!
