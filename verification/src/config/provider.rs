//! Where a configuration comes from, and what the sources add up to.
//!
//! The callers read files and query databases. What they read is judged and
//! put together here.

use vstd::prelude::*;

use crate::config::error;
use crate::config::error::ConfigError;
use crate::config::error::{cat3, cat4, cat5};
use crate::config::module;
use crate::config::module::ModuleConfig;
use crate::config::overlay;
use crate::config::overlay::ConfigOverlaySection;
use crate::config::policy;
use crate::config::policy::RealtimeTableConfig;
use crate::config::file;
use crate::config::file::FileReading;
use crate::config::realtime;
use crate::config::realtime::{RealtimeConfigurationQuery, RealtimeLoad, RealtimeRowError};
use crate::config::rules;
use crate::config::rules::LayerRules;
use crate::number;
use crate::text;

verus! {

// ---------------------------------------------------------------------------
// Origins and failures

/// Where a configuration was read.
#[derive(Debug, PartialEq, Eq)]
pub enum ConfigurationOrigin {
    File(String),
    Named(String),
}

/// The contents of [`ConfigurationOrigin`].
pub enum OriginView {
    File(text::Text),
    Named(text::Text),
}

impl OriginView {
    /// How an origin is shown.
    pub open spec fn text(self) -> text::Text {
        match self {
            OriginView::File(path) => path,
            OriginView::Named(name) => name,
        }
    }
}

impl View for ConfigurationOrigin {
    type V = OriginView;

    open spec fn view(&self) -> OriginView {
        match self {
            ConfigurationOrigin::File(path) => OriginView::File(path@),
            ConfigurationOrigin::Named(name) => OriginView::Named(name@),
        }
    }
}

impl ConfigurationOrigin {
    /// How the origin is shown.
    pub fn text(&self) -> (r: String)
        ensures
            r@ == self@.text(),
    {
        match self {
            ConfigurationOrigin::File(path) => text::copy(path.as_str()),
            ConfigurationOrigin::Named(name) => text::copy(name.as_str()),
        }
    }
}

/// Why a file could not be read.
#[derive(Debug, PartialEq, Eq)]
pub struct ReadFailure {
    /// Whether there is no such file.
    pub missing: bool,
    pub message: String,
}

/// The contents of [`ReadFailure`].
pub struct ReadFailureView {
    pub missing: bool,
    pub message: text::Text,
}

impl View for ReadFailure {
    type V = ReadFailureView;

    open spec fn view(&self) -> ReadFailureView {
        ReadFailureView { missing: self.missing, message: self.message@ }
    }
}

/// Why no configuration could be had.
#[derive(Debug, PartialEq, Eq)]
pub enum ConfigurationProviderError {
    Read { path: String, source: ReadFailure },
    Invalid { origin: ConfigurationOrigin, source: Box<ConfigError> },
    Unavailable { provider: String, message: String },
    Realtime { family: String, source: String },
    RealtimeRow { family: String, row: usize, source: RealtimeRowError },
    RealtimeRevision { family: String, expected: Option<String>, actual: Option<String> },
}

/// The contents of [`ConfigurationProviderError`].
pub enum ProviderErrorView {
    Read { path: text::Text, source: ReadFailureView },
    Invalid { origin: OriginView, source: error::ErrorView },
    Unavailable { provider: text::Text, message: text::Text },
    Realtime { family: text::Text, source: text::Text },
    RealtimeRow { family: text::Text, row: usize, source: realtime::RowErrorView },
    RealtimeRevision {
        family: text::Text,
        expected: Option<text::Text>,
        actual: Option<text::Text>,
    },
}

impl View for ConfigurationProviderError {
    type V = ProviderErrorView;

    open spec fn view(&self) -> ProviderErrorView {
        match self {
            ConfigurationProviderError::Read { path, source } => ProviderErrorView::Read {
                path: path@,
                source: source@,
            },
            ConfigurationProviderError::Invalid { origin, source } => ProviderErrorView::Invalid {
                origin: origin@,
                source: (**source)@,
            },
            ConfigurationProviderError::Unavailable {
                provider,
                message,
            } => ProviderErrorView::Unavailable { provider: provider@, message: message@ },
            ConfigurationProviderError::Realtime { family, source } => ProviderErrorView::Realtime {
                family: family@,
                source: source@,
            },
            ConfigurationProviderError::RealtimeRow {
                family,
                row,
                source,
            } => ProviderErrorView::RealtimeRow { family: family@, row: *row, source: source@ },
            ConfigurationProviderError::RealtimeRevision {
                family,
                expected,
                actual,
            } => ProviderErrorView::RealtimeRevision {
                family: family@,
                expected: expected.deep_view(),
                actual: actual.deep_view(),
            },
        }
    }
}

impl ProviderErrorView {
    /// The diagnostic text of a failure.
    pub open spec fn text(self) -> text::Text {
        match self {
            ProviderErrorView::Read { path, source } => "unable to read configuration "@ + path
                + ": "@ + source.message,
            ProviderErrorView::Invalid { origin, source } => "invalid configuration "@
                + origin.text() + ": "@ + source.text(),
            ProviderErrorView::Unavailable { provider, message } => "configuration provider "@
                + provider + " is unavailable: "@ + message,
            ProviderErrorView::Realtime { family, source } => "realtime query for family "@ + family
                + " failed: "@ + source,
            ProviderErrorView::RealtimeRow { family, row, source } => "invalid realtime row "@
                + number::decimal(row as nat) + " from family "@ + family + ": "@ + source.text(),
            ProviderErrorView::RealtimeRevision { family, expected, actual } => "realtime family "@
                + family + " does not belong to the candidate revision"@,
        }
    }
}

impl ConfigurationProviderError {
    pub fn invalid(origin: ConfigurationOrigin, source: ConfigError) -> (r: Self)
        ensures
            r@ == (ProviderErrorView::Invalid { origin: origin@, source: source@ }),
    {
        ConfigurationProviderError::Invalid { origin, source: Box::new(source) }
    }

    pub fn unavailable(provider: &str, message: &str) -> (r: Self)
        ensures
            r@ == (ProviderErrorView::Unavailable { provider: provider@, message: message@ }),
    {
        ConfigurationProviderError::Unavailable {
            provider: text::copy(provider),
            message: text::copy(message),
        }
    }

    /// The refusal of the configuration itself, where that is the failure.
    pub fn config_error(&self) -> (r: Option<&ConfigError>)
        ensures
            match (r, self@) {
                (Some(e), ProviderErrorView::Invalid { origin, source }) => e@ == source,
                (Some(_), _) => false,
                (None, v) => !(v is Invalid),
            },
    {
        match self {
            ConfigurationProviderError::Invalid { origin: _, source } => Some(&**source),
            ConfigurationProviderError::Read { .. } => None,
            ConfigurationProviderError::Unavailable { .. } => None,
            ConfigurationProviderError::Realtime { .. } => None,
            ConfigurationProviderError::RealtimeRow { .. } => None,
            ConfigurationProviderError::RealtimeRevision { .. } => None,
        }
    }

    /// The diagnostic text.
    pub fn message(&self) -> (r: String)
        ensures
            r@ == self@.text(),
    {
        match self {
            ConfigurationProviderError::Read { path, source } => cat4(
                "unable to read configuration ",
                path.as_str(),
                ": ",
                source.message.as_str(),
            ),
            ConfigurationProviderError::Invalid { origin, source } => cat4(
                "invalid configuration ",
                origin.text().as_str(),
                ": ",
                source.message().as_str(),
            ),
            ConfigurationProviderError::Unavailable { provider, message } => cat4(
                "configuration provider ",
                provider.as_str(),
                " is unavailable: ",
                message.as_str(),
            ),
            ConfigurationProviderError::Realtime { family, source } => cat4(
                "realtime query for family ",
                family.as_str(),
                " failed: ",
                source.as_str(),
            ),
            ConfigurationProviderError::RealtimeRow { family, row, source } => {
                let mut r = cat5(
                    "invalid realtime row ",
                    number::to_decimal(*row as u64).as_str(),
                    " from family ",
                    family.as_str(),
                    ": ",
                );
                r.append(source.message().as_str());
                r
            },
            ConfigurationProviderError::RealtimeRevision {
                family,
                expected: _,
                actual: _,
            } => cat3(
                "realtime family ",
                family.as_str(),
                " does not belong to the candidate revision",
            ),
        }
    }
}

/// The contents of the outcome of a step that needs a source.
pub open spec fn provided<T: DeepView>(r: Result<T, ConfigurationProviderError>) -> Result<
    T::V,
    ProviderErrorView,
> {
    match r {
        Ok(v) => Ok(v.deep_view()),
        Err(e) => Err(e@),
    }
}

/// The contents of an optional failure.
pub open spec fn failure(r: Option<ConfigurationProviderError>) -> Option<ProviderErrorView> {
    match r {
        Some(e) => Some(e@),
        None => None,
    }
}

/// A refusal of the configuration as a failure of its source.
pub open spec fn attributed<T>(r: Result<T, error::ErrorView>, origin: OriginView) -> Result<
    T,
    ProviderErrorView,
> {
    match r {
        Ok(v) => Ok(v),
        Err(e) => Err(ProviderErrorView::Invalid { origin, source: e }),
    }
}

// ---------------------------------------------------------------------------
// Candidate rows

/// The revision that the families of a candidate agree on.
pub enum RevisionView {
    Unknown,
    Unversioned,
    Versioned(text::Text),
}

/// The revision after one more family.
pub open spec fn agreed(s: RevisionView, family: text::Text, actual: Option<text::Text>) -> Result<
    RevisionView,
    ProviderErrorView,
> {
    match (s, actual) {
        (RevisionView::Unknown, None) => Ok(RevisionView::Unversioned),
        (RevisionView::Unknown, Some(revision)) => Ok(RevisionView::Versioned(revision)),
        (RevisionView::Unversioned, None) => Ok(s),
        (RevisionView::Unversioned, Some(_)) => Err(
            ProviderErrorView::RealtimeRevision { family, expected: None, actual },
        ),
        (RevisionView::Versioned(expected), actual) => if actual == Some(expected) {
            Ok(s)
        } else {
            Err(
                ProviderErrorView::RealtimeRevision { family, expected: Some(expected), actual },
            )
        },
    }
}

/// The sections of the rows from index `i` on, after those before.
pub open spec fn sections_from(
    q: realtime::QueryView,
    rows: Seq<Seq<realtime::FieldView>>,
    i: int,
    before: Seq<overlay::ConfigOverlaySectionView>,
) -> Result<Seq<overlay::ConfigOverlaySectionView>, ProviderErrorView>
    decreases rows.len() - i,
{
    if i < 0 || i >= rows.len() {
        Ok(before)
    } else {
        match realtime::section_of(q, (i + 1) as usize, rows[i]) {
            Ok(section) => sections_from(q, rows, i + 1, before.push(section)),
            Err(e) => Err(
                ProviderErrorView::RealtimeRow {
                    family: q.family,
                    row: (i + 1) as usize,
                    source: e,
                },
            ),
        }
    }
}

/// Why a query cannot be asked.
pub open spec fn query_fault(q: realtime::QueryView) -> Option<ProviderErrorView> {
    if text::trimmed(q.section_name_field).len() == 0 || text::same_fold(
        q.section_name_field,
        "_delete"@,
    ) {
        Some(
            ProviderErrorView::Unavailable {
                provider: "realtime"@,
                message: "section-name field must be non-empty and cannot be _delete"@,
            },
        )
    } else {
        None
    }
}

/// What the answers so far add up to.
pub struct CandidateView {
    /// The number of queries answered.
    pub asked: nat,
    pub revision: RevisionView,
    pub overlays: Seq<overlay::ConfigOverlaySectionView>,
}

/// A candidate that nothing has been asked for.
pub open spec fn unasked() -> CandidateView {
    CandidateView { asked: 0, revision: RevisionView::Unknown, overlays: Seq::empty() }
}

/// The candidate after one more answer. A failed query is given by its reason.
pub open spec fn answered(
    s: CandidateView,
    q: realtime::QueryView,
    answer: Result<realtime::LoadView, text::Text>,
) -> Result<CandidateView, ProviderErrorView> {
    match answer {
        Err(reason) => Err(ProviderErrorView::Realtime { family: q.family, source: reason }),
        Ok(load) => match agreed(s.revision, q.family, load.revision) {
            Err(e) => Err(e),
            Ok(revision) => match sections_from(q, load.rows, 0, s.overlays) {
                Err(e) => Err(e),
                Ok(overlays) => Ok(CandidateView { asked: s.asked + 1, revision, overlays }),
            },
        },
    }
}

/// The sections of the queries from index `i` on, where `answers` holds what
/// each of them comes back with.
pub open spec fn overlays_from(
    queries: Seq<realtime::QueryView>,
    answers: Seq<Result<realtime::LoadView, text::Text>>,
    i: int,
    s: CandidateView,
) -> Result<Seq<overlay::ConfigOverlaySectionView>, ProviderErrorView>
    decreases queries.len() - i,
{
    if i < 0 || i >= queries.len() {
        Ok(s.overlays)
    } else {
        match query_fault(queries[i]) {
            Some(e) => Err(e),
            None => match answered(s, queries[i], answers[i]) {
                Err(e) => Err(e),
                Ok(next) => overlays_from(queries, answers, i + 1, next),
            },
        }
    }
}

/// The contents of what a query came back with.
pub open spec fn answer_of(r: Result<RealtimeLoad, String>) -> Result<
    realtime::LoadView,
    text::Text,
> {
    match r {
        Ok(load) => Ok(load.deep_view()),
        Err(reason) => Err(reason@),
    }
}

/// The revision that the families of a candidate agree on.
enum CandidateRevision {
    Unknown,
    Unversioned,
    Versioned(String),
}

impl View for CandidateRevision {
    type V = RevisionView;

    closed spec fn view(&self) -> RevisionView {
        match self {
            CandidateRevision::Unknown => RevisionView::Unknown,
            CandidateRevision::Unversioned => RevisionView::Unversioned,
            CandidateRevision::Versioned(revision) => RevisionView::Versioned(revision@),
        }
    }
}

impl CandidateRevision {
    /// Takes the revision of one more family, unless it differs.
    fn take_in(&mut self, family: &str, actual: Option<String>) -> (r: Option<
        ConfigurationProviderError,
    >)
        ensures
            match agreed(old(self)@, family@, actual.deep_view()) {
                Ok(next) => r is None && final(self)@ == next,
                Err(e) => failure(r) == Some(e) && final(self)@ == old(self)@,
            },
    {
        match self {
            CandidateRevision::Unknown => {
                *self = match actual {
                    Some(revision) => CandidateRevision::Versioned(revision),
                    None => CandidateRevision::Unversioned,
                };
                None
            },
            CandidateRevision::Unversioned => match actual {
                None => None,
                Some(_) => Some(
                    ConfigurationProviderError::RealtimeRevision {
                        family: text::copy(family),
                        expected: None,
                        actual,
                    },
                ),
            },
            CandidateRevision::Versioned(expected) => {
                let kept = text::copy(expected.as_str());
                let agrees = match &actual {
                    Some(revision) => text::same(revision.as_str(), kept.as_str()),
                    None => false,
                };
                if agrees {
                    None
                } else {
                    Some(
                        ConfigurationProviderError::RealtimeRevision {
                            family: text::copy(family),
                            expected: Some(kept),
                            actual,
                        },
                    )
                }
            },
        }
    }
}

/// What is to be done next for a candidate.
pub enum QueryStep {
    /// Ask the query of this index.
    Ask(usize),
    /// Every query has been answered.
    Done,
    Refused(ConfigurationProviderError),
}

/// The rows of ordered queries, gathered answer by answer.
pub struct RealtimeCandidate {
    next: usize,
    revision: CandidateRevision,
    overlays: Vec<ConfigOverlaySection>,
}

impl View for RealtimeCandidate {
    type V = CandidateView;

    closed spec fn view(&self) -> CandidateView {
        CandidateView {
            asked: self.next as nat,
            revision: self.revision@,
            overlays: self.overlays.deep_view(),
        }
    }
}

impl RealtimeCandidate {
    pub fn new() -> (r: Self)
        ensures
            r@ == unasked(),
    {
        let r = RealtimeCandidate {
            next: 0,
            revision: CandidateRevision::Unknown,
            overlays: Vec::new(),
        };
        assert(r.overlays.deep_view() =~= Seq::empty());
        r
    }

    /// Which query is to be asked next.
    pub fn step(&self, queries: &Vec<RealtimeConfigurationQuery>) -> (r: QueryStep)
        ensures
            match r {
                QueryStep::Refused(e) => if queries@.len() == 0 {
                    Some(e@) == (Some(
                        ProviderErrorView::Unavailable {
                            provider: "realtime"@,
                            message: "at least one ordered query is required"@,
                        },
                    ))
                } else {
                    self@.asked < queries@.len() && Some(e@) == query_fault(
                        queries.deep_view()[self@.asked as int],
                    )
                },
                QueryStep::Done => 0 < queries@.len() <= self@.asked,
                QueryStep::Ask(i) => i == self@.asked && i < queries@.len() && query_fault(
                    queries.deep_view()[i as int],
                ) is None,
            },
    {
        if queries.len() == 0 {
            return QueryStep::Refused(
                ConfigurationProviderError::unavailable(
                    "realtime",
                    "at least one ordered query is required",
                ),
            );
        }
        if self.next >= queries.len() {
            return QueryStep::Done;
        }
        let query = &queries[self.next];
        assert(queries.deep_view()[self.next as int] == query.deep_view());
        if text::trim(query.section_name_field()).as_str().is_empty() || text::eq_ignore_ascii_case(
            query.section_name_field(),
            "_delete",
        ) {
            return QueryStep::Refused(
                ConfigurationProviderError::unavailable(
                    "realtime",
                    "section-name field must be non-empty and cannot be _delete",
                ),
            );
        }
        QueryStep::Ask(self.next)
    }

    /// Takes what the query of the last step came back with. After a failure
    /// the candidate is of no further use.
    pub fn answer(
        &mut self,
        query: &RealtimeConfigurationQuery,
        answer: Result<RealtimeLoad, String>,
    ) -> (r: Option<ConfigurationProviderError>)
        requires
            old(self)@.asked < usize::MAX,
        ensures
            match answered(old(self)@, query.deep_view(), answer_of(answer)) {
                Ok(next) => r is None && final(self)@ == next,
                Err(e) => failure(r) == Some(e),
            },
    {
        let load = match answer {
            Ok(load) => load,
            Err(reason) => return Some(
                ConfigurationProviderError::Realtime {
                    family: text::copy(query.family()),
                    source: reason,
                },
            ),
        };
        match self.revision.take_in(query.family(), load.revision) {
            Some(e) => return Some(e),
            None => {},
        }
        let ghost q = query.deep_view();
        let ghost rows = load.rows.deep_view();
        let ghost held = self.overlays.deep_view();
        let rows_read = load.rows;
        assert(rows.len() == rows_read@.len());
        let mut i: usize = 0;
        while i < rows_read.len()
            invariant
                q == query.deep_view(),
                rows == rows_read.deep_view(),
                rows.len() == rows_read@.len(),
                i <= rows_read.len(),
                self.next == old(self).next,
                sections_from(q, rows, 0, held) == sections_from(
                    q,
                    rows,
                    i as int,
                    self.overlays.deep_view(),
                ),
                agreed(old(self)@.revision, q.family, answer_of(answer)->Ok_0.revision) == Ok::<
                    RevisionView,
                    ProviderErrorView,
                >(self.revision@),
                held == old(self)@.overlays,
                answer is Ok,
                rows == answer_of(answer)->Ok_0.rows,
            decreases rows_read.len() - i,
        {
            assert(rows[i as int] == rows_read@[i as int].deep_view());
            match realtime::decode_realtime_row(query, i + 1, &rows_read[i]) {
                Ok(section) => {
                    let ghost before = self.overlays.deep_view();
                    let ghost added = section.deep_view();
                    self.overlays.push(section);
                    assert(self.overlays.deep_view() =~= before.push(added));
                },
                Err(source) => return Some(
                    ConfigurationProviderError::RealtimeRow {
                        family: text::copy(query.family()),
                        row: i + 1,
                        source,
                    },
                ),
            }
            i += 1;
        }
        self.next = self.next + 1;
        None
    }

    /// The sections gathered.
    pub fn overlays(self) -> (r: Vec<ConfigOverlaySection>)
        ensures
            r.deep_view() == self@.overlays,
    {
        self.overlays
    }
}

// ---------------------------------------------------------------------------
// Providers

/// Ordered static configuration input.
pub trait StaticConfigurationSource {
    /// Whether [`StaticConfigurationSource::origin`] may give an origin.
    open spec fn may_name(&self, origin: OriginView) -> bool {
        true
    }

    fn origin(&self) -> (r: ConfigurationOrigin)
        ensures
            self.may_name(r@),
    ;
}

/// A configuration file.
#[derive(Debug, PartialEq, Eq)]
pub struct FileConfigurationProvider {
    path: String,
}

impl View for FileConfigurationProvider {
    type V = text::Text;

    closed spec fn view(&self) -> text::Text {
        self.path@
    }
}

impl StaticConfigurationSource for FileConfigurationProvider {
    open spec fn may_name(&self, origin: OriginView) -> bool {
        origin == OriginView::File(self@)
    }

    fn origin(&self) -> (r: ConfigurationOrigin) {
        ConfigurationOrigin::File(text::copy(self.path.as_str()))
    }
}

impl FileConfigurationProvider {
    pub fn new(path: &str) -> (r: Self)
        ensures
            r@ == path@,
    {
        FileConfigurationProvider { path: text::copy(path) }
    }

    pub fn path(&self) -> (r: &str)
        ensures
            r@ == self@,
    {
        self.path.as_str()
    }

    /// The start of reading the file: nothing has been opened yet.
    pub fn source(&self) -> (r: FileReading)
        ensures
            r@ == file::unopened(),
    {
        FileReading::new()
    }

    /// The realtime tables that the contents of the file name. Nothing but the
    /// general section is judged.
    pub fn realtime_tables(&self, contents: &str, with: &LayerRules) -> (r: Result<
        Option<RealtimeTableConfig>,
        ConfigurationProviderError,
    >)
        ensures
            provided(r) == attributed(
                module::tables_in(contents@, with.deep_view()),
                OriginView::File(self@),
            ),
    {
        selected_tables(self, contents, with)
    }

    /// The configuration that the contents of the file hold.
    pub fn load(&self, contents: &str, with: &LayerRules) -> (r: Result<
        ModuleConfig,
        ConfigurationProviderError,
    >)
        ensures
            provided(r) == attributed(
                module::config_in(contents@, with.deep_view()),
                OriginView::File(self@),
            ),
    {
        match ModuleConfig::parse(contents, with) {
            Ok(config) => Ok(config),
            Err(source) => Err(ConfigurationProviderError::invalid(self.origin(), source)),
        }
    }
}

/// The realtime tables that the contents of a static source name.
pub fn selected_tables<F: StaticConfigurationSource>(
    source: &F,
    contents: &str,
    with: &LayerRules,
) -> (r: Result<Option<RealtimeTableConfig>, ConfigurationProviderError>)
    ensures
        exists|origin: OriginView| #[trigger]
            source.may_name(origin) && provided(r) == attributed(
                module::tables_in(contents@, with.deep_view()),
                origin,
            ),
{
    let origin = source.origin();
    assert(source.may_name(origin@));
    match ModuleConfig::realtime_tables_from_source(contents, with) {
        Ok(tables) => Ok(tables),
        Err(e) => Err(ConfigurationProviderError::invalid(origin, e)),
    }
}

/// A configuration made of database rows alone.
#[derive(Debug, PartialEq, Eq)]
pub struct RealtimeConfigurationProvider {
    queries: Vec<RealtimeConfigurationQuery>,
}

impl View for RealtimeConfigurationProvider {
    type V = Seq<realtime::QueryView>;

    closed spec fn view(&self) -> Seq<realtime::QueryView> {
        self.queries.deep_view()
    }
}

impl RealtimeConfigurationProvider {
    pub fn new(queries: Vec<RealtimeConfigurationQuery>) -> (r: Self)
        ensures
            r@ == queries.deep_view(),
    {
        RealtimeConfigurationProvider { queries }
    }

    pub fn queries(&self) -> (r: &Vec<RealtimeConfigurationQuery>)
        ensures
            r.deep_view() == self@,
    {
        &self.queries
    }

    /// The configuration that the gathered rows hold.
    pub fn load(&self, overlays: &Vec<ConfigOverlaySection>, with: &LayerRules) -> (r: Result<
        ModuleConfig,
        ConfigurationProviderError,
    >)
        ensures
            provided(r) == attributed(
                module::overlaid_config(""@, overlays.deep_view(), with.deep_view()),
                OriginView::Named("realtime configuration"@),
            ),
    {
        match ModuleConfig::parse_with_overlays("", overlays, with) {
            Ok(config) => Ok(config),
            Err(source) => Err(
                ConfigurationProviderError::invalid(
                    ConfigurationOrigin::Named(text::copy("realtime configuration")),
                    source,
                ),
            ),
        }
    }
}

/// A static source under database rows.
#[derive(Debug, PartialEq, Eq)]
pub struct HybridConfigurationProvider<F> {
    file: F,
    queries: Vec<RealtimeConfigurationQuery>,
    expected_tables: Option<RealtimeTableConfig>,
}

impl<F> HybridConfigurationProvider<F> {
    /// The static source.
    pub closed spec fn base(&self) -> F {
        self.file
    }

    /// The queries, in order.
    pub closed spec fn asks(&self) -> Seq<realtime::QueryView> {
        self.queries.deep_view()
    }

    /// The tables that the static source has to go on naming.
    pub closed spec fn expects(&self) -> Option<policy::RealtimeTableConfigView> {
        self.expected_tables.deep_view()
    }
}

/// Why the contents of a static source no longer select the expected tables.
pub open spec fn tables_fault(
    expected: Option<policy::RealtimeTableConfigView>,
    contents: text::Text,
    origin: OriginView,
    w: rules::LayerRulesView,
) -> Option<ProviderErrorView> {
    if expected is None {
        None
    } else {
        match module::tables_in(contents, w) {
            Err(e) => Some(ProviderErrorView::Invalid { origin, source: e }),
            Ok(selected) => if selected == expected {
                None
            } else {
                Some(
                    ProviderErrorView::Unavailable {
                        provider: "hybrid"@,
                        message:
                            "devicetable or linetable changed; restart the module to select new families"@,
                    },
                )
            },
        }
    }
}

/// What the contents of a static source make under database rows: nothing,
/// where they no longer select the expected tables.
pub open spec fn merged(
    expected: Option<policy::RealtimeTableConfigView>,
    contents: text::Text,
    overlays: Seq<overlay::ConfigOverlaySectionView>,
    origin: OriginView,
    w: rules::LayerRulesView,
) -> Result<module::ModuleConfigView, ProviderErrorView> {
    match tables_fault(expected, contents, origin, w) {
        Some(e) => Err(e),
        None => attributed(
            module::overlaid_config(contents, overlays, w),
            OriginView::Named(origin.text() + " plus realtime"@),
        ),
    }
}

impl<F: StaticConfigurationSource> HybridConfigurationProvider<F> {
    pub fn new(file: F, queries: Vec<RealtimeConfigurationQuery>) -> (r: Self)
        ensures
            r.base() == file,
            r.asks() == queries.deep_view(),
            r.expects() is None,
    {
        HybridConfigurationProvider { file, queries, expected_tables: None }
    }

    /// The provider for the tables that the static source names now.
    pub fn from_tables(file: F, tables: &RealtimeTableConfig) -> (r: Self)
        ensures
            r.base() == file,
            r.asks() == seq![
                realtime::all_of(
                    tables.deep_view().device_family,
                    realtime::RealtimeSectionKind::Device,
                ),
                realtime::all_of(
                    tables.deep_view().line_family,
                    realtime::RealtimeSectionKind::Line,
                ),
            ],
            r.expects() == Some(tables.deep_view()),
    {
        let mut queries: Vec<RealtimeConfigurationQuery> = Vec::new();
        queries.push(RealtimeConfigurationQuery::devices(tables.device_family.as_str()));
        queries.push(RealtimeConfigurationQuery::lines(tables.line_family.as_str()));
        let r = HybridConfigurationProvider { file, queries, expected_tables: Some(tables.clone()) };
        assert(r.asks() =~= seq![
            realtime::all_of(
                tables.deep_view().device_family,
                realtime::RealtimeSectionKind::Device,
            ),
            realtime::all_of(tables.deep_view().line_family, realtime::RealtimeSectionKind::Line),
        ]);
        r
    }

    pub fn file(&self) -> (r: &F)
        ensures
            *r == self.base(),
    {
        &self.file
    }

    pub fn queries(&self) -> (r: &Vec<RealtimeConfigurationQuery>)
        ensures
            r.deep_view() == self.asks(),
    {
        &self.queries
    }

    /// Why the contents of the static source no longer select the tables that
    /// this provider was made for. To be asked before any query.
    pub fn check_tables(&self, contents: &str, with: &LayerRules) -> (r: Option<
        ConfigurationProviderError,
    >)
        ensures
            exists|origin: OriginView| #[trigger]
                self.base().may_name(origin) && failure(r) == tables_fault(
                    self.expects(),
                    contents@,
                    origin,
                    with.deep_view(),
                ),
    {
        match &self.expected_tables {
            None => {
                let origin = self.file.origin();
                assert(self.base().may_name(origin@));
                None
            },
            Some(expected) => {
                let found = selected_tables(&self.file, contents, with);
                let ghost origin = choose|origin: OriginView| #[trigger]
                    self.file.may_name(origin) && provided(found) == attributed(
                        module::tables_in(contents@, with.deep_view()),
                        origin,
                    );
                assert(self.base().may_name(origin));
                match found {
                    Err(e) => Some(e),
                    Ok(selected) => {
                        let stable = match &selected {
                            Some(tables) => text::same(
                                tables.device_family.as_str(),
                                expected.device_family.as_str(),
                            ) && text::same(
                                tables.line_family.as_str(),
                                expected.line_family.as_str(),
                            ),
                            None => false,
                        };
                        if stable {
                            None
                        } else {
                            Some(
                                ConfigurationProviderError::unavailable(
                                    "hybrid",
                                    "devicetable or linetable changed; restart the module to select new families",
                                ),
                            )
                        }
                    },
                }
            },
        }
    }

    /// The configuration that the contents of the static source hold under the
    /// gathered rows, unless they no longer select the expected tables.
    pub fn load(
        &self,
        contents: &str,
        overlays: &Vec<ConfigOverlaySection>,
        with: &LayerRules,
    ) -> (r: Result<ModuleConfig, ConfigurationProviderError>)
        ensures
            exists|origin: OriginView| #[trigger]
                self.base().may_name(origin) && provided(r) == merged(
                    self.expects(),
                    contents@,
                    overlays.deep_view(),
                    origin,
                    with.deep_view(),
                ),
    {
        match self.check_tables(contents, with) {
            Some(e) => return Err(e),
            None => {},
        }
        let named = self.file.origin();
        assert(self.base().may_name(named@));
        match ModuleConfig::parse_with_overlays(contents, overlays, with) {
            Ok(config) => Ok(config),
            Err(source) => {
                let mut origin = named.text();
                origin.append(" plus realtime");
                Err(ConfigurationProviderError::invalid(ConfigurationOrigin::Named(origin), source))
            },
        }
    }
}

// ---------------------------------------------------------------------------
// Laws

/// The families of a candidate share one revision: once a family has been
/// taken in, another is refused exactly when its revision differs.
pub proof fn law_candidates_have_one_revision(
    s: RevisionView,
    first: text::Text,
    a: Option<text::Text>,
    second: text::Text,
    b: Option<text::Text>,
)
    requires
        agreed(s, first, a) is Ok,
    ensures
        agreed(agreed(s, first, a)->Ok_0, second, b) is Ok <==> a == b,
        agreed(agreed(s, first, a)->Ok_0, second, b) is Err ==> agreed(
            agreed(s, first, a)->Ok_0,
            second,
            b,
        )->Err_0 == (ProviderErrorView::RealtimeRevision { family: second, expected: a, actual: b }),
{
}

proof fn lemma_rows_are_appended(
    q: realtime::QueryView,
    rows: Seq<Seq<realtime::FieldView>>,
    i: int,
    before: Seq<overlay::ConfigOverlaySectionView>,
)
    requires
        0 <= i <= rows.len() <= usize::MAX,
        sections_from(q, rows, i, before) is Ok,
    ensures
        ({
            let all = sections_from(q, rows, i, before)->Ok_0;
            &&& all.len() == before.len() + rows.len() - i
            &&& all.take(before.len() as int) == before
            &&& forall|k: int|
                i <= k < rows.len() ==> realtime::section_of(q, (k + 1) as usize, rows[k]) == Ok::<
                    overlay::ConfigOverlaySectionView,
                    realtime::RowErrorView,
                >(#[trigger] all[before.len() + k - i])
        }),
    decreases rows.len() - i,
{
    let all = sections_from(q, rows, i, before)->Ok_0;
    if i < rows.len() {
        let section = realtime::section_of(q, (i + 1) as usize, rows[i])->Ok_0;
        let more = before.push(section);
        lemma_rows_are_appended(q, rows, i + 1, more);
        assert(all.take(more.len() as int)[before.len() as int] == section);
        assert(all.take(before.len() as int) =~= all.take(more.len() as int).take(
            before.len() as int,
        ));
        assert(more.take(before.len() as int) =~= before);
        assert forall|k: int| i <= k < rows.len() implies realtime::section_of(
            q,
            (k + 1) as usize,
            rows[k],
        ) == Ok::<overlay::ConfigOverlaySectionView, realtime::RowErrorView>(
            #[trigger] all[before.len() + k - i],
        ) by {
            if k > i {
                assert(all[more.len() + k - (i + 1)] == all[before.len() + k - i]);
            }
        }
    } else {
        assert(all.take(before.len() as int) =~= before);
    }
}

/// The rows of a query become sections one for one, in row order, after the
/// sections of the queries before it.
pub proof fn law_rows_become_sections_in_order(
    q: realtime::QueryView,
    rows: Seq<Seq<realtime::FieldView>>,
    before: Seq<overlay::ConfigOverlaySectionView>,
)
    requires
        rows.len() <= usize::MAX,
        sections_from(q, rows, 0, before) is Ok,
    ensures
        ({
            let all = sections_from(q, rows, 0, before)->Ok_0;
            &&& all.len() == before.len() + rows.len()
            &&& all.take(before.len() as int) == before
            &&& forall|k: int|
                0 <= k < rows.len() ==> realtime::section_of(q, (k + 1) as usize, rows[k]) == Ok::<
                    overlay::ConfigOverlaySectionView,
                    realtime::RowErrorView,
                >(#[trigger] all[before.len() + k])
        }),
{
    lemma_rows_are_appended(q, rows, 0, before);
    let all = sections_from(q, rows, 0, before)->Ok_0;
    assert forall|k: int| 0 <= k < rows.len() implies realtime::section_of(
        q,
        (k + 1) as usize,
        rows[k],
    ) == Ok::<overlay::ConfigOverlaySectionView, realtime::RowErrorView>(
        #[trigger] all[before.len() + k],
    ) by {
        assert(all[before.len() + k - 0] == all[before.len() + k]);
    }
}

/// The candidate after the answers to the first `n` queries.
pub open spec fn candidate_after(
    queries: Seq<realtime::QueryView>,
    answers: Seq<Result<realtime::LoadView, text::Text>>,
    n: int,
) -> Result<CandidateView, ProviderErrorView>
    decreases n,
{
    if n <= 0 {
        Ok(unasked())
    } else {
        match candidate_after(queries, answers, n - 1) {
            Err(e) => Err(e),
            Ok(s) => match query_fault(queries[n - 1]) {
                Some(e) => Err(e),
                None => answered(s, queries[n - 1], answers[n - 1]),
            },
        }
    }
}

/// The rows that the first `n` answers hold.
pub open spec fn rows_before(
    answers: Seq<Result<realtime::LoadView, text::Text>>,
    n: int,
) -> nat
    decreases n,
{
    if n <= 0 {
        0
    } else {
        rows_before(answers, n - 1) + answers[n - 1]->Ok_0.rows.len()
    }
}

/// What a refused candidate is refused for stays.
proof fn lemma_refused_candidate(
    queries: Seq<realtime::QueryView>,
    answers: Seq<Result<realtime::LoadView, text::Text>>,
    i: int,
    n: int,
)
    requires
        0 <= i <= n,
        candidate_after(queries, answers, i) is Err,
    ensures
        candidate_after(queries, answers, n) == candidate_after(queries, answers, i),
    decreases n - i,
{
    if i < n {
        lemma_refused_candidate(queries, answers, i, n - 1);
    }
}

/// The queries from one on lead where the candidate leads.
proof fn lemma_candidate_goes_on(
    queries: Seq<realtime::QueryView>,
    answers: Seq<Result<realtime::LoadView, text::Text>>,
    i: int,
)
    requires
        0 <= i <= queries.len(),
        candidate_after(queries, answers, i) is Ok,
    ensures
        overlays_from(queries, answers, i, candidate_after(queries, answers, i)->Ok_0) == (
        match candidate_after(queries, answers, queries.len() as int) {
            Ok(s) => Ok(s.overlays),
            Err(e) => Err(e),
        }),
    decreases queries.len() - i,
{
    if i < queries.len() {
        let next = candidate_after(queries, answers, i + 1);
        if next is Ok {
            lemma_candidate_goes_on(queries, answers, i + 1);
        } else {
            lemma_refused_candidate(queries, answers, i + 1, queries.len() as int);
        }
    }
}

/// Whether the sections of a candidate are, one for one, the rows of its first
/// `n` answers.
pub open spec fn holds_rows(
    list: Seq<overlay::ConfigOverlaySectionView>,
    queries: Seq<realtime::QueryView>,
    answers: Seq<Result<realtime::LoadView, text::Text>>,
    n: int,
) -> bool {
    &&& list.len() == rows_before(answers, n)
    &&& forall|i: int| 0 <= i < n ==> (#[trigger] answers[i]) is Ok
    &&& forall|i: int, k: int|
        0 <= i < n && 0 <= k < answers[i]->Ok_0.rows.len() ==> realtime::section_of(
            queries[i],
            (k + 1) as usize,
            #[trigger] answers[i]->Ok_0.rows[k],
        ) == Ok::<overlay::ConfigOverlaySectionView, realtime::RowErrorView>(
            list[rows_before(answers, i) + k],
        )
}

/// The rows of an answer stand before those of later answers.
proof fn lemma_rows_before(
    answers: Seq<Result<realtime::LoadView, text::Text>>,
    i: int,
    n: int,
)
    requires
        0 <= i < n,
    ensures
        rows_before(answers, i) + answers[i]->Ok_0.rows.len() <= rows_before(answers, n),
    decreases n - i,
{
    if i + 1 < n {
        lemma_rows_before(answers, i, n - 1);
    }
}

proof fn lemma_candidate_rows(
    queries: Seq<realtime::QueryView>,
    answers: Seq<Result<realtime::LoadView, text::Text>>,
    n: int,
)
    requires
        0 <= n <= answers.len(),
        forall|i: int|
            0 <= i < answers.len() && answers[i] is Ok ==> (
            #[trigger] answers[i])->Ok_0.rows.len() <= usize::MAX,
        candidate_after(queries, answers, n) is Ok,
    ensures
        holds_rows(candidate_after(queries, answers, n)->Ok_0.overlays, queries, answers, n),
    decreases n,
{
    if n > 0 {
        lemma_candidate_rows(queries, answers, n - 1);
        let before = candidate_after(queries, answers, n - 1)->Ok_0.overlays;
        let all = candidate_after(queries, answers, n)->Ok_0.overlays;
        let rows = answers[n - 1]->Ok_0.rows;
        law_rows_become_sections_in_order(queries[n - 1], rows, before);
        assert forall|i: int, k: int|
            0 <= i < n && 0 <= k < answers[i]->Ok_0.rows.len() implies realtime::section_of(
            queries[i],
            (k + 1) as usize,
            #[trigger] answers[i]->Ok_0.rows[k],
        ) == Ok::<overlay::ConfigOverlaySectionView, realtime::RowErrorView>(
            all[rows_before(answers, i) + k],
        ) by {
            if i < n - 1 {
                lemma_rows_before(answers, i, n - 1);
                let at = rows_before(answers, i) + k;
                assert(all.take(before.len() as int)[at] == all[at]);
            } else {
                assert(all[before.len() + k] == all[rows_before(answers, i) + k]);
            }
        }
    }
}

/// A completed candidate holds the rows of every load, in the order of the
/// queries and of the rows, each as one section; a failed query, a fault of a
/// query, a revision that differs or a row that cannot be read leaves none.
pub proof fn law_candidates_hold_every_load_in_order(
    queries: Seq<realtime::QueryView>,
    answers: Seq<Result<realtime::LoadView, text::Text>>,
)
    requires
        queries.len() == answers.len(),
        forall|i: int|
            0 <= i < answers.len() && answers[i] is Ok ==> (
            #[trigger] answers[i])->Ok_0.rows.len() <= usize::MAX,
    ensures
        overlays_from(queries, answers, 0, unasked()) == (match candidate_after(
            queries,
            answers,
            queries.len() as int,
        ) {
            Ok(s) => Ok(s.overlays),
            Err(e) => Err(e),
        }),
        overlays_from(queries, answers, 0, unasked()) matches Ok(list) ==> holds_rows(
            list,
            queries,
            answers,
            answers.len() as int,
        ),
{
    lemma_candidate_goes_on(queries, answers, 0);
    if candidate_after(queries, answers, queries.len() as int) is Ok {
        lemma_candidate_rows(queries, answers, queries.len() as int);
    }
}

} // verus!
