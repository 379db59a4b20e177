//! The phone directory: bounded requests, pages and replies.
//!
//! `/sccp/directory` takes only `GET` without a body. Its optional,
//! case-sensitive fields are `q`, the one-based `page`, and `pageSize` from 1
//! to 32. Unknown and repeated fields, malformed form encoding, page zero and
//! pages out of range are refused.
//!
//! A page holds lines by their public caller identity, ordered by name and then
//! by number. The phone document itself is written by the XML layer.

use vstd::prelude::*;
use vstd::relations::*;
use vstd::seq_lib::*;

use crate::config::error::{cat3, cat5};
use crate::config::module::ModuleConfig;
use crate::config::policy;
use crate::number;
use crate::text;

verus! {

/// The most bytes of a query.
pub const DIRECTORY_MAX_QUERY_BYTES: usize = 512;

/// The most characters of a search.
pub const DIRECTORY_MAX_SEARCH_CHARS: usize = 64;

/// The most records that a directory is made of.
pub const DIRECTORY_MAX_SOURCE_ENTRIES: usize = 4096;

/// The most entries that a phone shows on a page.
pub const PHONE_DIRECTORY_MAX_ENTRIES: usize = 32;

/// The most characters of a name or number on a phone.
pub const PHONE_TEXT_MAX_CHARS: usize = 32;

/// The character that stands for bytes that are not UTF-8.
pub const REPLACEMENT_CHARACTER: char = '\u{FFFD}';

// ---------------------------------------------------------------------------
// Records

/// One entry of the directory.
#[derive(Debug, PartialEq, Eq)]
pub struct DirectoryRecord {
    pub name: String,
    pub telephone: String,
}

/// The contents of [`DirectoryRecord`].
pub struct RecordView {
    pub name: text::Text,
    pub telephone: text::Text,
}

impl DeepView for DirectoryRecord {
    type V = RecordView;

    open spec fn deep_view(&self) -> RecordView {
        RecordView { name: self.name@, telephone: self.telephone@ }
    }
}

impl Clone for DirectoryRecord {
    fn clone(&self) -> (r: Self)
        ensures
            r.deep_view() == self.deep_view(),
    {
        DirectoryRecord {
            name: text::copy(self.name.as_str()),
            telephone: text::copy(self.telephone.as_str()),
        }
    }
}

/// A text cut to what a phone shows.
pub open spec fn fitted(s: text::Text) -> text::Text {
    if s.len() <= PHONE_TEXT_MAX_CHARS {
        s
    } else {
        s.take(PHONE_TEXT_MAX_CHARS as int)
    }
}

/// A text cut to what a phone shows.
fn fit_phone_text(value: &str) -> (r: String)
    ensures
        r@ == fitted(value@),
{
    let v = text::to_chars(value);
    let end: usize = if v.len() <= PHONE_TEXT_MAX_CHARS {
        v.len()
    } else {
        PHONE_TEXT_MAX_CHARS
    };
    let r = text::from_chars(&v, 0, end);
    assert(r@ =~= fitted(value@));
    r
}

impl DirectoryRecord {
    pub fn new(name: &str, telephone: &str) -> (r: Self)
        ensures
            r.deep_view() == (RecordView { name: name@, telephone: telephone@ }),
    {
        DirectoryRecord { name: text::copy(name), telephone: text::copy(telephone) }
    }

    /// A configured identity, cut to what a phone shows.
    pub fn from_configured_identity(name: &str, telephone: &str) -> (r: Self)
        ensures
            r.deep_view() == (RecordView { name: fitted(name@), telephone: fitted(telephone@) }),
    {
        DirectoryRecord { name: fit_phone_text(name), telephone: fit_phone_text(telephone) }
    }
}

/// The directory record of a line: its public caller identity where it has
/// one, else its label and number.
pub open spec fn record_of(line: policy::LineConfigView) -> RecordView {
    let caller = text::trimmed(line.caller_name);
    let telephone = text::trimmed(line.caller_number);
    RecordView {
        name: fitted(
            if caller.len() == 0 || caller == line.number {
                text::trimmed(line.label)
            } else {
                caller
            },
        ),
        telephone: fitted(
            if telephone.len() == 0 {
                text::trimmed(line.number)
            } else {
                telephone
            },
        ),
    }
}

/// The directory records of a configuration, one for each line.
pub fn records_from_config(config: &ModuleConfig) -> (r: Vec<DirectoryRecord>)
    ensures
        r.deep_view() == config.deep_view().lines.map_values(
            |line: policy::LineConfigView| record_of(line),
        ),
{
    let ghost lines = config.lines.deep_view();
    let ghost all = lines.map_values(|line: policy::LineConfigView| record_of(line));
    let mut r: Vec<DirectoryRecord> = Vec::new();
    let mut i: usize = 0;
    while i < config.lines.len()
        invariant
            lines == config.lines.deep_view(),
            all == lines.map_values(|line: policy::LineConfigView| record_of(line)),
            i <= config.lines@.len(),
            r.deep_view() == all.take(i as int),
        decreases config.lines.len() - i,
    {
        let line = &config.lines[i];
        assert(lines[i as int] == line.deep_view());
        let caller = text::trim(line.caller_name.as_str());
        let label = text::trim(line.label.as_str());
        let name = if caller.as_str().is_empty() || text::same(
            caller.as_str(),
            line.number.as_str(),
        ) {
            label.as_str()
        } else {
            caller.as_str()
        };
        let number = text::trim(line.number.as_str());
        let public = text::trim(line.caller_number.as_str());
        let telephone = if public.as_str().is_empty() {
            number.as_str()
        } else {
            public.as_str()
        };
        let record = DirectoryRecord::from_configured_identity(name, telephone);
        let ghost before = r.deep_view();
        let ghost added = record.deep_view();
        r.push(record);
        assert(r.deep_view() =~= before.push(added));
        assert(added == all[i as int]);
        i += 1;
        assert(r.deep_view() =~= all.take(i as int));
    }
    assert(all.take(i as int) =~= all);
    r
}

// ---------------------------------------------------------------------------
// Requests

/// Why a request is refused.
#[derive(Clone, Copy, Debug, PartialEq, Eq)]
pub enum DirectoryRequestError {
    QueryExceedsLimit,
    InvalidPercentEncoding,
    InvalidUtf8,
    UnknownParameter,
    DuplicateParameter(&'static str),
    InvalidSearch,
    InvalidNumber(&'static str),
    PageSizeExceedsLimit,
}

/// The contents of [`DirectoryRequestError`].
pub enum RequestErrorView {
    QueryExceedsLimit,
    InvalidPercentEncoding,
    InvalidUtf8,
    UnknownParameter,
    DuplicateParameter(text::Text),
    InvalidSearch,
    InvalidNumber(text::Text),
    PageSizeExceedsLimit,
}

impl View for DirectoryRequestError {
    type V = RequestErrorView;

    open spec fn view(&self) -> RequestErrorView {
        match self {
            DirectoryRequestError::QueryExceedsLimit => RequestErrorView::QueryExceedsLimit,
            DirectoryRequestError::InvalidPercentEncoding => RequestErrorView::InvalidPercentEncoding,
            DirectoryRequestError::InvalidUtf8 => RequestErrorView::InvalidUtf8,
            DirectoryRequestError::UnknownParameter => RequestErrorView::UnknownParameter,
            DirectoryRequestError::DuplicateParameter(name) => RequestErrorView::DuplicateParameter(
                name@,
            ),
            DirectoryRequestError::InvalidSearch => RequestErrorView::InvalidSearch,
            DirectoryRequestError::InvalidNumber(name) => RequestErrorView::InvalidNumber(name@),
            DirectoryRequestError::PageSizeExceedsLimit => RequestErrorView::PageSizeExceedsLimit,
        }
    }
}

impl RequestErrorView {
    /// The diagnostic text of a refusal.
    pub open spec fn text(self) -> text::Text {
        match self {
            RequestErrorView::QueryExceedsLimit => "directory query exceeds the 512-byte limit"@,
            RequestErrorView::InvalidPercentEncoding =>
            "directory query contains invalid percent encoding"@,
            RequestErrorView::InvalidUtf8 => "directory query is not valid UTF-8"@,
            RequestErrorView::UnknownParameter =>
            "directory query contains an unknown parameter; expected q, page, or pageSize"@,
            RequestErrorView::DuplicateParameter(name) => "directory query repeats parameter "@
                + name,
            RequestErrorView::InvalidSearch =>
            "directory search must contain at most 64 characters and no control characters"@,
            RequestErrorView::InvalidNumber(name) => "directory parameter "@ + name
                + " must be a positive decimal integer"@,
            RequestErrorView::PageSizeExceedsLimit =>
            "directory pageSize must be between 1 and 32"@,
        }
    }
}

impl DirectoryRequestError {
    /// The diagnostic text.
    pub fn message(&self) -> (r: String)
        ensures
            r@ == self@.text(),
    {
        match self {
            DirectoryRequestError::QueryExceedsLimit => text::copy(
                "directory query exceeds the 512-byte limit",
            ),
            DirectoryRequestError::InvalidPercentEncoding => text::copy(
                "directory query contains invalid percent encoding",
            ),
            DirectoryRequestError::InvalidUtf8 => text::copy("directory query is not valid UTF-8"),
            DirectoryRequestError::UnknownParameter => text::copy(
                "directory query contains an unknown parameter; expected q, page, or pageSize",
            ),
            DirectoryRequestError::DuplicateParameter(name) => {
                let mut r = text::copy("directory query repeats parameter ");
                r.append(name);
                r
            },
            DirectoryRequestError::InvalidSearch => text::copy(
                "directory search must contain at most 64 characters and no control characters",
            ),
            DirectoryRequestError::InvalidNumber(name) => cat3(
                "directory parameter ",
                name,
                " must be a positive decimal integer",
            ),
            DirectoryRequestError::PageSizeExceedsLimit => text::copy(
                "directory pageSize must be between 1 and 32",
            ),
        }
    }
}

/// One decoded field of a query or a header.
#[derive(Debug, PartialEq, Eq)]
pub struct HttpField {
    pub name: String,
    pub value: String,
}

/// The contents of [`HttpField`].
pub struct HttpFieldView {
    pub name: text::Text,
    pub value: text::Text,
}

impl DeepView for HttpField {
    type V = HttpFieldView;

    open spec fn deep_view(&self) -> HttpFieldView {
        HttpFieldView { name: self.name@, value: self.value@ }
    }
}

/// What is asked of the directory.
#[derive(Debug, PartialEq, Eq)]
pub struct DirectoryRequest {
    pub search: Option<String>,
    /// One-based.
    pub page: usize,
    pub page_size: usize,
}

/// The contents of [`DirectoryRequest`].
pub struct RequestView {
    pub search: Option<text::Text>,
    pub page: usize,
    pub page_size: usize,
}

impl DeepView for DirectoryRequest {
    type V = RequestView;

    open spec fn deep_view(&self) -> RequestView {
        RequestView {
            search: self.search.deep_view(),
            page: self.page,
            page_size: self.page_size,
        }
    }
}

/// The request of an empty query.
pub open spec fn first_page() -> RequestView {
    RequestView { search: None, page: 1, page_size: PHONE_DIRECTORY_MAX_ENTRIES }
}

impl Default for DirectoryRequest {
    fn default() -> (r: Self)
        ensures
            r.deep_view() == first_page(),
    {
        DirectoryRequest { search: None, page: 1, page_size: PHONE_DIRECTORY_MAX_ENTRIES }
    }
}

/// A text that may be searched for.
pub open spec fn is_search(s: text::Text) -> bool {
    s.len() <= DIRECTORY_MAX_SEARCH_CHARS && !text::any_control(s)
}

/// Whether a text may be searched for.
fn valid_search(value: &str) -> (r: bool)
    ensures
        r == is_search(value@),
{
    let v = text::to_chars(value);
    v.len() <= DIRECTORY_MAX_SEARCH_CHARS && !text::has_control(value)
}

/// A positive decimal number that fits the machine.
pub open spec fn positive(s: text::Text) -> Option<usize> {
    if s.len() > 0 && text::all_digits(s) {
        match number::bounded(s, 10, usize::MAX as nat) {
            Some(n) => if n > 0 {
                Some(n as usize)
            } else {
                None
            },
            None => None,
        }
    } else {
        None
    }
}

/// A positive decimal number that fits the machine.
fn read_positive(value: &str) -> (r: Option<usize>)
    ensures
        r == positive(value@),
{
    if value.is_empty() || !text::only_digits(value) {
        return None;
    }
    match number::read_u64(value) {
        Some(n) => if n > 0 && n <= usize::MAX as u64 {
            Some(n as usize)
        } else {
            None
        },
        None => None,
    }
}

/// Why a request cannot be served.
pub open spec fn request_fault(q: RequestView) -> Option<RequestErrorView> {
    if q.page == 0 {
        Some(RequestErrorView::InvalidNumber("page"@))
    } else if q.page_size == 0 || q.page_size > PHONE_DIRECTORY_MAX_ENTRIES {
        Some(RequestErrorView::PageSizeExceedsLimit)
    } else if q.search is Some && !is_search(q.search->0) {
        Some(RequestErrorView::InvalidSearch)
    } else {
        None
    }
}

/// The fields read so far.
pub struct FieldsView {
    pub request: RequestView,
    pub search_seen: bool,
    pub page_seen: bool,
    pub page_size_seen: bool,
}

/// No field has been read.
pub open spec fn no_fields() -> FieldsView {
    FieldsView {
        request: first_page(),
        search_seen: false,
        page_seen: false,
        page_size_seen: false,
    }
}

/// One more field.
pub open spec fn after_field(s: FieldsView, f: HttpFieldView) -> Result<
    FieldsView,
    RequestErrorView,
> {
    if f.name == "q"@ {
        if s.search_seen {
            Err(RequestErrorView::DuplicateParameter("q"@))
        } else if !is_search(f.value) {
            Err(RequestErrorView::InvalidSearch)
        } else {
            Ok(
                FieldsView {
                    request: RequestView {
                        search: if f.value.len() == 0 {
                            None
                        } else {
                            Some(f.value)
                        },
                        ..s.request
                    },
                    search_seen: true,
                    ..s
                },
            )
        }
    } else if f.name == "page"@ {
        if s.page_seen {
            Err(RequestErrorView::DuplicateParameter("page"@))
        } else {
            match positive(f.value) {
                None => Err(RequestErrorView::InvalidNumber("page"@)),
                Some(page) => Ok(
                    FieldsView { request: RequestView { page, ..s.request }, page_seen: true, ..s },
                ),
            }
        }
    } else if f.name == "pageSize"@ {
        if s.page_size_seen {
            Err(RequestErrorView::DuplicateParameter("pageSize"@))
        } else {
            match positive(f.value) {
                None => Err(RequestErrorView::InvalidNumber("pageSize"@)),
                Some(page_size) => if page_size > PHONE_DIRECTORY_MAX_ENTRIES {
                    Err(RequestErrorView::PageSizeExceedsLimit)
                } else {
                    Ok(
                        FieldsView {
                            request: RequestView { page_size, ..s.request },
                            page_size_seen: true,
                            ..s
                        },
                    )
                },
            }
        }
    } else {
        Err(RequestErrorView::UnknownParameter)
    }
}

/// The fields from index `i` on.
pub open spec fn request_from(fields: Seq<HttpFieldView>, i: int, s: FieldsView) -> Result<
    RequestView,
    RequestErrorView,
>
    decreases fields.len() - i,
{
    if i < 0 || i >= fields.len() {
        match request_fault(s.request) {
            Some(e) => Err(e),
            None => Ok(s.request),
        }
    } else {
        match after_field(s, fields[i]) {
            Ok(next) => request_from(fields, i + 1, next),
            Err(e) => Err(e),
        }
    }
}

/// The request that decoded fields make.
pub open spec fn request_of(fields: Seq<HttpFieldView>) -> Result<RequestView, RequestErrorView> {
    request_from(fields, 0, no_fields())
}

/// The contents of the outcome of reading a request.
pub open spec fn outcome(r: Result<DirectoryRequest, DirectoryRequestError>) -> Result<
    RequestView,
    RequestErrorView,
> {
    match r {
        Ok(q) => Ok(q.deep_view()),
        Err(e) => Err(e@),
    }
}

/// A hexadecimal digit.
pub open spec fn is_hex(b: u8) -> bool {
    (0x30 <= b <= 0x39) || (0x41 <= b <= 0x46) || (0x61 <= b <= 0x66)
}

/// From index `i` on, every percent sign stands before two hexadecimal digits.
pub open spec fn triplets_from(query: Seq<u8>, i: int) -> bool
    decreases query.len() - i,
{
    if i < 0 || i >= query.len() {
        true
    } else if query[i] != 0x25 {
        triplets_from(query, i + 1)
    } else {
        i + 2 < query.len() && is_hex(query[i + 1]) && is_hex(query[i + 2]) && triplets_from(
            query,
            i + 3,
        )
    }
}

fn hex(b: u8) -> (r: bool)
    ensures
        r == is_hex(b),
{
    (0x30 <= b && b <= 0x39) || (0x41 <= b && b <= 0x46) || (0x61 <= b && b <= 0x66)
}

/// Whether every percent sign stands before two hexadecimal digits.
fn valid_triplets(query: &[u8]) -> (r: bool)
    ensures
        r == triplets_from(query@, 0),
{
    let mut i: usize = 0;
    while i < query.len()
        invariant
            i <= query@.len(),
            triplets_from(query@, 0) == triplets_from(query@, i as int),
        decreases query.len() - i,
    {
        if query[i] == 0x25 {
            if query.len() - i < 3 || !hex(query[i + 1]) || !hex(query[i + 2]) {
                return false;
            }
            i += 3;
        } else {
            i += 1;
        }
    }
    true
}

/// The name and value pairs of a query in the syntax
/// `application/x-www-form-urlencoded`, as `form_urlencoded` reads it.
pub uninterp spec fn form_fields(query: Seq<u8>) -> Seq<(Seq<char>, Seq<char>)>;

/// Calls `form_urlencoded::parse` and takes its pairs as owned text. They
/// depend on the query alone, and an empty query has none. How plus signs and
/// percent triplets are decoded, and that bytes which are not UTF-8 become the
/// replacement character, is left unsaid.
#[verifier::external_body]
fn parse_form(query: &[u8]) -> (r: Vec<(String, String)>)
    ensures
        r.deep_view() == form_fields(query@),
        query@.len() == 0 ==> r@.len() == 0,
{
    form_urlencoded::parse(query).into_owned().collect()
}

/// Some name or value holds the character for bytes that are not UTF-8.
pub open spec fn any_replaced(pairs: Seq<(text::Text, text::Text)>) -> bool {
    exists|i: int|
        0 <= i < pairs.len() && ((#[trigger] pairs[i]).0.contains(REPLACEMENT_CHARACTER)
            || pairs[i].1.contains(REPLACEMENT_CHARACTER))
}

/// Pairs as fields.
pub open spec fn fields_of(pairs: Seq<(text::Text, text::Text)>) -> Seq<HttpFieldView> {
    Seq::new(pairs.len(), |i: int| HttpFieldView { name: pairs[i].0, value: pairs[i].1 })
}

/// The request that decoded pairs make.
pub open spec fn request_in(pairs: Seq<(text::Text, text::Text)>) -> Result<
    RequestView,
    RequestErrorView,
> {
    if any_replaced(pairs) {
        Err(RequestErrorView::InvalidUtf8)
    } else {
        request_of(fields_of(pairs))
    }
}

/// The request that a raw query makes.
pub open spec fn query_request(query: Seq<u8>) -> Result<RequestView, RequestErrorView> {
    if query.len() > DIRECTORY_MAX_QUERY_BYTES {
        Err(RequestErrorView::QueryExceedsLimit)
    } else if !triplets_from(query, 0) {
        Err(RequestErrorView::InvalidPercentEncoding)
    } else {
        request_in(form_fields(query))
    }
}

impl DirectoryRequest {
    /// Reads a query in the syntax `application/x-www-form-urlencoded`.
    pub fn parse_query(query: &[u8]) -> (r: Result<Self, DirectoryRequestError>)
        ensures
            outcome(r) == query_request(query@),
            query@.len() == 0 ==> outcome(r) == Ok::<RequestView, RequestErrorView>(first_page()),
    {
        if query.len() > DIRECTORY_MAX_QUERY_BYTES {
            return Err(DirectoryRequestError::QueryExceedsLimit);
        }
        if !valid_triplets(query) {
            return Err(DirectoryRequestError::InvalidPercentEncoding);
        }
        let pairs = parse_form(query);
        assert(pairs.deep_view().len() == pairs@.len());
        DirectoryRequest::from_pairs(&pairs)
    }

    /// The request that decoded pairs make.
    pub fn from_pairs(pairs: &Vec<(String, String)>) -> (r: Result<Self, DirectoryRequestError>)
        ensures
            outcome(r) == request_in(pairs.deep_view()),
    {
        let ghost all = pairs.deep_view();
        assert(all.len() == pairs@.len());
        let mut fields: Vec<HttpField> = Vec::new();
        let mut i: usize = 0;
        while i < pairs.len()
            invariant
                all == pairs.deep_view(),
                all.len() == pairs@.len(),
                i <= pairs@.len(),
                fields.deep_view() == fields_of(all).take(i as int),
                forall|j: int|
                    0 <= j < i ==> !((#[trigger] all[j]).0.contains(REPLACEMENT_CHARACTER)
                        || all[j].1.contains(REPLACEMENT_CHARACTER)),
            decreases pairs.len() - i,
        {
            assert(all[i as int] == pairs@[i as int].deep_view());
            let name = pairs[i].0.as_str();
            let value = pairs[i].1.as_str();
            if text::contains_char(name, REPLACEMENT_CHARACTER) || text::contains_char(
                value,
                REPLACEMENT_CHARACTER,
            ) {
                return Err(DirectoryRequestError::InvalidUtf8);
            }
            let ghost before = fields.deep_view();
            let field = HttpField { name: text::copy(name), value: text::copy(value) };
            let ghost added = field.deep_view();
            fields.push(field);
            assert(fields.deep_view() =~= before.push(added));
            i += 1;
            assert(fields.deep_view() =~= fields_of(all).take(i as int));
        }
        assert(fields_of(all).take(i as int) =~= fields_of(all));
        DirectoryRequest::from_fields(&fields)
    }

    /// The request that decoded fields make.
    pub fn from_fields(fields: &Vec<HttpField>) -> (r: Result<Self, DirectoryRequestError>)
        ensures
            outcome(r) == request_of(fields.deep_view()),
    {
        let ghost all = fields.deep_view();
        assert(all.len() == fields@.len());
        let mut request = DirectoryRequest::default();
        let mut search_seen = false;
        let mut page_seen = false;
        let mut page_size_seen = false;
        let mut i: usize = 0;
        while i < fields.len()
            invariant
                all == fields.deep_view(),
                all.len() == fields@.len(),
                i <= fields@.len(),
                request_of(all) == request_from(
                    all,
                    i as int,
                    FieldsView {
                        request: request.deep_view(),
                        search_seen,
                        page_seen,
                        page_size_seen,
                    },
                ),
            decreases fields.len() - i,
        {
            assert(all[i as int] == fields@[i as int].deep_view());
            let name = fields[i].name.as_str();
            let value = fields[i].value.as_str();
            if text::same(name, "q") {
                if search_seen {
                    return Err(DirectoryRequestError::DuplicateParameter("q"));
                }
                search_seen = true;
                if !valid_search(value) {
                    return Err(DirectoryRequestError::InvalidSearch);
                }
                request.search = if value.is_empty() {
                    None
                } else {
                    Some(text::copy(value))
                };
            } else if text::same(name, "page") {
                if page_seen {
                    return Err(DirectoryRequestError::DuplicateParameter("page"));
                }
                page_seen = true;
                match read_positive(value) {
                    Some(page) => request.page = page,
                    None => return Err(DirectoryRequestError::InvalidNumber("page")),
                }
            } else if text::same(name, "pageSize") {
                if page_size_seen {
                    return Err(DirectoryRequestError::DuplicateParameter("pageSize"));
                }
                page_size_seen = true;
                match read_positive(value) {
                    Some(page_size) => {
                        if page_size > PHONE_DIRECTORY_MAX_ENTRIES {
                            return Err(DirectoryRequestError::PageSizeExceedsLimit);
                        }
                        request.page_size = page_size;
                    },
                    None => return Err(DirectoryRequestError::InvalidNumber("pageSize")),
                }
            } else {
                return Err(DirectoryRequestError::UnknownParameter);
            }
            i += 1;
        }
        match request.validate() {
            Ok(_) => Ok(request),
            Err(e) => Err(e),
        }
    }

    /// Whether the request can be served.
    pub fn validate(&self) -> (r: Result<(), DirectoryRequestError>)
        ensures
            match r {
                Ok(_) => request_fault(self.deep_view()) is None,
                Err(e) => request_fault(self.deep_view()) == Some(e@),
            },
    {
        if self.page == 0 {
            return Err(DirectoryRequestError::InvalidNumber("page"));
        }
        if self.page_size == 0 || self.page_size > PHONE_DIRECTORY_MAX_ENTRIES {
            return Err(DirectoryRequestError::PageSizeExceedsLimit);
        }
        match &self.search {
            Some(search) => {
                if !valid_search(search.as_str()) {
                    return Err(DirectoryRequestError::InvalidSearch);
                }
            },
            None => {},
        }
        Ok(())
    }
}

// ---------------------------------------------------------------------------
// Pages

/// A record is found by a search in lower case.
pub open spec fn is_found(record: RecordView, search: Option<text::Text>) -> bool {
    match search {
        None => true,
        Some(s) => text::holds(text::lowercase(record.name), s) || text::holds(
            text::lowercase(record.telephone),
            s,
        ),
    }
}

/// The records that a search finds.
pub open spec fn found(records: Seq<RecordView>, search: Option<text::Text>) -> Seq<RecordView>
    decreases records.len(),
{
    if records.len() == 0 {
        Seq::empty()
    } else {
        let head = found(records.drop_last(), search);
        if is_found(records.last(), search) {
            head.push(records.last())
        } else {
            head
        }
    }
}

/// `a` does not come after `b` in the directory: the names in lower case
/// decide, then the numbers, then the names as written.
pub open spec fn not_after(a: RecordView, b: RecordView) -> bool {
    let x = text::lowercase(a.name);
    let y = text::lowercase(b.name);
    if x != y {
        text::less(x, y)
    } else if a.telephone != b.telephone {
        text::less(a.telephone, b.telephone)
    } else {
        a.name == b.name || text::less(a.name, b.name)
    }
}

/// The records that a request finds, in directory order.
pub open spec fn listing(records: Seq<RecordView>, q: RequestView) -> Seq<RecordView> {
    found(
        records,
        match q.search {
            Some(s) => Some(text::lowercase(s)),
            None => None,
        },
    ).sort_by(|a: RecordView, b: RecordView| not_after(a, b))
}

/// The number of pages of `size` that `count` results take; at least one.
pub open spec fn pages_for(count: nat, size: nat) -> nat {
    if count == 0 {
        1
    } else {
        ((count - 1) / (size as int) + 1) as nat
    }
}

/// The end of a page that starts at `start`.
pub open spec fn page_end(start: nat, size: nat, count: nat) -> nat {
    if start + size < count {
        start + size
    } else {
        count
    }
}

/// What a phone shows above the entries.
pub open spec fn prompt_for(searched: bool, start: nat, end: nat, count: nat) -> text::Text {
    if count == 0 {
        if searched {
            "No matching entries"@
        } else {
            "Directory is empty"@
        }
    } else {
        number::decimal(start + 1) + "-"@ + number::decimal(end) + " of "@ + number::decimal(count)
    }
}

/// A directory document of a phone.
#[derive(Debug, PartialEq, Eq)]
pub struct DirectoryDocument {
    pub title: String,
    pub prompt: String,
    pub entries: Vec<DirectoryRecord>,
}

/// The contents of [`DirectoryDocument`].
pub struct DocumentView {
    pub title: text::Text,
    pub prompt: text::Text,
    pub entries: Seq<RecordView>,
}

impl DeepView for DirectoryDocument {
    type V = DocumentView;

    open spec fn deep_view(&self) -> DocumentView {
        DocumentView {
            title: self.title@,
            prompt: self.prompt@,
            entries: self.entries.deep_view(),
        }
    }
}

/// One page of the directory.
#[derive(Debug, PartialEq, Eq)]
pub struct DirectoryPage {
    pub document: DirectoryDocument,
    pub page: usize,
    pub page_count: usize,
    pub result_count: usize,
}

/// The contents of [`DirectoryPage`].
pub struct PageView {
    pub document: DocumentView,
    pub page: usize,
    pub page_count: usize,
    pub result_count: usize,
}

impl DeepView for DirectoryPage {
    type V = PageView;

    open spec fn deep_view(&self) -> PageView {
        PageView {
            document: self.document.deep_view(),
            page: self.page,
            page_count: self.page_count,
            result_count: self.result_count,
        }
    }
}

/// Why the XML layer refuses a phone document.
#[derive(Clone, Debug, PartialEq, Eq)]
pub enum PhoneXmlError {
    /// A field does not meet the schema, for this reason.
    InvalidField { reason: String },
}

/// An entry that the XML layer refuses, with its reason.
pub struct RefusedRecord {
    pub record: DirectoryRecord,
    pub reason: String,
}

/// The contents of [`RefusedRecord`].
pub struct RefusedRecordView {
    pub record: RecordView,
    pub reason: text::Text,
}

impl DeepView for RefusedRecord {
    type V = RefusedRecordView;

    open spec fn deep_view(&self) -> RefusedRecordView {
        RefusedRecordView { record: self.record.deep_view(), reason: self.reason@ }
    }
}

/// Why an entry is refused, by the first refusal that names it.
pub open spec fn refusal_of(refused: Seq<RefusedRecordView>, record: RecordView) -> Option<
    text::Text,
>
    decreases refused.len(),
{
    if refused.len() == 0 {
        None
    } else if refused[0].record == record {
        Some(refused[0].reason)
    } else {
        refusal_of(refused.skip(1), record)
    }
}

/// Why entries are refused: the reason of the first one that is.
pub open spec fn first_refusal(
    refused: Seq<RefusedRecordView>,
    entries: Seq<RecordView>,
) -> Option<text::Text>
    decreases entries.len(),
{
    if entries.len() == 0 {
        None
    } else {
        match refusal_of(refused, entries[0]) {
            Some(reason) => Some(reason),
            None => first_refusal(refused, entries.skip(1)),
        }
    }
}

/// Finds why an entry is refused.
fn find_refusal(refused: &Vec<RefusedRecord>, record: &DirectoryRecord) -> (r: Option<String>)
    ensures
        r.deep_view() == refusal_of(refused.deep_view(), record.deep_view()),
{
    let ghost all = refused.deep_view();
    let mut i: usize = 0;
    assert(all.skip(0) =~= all);
    while i < refused.len()
        invariant
            all == refused.deep_view(),
            i <= refused@.len(),
            refusal_of(all, record.deep_view()) == refusal_of(
                all.skip(i as int),
                record.deep_view(),
            ),
        decreases refused.len() - i,
    {
        assert(all.skip(i as int)[0] == refused@[i as int].deep_view());
        if text::same(refused[i].record.name.as_str(), record.name.as_str()) && text::same(
            refused[i].record.telephone.as_str(),
            record.telephone.as_str(),
        ) {
            return Some(text::copy(refused[i].reason.as_str()));
        }
        assert(all.skip(i as int).skip(1) =~= all.skip(i + 1));
        i += 1;
    }
    None
}

/// Finds the reason of the first entry that is refused.
fn find_first_refusal(refused: &Vec<RefusedRecord>, entries: &Vec<DirectoryRecord>) -> (r: Option<
    String,
>)
    ensures
        r.deep_view() == first_refusal(refused.deep_view(), entries.deep_view()),
{
    let ghost all = entries.deep_view();
    let mut i: usize = 0;
    assert(all.skip(0) =~= all);
    while i < entries.len()
        invariant
            all == entries.deep_view(),
            i <= entries@.len(),
            first_refusal(refused.deep_view(), all) == first_refusal(
                refused.deep_view(),
                all.skip(i as int),
            ),
        decreases entries.len() - i,
    {
        assert(all.skip(i as int)[0] == entries@[i as int].deep_view());
        match find_refusal(refused, &entries[i]) {
            Some(reason) => return Some(reason),
            None => {},
        }
        assert(all.skip(i as int).skip(1) =~= all.skip(i + 1));
        i += 1;
    }
    None
}

/// Why there is no such page.
#[derive(Clone, Debug, PartialEq, Eq)]
pub enum DirectoryPageError {
    Request(DirectoryRequestError),
    SourceExceedsLimit,
    PageOutOfRange { page_count: usize },
    Xml(PhoneXmlError),
}

/// The contents of [`DirectoryPageError`].
pub enum PageErrorView {
    Request(RequestErrorView),
    SourceExceedsLimit,
    PageOutOfRange { page_count: usize },
    Xml { reason: text::Text },
}

impl View for DirectoryPageError {
    type V = PageErrorView;

    open spec fn view(&self) -> PageErrorView {
        match self {
            DirectoryPageError::Request(e) => PageErrorView::Request(e@),
            DirectoryPageError::SourceExceedsLimit => PageErrorView::SourceExceedsLimit,
            DirectoryPageError::PageOutOfRange { page_count } => PageErrorView::PageOutOfRange {
                page_count: *page_count,
            },
            DirectoryPageError::Xml(PhoneXmlError::InvalidField { reason }) => PageErrorView::Xml {
                reason: reason@,
            },
        }
    }
}

impl PageErrorView {
    /// The diagnostic text of a refusal.
    pub open spec fn text(self) -> text::Text {
        match self {
            PageErrorView::Request(e) => e.text(),
            PageErrorView::SourceExceedsLimit => "directory source exceeds the 4096-entry limit"@,
            PageErrorView::PageOutOfRange { page_count } =>
            "directory page is out of range; maximum page is "@ + number::decimal(
                page_count as nat,
            ),
            PageErrorView::Xml { reason } => reason,
        }
    }
}

impl DirectoryPageError {
    /// The diagnostic text.
    pub fn message(&self) -> (r: String)
        ensures
            r@ == self@.text(),
    {
        match self {
            DirectoryPageError::Request(e) => e.message(),
            DirectoryPageError::SourceExceedsLimit => text::copy(
                "directory source exceeds the 4096-entry limit",
            ),
            DirectoryPageError::PageOutOfRange { page_count } => {
                let mut r = text::copy("directory page is out of range; maximum page is ");
                r.append(number::to_decimal(*page_count as u64).as_str());
                r
            },
            DirectoryPageError::Xml(PhoneXmlError::InvalidField { reason }) => text::copy(
                reason.as_str(),
            ),
        }
    }
}

/// The page that a request asks for, before the XML layer has judged it.
pub open spec fn page_of(records: Seq<RecordView>, q: RequestView) -> Result<
    PageView,
    PageErrorView,
> {
    let all = listing(records, q);
    let count = all.len();
    let pages = pages_for(count, q.page_size as nat);
    let start = ((q.page - 1) * q.page_size) as nat;
    let end = page_end(start, q.page_size as nat, count);
    match request_fault(q) {
        Some(e) => Err(PageErrorView::Request(e)),
        None => if records.len() > DIRECTORY_MAX_SOURCE_ENTRIES {
            Err(PageErrorView::SourceExceedsLimit)
        } else if q.page > pages {
            Err(PageErrorView::PageOutOfRange { page_count: pages as usize })
        } else {
            Ok(
                PageView {
                    document: DocumentView {
                        title: "Directory"@,
                        prompt: prompt_for(q.search is Some, start, end, count),
                        entries: all.subrange(start as int, end as int),
                    },
                    page: q.page,
                    page_count: pages as usize,
                    result_count: count as usize,
                },
            )
        },
    }
}

/// The page that a request asks for, where the XML layer refuses some entries:
/// the first of them on the page refuses it.
pub open spec fn judged_page(
    records: Seq<RecordView>,
    q: RequestView,
    refused: Seq<RefusedRecordView>,
) -> Result<PageView, PageErrorView> {
    match page_of(records, q) {
        Err(e) => Err(e),
        Ok(page) => match first_refusal(refused, page.document.entries) {
            Some(reason) => Err(PageErrorView::Xml { reason }),
            None => Ok(page),
        },
    }
}

/// The contents of the outcome of building a page.
pub open spec fn built(r: Result<DirectoryPage, DirectoryPageError>) -> Result<
    PageView,
    PageErrorView,
> {
    match r {
        Ok(page) => Ok(page.deep_view()),
        Err(e) => Err(e@),
    }
}

/// The directory order is total.
proof fn lemma_directory_order()
    ensures
        total_ordering(|a: RecordView, b: RecordView| not_after(a, b)),
{
    let leq = |a: RecordView, b: RecordView| not_after(a, b);
    assert forall|a: RecordView, b: RecordView| #[trigger] leq(a, b) && #[trigger] leq(
        b,
        a,
    ) implies a == b by {
        let (x, y) = (text::lowercase(a.name), text::lowercase(b.name));
        text::law_text_order_is_total(x, y, x);
        text::law_text_order_is_total(a.telephone, b.telephone, a.telephone);
        text::law_text_order_is_total(a.name, b.name, a.name);
    }
    assert forall|a: RecordView, b: RecordView| #[trigger] leq(a, b) || #[trigger] leq(b, a) by {
        let (x, y) = (text::lowercase(a.name), text::lowercase(b.name));
        text::law_text_order_is_total(x, y, x);
        text::law_text_order_is_total(a.telephone, b.telephone, a.telephone);
        text::law_text_order_is_total(a.name, b.name, a.name);
    }
    assert forall|a: RecordView, b: RecordView, c: RecordView| #[trigger] leq(a, b)
        && #[trigger] leq(b, c) implies leq(a, c) by {
        lemma_not_after_is_transitive(a, b, c);
    }
}

proof fn lemma_not_after_is_transitive(a: RecordView, b: RecordView, c: RecordView)
    requires
        not_after(a, b),
        not_after(b, c),
    ensures
        not_after(a, c),
{
    let (x, y, z) = (
        text::lowercase(a.name),
        text::lowercase(b.name),
        text::lowercase(c.name),
    );
    text::law_text_order_is_total(x, y, z);
    text::law_text_order_is_total(a.telephone, b.telephone, c.telephone);
    text::law_text_order_is_total(a.name, b.name, c.name);
    text::law_text_order_is_total(y, z, y);
    text::law_text_order_is_total(b.telephone, c.telephone, b.telephone);
    text::law_text_order_is_total(b.name, c.name, b.name);
}

/// A record with its name in lower case.
struct Keyed {
    lower: String,
    record: DirectoryRecord,
}

/// Records of a keyed list.
spec fn records_of(list: Seq<Keyed>) -> Seq<RecordView> {
    Seq::new(list.len(), |i: int| list[i].record.deep_view())
}

/// Every key is the name in lower case.
spec fn keys_fit(list: Seq<Keyed>) -> bool {
    forall|i: int| 0 <= i < list.len() ==> key_fits(#[trigger] list[i])
}

spec fn key_fits(k: Keyed) -> bool {
    k.lower@ == text::lowercase(k.record.name@)
}

/// No record comes after one behind it.
spec fn in_order(list: Seq<RecordView>) -> bool {
    forall|i: int, j: int| 0 <= i < j < list.len() ==> not_after(#[trigger] list[i], #[trigger] list[j])
}

/// Whether `a` does not come after `b` in the directory.
fn precedes(a: &Keyed, b: &Keyed) -> (r: bool)
    requires
        key_fits(*a),
        key_fits(*b),
    ensures
        r == not_after(a.record.deep_view(), b.record.deep_view()),
{
    if !text::same(a.lower.as_str(), b.lower.as_str()) {
        return text::before(a.lower.as_str(), b.lower.as_str());
    }
    let x = &a.record;
    let y = &b.record;
    if !text::same(x.telephone.as_str(), y.telephone.as_str()) {
        return text::before(x.telephone.as_str(), y.telephone.as_str());
    }
    text::same(x.name.as_str(), y.name.as_str()) || text::before(x.name.as_str(), y.name.as_str())
}

/// Puts a record into its place in an ordered list.
fn insert_in_order(list: &mut Vec<Keyed>, item: Keyed)
    requires
        keys_fit(old(list)@),
        key_fits(item),
        in_order(records_of(old(list)@)),
    ensures
        keys_fit(final(list)@),
        in_order(records_of(final(list)@)),
        records_of(final(list)@).to_multiset() == records_of(old(list)@).to_multiset().insert(
            item.record.deep_view(),
        ),
        final(list)@.len() == old(list)@.len() + 1,
{
    let ghost held = list@;
    let ghost views = records_of(held);
    let ghost added = item.record.deep_view();
    let mut low: usize = 0;
    let mut high: usize = list.len();
    while low < high
        invariant
            list@ == held,
            views == records_of(held),
            added == item.record.deep_view(),
            keys_fit(held),
            key_fits(item),
            in_order(views),
            low <= high <= list.len(),
            forall|i: int| 0 <= i < low ==> not_after(#[trigger] views[i], added),
            forall|i: int| high <= i < views.len() ==> !not_after(#[trigger] views[i], added),
        decreases high - low,
    {
        let middle: usize = low + (high - low) / 2;
        let ghost m = views[middle as int];
        if precedes(&list[middle], &item) {
            assert forall|i: int| 0 <= i < middle + 1 implies not_after(
                #[trigger] views[i],
                added,
            ) by {
                if i < middle {
                    lemma_not_after_is_transitive(views[i], m, added);
                }
            }
            low = middle + 1;
        } else {
            assert forall|i: int| middle <= i < views.len() implies !not_after(
                #[trigger] views[i],
                added,
            ) by {
                if i > middle && not_after(views[i], added) {
                    lemma_not_after_is_transitive(m, views[i], added);
                }
            }
            high = middle;
        }
    }
    list.insert(low, item);
    proof {
        let after = records_of(list@);
        assert(after =~= views.insert(low as int, added));
        to_multiset_insert(views, low as int, added);
        lemma_directory_order();
        let leq = |a: RecordView, b: RecordView| not_after(a, b);
        assert forall|i: int, j: int| 0 <= i < j < after.len() implies not_after(
            #[trigger] after[i],
            #[trigger] after[j],
        ) by {
            if i == low {
                assert(after[j] == views[j - 1]);
                assert(leq(views[j - 1], added) || leq(added, views[j - 1]));
            } else if j == low {
                assert(after[i] == views[i]);
            } else {
                let a = if i < low {
                    i
                } else {
                    i - 1
                };
                let b = if j < low {
                    j
                } else {
                    j - 1
                };
                assert(after[i] == views[a] && after[j] == views[b]);
            }
        }
        assert forall|i: int| 0 <= i < list@.len() implies key_fits(#[trigger] list@[i]) by {
            if i < low {
                assert(list@[i] == held[i]);
            } else if i > low {
                assert(list@[i] == held[i - 1]);
            }
        }
    }
}

/// The records that a search in lower case finds, in directory order.
fn arrange(records: &Vec<DirectoryRecord>, search: &Option<String>) -> (r: Vec<DirectoryRecord>)
    ensures
        r.deep_view() == found(records.deep_view(), search.deep_view()).sort_by(
            |a: RecordView, b: RecordView| not_after(a, b),
        ),
        r@.len() <= records@.len(),
{
    let ghost all = records.deep_view();
    let ghost wanted = search.deep_view();
    let mut list: Vec<Keyed> = Vec::new();
    let mut i: usize = 0;
    assert(all.take(0) =~= Seq::empty());
    assert(records_of(list@) =~= found(all.take(0), wanted));
    while i < records.len()
        invariant
            all == records.deep_view(),
            wanted == search.deep_view(),
            i <= records@.len(),
            keys_fit(list@),
            in_order(records_of(list@)),
            records_of(list@).to_multiset() == found(all.take(i as int), wanted).to_multiset(),
            list@.len() <= i,
        decreases records.len() - i,
    {
        let record = &records[i];
        assert(all[i as int] == record.deep_view());
        assert(all.take(i + 1).drop_last() =~= all.take(i as int));
        let lower = text::to_lowercase(record.name.as_str());
        let hit = match search {
            None => true,
            Some(s) => text::contains(lower.as_str(), s.as_str()) || text::contains(
                text::to_lowercase(record.telephone.as_str()).as_str(),
                s.as_str(),
            ),
        };
        if hit {
            proof {
                to_multiset_build(found(all.take(i as int), wanted), record.deep_view());
            }
            let item = Keyed { lower, record: record.clone() };
            insert_in_order(&mut list, item);
        }
        i += 1;
    }
    assert(all.take(i as int) =~= all);
    let mut r: Vec<DirectoryRecord> = Vec::new();
    let mut k: usize = 0;
    while k < list.len()
        invariant
            k <= list@.len(),
            r@.len() == k,
            r.deep_view() == records_of(list@).take(k as int),
        decreases list.len() - k,
    {
        let ghost before = r.deep_view();
        let record = list[k].record.clone();
        let ghost added = record.deep_view();
        r.push(record);
        assert(r.deep_view() =~= before.push(added));
        k += 1;
        assert(r.deep_view() =~= records_of(list@).take(k as int));
    }
    proof {
        assert(records_of(list@).take(k as int) =~= records_of(list@));
        let leq = |a: RecordView, b: RecordView| not_after(a, b);
        let matches = found(all, wanted);
        lemma_directory_order();
        matches.lemma_sort_by_ensures(leq);
        assert(sorted_by(records_of(list@), leq));
        lemma_sorted_unique(records_of(list@), matches.sort_by(leq), leq);
    }
    r
}

impl DirectoryPage {
    /// The page that a request asks for. `refused` holds the entries that the
    /// XML layer does not take.
    pub fn build(
        records: &Vec<DirectoryRecord>,
        request: &DirectoryRequest,
        refused: &Vec<RefusedRecord>,
    ) -> (r: Result<Self, DirectoryPageError>)
        ensures
            built(r) == judged_page(
                records.deep_view(),
                request.deep_view(),
                refused.deep_view(),
            ),
    {
        match request.validate() {
            Ok(_) => {},
            Err(e) => return Err(DirectoryPageError::Request(e)),
        }
        assert(records.deep_view().len() == records@.len());
        if records.len() > DIRECTORY_MAX_SOURCE_ENTRIES {
            return Err(DirectoryPageError::SourceExceedsLimit);
        }
        let search = match &request.search {
            Some(value) => Some(text::to_lowercase(value.as_str())),
            None => None,
        };
        let matches = arrange(records, &search);
        assert(matches.deep_view().len() == matches@.len());
        let result_count: usize = matches.len();
        let size: usize = request.page_size;
        let page_count: usize = if result_count == 0 {
            1
        } else {
            (result_count - 1) / size + 1
        };
        if request.page > page_count {
            return Err(DirectoryPageError::PageOutOfRange { page_count });
        }
        proof {
            lemma_page_start(request.page as int, size as int, result_count as int);
        }
        let start: usize = (request.page - 1) * size;
        let end: usize = if start + size < result_count {
            start + size
        } else {
            result_count
        };
        let mut entries: Vec<DirectoryRecord> = Vec::new();
        let mut i: usize = start;
        assert(entries.deep_view() =~= matches.deep_view().subrange(start as int, start as int));
        while i < end
            invariant
                start <= i <= end <= matches@.len(),
                entries.deep_view() == matches.deep_view().subrange(start as int, i as int),
            decreases end - i,
        {
            let ghost before = entries.deep_view();
            let record = matches[i].clone();
            let ghost added = record.deep_view();
            entries.push(record);
            assert(entries.deep_view() =~= before.push(added));
            i += 1;
            assert(entries.deep_view() =~= matches.deep_view().subrange(start as int, i as int));
        }
        let prompt = if result_count == 0 {
            if request.search.is_some() {
                text::copy("No matching entries")
            } else {
                text::copy("Directory is empty")
            }
        } else {
            cat5(
                number::to_decimal((start + 1) as u64).as_str(),
                "-",
                number::to_decimal(end as u64).as_str(),
                " of ",
                number::to_decimal(result_count as u64).as_str(),
            )
        };
        match find_first_refusal(refused, &entries) {
            Some(reason) => return Err(
                DirectoryPageError::Xml(PhoneXmlError::InvalidField { reason }),
            ),
            None => {},
        }
        Ok(
            DirectoryPage {
                document: DirectoryDocument { title: text::copy("Directory"), prompt, entries },
                page: request.page,
                page_count,
                result_count,
            },
        )
    }
}

proof fn lemma_page_start(page: int, size: int, count: int)
    requires
        1 <= page <= pages_for(count as nat, size as nat),
        1 <= size <= PHONE_DIRECTORY_MAX_ENTRIES,
        0 <= count <= DIRECTORY_MAX_SOURCE_ENTRIES,
    ensures
        0 <= (page - 1) * size <= count,
        count > 0 ==> (page - 1) * size < count,
{
    if count > 0 {
        let q = (count - 1) / size;
        assert(q * size <= count - 1) by (nonlinear_arith)
            requires
                q == (count - 1) / size,
                size > 0,
        ;
        assert(0 <= (page - 1) * size <= q * size) by (nonlinear_arith)
            requires
                0 <= page - 1 <= q,
                size > 0,
        ;
    } else {
        assert((page - 1) * size == 0) by (nonlinear_arith)
            requires
                page == 1,
        ;
    }
}

// ---------------------------------------------------------------------------
// Service

/// How a resource is asked for.
#[derive(Clone, Copy, Debug, PartialEq, Eq, Structural)]
pub enum HttpMethod {
    Get,
    Head,
    Post,
    Put,
    Delete,
    Options,
}

/// A request as the HTTP server hands it over.
#[derive(Debug, PartialEq, Eq)]
pub struct HttpRequest {
    pub method: HttpMethod,
    pub route: String,
    pub path: String,
    pub remote_address: String,
    pub query: Vec<HttpField>,
    pub headers: Vec<HttpField>,
    pub body: Vec<u8>,
}

/// Why there are no records.
#[derive(Clone, Copy, Debug, PartialEq, Eq, Structural)]
pub enum DirectoryProviderError {
    Unavailable,
}

impl DirectoryProviderError {
    /// The diagnostic text of the failure.
    pub open spec fn text(self) -> text::Text {
        "directory data is temporarily unavailable"@
    }

    /// The diagnostic text.
    pub fn message(&self) -> (r: String)
        ensures
            r@ == self.text(),
    {
        text::copy("directory data is temporarily unavailable")
    }
}

/// The owner of the records. The relation only names the answers it may give.
pub trait DirectoryProvider {
    /// `r` is an answer that [`DirectoryProvider::records`] may give; any answer,
    /// where the owner says no more.
    open spec fn may_answer(
        &self,
        r: Result<Vec<DirectoryRecord>, DirectoryProviderError>,
    ) -> bool {
        true
    }

    fn records(&self) -> (r: Result<Vec<DirectoryRecord>, DirectoryProviderError>)
        ensures
            self.may_answer(r),
    ;
}

/// How a request goes on.
#[derive(Debug, PartialEq, Eq)]
pub enum DirectoryReply {
    /// The reply is this text.
    Text { status: u16, message: String },
    /// The XML layer writes this page, and [`complete`] makes the reply.
    Page(DirectoryPage),
    /// The reply is this document.
    Document { status: u16, content_type: String, body: Vec<u8> },
}

/// The contents of [`DirectoryReply`].
pub enum ReplyView {
    Text { status: u16, message: text::Text },
    Page(PageView),
    Document { status: u16, content_type: text::Text, body: Seq<u8> },
}

impl View for DirectoryReply {
    type V = ReplyView;

    open spec fn view(&self) -> ReplyView {
        match self {
            DirectoryReply::Text { status, message } => ReplyView::Text {
                status: *status,
                message: message@,
            },
            DirectoryReply::Page(page) => ReplyView::Page(page.deep_view()),
            DirectoryReply::Document { status, content_type, body } => ReplyView::Document {
                status: *status,
                content_type: content_type@,
                body: body@,
            },
        }
    }
}

/// What a server request asks of the directory, or how it is refused.
pub open spec fn asked(
    method: HttpMethod,
    body: Seq<u8>,
    query: Seq<HttpFieldView>,
) -> Result<RequestView, ReplyView> {
    if method != HttpMethod::Get || body.len() != 0 {
        Err(
            ReplyView::Text {
                status: 405,
                message: "directory requests require GET without a body"@,
            },
        )
    } else {
        match request_of(query) {
            Ok(q) => Ok(q),
            Err(e) => Err(ReplyView::Text { status: 400, message: e.text() }),
        }
    }
}

/// How a request goes on once the owner of the records has answered.
pub open spec fn replied(
    q: RequestView,
    answer: Result<Vec<DirectoryRecord>, DirectoryProviderError>,
    refused: Seq<RefusedRecordView>,
) -> ReplyView {
    match answer {
        Err(e) => ReplyView::Text { status: 503, message: e.text() },
        Ok(records) => match judged_page(records.deep_view(), q, refused) {
            Ok(page) => ReplyView::Page(page),
            Err(PageErrorView::PageOutOfRange { page_count }) => ReplyView::Text {
                status: 404,
                message: "directory page is out of range"@,
            },
            Err(_) => ReplyView::Text {
                status: 500,
                message: "directory response could not be generated"@,
            },
        },
    }
}

/// How a request goes on once the owner of the records has answered.
pub fn reply(
    request: &DirectoryRequest,
    answer: Result<Vec<DirectoryRecord>, DirectoryProviderError>,
    refused: &Vec<RefusedRecord>,
) -> (r: DirectoryReply)
    ensures
        r@ == replied(request.deep_view(), answer, refused.deep_view()),
{
    let records = match answer {
        Ok(records) => records,
        Err(e) => return DirectoryReply::Text { status: 503, message: e.message() },
    };
    match DirectoryPage::build(&records, request, refused) {
        Ok(page) => DirectoryReply::Page(page),
        Err(DirectoryPageError::PageOutOfRange { .. }) => DirectoryReply::Text {
            status: 404,
            message: text::copy("directory page is out of range"),
        },
        Err(_) => DirectoryReply::Text {
            status: 500,
            message: text::copy("directory response could not be generated"),
        },
    }
}

/// The reply to a request whose page the XML layer has written, or refused to
/// write.
pub fn complete(xml: Option<Vec<u8>>) -> (r: DirectoryReply)
    ensures
        r@ == match xml {
            Some(body) => ReplyView::Document {
                status: 200,
                content_type: "text/xml; charset=utf-8"@,
                body: body@,
            },
            None => ReplyView::Text {
                status: 500,
                message: "directory response could not be generated"@,
            },
        },
{
    match xml {
        Some(body) => DirectoryReply::Document {
            status: 200,
            content_type: text::copy("text/xml; charset=utf-8"),
            body,
        },
        None => DirectoryReply::Text {
            status: 500,
            message: text::copy("directory response could not be generated"),
        },
    }
}

/// The directory over the owner of its records.
pub struct DirectoryHttpService<P> {
    pub provider: P,
}

impl<P: DirectoryProvider> DirectoryHttpService<P> {
    pub fn new(provider: P) -> (r: Self)
        ensures
            r.provider == provider,
    {
        DirectoryHttpService { provider }
    }

    /// Serves a request. The owner of the records is asked only once the
    /// request is in order. Nothing of its answer has been judged by then: the
    /// XML layer judges the page that it is given to write.
    pub fn handle(&self, request: &HttpRequest) -> (r: DirectoryReply)
        ensures
            match asked(request.method, request.body@, request.query.deep_view()) {
                Err(reply) => r@ == reply,
                Ok(q) => exists|answer: Result<Vec<DirectoryRecord>, DirectoryProviderError>|
                    #[trigger] self.provider.may_answer(answer) && r@ == replied(
                        q,
                        answer,
                        Seq::empty(),
                    ),
            },
    {
        if request.method != HttpMethod::Get || request.body.len() != 0 {
            return DirectoryReply::Text {
                status: 405,
                message: text::copy("directory requests require GET without a body"),
            };
        }
        let asked = match DirectoryRequest::from_fields(&request.query) {
            Ok(asked) => asked,
            Err(e) => return DirectoryReply::Text { status: 400, message: e.message() },
        };
        let refused: Vec<RefusedRecord> = Vec::new();
        assert(refused.deep_view() =~= Seq::empty());
        reply(&asked, self.provider.records(), &refused)
    }
}

// ---------------------------------------------------------------------------
// Laws

/// Every accepted request can be served.
pub proof fn law_accepted_requests_are_valid(fields: Seq<HttpFieldView>)
    requires
        request_of(fields) is Ok,
    ensures
        request_fault(request_of(fields)->Ok_0) is None,
{
    lemma_accepted(fields, 0, no_fields());
}

proof fn lemma_accepted(fields: Seq<HttpFieldView>, i: int, s: FieldsView)
    requires
        request_from(fields, i, s) is Ok,
    ensures
        request_fault(request_from(fields, i, s)->Ok_0) is None,
    decreases fields.len() - i,
{
    if 0 <= i < fields.len() {
        lemma_accepted(fields, i + 1, after_field(s, fields[i])->Ok_0);
    }
}

/// A listing holds exactly the records that the search finds, each as often as
/// it is given, in directory order.
pub proof fn law_listings_are_ordered(records: Seq<RecordView>, q: RequestView)
    ensures
        ({
            let wanted = match q.search {
                Some(s) => Some(text::lowercase(s)),
                None => None,
            };
            let all = listing(records, q);
            &&& all.to_multiset() == found(records, wanted).to_multiset()
            &&& all.len() == found(records, wanted).len()
            &&& forall|i: int, j: int|
                0 <= i < j < all.len() ==> not_after(#[trigger] all[i], #[trigger] all[j])
        }),
{
    let wanted = match q.search {
        Some(s) => Some(text::lowercase(s)),
        None => None,
    };
    let leq = |a: RecordView, b: RecordView| not_after(a, b);
    let matches = found(records, wanted);
    let all = listing(records, q);
    lemma_directory_order();
    matches.lemma_sort_by_ensures(leq);
    to_multiset_len(all);
    to_multiset_len(matches);
    assert forall|i: int, j: int| 0 <= i < j < all.len() implies not_after(
        #[trigger] all[i],
        #[trigger] all[j],
    ) by {
        assert(leq(all[i], all[j]));
    }
}

/// Every result stands on exactly one page, the one that its place falls on,
/// and a page holds no more entries than were asked for.
pub proof fn law_every_result_is_on_one_page(
    records: Seq<RecordView>,
    q: RequestView,
    k: int,
)
    requires
        request_fault(q) is None,
        records.len() <= DIRECTORY_MAX_SOURCE_ENTRIES,
        0 <= k < listing(records, q).len(),
    ensures
        ({
            let all = listing(records, q);
            let p = k / (q.page_size as int) + 1;
            &&& 1 <= p <= pages_for(all.len(), q.page_size as nat)
            &&& forall|page: usize|
                1 <= page <= pages_for(all.len(), q.page_size as nat) ==> {
                    let start = (page - 1) * q.page_size;
                    let r = #[trigger] page_of(records, RequestView { page, ..q });
                    &&& r is Ok
                    &&& r->Ok_0.document.entries.len() <= q.page_size
                    &&& (start <= k < start + r->Ok_0.document.entries.len() <==> page == p)
                    &&& page == p ==> r->Ok_0.document.entries[k - start] == all[k]
                }
        }),
{
    let all = listing(records, q);
    let n = all.len() as int;
    let size = q.page_size as int;
    let p = k / size + 1;
    law_listings_are_ordered(records, q);
    let wanted = match q.search {
        Some(s) => Some(text::lowercase(s)),
        None => None,
    };
    lemma_found_is_no_longer(records, wanted);
    assert(k / size <= (n - 1) / size) by (nonlinear_arith)
        requires
            0 <= k <= n - 1,
            size > 0,
    ;
    assert(k / size >= 0) by (nonlinear_arith)
        requires
            0 <= k,
            size > 0,
    ;
    assert forall|page: usize| 1 <= page <= pages_for(all.len(), q.page_size as nat) implies {
        let start = (page - 1) * q.page_size;
        let r = #[trigger] page_of(records, RequestView { page, ..q });
        &&& r is Ok
        &&& r->Ok_0.document.entries.len() <= q.page_size
        &&& (start <= k < start + r->Ok_0.document.entries.len() <==> page == p)
        &&& page == p ==> r->Ok_0.document.entries[k - start] == all[k]
    } by {
        let asked = RequestView { page, ..q };
        assert(listing(records, asked) == all);
        lemma_page_start(page as int, size, n);
        let start = (page - 1) * size;
        let r = page_of(records, asked);
        assert(r is Ok);
        assert(start <= k < start + size <==> page - 1 == k / size) by (nonlinear_arith)
            requires
                start == (page - 1) * size,
                size > 0,
                0 <= k,
        ;
    }
}

/// A page that is built holds no entry that the XML layer refuses, and a page
/// without such an entry is built as it was laid out.
pub proof fn law_refused_entries_are_on_no_page(
    records: Seq<RecordView>,
    q: RequestView,
    refused: Seq<RefusedRecordView>,
)
    requires
        page_of(records, q) is Ok,
    ensures
        ({
            let page = page_of(records, q)->Ok_0;
            let clean = forall|i: int|
                #![trigger page.document.entries[i]]
                0 <= i < page.document.entries.len() ==> forall|j: int|
                    0 <= j < refused.len() ==> (#[trigger] refused[j]).record
                        != page.document.entries[i];
            match judged_page(records, q, refused) {
                Ok(built) => clean && built == page,
                Err(e) => !clean && e is Xml,
            }
        }),
{
    let entries = page_of(records, q)->Ok_0.document.entries;
    lemma_first_refusal(refused, entries);
}

proof fn lemma_refusal_of(refused: Seq<RefusedRecordView>, record: RecordView)
    ensures
        refusal_of(refused, record) is None <==> forall|j: int|
            0 <= j < refused.len() ==> (#[trigger] refused[j]).record != record,
    decreases refused.len(),
{
    if refused.len() > 0 {
        let rest = refused.skip(1);
        lemma_refusal_of(rest, record);
        assert forall|j: int| 0 <= j < rest.len() implies #[trigger] rest[j] == refused[j + 1] by {}
        if refusal_of(refused, record) is None {
            assert forall|j: int| 0 <= j < refused.len() implies (#[trigger] refused[j]).record
                != record by {
                if j > 0 {
                    assert(rest[j - 1] == refused[j]);
                }
            }
        }
    }
}

proof fn lemma_first_refusal(refused: Seq<RefusedRecordView>, entries: Seq<RecordView>)
    ensures
        first_refusal(refused, entries) is None <==> forall|i: int|
            #![trigger entries[i]]
            0 <= i < entries.len() ==> forall|j: int|
                0 <= j < refused.len() ==> (#[trigger] refused[j]).record != entries[i],
    decreases entries.len(),
{
    if entries.len() > 0 {
        let rest = entries.skip(1);
        lemma_refusal_of(refused, entries[0]);
        lemma_first_refusal(refused, rest);
        assert forall|i: int| 0 <= i < rest.len() implies #[trigger] rest[i] == entries[i + 1] by {}
        if first_refusal(refused, entries) is None {
            assert forall|i: int|
                #![trigger entries[i]]
                0 <= i < entries.len() implies forall|j: int|
                0 <= j < refused.len() ==> (#[trigger] refused[j]).record != entries[i] by {
                if i > 0 {
                    assert(rest[i - 1] == entries[i]);
                }
            }
        }
    }
}

proof fn lemma_found_is_no_longer(records: Seq<RecordView>, search: Option<text::Text>)
    ensures
        found(records, search).len() <= records.len(),
    decreases records.len(),
{
    if records.len() > 0 {
        lemma_found_is_no_longer(records.drop_last(), search);
    }
}

/// Names and numbers made from a configuration fit a phone.
pub proof fn law_configured_records_fit_a_phone(line: policy::LineConfigView)
    ensures
        record_of(line).name.len() <= PHONE_TEXT_MAX_CHARS,
        record_of(line).telephone.len() <= PHONE_TEXT_MAX_CHARS,
{
}

/// Whether a text holds another as a run of its characters.
pub open spec fn has_run(s: text::Text, part: text::Text) -> bool {
    exists|k: int| 0 <= k <= s.len() - part.len() && #[trigger] s.skip(k).take(part.len() as int) == part
}

proof fn lemma_runs(s: text::Text, part: text::Text)
    ensures
        text::holds(s, part) <==> has_run(s, part),
{
    if text::holds(s, part) {
        let i = choose|i: int| 0 <= i <= s.len() && #[trigger] text::starts_with(s.skip(i), part);
        assert(s.skip(i).take(part.len() as int) =~= part);
    }
    if has_run(s, part) {
        let k = choose|k: int|
            0 <= k <= s.len() - part.len() && #[trigger] s.skip(k).take(part.len() as int) == part;
        assert(text::starts_with(s.skip(k), part));
    }
}

proof fn lemma_found_counts(records: Seq<RecordView>, search: Option<text::Text>, r: RecordView)
    ensures
        found(records, search).to_multiset().count(r) == if is_found(r, search) {
            records.to_multiset().count(r)
        } else {
            0
        },
    decreases records.len(),
{
    broadcast use vstd::seq_lib::group_to_multiset_ensures;

    if records.len() == 0 {
        assert(records =~= Seq::empty());
    } else {
        let head = records.drop_last();
        lemma_found_counts(head, search, r);
        to_multiset_build(head, records.last());
        to_multiset_build(found(head, search), records.last());
        assert(records =~= head.push(records.last()));
    }
}

/// A search lists a record exactly if its name or its number, in lower case,
/// holds what is searched for, in lower case, and as often as it is given. All
/// records are listed without a search.
pub proof fn law_searches_find_names_and_numbers(
    records: Seq<RecordView>,
    q: RequestView,
    r: RecordView,
)
    ensures
        ({
            let hit = match q.search {
                None => true,
                Some(s) => has_run(text::lowercase(r.name), text::lowercase(s)) || has_run(
                    text::lowercase(r.telephone),
                    text::lowercase(s),
                ),
            };
            let all = listing(records, q);
            &&& all.contains(r) <==> hit && records.contains(r)
            &&& all.to_multiset().count(r) == if hit {
                records.to_multiset().count(r)
            } else {
                0
            }
        }),
{
    broadcast use vstd::seq_lib::group_to_multiset_ensures;

    let wanted = match q.search {
        Some(s) => Some(text::lowercase(s)),
        None => None,
    };
    law_listings_are_ordered(records, q);
    lemma_found_counts(records, wanted, r);
    if let Some(s) = q.search {
        lemma_runs(text::lowercase(r.name), text::lowercase(s));
        lemma_runs(text::lowercase(r.telephone), text::lowercase(s));
    }
    let all = listing(records, q);
    assert(all.contains(r) <==> all.to_multiset().count(r) > 0);
    assert(records.contains(r) <==> records.to_multiset().count(r) > 0);
}

/// A listing goes by the names in lower case, then by the numbers, then by the
/// names as they are written.
pub proof fn law_listings_go_by_name_then_number(
    records: Seq<RecordView>,
    q: RequestView,
    i: int,
    j: int,
)
    requires
        0 <= i < j < listing(records, q).len(),
    ensures
        ({
            let a = listing(records, q)[i];
            let b = listing(records, q)[j];
            let same_name = text::lowercase(a.name) == text::lowercase(b.name);
            &&& same_name || text::less(text::lowercase(a.name), text::lowercase(b.name))
            &&& same_name ==> a.telephone == b.telephone || text::less(a.telephone, b.telephone)
            &&& same_name && a.telephone == b.telephone ==> a.name == b.name || text::less(
                a.name,
                b.name,
            )
        }),
{
    law_listings_are_ordered(records, q);
}

/// Which requests get a page, and what it holds: the results from the first of
/// the page on, no more than were asked for, and above them how many there are.
pub proof fn law_pages_hold_their_part_of_the_listing(
    records: Seq<RecordView>,
    q: RequestView,
    refused: Seq<RefusedRecordView>,
)
    ensures
        ({
            let all = listing(records, q);
            let n = all.len() as int;
            let first = (q.page - 1) * q.page_size;
            let last = if first + q.page_size < n {
                first + q.page_size
            } else {
                n
            };
            let in_order = q.page >= 1 && 1 <= q.page_size <= 32 && (q.search matches Some(s)
                ==> s.len() <= 64 && forall|k: int|
                0 <= k < s.len() ==> (#[trigger] s[k] as u32) >= 0x20 && !(0x7f <= (
                s[k] as u32) <= 0x9f));
            let counted = |count: usize|
                {
                    &&& count >= 1
                    &&& n <= count * q.page_size
                    &&& count > 1 ==> n > (count - 1) * q.page_size
                };
            match judged_page(records, q, refused) {
                Err(PageErrorView::Request(e)) => !in_order,
                Err(PageErrorView::SourceExceedsLimit) => in_order && records.len() > 4096,
                Err(PageErrorView::PageOutOfRange { page_count }) => {
                    &&& in_order
                    &&& records.len() <= 4096
                    &&& q.page > page_count
                    &&& counted(page_count)
                },
                Err(PageErrorView::Xml { reason }) => {
                    &&& in_order
                    &&& records.len() <= 4096
                    &&& exists|k: int, m: int|
                        {
                            &&& first <= k < last
                            &&& 0 <= m < refused.len()
                            &&& (#[trigger] refused[m]).record == #[trigger] all[k]
                            &&& refused[m].reason == reason
                        }
                },
                Ok(page) => {
                    &&& in_order
                    &&& records.len() <= 4096
                    &&& 0 <= first <= last <= n
                    &&& page.page == q.page
                    &&& page.result_count == n
                    &&& counted(page.page_count)
                    &&& q.page <= page.page_count
                    &&& page.document.title == "Directory"@
                    &&& page.document.entries == all.subrange(first, last)
                    &&& page.document.prompt == if n > 0 {
                        number::decimal((first + 1) as nat) + "-"@ + number::decimal(last as nat)
                            + " of "@ + number::decimal(n as nat)
                    } else if q.search is Some {
                        "No matching entries"@
                    } else {
                        "Directory is empty"@
                    }
                    &&& forall|k: int, m: int|
                        first <= k < last && 0 <= m < refused.len() ==> (
                        #[trigger] refused[m]).record != #[trigger] all[k]
                },
            }
        }),
{
    let all = listing(records, q);
    let n = all.len() as int;
    let size = q.page_size as int;
    let wanted = match q.search {
        Some(s) => Some(text::lowercase(s)),
        None => None,
    };
    law_listings_are_ordered(records, q);
    lemma_found_is_no_longer(records, wanted);
    if let Some(s) = q.search {
        if text::any_control(s) {
            let k = choose|k: int| 0 <= k < s.len() && text::is_control(#[trigger] s[k]);
            assert((s[k] as u32) < 0x20 || 0x7f <= (s[k] as u32) <= 0x9f);
        } else {
            assert forall|k: int| 0 <= k < s.len() implies (#[trigger] s[k] as u32) >= 0x20 && !(
            0x7f <= (s[k] as u32) <= 0x9f) by {
                assert(!text::is_control(s[k]));
            }
        }
    }
    if request_fault(q) is None && records.len() <= DIRECTORY_MAX_SOURCE_ENTRIES {
        let pages = pages_for(n as nat, size as nat) as int;
        if n > 0 {
            let p = (n - 1) / size;
            assert(n <= (p + 1) * size && p * size < n && 0 <= p <= n) by (nonlinear_arith)
                requires
                    p == (n - 1) / size,
                    n > 0,
                    size > 0,
            ;
        }
        if q.page <= pages {
            lemma_page_start(q.page as int, size, n);
            let page = page_of(records, q)->Ok_0;
            let entries = page.document.entries;
            let first = (q.page - 1) * size;
            let last = page_end(first as nat, size as nat, n as nat) as int;
            lemma_first_refusal(refused, entries);
            lemma_refusal_names(refused, entries);
            if let Some(reason) = first_refusal(refused, entries) {
                let (i, m) = choose|i: int, m: int|
                    {
                        &&& 0 <= i < entries.len()
                        &&& 0 <= m < refused.len()
                        &&& (#[trigger] refused[m]).record == #[trigger] entries[i]
                        &&& refused[m].reason == reason
                    };
                assert(all[first + i] == entries[i]);
            } else {
                assert forall|k: int, m: int| first <= k < last && 0 <= m < refused.len() implies (
                #[trigger] refused[m]).record != #[trigger] all[k] by {
                    assert(entries[k - first] == all[k]);
                }
            }
        }
    }
}

proof fn lemma_refusal_is_named(refused: Seq<RefusedRecordView>, record: RecordView)
    ensures
        refusal_of(refused, record) matches Some(reason) ==> exists|m: int|
            {
                &&& 0 <= m < refused.len()
                &&& (#[trigger] refused[m]).record == record
                &&& refused[m].reason == reason
            },
    decreases refused.len(),
{
    if refused.len() > 0 {
        let rest = refused.skip(1);
        if refused[0].record == record {
            assert(refused[0].reason == refusal_of(refused, record)->0);
        } else if let Some(reason) = refusal_of(rest, record) {
            lemma_refusal_is_named(rest, record);
            let m = choose|m: int|
                {
                    &&& 0 <= m < rest.len()
                    &&& (#[trigger] rest[m]).record == record
                    &&& rest[m].reason == reason
                };
            assert(refused[m + 1] == rest[m]);
        }
    }
}

proof fn lemma_refusal_names(refused: Seq<RefusedRecordView>, entries: Seq<RecordView>)
    ensures
        first_refusal(refused, entries) matches Some(reason) ==> exists|i: int, m: int|
            {
                &&& 0 <= i < entries.len()
                &&& 0 <= m < refused.len()
                &&& (#[trigger] refused[m]).record == #[trigger] entries[i]
                &&& refused[m].reason == reason
            },
    decreases entries.len(),
{
    if entries.len() > 0 {
        let rest = entries.skip(1);
        lemma_refusal_is_named(refused, entries[0]);
        if refusal_of(refused, entries[0]) is None {
            lemma_refusal_names(refused, rest);
            if let Some(reason) = first_refusal(refused, rest) {
                let (i, m) = choose|i: int, m: int|
                    {
                        &&& 0 <= i < rest.len()
                        &&& 0 <= m < refused.len()
                        &&& (#[trigger] refused[m]).record == #[trigger] rest[i]
                        &&& refused[m].reason == reason
                    };
                assert(entries[i + 1] == rest[i]);
            }
        } else {
            let reason = refusal_of(refused, entries[0])->0;
            let m = choose|m: int|
                {
                    &&& 0 <= m < refused.len()
                    &&& (#[trigger] refused[m]).record == entries[0]
                    &&& refused[m].reason == reason
                };
            assert(refused[m].record == entries[0]);
        }
    }
}

/// What a field sets: `q` the search, `page` the page, `pageSize` the size of a
/// page; what is not set stands at the first page of 32 entries without a
/// search. No field is unknown, and none stands twice.
pub proof fn law_fields_set_their_parts(fields: Seq<HttpFieldView>)
    requires
        request_of(fields) is Ok,
    ensures
        ({
            let r = request_of(fields)->Ok_0;
            &&& forall|i: int|
                0 <= i < fields.len() ==> {
                    let f = #[trigger] fields[i];
                    ||| f.name == "q"@ && r.search == (if f.value.len() == 0 {
                        None::<text::Text>
                    } else {
                        Some(f.value)
                    })
                    ||| f.name == "page"@ && number::unsigned(f.value, 10) == Some(r.page as nat)
                    ||| f.name == "pageSize"@ && number::unsigned(f.value, 10) == Some(
                        r.page_size as nat,
                    )
                }
            &&& forall|i: int, j: int|
                0 <= i < j < fields.len() ==> (#[trigger] fields[i]).name != (
                #[trigger] fields[j]).name
            &&& (forall|i: int| 0 <= i < fields.len() ==> (#[trigger] fields[i]).name != "q"@)
                ==> r.search is None
            &&& (forall|i: int| 0 <= i < fields.len() ==> (#[trigger] fields[i]).name != "page"@)
                ==> r.page == 1
            &&& (forall|i: int|
                0 <= i < fields.len() ==> (#[trigger] fields[i]).name != "pageSize"@)
                ==> r.page_size == 32
            &&& r.page >= 1
            &&& 1 <= r.page_size <= 32
        }),
{
    reveal_strlit("q");
    reveal_strlit("page");
    reveal_strlit("pageSize");
    assert("q"@.len() == 1 && "page"@.len() == 4 && "pageSize"@.len() == 8);
    lemma_fields_from(fields, 0, no_fields());
    law_accepted_requests_are_valid(fields);
}

/// What the fields read so far have set.
spec fn set_by(s: FieldsView, f: HttpFieldView) -> bool {
    ||| f.name == "q"@ && s.search_seen && s.request.search == (if f.value.len() == 0 {
        None::<text::Text>
    } else {
        Some(f.value)
    })
    ||| f.name == "page"@ && s.page_seen && number::unsigned(f.value, 10) == Some(
        s.request.page as nat,
    )
    ||| f.name == "pageSize"@ && s.page_size_seen && number::unsigned(f.value, 10) == Some(
        s.request.page_size as nat,
    )
}

/// The fields in front of a place have set what is set, each once.
spec fn are_set(fields: Seq<HttpFieldView>, n: int, s: FieldsView) -> bool {
    &&& forall|i: int| 0 <= i < n ==> set_by(s, #[trigger] fields[i])
    &&& forall|i: int, j: int|
        0 <= i < j < n ==> (#[trigger] fields[i]).name != (#[trigger] fields[j]).name
    &&& s.search_seen <==> exists|i: int| 0 <= i < n && (#[trigger] fields[i]).name == "q"@
    &&& s.page_seen <==> exists|i: int| 0 <= i < n && (#[trigger] fields[i]).name == "page"@
    &&& s.page_size_seen <==> exists|i: int|
        0 <= i < n && (#[trigger] fields[i]).name == "pageSize"@
    &&& !s.search_seen ==> s.request.search is None
    &&& !s.page_seen ==> s.request.page == 1
    &&& !s.page_size_seen ==> s.request.page_size == 32
}

proof fn lemma_fields_from(fields: Seq<HttpFieldView>, i: int, s: FieldsView)
    requires
        "q"@.len() == 1,
        "page"@.len() == 4,
        "pageSize"@.len() == 8,
        0 <= i <= fields.len(),
        are_set(fields, i, s),
        request_from(fields, i, s) is Ok,
    ensures
        exists|t: FieldsView| #[trigger]
            are_set(fields, fields.len() as int, t) && t.request == request_from(
                fields,
                i,
                s,
            )->Ok_0,
    decreases fields.len() - i,
{
    if i < fields.len() {
        let f = fields[i];
        let t = after_field(s, f)->Ok_0;
        assert forall|k: int| 0 <= k < i implies (#[trigger] fields[k]).name != f.name by {
            assert(set_by(s, fields[k]));
        }
        assert forall|k: int| 0 <= k < i + 1 implies set_by(t, #[trigger] fields[k]) by {
            if k < i {
                assert(set_by(s, fields[k]));
            }
        }
        assert(are_set(fields, i + 1, t));
        lemma_fields_from(fields, i + 1, t);
    }
}

/// Decoded fields are accepted where each is known and stands once, a search is
/// at most 64 characters without control characters, and numbers are positive
/// decimals, a page size at most 32.
pub proof fn law_proper_fields_are_accepted(fields: Seq<HttpFieldView>)
    requires
        forall|i: int|
            0 <= i < fields.len() ==> {
                let f = #[trigger] fields[i];
                ||| f.name == "q"@ && f.value.len() <= 64 && forall|k: int|
                    0 <= k < f.value.len() ==> (#[trigger] f.value[k] as u32) >= 0x20 && (
                    f.value[k] as u32) < 0x7f
                ||| f.name == "page"@ && exists|n: nat|
                    1 <= n <= usize::MAX && f.value == #[trigger] number::decimal(n)
                ||| f.name == "pageSize"@ && exists|n: nat|
                    1 <= n <= 32 && f.value == #[trigger] number::decimal(n)
            },
        forall|i: int, j: int|
            0 <= i < j < fields.len() ==> (#[trigger] fields[i]).name != (
            #[trigger] fields[j]).name,
    ensures
        request_of(fields) is Ok,
{
    reveal_strlit("q");
    reveal_strlit("page");
    reveal_strlit("pageSize");
    lemma_proper_fields(fields, 0, no_fields());
}

proof fn lemma_proper_fields(fields: Seq<HttpFieldView>, i: int, s: FieldsView)
    requires
        "q"@.len() == 1,
        "page"@.len() == 4,
        "pageSize"@.len() == 8,
        0 <= i <= fields.len(),
        request_fault(s.request) is None,
        forall|j: int|
            i <= j < fields.len() ==> {
                let f = #[trigger] fields[j];
                ||| f.name == "q"@ && f.value.len() <= 64 && forall|k: int|
                    0 <= k < f.value.len() ==> (#[trigger] f.value[k] as u32) >= 0x20 && (
                    f.value[k] as u32) < 0x7f
                ||| f.name == "page"@ && exists|n: nat|
                    1 <= n <= usize::MAX && f.value == #[trigger] number::decimal(n)
                ||| f.name == "pageSize"@ && exists|n: nat|
                    1 <= n <= 32 && f.value == #[trigger] number::decimal(n)
            },
        forall|a: int, b: int|
            i <= a < b < fields.len() ==> (#[trigger] fields[a]).name != (
            #[trigger] fields[b]).name,
        forall|j: int|
            i <= j < fields.len() ==> {
                let f = #[trigger] fields[j];
                &&& f.name == "q"@ ==> !s.search_seen
                &&& f.name == "page"@ ==> !s.page_seen
                &&& f.name == "pageSize"@ ==> !s.page_size_seen
            },
    ensures
        request_from(fields, i, s) is Ok,
    decreases fields.len() - i,
{
    if i < fields.len() {
        let f = fields[i];
        if f.name == "q"@ {
            if text::any_control(f.value) {
                let k = choose|k: int|
                    0 <= k < f.value.len() && text::is_control(#[trigger] f.value[k]);
                assert(false);
            }
        } else {
            let n = choose|n: nat|
                1 <= n <= (if f.name == "page"@ {
                    usize::MAX as nat
                } else {
                    32
                }) && f.value == #[trigger] number::decimal(n);
            number::law_decimal_reads_back(n);
            number::lemma_decimal_digits(n);
            assert(positive(f.value) == Some(n as usize));
        }
        lemma_proper_fields(fields, i + 1, after_field(s, f)->Ok_0);
    }
}

/// How a request is turned away before the records are asked for: a request
/// that does not read is answered 405, fields that are not in order 400.
pub proof fn law_refused_requests_have_their_status(
    method: HttpMethod,
    body: Seq<u8>,
    query: Seq<HttpFieldView>,
)
    ensures
        match asked(method, body, query) {
            Ok(q) => method == HttpMethod::Get && body.len() == 0 && request_of(query) == Ok::<
                RequestView,
                RequestErrorView,
            >(q),
            Err(ReplyView::Text { status: 405, message }) => {
                &&& method != HttpMethod::Get || body.len() > 0
                &&& message == "directory requests require GET without a body"@
            },
            Err(ReplyView::Text { status: 400, message }) => {
                &&& method == HttpMethod::Get && body.len() == 0
                &&& request_of(query) matches Err(e) && message == e.text()
            },
            _ => false,
        },
{
}

/// How a request in order is answered: with its page, 404 where the page is out
/// of range, 503 where the records are not to be had, 500 otherwise.
pub proof fn law_replies_have_their_status(
    q: RequestView,
    answer: Result<Vec<DirectoryRecord>, DirectoryProviderError>,
    refused: Seq<RefusedRecordView>,
)
    ensures
        match (answer, replied(q, answer, refused)) {
            (Err(e), ReplyView::Text { status, message }) => status == 503 && message == e.text(),
            (Ok(records), ReplyView::Page(page)) => judged_page(records.deep_view(), q, refused)
                == Ok::<PageView, PageErrorView>(page),
            (Ok(records), ReplyView::Text { status, message }) => {
                let failed = judged_page(records.deep_view(), q, refused);
                &&& failed is Err
                &&& status == 404 || status == 500
                &&& status == 404 <==> failed->Err_0 is PageOutOfRange
                &&& status == 404 ==> message == "directory page is out of range"@
                &&& status == 500 ==> message == "directory response could not be generated"@
            },
            _ => false,
        },
{
}

/// A line is listed by its public caller name and number. Without a name, or
/// where the name only repeats the number of the line, its label stands
/// instead; without a public number, its own. What is longer than 32 characters
/// is cut behind the thirty-second.
pub proof fn law_records_show_the_public_identity(line: policy::LineConfigView)
    ensures
        ({
            let name = text::trimmed(line.caller_name);
            let number = text::trimmed(line.caller_number);
            let r = record_of(line);
            let shows = |shown: text::Text, whole: text::Text|
                if whole.len() <= 32 {
                    shown == whole
                } else {
                    shown == whole.take(32)
                };
            &&& name.len() > 0 && name != line.number ==> shows(r.name, name)
            &&& name.len() == 0 || name == line.number ==> shows(r.name, text::trimmed(line.label))
            &&& number.len() > 0 ==> shows(r.telephone, number)
            &&& number.len() == 0 ==> shows(r.telephone, text::trimmed(line.number))
        }),
{
}

/// A raw query is refused for its length above 512 bytes, then for a percent
/// sign that does not stand before two hexadecimal digits, then for bytes that
/// are not UTF-8.
pub proof fn law_raw_queries_are_bounded(query: Seq<u8>)
    ensures
        query.len() > 512 <==> query_request(query) == Err::<RequestView, RequestErrorView>(
            RequestErrorView::QueryExceedsLimit,
        ),
        query.len() <= 512 && (forall|i: int| 0 <= i < query.len() ==> #[trigger] query[i] != 0x25)
            ==> query_request(query) == request_in(form_fields(query)),
        forall|i: int|
            0 <= i < form_fields(query).len() && query_request(query) is Ok ==> !(
            #[trigger] form_fields(query)[i]).0.contains('\u{FFFD}') && !form_fields(
                query,
            )[i].1.contains('\u{FFFD}'),
{
    if forall|i: int| 0 <= i < query.len() ==> #[trigger] query[i] != 0x25 {
        lemma_no_triplets(query, 0);
    }
    let s = no_fields();
    lemma_errors_of_fields(fields_of(form_fields(query)), 0, s);
}

proof fn lemma_no_triplets(query: Seq<u8>, i: int)
    requires
        0 <= i <= query.len(),
        forall|i: int| 0 <= i < query.len() ==> #[trigger] query[i] != 0x25,
    ensures
        triplets_from(query, i),
    decreases query.len() - i,
{
    if i < query.len() {
        lemma_no_triplets(query, i + 1);
    }
}

proof fn lemma_errors_of_fields(fields: Seq<HttpFieldView>, i: int, s: FieldsView)
    ensures
        request_from(fields, i, s) matches Err(e) ==> !(e is QueryExceedsLimit),
    decreases fields.len() - i,
{
    if 0 <= i < fields.len() {
        if let Ok(t) = after_field(s, fields[i]) {
            lemma_errors_of_fields(fields, i + 1, t);
        }
    }
}

} // verus!
