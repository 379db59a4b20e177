//! Why a configuration is refused.

use vstd::prelude::*;

use crate::number;
use crate::text;

verus! {

/// Why a configuration is refused.
#[derive(Debug, PartialEq, Eq)]
pub enum ConfigError {
    Syntax { line: usize, message: String },
    UnknownSectionType { section: String, kind: String },
    MissingSectionType(String),
    DuplicateSection(String),
    InvalidValue { key: String, value: String },
    UnknownLine { device: String, line: String },
    UnknownSoftKeyProfile { device: String, profile: String },
    MissingTemplate { section: String, parent: String },
    ParentIsNotTemplate { section: String, parent: String },
    WrongTemplateKind { section: String, child_kind: String, parent: String, parent_kind: String },
    InvalidTemplateKind { section: String, kind: String },
    InheritanceCycle(String),
    UnassignedLine(String),
    DeviceWithoutLines(String),
    Empty,
    InvalidDevice(String),
}

/// The contents of [`ConfigError`].
pub enum ErrorView {
    Syntax { line: usize, message: text::Text },
    UnknownSectionType { section: text::Text, kind: text::Text },
    MissingSectionType(text::Text),
    DuplicateSection(text::Text),
    InvalidValue { key: text::Text, value: text::Text },
    UnknownLine { device: text::Text, line: text::Text },
    UnknownSoftKeyProfile { device: text::Text, profile: text::Text },
    MissingTemplate { section: text::Text, parent: text::Text },
    ParentIsNotTemplate { section: text::Text, parent: text::Text },
    WrongTemplateKind {
        section: text::Text,
        child_kind: text::Text,
        parent: text::Text,
        parent_kind: text::Text,
    },
    InvalidTemplateKind { section: text::Text, kind: text::Text },
    InheritanceCycle(text::Text),
    UnassignedLine(text::Text),
    DeviceWithoutLines(text::Text),
    Empty,
    InvalidDevice(text::Text),
}

impl View for ConfigError {
    type V = ErrorView;

    open spec fn view(&self) -> ErrorView {
        match self {
            ConfigError::Syntax { line, message } => ErrorView::Syntax {
                line: *line,
                message: message@,
            },
            ConfigError::UnknownSectionType { section, kind } => ErrorView::UnknownSectionType {
                section: section@,
                kind: kind@,
            },
            ConfigError::MissingSectionType(s) => ErrorView::MissingSectionType(s@),
            ConfigError::DuplicateSection(s) => ErrorView::DuplicateSection(s@),
            ConfigError::InvalidValue { key, value } => ErrorView::InvalidValue {
                key: key@,
                value: value@,
            },
            ConfigError::UnknownLine { device, line } => ErrorView::UnknownLine {
                device: device@,
                line: line@,
            },
            ConfigError::UnknownSoftKeyProfile {
                device,
                profile,
            } => ErrorView::UnknownSoftKeyProfile { device: device@, profile: profile@ },
            ConfigError::MissingTemplate { section, parent } => ErrorView::MissingTemplate {
                section: section@,
                parent: parent@,
            },
            ConfigError::ParentIsNotTemplate { section, parent } => ErrorView::ParentIsNotTemplate {
                section: section@,
                parent: parent@,
            },
            ConfigError::WrongTemplateKind {
                section,
                child_kind,
                parent,
                parent_kind,
            } => ErrorView::WrongTemplateKind {
                section: section@,
                child_kind: child_kind@,
                parent: parent@,
                parent_kind: parent_kind@,
            },
            ConfigError::InvalidTemplateKind { section, kind } => ErrorView::InvalidTemplateKind {
                section: section@,
                kind: kind@,
            },
            ConfigError::InheritanceCycle(s) => ErrorView::InheritanceCycle(s@),
            ConfigError::UnassignedLine(s) => ErrorView::UnassignedLine(s@),
            ConfigError::DeviceWithoutLines(s) => ErrorView::DeviceWithoutLines(s@),
            ConfigError::Empty => ErrorView::Empty,
            ConfigError::InvalidDevice(s) => ErrorView::InvalidDevice(s@),
        }
    }
}

/// The contents of the outcome of a fallible step.
pub open spec fn outcome<T: DeepView>(r: Result<T, ConfigError>) -> Result<T::V, ErrorView> {
    match r {
        Ok(v) => Ok(v.deep_view()),
        Err(e) => Err(e@),
    }
}

/// The contents of the outcome of a step that gives a list of plain values.
pub open spec fn listed<T>(r: Result<Vec<T>, ConfigError>) -> Result<Seq<T>, ErrorView> {
    match r {
        Ok(v) => Ok(v@),
        Err(e) => Err(e@),
    }
}

/// The contents of an optional refusal.
pub open spec fn refusal(r: Option<ConfigError>) -> Option<ErrorView> {
    match r {
        Some(e) => Some(e@),
        None => None,
    }
}

impl ErrorView {
    /// The diagnostic text of a refusal.
    pub open spec fn text(self) -> text::Text {
        match self {
            ErrorView::Syntax { line, message } => "line "@ + number::decimal(line as nat) + ": "@
                + message,
            ErrorView::UnknownSectionType { section, kind } => "section ["@ + section
                + "] has an unknown type "@ + kind,
            ErrorView::MissingSectionType(s) => "section ["@ + s
                + "] is missing type=device, type=line, or type=softkey_profile"@,
            ErrorView::DuplicateSection(s) => "duplicate section ["@ + s + "]"@,
            ErrorView::InvalidValue { key, value } => key + ": invalid value "@ + value,
            ErrorView::UnknownLine { device, line } => "device "@ + device
                + " references unknown line "@ + line,
            ErrorView::UnknownSoftKeyProfile { device, profile } => "device "@ + device
                + " references unknown soft-key profile "@ + profile,
            ErrorView::MissingTemplate { section, parent } => "section ["@ + section
                + "] references missing template ["@ + parent + "]"@,
            ErrorView::ParentIsNotTemplate { section, parent } => "section ["@ + section
                + "] references non-template section ["@ + parent + "]"@,
            ErrorView::WrongTemplateKind { section, child_kind, parent, parent_kind } =>
            "section ["@ + section + "] is type="@ + child_kind + " but template ["@ + parent
                + "] is type="@ + parent_kind,
            ErrorView::InvalidTemplateKind { section, kind } => "template ["@ + section
                + "] must resolve to type=device or type=line, got "@ + kind,
            ErrorView::InheritanceCycle(s) => "inheritance cycle: "@ + s,
            ErrorView::UnassignedLine(s) => "line "@ + s + " is not assigned to a device"@,
            ErrorView::DeviceWithoutLines(s) => "device "@ + s + " has no lines"@,
            ErrorView::Empty => "configuration must contain at least one device and one line"@,
            ErrorView::InvalidDevice(s) => "invalid SCCP device ID: "@ + s,
        }
    }
}

/// The concatenation of three texts.
pub(crate) fn cat3(a: &str, b: &str, c: &str) -> (r: String)
    ensures
        r@ == a@ + b@ + c@,
{
    let mut r = text::copy(a);
    r.append(b);
    r.append(c);
    r
}

/// The concatenation of four texts.
pub(crate) fn cat4(a: &str, b: &str, c: &str, d: &str) -> (r: String)
    ensures
        r@ == a@ + b@ + c@ + d@,
{
    let mut r = cat3(a, b, c);
    r.append(d);
    r
}

/// The concatenation of five texts.
pub(crate) fn cat5(a: &str, b: &str, c: &str, d: &str, e: &str) -> (r: String)
    ensures
        r@ == a@ + b@ + c@ + d@ + e@,
{
    let mut r = cat4(a, b, c, d);
    r.append(e);
    r
}

impl ConfigError {
    /// The diagnostic text.
    pub fn message(&self) -> (r: String)
        ensures
            r@ == self@.text(),
    {
        match self {
            ConfigError::Syntax { line, message } => cat4(
                "line ",
                number::to_decimal(*line as u64).as_str(),
                ": ",
                message.as_str(),
            ),
            ConfigError::UnknownSectionType { section, kind } => cat4(
                "section [",
                section.as_str(),
                "] has an unknown type ",
                kind.as_str(),
            ),
            ConfigError::MissingSectionType(s) => cat3(
                "section [",
                s.as_str(),
                "] is missing type=device, type=line, or type=softkey_profile",
            ),
            ConfigError::DuplicateSection(s) => cat3("duplicate section [", s.as_str(), "]"),
            ConfigError::InvalidValue { key, value } => cat3(
                key.as_str(),
                ": invalid value ",
                value.as_str(),
            ),
            ConfigError::UnknownLine { device, line } => cat4(
                "device ",
                device.as_str(),
                " references unknown line ",
                line.as_str(),
            ),
            ConfigError::UnknownSoftKeyProfile { device, profile } => cat4(
                "device ",
                device.as_str(),
                " references unknown soft-key profile ",
                profile.as_str(),
            ),
            ConfigError::MissingTemplate { section, parent } => cat5(
                "section [",
                section.as_str(),
                "] references missing template [",
                parent.as_str(),
                "]",
            ),
            ConfigError::ParentIsNotTemplate { section, parent } => cat5(
                "section [",
                section.as_str(),
                "] references non-template section [",
                parent.as_str(),
                "]",
            ),
            ConfigError::WrongTemplateKind { section, child_kind, parent, parent_kind } => {
                let mut r = cat5(
                    "section [",
                    section.as_str(),
                    "] is type=",
                    child_kind.as_str(),
                    " but template [",
                );
                r.append(parent.as_str());
                r.append("] is type=");
                r.append(parent_kind.as_str());
                r
            },
            ConfigError::InvalidTemplateKind { section, kind } => cat4(
                "template [",
                section.as_str(),
                "] must resolve to type=device or type=line, got ",
                kind.as_str(),
            ),
            ConfigError::InheritanceCycle(s) => {
                let mut r = text::copy("inheritance cycle: ");
                r.append(s.as_str());
                r
            },
            ConfigError::UnassignedLine(s) => cat3(
                "line ",
                s.as_str(),
                " is not assigned to a device",
            ),
            ConfigError::DeviceWithoutLines(s) => cat3("device ", s.as_str(), " has no lines"),
            ConfigError::Empty => text::copy(
                "configuration must contain at least one device and one line",
            ),
            ConfigError::InvalidDevice(s) => {
                let mut r = text::copy("invalid SCCP device ID: ");
                r.append(s.as_str());
                r
            },
        }
    }
}

// ---------------------------------------------------------------------------
// Refused values

/// The refusal of a value: what was found, and what was expected.
pub open spec fn invalid(
    key: text::Text,
    raw: text::Text,
    expected: text::Text,
    sensitive: bool,
) -> ErrorView {
    let found = if sensitive {
        "<redacted>"@
    } else {
        raw
    };
    ErrorView::InvalidValue { key, value: text::quoted(found) + "; expected "@ + expected }
}

/// The refusal of a value as it stands.
pub open spec fn refused(key: text::Text, value: text::Text) -> ErrorView {
    ErrorView::InvalidValue { key, value }
}

/// Refuses a value: says what was found, unless it is sensitive, and what was
/// expected.
pub fn invalid_option(key: &str, raw: &str, expected: &str, sensitive: bool) -> (r: ConfigError)
    ensures
        r@ == invalid(key@, raw@, expected@, sensitive),
{
    let found = if sensitive {
        text::quote("<redacted>")
    } else {
        text::quote(raw)
    };
    ConfigError::InvalidValue {
        key: text::copy(key),
        value: cat3(found.as_str(), "; expected ", expected),
    }
}

/// Refuses a value as it stands.
pub fn invalid_value(key: &str, value: &str) -> (r: ConfigError)
    ensures
        r@ == refused(key@, value@),
{
    ConfigError::InvalidValue { key: text::copy(key), value: text::copy(value) }
}

/// A sensitive value does not reach the diagnostic: two refusals of sensitive
/// values under the same key are the same refusal.
pub proof fn law_sensitive_values_are_not_shown(
    key: text::Text,
    a: text::Text,
    b: text::Text,
    expected: text::Text,
)
    ensures
        invalid(key, a, expected, true) == invalid(key, b, expected, true),
{
}

} // verus!
