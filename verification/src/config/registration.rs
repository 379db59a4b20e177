//! Registration contexts, extensions and targets.

use vstd::prelude::*;

use crate::config::error;
use crate::config::error::ConfigError;
use crate::config::policy;
use crate::config::policy::RegistrationExtension;
use crate::config::policy::RegistrationTarget;
use crate::text;

verus! {

pub const MAX_REGISTRATION_IDENTIFIER_BYTES: usize = 79;

pub const MAX_REGISTRATION_EXTENSION_LIST_BYTES: usize = 255;

// ---------------------------------------------------------------------------
// Identifiers

/// Whether a text names a registration context or extension.
pub open spec fn is_identifier(value: text::Text) -> bool {
    &&& value.len() > 0
    &&& text::byte_len(value) <= MAX_REGISTRATION_IDENTIFIER_BYTES
    &&& !text::any_space(value)
    &&& !text::any_control(value)
    &&& !value.contains('&')
    &&& !value.contains('@')
}

/// The refusal of an identifier.
pub open spec fn identifier_fault(
    key: text::Text,
    value: text::Text,
    expected: text::Text,
) -> Option<error::ErrorView> {
    if is_identifier(value) {
        None
    } else {
        Some(error::invalid(key, value, expected, false))
    }
}

/// Refuses what is no registration identifier.
pub fn validate_registration_identifier(key: &str, value: &str, expected: &str) -> (r: Option<
    ConfigError,
>)
    ensures
        error::refusal(r) == identifier_fault(key@, value@, expected@),
{
    if value.is_empty() || value.len() > MAX_REGISTRATION_IDENTIFIER_BYTES || text::has_space(value)
        || text::has_control(value) || text::contains_char(value, '&') || text::contains_char(
        value,
        '@',
    ) {
        Some(error::invalid_option(key, value, expected, false))
    } else {
        None
    }
}

// ---------------------------------------------------------------------------
// Contexts

/// The contexts of the fields from one on, after those already read.
pub open spec fn contexts_from(
    key: text::Text,
    raw: text::Text,
    fields: Seq<text::Text>,
    i: int,
    seen: Seq<text::Text>,
) -> Result<Seq<text::Text>, error::ErrorView>
    decreases fields.len() - i,
{
    if i >= fields.len() {
        Ok(seen)
    } else {
        match identifier_fault(
            key,
            fields[i],
            "unique, nonempty context names without whitespace, ampersands, or @"@,
        ) {
            Some(e) => Err(e),
            None => if seen.contains(fields[i]) {
                Err(error::invalid(key, raw, "unique ampersand-separated context names"@, false))
            } else {
                contexts_from(key, raw, fields, i + 1, seen.push(fields[i]))
            },
        }
    }
}

/// A list of contexts joined by ampersands; an empty value names none.
pub open spec fn contexts_setting(key: text::Text, raw: text::Text) -> Result<
    Seq<text::Text>,
    error::ErrorView,
> {
    let value = text::trimmed(raw);
    if value.len() == 0 {
        Ok(Seq::empty())
    } else if text::byte_len(value) > MAX_REGISTRATION_IDENTIFIER_BYTES {
        Err(
            error::invalid(
                key,
                value,
                "an ampersand-separated context list totaling at most 79 bytes"@,
                false,
            ),
        )
    } else {
        contexts_from(key, value, text::fields_of(value, '&'), 0, Seq::empty())
    }
}

/// Reads a list of registration contexts.
pub fn parse_registration_contexts(key: &str, raw: &str) -> (r: Result<Vec<String>, ConfigError>)
    ensures
        error::outcome(r) == contexts_setting(key@, raw@),
{
    let value = text::trim(raw);
    let v = value.as_str();
    let mut seen: Vec<String> = Vec::new();
    assert(seen.deep_view() =~= Seq::empty());
    if v.is_empty() {
        return Ok(seen);
    }
    if v.len() > MAX_REGISTRATION_IDENTIFIER_BYTES {
        return Err(
            error::invalid_option(
                key,
                v,
                "an ampersand-separated context list totaling at most 79 bytes",
                false,
            ),
        );
    }
    let fields = text::fields(v, '&');
    let ghost all = fields.deep_view();
    let mut i: usize = 0;
    while i < fields.len()
        invariant
            all == fields.deep_view(),
            all == text::fields_of(v@, '&'),
            v@ == text::trimmed(raw@),
            v@.len() != 0,
            text::byte_len(v@) <= MAX_REGISTRATION_IDENTIFIER_BYTES,
            i <= fields@.len(),
            contexts_setting(key@, raw@) == contexts_from(
                key@,
                v@,
                all,
                i as int,
                seen.deep_view(),
            ),
        decreases fields.len() - i,
    {
        assert(all[i as int] == fields@[i as int]@);
        let field = fields[i].as_str();
        match validate_registration_identifier(
            key,
            field,
            "unique, nonempty context names without whitespace, ampersands, or @",
        ) {
            Some(e) => return Err(e),
            None => {},
        }
        if text::is_in(field, &seen) {
            return Err(
                error::invalid_option(key, v, "unique ampersand-separated context names", false),
            );
        }
        let ghost before = seen.deep_view();
        let s = text::copy(field);
        seen.push(s);
        assert(seen.deep_view() =~= before.push(s@));
        i += 1;
    }
    Ok(seen)
}

// ---------------------------------------------------------------------------
// Extensions

/// The extension of one field.
pub open spec fn extension_of(key: text::Text, raw: text::Text, field: text::Text) -> Result<
    policy::RegistrationExtensionView,
    error::ErrorView,
> {
    let (extension, context) = match text::cut(field, '@') {
        Some((e, c)) => (text::trimmed(e), Some(text::trimmed(c))),
        None => (field, None),
    };
    let many = match text::cut(field, '@') {
        Some((_, c)) => c.contains('@'),
        None => false,
    };
    if many {
        Err(
            error::invalid(
                key,
                raw,
                "extension or extension@context entries separated by ampersands"@,
                false,
            ),
        )
    } else {
        match identifier_fault(
            key,
            extension,
            "a nonempty registration extension up to 79 bytes without whitespace, ampersands, or @"@,
        ) {
            Some(e) => Err(e),
            None => match context {
                None => Ok(policy::RegistrationExtensionView { extension, context: None }),
                Some(c) => match identifier_fault(
                    key,
                    c,
                    "a nonempty registration context up to 79 bytes without whitespace, ampersands, or @"@,
                ) {
                    Some(e) => Err(e),
                    None => Ok(policy::RegistrationExtensionView { extension, context: Some(c) }),
                },
            },
        }
    }
}

/// The extensions of the fields from one on, after those already read.
pub open spec fn extensions_from(
    key: text::Text,
    raw: text::Text,
    fields: Seq<text::Text>,
    i: int,
    seen: Seq<policy::RegistrationExtensionView>,
) -> Result<Seq<policy::RegistrationExtensionView>, error::ErrorView>
    decreases fields.len() - i,
{
    if i >= fields.len() {
        Ok(seen)
    } else {
        match extension_of(key, raw, fields[i]) {
            Err(e) => Err(e),
            Ok(x) => if seen.contains(x) {
                Err(
                    error::invalid(
                        key,
                        raw,
                        "unique extension or extension@context entries"@,
                        false,
                    ),
                )
            } else {
                extensions_from(key, raw, fields, i + 1, seen.push(x))
            },
        }
    }
}

/// A list of extensions joined by ampersands; an empty value gives none.
pub open spec fn extensions_setting(key: text::Text, raw: text::Text) -> Result<
    Option<Seq<policy::RegistrationExtensionView>>,
    error::ErrorView,
> {
    let value = text::trimmed(raw);
    if value.len() == 0 {
        Ok(None)
    } else if text::byte_len(value) > MAX_REGISTRATION_EXTENSION_LIST_BYTES {
        Err(
            error::invalid(
                key,
                value,
                "an ampersand-separated extension list totaling at most 255 bytes"@,
                false,
            ),
        )
    } else {
        match extensions_from(key, value, text::fields_of(value, '&'), 0, Seq::empty()) {
            Ok(list) => Ok(Some(list)),
            Err(e) => Err(e),
        }
    }
}

/// Reads the extension of one field.
fn parse_extension(key: &str, raw: &str, field: &str) -> (r: Result<
    RegistrationExtension,
    ConfigError,
>)
    ensures
        error::outcome(r) == extension_of(key@, raw@, field@),
{
    let (extension, context) = match text::split_once(field, '@') {
        Some((e, c)) => {
            if text::contains_char(c.as_str(), '@') {
                return Err(
                    error::invalid_option(
                        key,
                        raw,
                        "extension or extension@context entries separated by ampersands",
                        false,
                    ),
                );
            }
            (text::trim(e.as_str()), Some(text::trim(c.as_str())))
        },
        None => (text::copy(field), None),
    };
    match validate_registration_identifier(
        key,
        extension.as_str(),
        "a nonempty registration extension up to 79 bytes without whitespace, ampersands, or @",
    ) {
        Some(e) => return Err(e),
        None => {},
    }
    match &context {
        Some(c) => match validate_registration_identifier(
            key,
            c.as_str(),
            "a nonempty registration context up to 79 bytes without whitespace, ampersands, or @",
        ) {
            Some(e) => return Err(e),
            None => {},
        },
        None => {},
    }
    Ok(RegistrationExtension { extension, context })
}

/// Whether two optional texts are the same.
fn same_option(a: &Option<String>, b: &Option<String>) -> (r: bool)
    ensures
        r == (a.deep_view() == b.deep_view()),
{
    match (a, b) {
        (Some(x), Some(y)) => text::same(x.as_str(), y.as_str()),
        (None, None) => true,
        _ => false,
    }
}

/// Whether a list holds an extension.
fn holds_extension(list: &Vec<RegistrationExtension>, x: &RegistrationExtension) -> (r: bool)
    ensures
        r == list.deep_view().contains(x.deep_view()),
{
    let ghost all = list.deep_view();
    let mut i: usize = 0;
    while i < list.len()
        invariant
            all == list.deep_view(),
            i <= list@.len(),
            forall|j: int| 0 <= j < i ==> all[j] != x.deep_view(),
        decreases list.len() - i,
    {
        assert(all[i as int] == list@[i as int].deep_view());
        if text::same(list[i].extension.as_str(), x.extension.as_str()) && same_option(
            &list[i].context,
            &x.context,
        ) {
            return true;
        }
        i += 1;
    }
    false
}

/// Reads a list of registration extensions.
pub fn parse_registration_extensions(key: &str, raw: &str) -> (r: Result<
    Option<Vec<RegistrationExtension>>,
    ConfigError,
>)
    ensures
        error::outcome(r) == extensions_setting(key@, raw@),
{
    let value = text::trim(raw);
    let v = value.as_str();
    if v.is_empty() {
        return Ok(None);
    }
    if v.len() > MAX_REGISTRATION_EXTENSION_LIST_BYTES {
        return Err(
            error::invalid_option(
                key,
                v,
                "an ampersand-separated extension list totaling at most 255 bytes",
                false,
            ),
        );
    }
    let mut seen: Vec<RegistrationExtension> = Vec::new();
    assert(seen.deep_view() =~= Seq::empty());
    let fields = text::fields(v, '&');
    let ghost all = fields.deep_view();
    let ghost whole = extensions_from(key@, v@, all, 0, Seq::empty());
    let mut i: usize = 0;
    while i < fields.len()
        invariant
            all == fields.deep_view(),
            all == text::fields_of(v@, '&'),
            v@ == text::trimmed(raw@),
            v@.len() != 0,
            text::byte_len(v@) <= MAX_REGISTRATION_EXTENSION_LIST_BYTES,
            i <= fields@.len(),
            whole == extensions_from(key@, v@, all, 0, Seq::empty()),
            whole == extensions_from(key@, v@, all, i as int, seen.deep_view()),
        decreases fields.len() - i,
    {
        assert(all[i as int] == fields@[i as int]@);
        let x = match parse_extension(key, v, fields[i].as_str()) {
            Ok(x) => x,
            Err(e) => return Err(e),
        };
        if holds_extension(&seen, &x) {
            return Err(
                error::invalid_option(
                    key,
                    v,
                    "unique extension or extension@context entries",
                    false,
                ),
            );
        }
        let ghost before = seen.deep_view();
        seen.push(x);
        assert(seen.deep_view() =~= before.push(x.deep_view()));
        i += 1;
    }
    Ok(Some(seen))
}

// ---------------------------------------------------------------------------
// Targets

/// One extension in each of the contexts.
pub open spec fn in_contexts(extension: text::Text, contexts: Seq<text::Text>) -> Seq<
    policy::RegistrationTargetView,
> {
    contexts.map_values(|context: text::Text| policy::RegistrationTargetView { extension, context })
}

/// The targets of one extension: its own context, or every general one.
pub open spec fn targets_for(
    contexts: Seq<text::Text>,
    entry: policy::RegistrationExtensionView,
) -> Seq<policy::RegistrationTargetView> {
    match entry.context {
        Some(context) => seq![
            policy::RegistrationTargetView { extension: entry.extension, context },
        ],
        None => in_contexts(entry.extension, contexts),
    }
}

/// The targets of a list of extensions, in order.
pub open spec fn targets_of(
    contexts: Seq<text::Text>,
    extensions: Seq<policy::RegistrationExtensionView>,
) -> Seq<policy::RegistrationTargetView>
    decreases extensions.len(),
{
    if extensions.len() == 0 {
        Seq::empty()
    } else {
        targets_of(contexts, extensions.drop_last()) + targets_for(contexts, extensions.last())
    }
}

/// The targets of a list of extensions.
pub fn resolve_registration_targets(
    contexts: &Vec<String>,
    extensions: &Vec<RegistrationExtension>,
) -> (r: Vec<RegistrationTarget>)
    ensures
        r.deep_view() == targets_of(contexts.deep_view(), extensions.deep_view()),
{
    let ghost all = extensions.deep_view();
    let ghost named = contexts.deep_view();
    let mut r: Vec<RegistrationTarget> = Vec::new();
    let mut i: usize = 0;
    assert(all.take(0) =~= Seq::empty());
    assert(r.deep_view() =~= Seq::empty());
    while i < extensions.len()
        invariant
            all == extensions.deep_view(),
            named == contexts.deep_view(),
            i <= extensions@.len(),
            r.deep_view() == targets_of(named, all.take(i as int)),
        decreases extensions.len() - i,
    {
        let entry = &extensions[i];
        assert(all[i as int] == entry.deep_view());
        assert(all.take(i + 1).drop_last() =~= all.take(i as int));
        let ghost before = r.deep_view();
        match &entry.context {
            Some(c) => {
                let t = RegistrationTarget {
                    extension: text::copy(entry.extension.as_str()),
                    context: text::copy(c.as_str()),
                };
                r.push(t);
                assert(r.deep_view() =~= before + seq![t.deep_view()]);
                assert(r.deep_view() =~= before + targets_for(named, entry.deep_view()));
            },
            None => {
                let mut j: usize = 0;
                assert(before + in_contexts(entry.extension@, named).take(0) =~= before);
                while j < contexts.len()
                    invariant
                        named == contexts.deep_view(),
                        j <= contexts@.len(),
                        r.deep_view() == before + in_contexts(entry.extension@, named).take(
                            j as int,
                        ),
                    decreases contexts.len() - j,
                {
                    assert(named[j as int] == contexts@[j as int]@);
                    let ghost prior = r.deep_view();
                    let t = RegistrationTarget {
                        extension: text::copy(entry.extension.as_str()),
                        context: text::copy(contexts[j].as_str()),
                    };
                    r.push(t);
                    j += 1;
                    assert(r.deep_view() =~= prior.push(t.deep_view()));
                    assert(r.deep_view() =~= before + in_contexts(entry.extension@, named).take(
                        j as int,
                    ));
                }
                assert(in_contexts(entry.extension@, named).take(j as int) =~= in_contexts(
                    entry.extension@,
                    named,
                ));
            },
        }
        i += 1;
    }
    assert(all.take(i as int) =~= all);
    r
}

// ---------------------------------------------------------------------------
// Laws

/// No context is listed twice, and every one is an identifier.
pub proof fn law_contexts_are_distinct(key: text::Text, raw: text::Text)
    ensures
        contexts_setting(key, raw) matches Ok(list) ==> list.no_duplicates() && forall|i: int|
            0 <= i < list.len() ==> is_identifier(#[trigger] list[i]),
{
    let value = text::trimmed(raw);
    lemma_contexts_distinct(key, value, text::fields_of(value, '&'), 0, Seq::empty());
}

proof fn lemma_contexts_distinct(
    key: text::Text,
    raw: text::Text,
    fields: Seq<text::Text>,
    i: int,
    seen: Seq<text::Text>,
)
    requires
        0 <= i,
        seen.no_duplicates(),
        forall|j: int| 0 <= j < seen.len() ==> is_identifier(#[trigger] seen[j]),
    ensures
        contexts_from(key, raw, fields, i, seen) matches Ok(list) ==> list.no_duplicates()
            && forall|j: int| 0 <= j < list.len() ==> is_identifier(#[trigger] list[j]),
    decreases fields.len() - i,
{
    if i < fields.len() && is_identifier(fields[i]) && !seen.contains(fields[i]) {
        let next = seen.push(fields[i]);
        assert forall|a: int, b: int| 0 <= a < next.len() && 0 <= b < next.len() && a
            != b implies next[a] != next[b] by {
            if a == seen.len() {
                assert(seen.contains(seen[b]));
            } else if b == seen.len() {
                assert(seen.contains(seen[a]));
            }
        }
        lemma_contexts_distinct(key, raw, fields, i + 1, next);
    }
}

/// Every target of a list without contexts of its own lies in a general context.
pub proof fn law_targets_lie_in_a_context(
    contexts: Seq<text::Text>,
    extensions: Seq<policy::RegistrationExtensionView>,
    i: int,
)
    requires
        0 <= i < targets_of(contexts, extensions).len(),
    ensures
        contexts.contains(targets_of(contexts, extensions)[i].context) || exists|j: int|
            0 <= j < extensions.len() && (#[trigger] extensions[j]).context == Some(
                targets_of(contexts, extensions)[i].context,
            ),
    decreases extensions.len(),
{
    let prior = targets_of(contexts, extensions.drop_last());
    let target = targets_of(contexts, extensions)[i];
    if i < prior.len() {
        law_targets_lie_in_a_context(contexts, extensions.drop_last(), i);
        if !contexts.contains(target.context) {
            let j = choose|j: int|
                0 <= j < extensions.drop_last().len() && (
                #[trigger] extensions.drop_last()[j]).context == Some(target.context);
            assert(extensions[j].context == Some(target.context));
        }
    } else {
        let own = targets_for(contexts, extensions.last());
        assert(target == own[i - prior.len()]);
        match extensions.last().context {
            Some(c) => {
                assert(extensions[extensions.len() - 1].context == Some(target.context));
            },
            None => {
                assert(contexts[i - prior.len()] == target.context);
            },
        }
    }
}

} // verus!
