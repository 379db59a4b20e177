//! Templates: how a section takes settings from the sections it names.

use vstd::prelude::*;

use crate::config::error;
use crate::config::error::ConfigError;
use crate::config::section;
use crate::config::section::{RawSection, RawValue};
use crate::text;

verus! {

/// What a template is for.
#[derive(Clone, Copy, Debug, PartialEq, Eq, Structural)]
pub enum TemplateKind {
    Device,
    Line,
}

/// The kind that a `type` value names.
pub open spec fn kind_of(raw: text::Text) -> Option<TemplateKind> {
    let name = text::lower(text::trimmed(raw));
    if name == "device"@ {
        Some(TemplateKind::Device)
    } else if name == "line"@ {
        Some(TemplateKind::Line)
    } else {
        None
    }
}

/// The name of a kind.
pub open spec fn kind_name(kind: TemplateKind) -> text::Text {
    match kind {
        TemplateKind::Device => "device"@,
        TemplateKind::Line => "line"@,
    }
}

impl TemplateKind {
    /// The kind that a `type` value names.
    pub fn from_name(raw: &str) -> (r: Option<TemplateKind>)
        ensures
            r == kind_of(raw@),
    {
        let name = text::to_ascii_lowercase(text::trim(raw).as_str());
        if text::same(name.as_str(), "device") {
            Some(TemplateKind::Device)
        } else if text::same(name.as_str(), "line") {
            Some(TemplateKind::Line)
        } else {
            None
        }
    }

    /// The name of the kind.
    pub fn as_str(self) -> (r: &'static str)
        ensures
            r@ == kind_name(self),
    {
        match self {
            TemplateKind::Device => "device",
            TemplateKind::Line => "line",
        }
    }
}

// ---------------------------------------------------------------------------
// Which settings stand for the same option

/// The name under which the spellings of one option meet, from the reduced
/// name of a key.
pub open spec fn identity(kind: TemplateKind, name: text::Text) -> text::Text {
    match kind {
        TemplateKind::Device => {
            if name == "forwardallenabled"@ {
                "cfwdall"@
            } else if name == "forwardbusyenabled"@ {
                "cfwdbusy"@
            } else if name == "forwardnoanswerenabled"@ {
                "cfwdnoanswer"@
            } else if name == "forwardnoanswertimeout"@ {
                "cfwdnoanswertimeout"@
            } else if name == "privacyfeature"@ {
                "private"@
            } else if name == "transportrequirement"@ {
                "transport"@
            } else if name == "signalingtos"@ || name == "sccpdscp"@ || name == "signalingdscp"@ {
                "sccptos"@
            } else if name == "signalingcos"@ {
                "sccpcos"@
            } else if name == "audiodscp"@ {
                "audiotos"@
            } else if name == "videodscp"@ {
                "videotos"@
            } else {
                name
            }
        },
        TemplateKind::Line => {
            if name == "voicemailnumber"@ {
                "vmnum"@
            } else if name == "voicemailtransfer"@ || name == "transfertovoicemail"@ {
                "trnsfvm"@
            } else if name == "directedpickupmodeanswer"@ {
                "pickupmodeanswer"@
            } else {
                name
            }
        },
    }
}

/// The option identity of a key.
pub open spec fn key_identity(kind: TemplateKind, key: text::Text) -> text::Text {
    identity(kind, text::name_of(key))
}

/// The option identity of a key.
pub fn template_option_identity(kind: TemplateKind, key: &str) -> (r: String)
    ensures
        r@ == key_identity(kind, key@),
{
    let name = text::normalize_name(key);
    let n = name.as_str();
    match kind {
        TemplateKind::Device => {
            if text::same(n, "forwardallenabled") {
                text::copy("cfwdall")
            } else if text::same(n, "forwardbusyenabled") {
                text::copy("cfwdbusy")
            } else if text::same(n, "forwardnoanswerenabled") {
                text::copy("cfwdnoanswer")
            } else if text::same(n, "forwardnoanswertimeout") {
                text::copy("cfwdnoanswertimeout")
            } else if text::same(n, "privacyfeature") {
                text::copy("private")
            } else if text::same(n, "transportrequirement") {
                text::copy("transport")
            } else if text::same(n, "signalingtos") || text::same(n, "sccpdscp") || text::same(
                n,
                "signalingdscp",
            ) {
                text::copy("sccptos")
            } else if text::same(n, "signalingcos") {
                text::copy("sccpcos")
            } else if text::same(n, "audiodscp") {
                text::copy("audiotos")
            } else if text::same(n, "videodscp") {
                text::copy("videotos")
            } else {
                name
            }
        },
        TemplateKind::Line => {
            if text::same(n, "voicemailnumber") {
                text::copy("vmnum")
            } else if text::same(n, "voicemailtransfer") || text::same(n, "transfertovoicemail") {
                text::copy("trnsfvm")
            } else if text::same(n, "directedpickupmodeanswer") {
                text::copy("pickupmodeanswer")
            } else {
                name
            }
        },
    }
}

/// Options whose settings add up instead of replacing each other.
pub open spec fn is_repeated(kind: TemplateKind, id: text::Text) -> bool {
    ||| id == "allow"@
    ||| id == "disallow"@
    ||| id == "deny"@
    ||| id == "permit"@
    ||| id == "permithost"@
    ||| id == "setvar"@
    ||| kind is Device && (id == "button"@ || id == "line"@ || id == "featuredefault"@)
}

/// Whether the settings of an option add up.
fn repeated(kind: TemplateKind, id: &str) -> (r: bool)
    ensures
        r == is_repeated(kind, id@),
{
    text::same(id, "allow") || text::same(id, "disallow") || text::same(id, "deny") || text::same(
        id,
        "permit",
    ) || text::same(id, "permithost") || text::same(id, "setvar") || (kind == TemplateKind::Device
        && (text::same(id, "button") || text::same(id, "line") || text::same(id, "featuredefault")))
}

// ---------------------------------------------------------------------------
// Merging

/// Some setting of the list is of the option.
pub open spec fn has_identity(
    values: Seq<section::RawValueView>,
    kind: TemplateKind,
    id: text::Text,
) -> bool {
    exists|i: int|
        0 <= i < values.len() && key_identity(kind, (#[trigger] values[i]).key) == id
}

/// A setting that newer settings replace.
pub open spec fn is_overridden(
    v: section::RawValueView,
    newer: Seq<section::RawValueView>,
    kind: TemplateKind,
) -> bool {
    let id = key_identity(kind, v.key);
    !is_repeated(kind, id) && has_identity(newer, kind, id)
}

/// The settings that newer settings do not replace, in order.
pub open spec fn kept(
    values: Seq<section::RawValueView>,
    newer: Seq<section::RawValueView>,
    kind: TemplateKind,
) -> Seq<section::RawValueView>
    decreases values.len(),
{
    if values.len() == 0 {
        Seq::empty()
    } else {
        let head = kept(values.drop_last(), newer, kind);
        if is_overridden(values.last(), newer, kind) {
            head
        } else {
            head.push(values.last())
        }
    }
}

/// Settings with newer settings laid over them: what the newer ones replace is
/// gone, and the newer ones follow in order.
pub open spec fn merged(
    values: Seq<section::RawValueView>,
    newer: Seq<section::RawValueView>,
    kind: TemplateKind,
) -> Seq<section::RawValueView> {
    kept(values, newer, kind) + newer
}

/// Whether newer settings replace a setting.
fn overridden(v: &RawValue, newer: &Vec<RawValue>, kind: TemplateKind) -> (r: bool)
    ensures
        r == is_overridden(v.deep_view(), newer.deep_view(), kind),
{
    let id = template_option_identity(kind, v.key.as_str());
    if repeated(kind, id.as_str()) {
        return false;
    }
    let mut i: usize = 0;
    let ghost all = newer.deep_view();
    while i < newer.len()
        invariant
            all == newer.deep_view(),
            id@ == key_identity(kind, v.deep_view().key),
            !is_repeated(kind, id@),
            i <= newer@.len(),
            forall|j: int| 0 <= j < i ==> key_identity(kind, (#[trigger] all[j]).key) != id@,
        decreases newer.len() - i,
    {
        let other = template_option_identity(kind, newer[i].key.as_str());
        assert(all[i as int] == newer@[i as int].deep_view());
        if text::same(other.as_str(), id.as_str()) {
            return true;
        }
        i += 1;
    }
    false
}

/// Lays newer settings over settings.
pub fn merge_template_values(
    values: &Vec<RawValue>,
    newer: &Vec<RawValue>,
    kind: TemplateKind,
) -> (r: Vec<RawValue>)
    ensures
        r.deep_view() == merged(values.deep_view(), newer.deep_view(), kind),
{
    let ghost old_views = values.deep_view();
    let ghost new_views = newer.deep_view();
    let mut r: Vec<RawValue> = Vec::new();
    let mut i: usize = 0;
    assert(r.deep_view() =~= Seq::empty());
    assert(old_views.take(0) =~= Seq::empty());
    while i < values.len()
        invariant
            old_views == values.deep_view(),
            new_views == newer.deep_view(),
            i <= values@.len(),
            r.deep_view() == kept(old_views.take(i as int), new_views, kind),
        decreases values.len() - i,
    {
        assert(old_views.take(i + 1).drop_last() =~= old_views.take(i as int));
        assert(old_views.take(i + 1).last() == values@[i as int].deep_view());
        if !overridden(&values[i], newer, kind) {
            let ghost before = r.deep_view();
            let v = values[i].clone();
            r.push(v);
            assert(r.deep_view() =~= before.push(v.deep_view()));
        }
        i += 1;
    }
    assert(old_views.take(i as int) =~= old_views);
    let mut j: usize = 0;
    assert(r.deep_view() =~= kept(old_views, new_views, kind) + new_views.take(0));
    while j < newer.len()
        invariant
            new_views == newer.deep_view(),
            j <= newer@.len(),
            r.deep_view() == kept(old_views, new_views, kind) + new_views.take(j as int),
        decreases newer.len() - j,
    {
        let ghost before = r.deep_view();
        let v = newer[j].clone();
        r.push(v);
        j += 1;
        assert(r.deep_view() =~= before.push(v.deep_view()));
        assert(r.deep_view() =~= kept(old_views, new_views, kind) + new_views.take(j as int));
    }
    assert(new_views.take(j as int) =~= new_views);
    r
}

// ---------------------------------------------------------------------------
// Resolution

/// The index of the last section of the name, up to the case of letters.
pub open spec fn index_of(sections: Seq<section::RawSectionView>, name: text::Text) -> Option<usize>
    decreases sections.len(),
{
    if sections.len() == 0 {
        None
    } else if text::same_fold(sections.last().name, name) {
        Some((sections.len() - 1) as usize)
    } else {
        index_of(sections.drop_last(), name)
    }
}

/// The kind of a resolved template.
pub open spec fn template_kind(s: section::RawSectionView) -> Result<
    TemplateKind,
    error::ErrorView,
> {
    let raw = match section::value_of(s, "type"@) {
        Some(v) => v,
        None => "missing"@,
    };
    match kind_of(raw) {
        Some(k) => Ok(k),
        None => Err(error::ErrorView::InvalidTemplateKind { section: s.name, kind: raw }),
    }
}

/// The index in the stack where a cycle through `index` begins.
pub open spec fn cycle_start(stack: Seq<usize>, index: usize) -> int
    decreases stack.len(),
{
    if stack.len() == 0 || stack[0] == index || !stack.contains(index) {
        0
    } else {
        1 + cycle_start(stack.skip(1), index)
    }
}

/// The names of the sections on the stack from `start` on, and that of the
/// section that closes the cycle.
pub open spec fn cycle_names(
    sections: Seq<section::RawSectionView>,
    stack: Seq<usize>,
    index: usize,
) -> Seq<text::Text> {
    let start = cycle_start(stack, index);
    Seq::new(
        (stack.len() - start) as nat,
        |i: int| sections[stack[start + i] as int].name,
    ).push(sections[index as int].name)
}

/// A circle of templates.
pub open spec fn cycle(
    sections: Seq<section::RawSectionView>,
    stack: Seq<usize>,
    index: usize,
) -> error::ErrorView {
    error::ErrorView::InheritanceCycle(
        text::joined(cycle_names(sections, stack, index), " -> "@),
    )
}

/// What a section takes from its templates.
pub struct Inherited {
    pub kind: Option<TemplateKind>,
    pub values: Seq<section::RawValueView>,
}

/// What a section says of its own type.
pub open spec fn own_type(s: section::RawSectionView) -> Option<text::Text> {
    match section::value_of(s, "type"@) {
        Some(v) => Some(text::trimmed(v)),
        None => None,
    }
}

/// What a section has after one more template.
pub open spec fn take_parent(
    s: section::RawSectionView,
    sofar: Inherited,
    parent: section::RawSectionView,
) -> Result<Inherited, error::ErrorView> {
    match template_kind(parent) {
        Err(e) => Err(e),
        Ok(parent_kind) => {
            let wrong = |child: text::Text|
                error::ErrorView::WrongTemplateKind {
                    section: s.name,
                    child_kind: child,
                    parent: parent.name,
                    parent_kind: kind_name(parent_kind),
                };
            let values = merged(sofar.values, parent.values, parent_kind);
            match sofar.kind {
                Some(k) => if k != parent_kind {
                    Err(wrong(kind_name(k)))
                } else {
                    Ok(Inherited { kind: Some(k), values })
                },
                None => match own_type(s) {
                    Some(t) => Err(wrong(t)),
                    None => Ok(Inherited { kind: Some(parent_kind), values }),
                },
            }
        },
    }
}

/// The kind that a section's own type names.
pub open spec fn own_kind(s: section::RawSectionView) -> Option<TemplateKind> {
    match own_type(s) {
        Some(t) => kind_of(t),
        None => None,
    }
}

/// What a section takes from the first `count` of its templates. The stack
/// holds the sections that are being resolved, the section itself last.
pub open spec fn inherited(
    sections: Seq<section::RawSectionView>,
    index: usize,
    stack: Seq<usize>,
    count: nat,
) -> Result<Inherited, error::ErrorView>
    decreases sections.len() - stack.len(), count,
    when stack.len() <= sections.len()
{
    let s = sections[index as int];
    if count == 0 {
        Ok(Inherited { kind: own_kind(s), values: Seq::empty() })
    } else {
        match inherited(sections, index, stack, (count - 1) as nat) {
            Err(e) => Err(e),
            Ok(sofar) => {
                let name = s.parents[count - 1];
                match index_of(sections, name) {
                    None => Err(
                        error::ErrorView::MissingTemplate { section: s.name, parent: name },
                    ),
                    Some(p) => if !sections[p as int].is_template {
                        Err(
                            error::ErrorView::ParentIsNotTemplate {
                                section: s.name,
                                parent: sections[p as int].name,
                            },
                        )
                    } else {
                        match resolved(sections, p, stack) {
                            Err(e) => Err(e),
                            Ok(parent) => take_parent(s, sofar, parent),
                        }
                    },
                }
            },
        }
    }
}

/// A section with the settings of its templates under its own.
pub open spec fn resolved(
    sections: Seq<section::RawSectionView>,
    index: usize,
    stack: Seq<usize>,
) -> Result<section::RawSectionView, error::ErrorView>
    decreases sections.len() - stack.len(), 0nat,
    when stack.len() <= sections.len()
{
    if stack.contains(index) || stack.len() >= sections.len() {
        Err(cycle(sections, stack, index))
    } else {
        let s = sections[index as int];
        match inherited(sections, index, stack.push(index), s.parents.len()) {
            Err(e) => Err(e),
            Ok(all) => finished(s, all),
        }
    }
}

/// A section with its own settings laid over what it inherited.
pub open spec fn finished(s: section::RawSectionView, all: Inherited) -> Result<
    section::RawSectionView,
    error::ErrorView,
> {
    let values = match all.kind {
        Some(k) => if s.parents.len() == 0 {
            s.values
        } else {
            merged(all.values, s.values, k)
        },
        None => s.values,
    };
    let r = section::RawSectionView {
        name: s.name,
        line: s.line,
        is_template: s.is_template,
        parents: s.parents,
        values,
    };
    if s.is_template {
        match template_kind(r) {
            Err(e) => Err(e),
            Ok(_) => Ok(r),
        }
    } else {
        Ok(r)
    }
}

/// The concrete sections among the first `count`, each resolved.
pub open spec fn resolved_upto(sections: Seq<section::RawSectionView>, count: nat) -> Result<
    Seq<section::RawSectionView>,
    error::ErrorView,
>
    decreases count,
{
    if count == 0 {
        Ok(Seq::empty())
    } else {
        match resolved_upto(sections, (count - 1) as nat) {
            Err(e) => Err(e),
            Ok(done) => match resolved(sections, (count - 1) as usize, Seq::empty()) {
                Err(e) => Err(e),
                Ok(s) => Ok(
                    if sections[count - 1].is_template {
                        done
                    } else {
                        done.push(s)
                    },
                ),
            },
        }
    }
}

/// The concrete sections, each resolved.
pub open spec fn all_resolved(sections: Seq<section::RawSectionView>) -> Result<
    Seq<section::RawSectionView>,
    error::ErrorView,
> {
    resolved_upto(sections, sections.len())
}

/// The index of the last section of the name.
pub fn find_section(sections: &Vec<RawSection>, name: &str) -> (r: Option<usize>)
    ensures
        r == index_of(sections.deep_view(), name@),
        r is Some ==> r->0 < sections@.len(),
{
    let ghost all = sections.deep_view();
    let mut i: usize = sections.len();
    assert(all.take(i as int) =~= all);
    while i > 0
        invariant
            all == sections.deep_view(),
            i <= sections@.len(),
            index_of(all, name@) == index_of(all.take(i as int), name@),
        decreases i,
    {
        i -= 1;
        assert(all.take(i + 1).drop_last() =~= all.take(i as int));
        assert(all.take(i + 1).last() == sections@[i as int].deep_view());
        if text::eq_ignore_ascii_case(sections[i].name.as_str(), name) {
            return Some(i);
        }
    }
    assert(all.take(0) =~= Seq::empty());
    None
}

/// The kind of a resolved template.
fn resolved_template_kind(s: &RawSection) -> (r: Result<TemplateKind, ConfigError>)
    ensures
        match r {
            Ok(k) => template_kind(s.deep_view()) == Ok::<TemplateKind, error::ErrorView>(k),
            Err(e) => template_kind(s.deep_view()) == Err::<TemplateKind, error::ErrorView>(e@),
        },
{
    let raw = match s.value("type") {
        Some(v) => v,
        None => text::copy("missing"),
    };
    match TemplateKind::from_name(raw.as_str()) {
        Some(k) => Ok(k),
        None => Err(
            ConfigError::InvalidTemplateKind { section: text::copy(s.name.as_str()), kind: raw },
        ),
    }
}

/// The start of a cycle is the first occurrence of the index.
proof fn lemma_cycle_start(stack: Seq<usize>, index: usize, start: int)
    requires
        0 <= start < stack.len(),
        stack[start] == index,
        forall|j: int| 0 <= j < start ==> stack[j] != index,
    ensures
        cycle_start(stack, index) == start,
    decreases stack.len(),
{
    assert(stack.contains(index));
    if start > 0 {
        assert(stack.skip(1)[start - 1] == index);
        lemma_cycle_start(stack.skip(1), index, start - 1);
    }
}

/// The refusal of a circle of templates.
fn cycle_error(sections: &Vec<RawSection>, stack: &Vec<usize>, index: usize) -> (r: ConfigError)
    requires
        index < sections@.len(),
        forall|i: int| 0 <= i < stack@.len() ==> stack@[i] < sections@.len(),
    ensures
        r@ == cycle(sections.deep_view(), stack@, index),
{
    let ghost all = sections.deep_view();
    let mut start: usize = 0;
    while start < stack.len() && stack[start] != index
        invariant
            start <= stack@.len(),
            forall|j: int| 0 <= j < start ==> stack@[j] != index,
        decreases stack.len() - start,
    {
        start += 1;
    }
    if start == stack.len() {
        start = 0;
        assert(!stack@.contains(index));
    } else {
        proof {
            lemma_cycle_start(stack@, index, start as int);
        }
    }
    assert(start == cycle_start(stack@, index));
    let mut names: Vec<String> = Vec::new();
    let mut i: usize = start;
    let ghost want = cycle_names(all, stack@, index);
    assert(names.deep_view() =~= want.take(0));
    while i < stack.len()
        invariant
            all == sections.deep_view(),
            start <= i <= stack@.len(),
            start == cycle_start(stack@, index),
            want == cycle_names(all, stack@, index),
            forall|i: int| 0 <= i < stack@.len() ==> stack@[i] < sections@.len(),
            names.deep_view() == want.take(i - start),
        decreases stack.len() - i,
    {
        let ghost before = names.deep_view();
        let name = text::copy(sections[stack[i]].name.as_str());
        assert(all[stack@[i as int] as int] == sections@[stack@[i as int] as int].deep_view());
        assert(want[i - start] == name@);
        names.push(name);
        i += 1;
        assert(names.deep_view() =~= before.push(name@));
        assert(names.deep_view() =~= want.take(i - start));
    }
    let ghost before = names.deep_view();
    let name = text::copy(sections[index].name.as_str());
    assert(all[index as int] == sections@[index as int].deep_view());
    names.push(name);
    assert(names.deep_view() =~= before.push(name@));
    assert(names.deep_view() =~= want);
    assert(names.deep_view().skip(0) =~= want);
    ConfigError::InheritanceCycle(text::join_from(&names, 0, " -> "))
}

/// Takes one more template into what a section inherits.
fn add_parent(
    s: &RawSection,
    kind: Option<TemplateKind>,
    values: &Vec<RawValue>,
    parent: &RawSection,
) -> (r: Result<(Option<TemplateKind>, Vec<RawValue>), ConfigError>)
    ensures
        match take_parent(
            s.deep_view(),
            (Inherited { kind, values: values.deep_view() }),
            parent.deep_view(),
        ) {
            Ok(n) => r is Ok && r->Ok_0.0 == n.kind && r->Ok_0.1.deep_view() == n.values,
            Err(e) => r is Err && r->Err_0@ == e,
        },
{
    let parent_kind = match resolved_template_kind(parent) {
        Ok(k) => k,
        Err(e) => return Err(e),
    };
    let child: Option<String> = match kind {
        Some(k) => if k != parent_kind {
            Some(text::copy(k.as_str()))
        } else {
            None
        },
        None => match s.value("type") {
            Some(t) => Some(text::trim(t.as_str())),
            None => None,
        },
    };
    match child {
        Some(child_kind) => Err(
            ConfigError::WrongTemplateKind {
                section: text::copy(s.name.as_str()),
                child_kind,
                parent: text::copy(parent.name.as_str()),
                parent_kind: text::copy(parent_kind.as_str()),
            },
        ),
        None => Ok(
            (Some(parent_kind), merge_template_values(values, &parent.values, parent_kind)),
        ),
    }
}

/// A template that spoils what a section inherits spoils the section.
proof fn lemma_inherited_spoiled(
    sections: Seq<section::RawSectionView>,
    index: usize,
    stack: Seq<usize>,
    i: nat,
    count: nat,
)
    requires
        i <= count,
        stack.len() <= sections.len(),
        inherited(sections, index, stack, i) is Err,
    ensures
        inherited(sections, index, stack, count) == inherited(sections, index, stack, i),
    decreases count,
{
    if i < count {
        lemma_inherited_spoiled(sections, index, stack, i, (count - 1) as nat);
    }
}

/// Whether a list of indices holds one.
fn holds_index(list: &Vec<usize>, index: usize) -> (r: bool)
    ensures
        r == list@.contains(index),
{
    let mut k: usize = 0;
    while k < list.len()
        invariant
            k <= list@.len(),
            forall|j: int| 0 <= j < k ==> list@[j] != index,
        decreases list.len() - k,
    {
        if list[k] == index {
            return true;
        }
        k += 1;
    }
    false
}

/// Resolves one section. The stack holds the sections that are being resolved.
fn resolve_section(index: usize, sections: &Vec<RawSection>, stack: &Vec<usize>) -> (r: Result<
    RawSection,
    ConfigError,
>)
    requires
        index < sections@.len(),
        stack@.len() <= sections@.len(),
        forall|i: int| 0 <= i < stack@.len() ==> stack@[i] < sections@.len(),
    ensures
        error::outcome(r) == resolved(sections.deep_view(), index, stack@),
    decreases sections@.len() - stack@.len(),
{
    let ghost all = sections.deep_view();
    let on_stack = holds_index(stack, index);
    if on_stack || stack.len() >= sections.len() {
        return Err(cycle_error(sections, stack, index));
    }
    let mut deeper = text::copy_all(stack);
    deeper.push(index);
    let s = &sections[index];
    assert(all[index as int] == s.deep_view());
    let mut kind: Option<TemplateKind> = match s.value("type") {
        Some(t) => TemplateKind::from_name(text::trim(t.as_str()).as_str()),
        None => None,
    };
    let mut values: Vec<RawValue> = Vec::new();
    assert(values.deep_view() =~= Seq::empty());
    let mut j: usize = 0;
    while j < s.parents.len()
        invariant
            all == sections.deep_view(),
            index < sections@.len(),
            all[index as int] == s.deep_view(),
            j <= s.parents@.len(),
            deeper@ == stack@.push(index),
            stack@.len() < sections@.len(),
            forall|i: int| 0 <= i < deeper@.len() ==> deeper@[i] < sections@.len(),
            !stack@.contains(index),
            resolved(all, index, stack@) == (match inherited(
                all,
                index,
                deeper@,
                s.parents@.len(),
            ) {
                Err(e) => Err(e),
                Ok(n) => finished(s.deep_view(), n),
            }),
            inherited(all, index, deeper@, j as nat) == Ok::<Inherited, error::ErrorView>(
                Inherited { kind, values: values.deep_view() },
            ),
        decreases s.parents.len() - j,
    {
        let name = s.parents[j].as_str();
        assert(s.deep_view().parents[j as int] == s.parents@[j as int]@);
        let p = match find_section(sections, name) {
            Some(p) => p,
            None => {
                proof {
                    lemma_inherited_spoiled(all, index, deeper@, (j + 1) as nat, s.parents@.len());
                }
                return Err(
                    ConfigError::MissingTemplate {
                        section: text::copy(s.name.as_str()),
                        parent: text::copy(name),
                    },
                );
            },
        };
        assert(all[p as int] == sections@[p as int].deep_view());
        if !sections[p].is_template {
            proof {
                lemma_inherited_spoiled(all, index, deeper@, (j + 1) as nat, s.parents@.len());
            }
            return Err(
                ConfigError::ParentIsNotTemplate {
                    section: text::copy(s.name.as_str()),
                    parent: text::copy(sections[p].name.as_str()),
                },
            );
        }
        let parent = match resolve_section(p, sections, &deeper) {
            Ok(x) => x,
            Err(e) => {
                proof {
                    lemma_inherited_spoiled(all, index, deeper@, (j + 1) as nat, s.parents@.len());
                }
                return Err(e);
            },
        };
        match add_parent(s, kind, &values, &parent) {
            Ok((k, v)) => {
                kind = k;
                values = v;
            },
            Err(e) => {
                proof {
                    lemma_inherited_spoiled(all, index, deeper@, (j + 1) as nat, s.parents@.len());
                }
                return Err(e);
            },
        }
        j += 1;
    }
    let own = match kind {
        Some(k) => if s.parents.len() == 0 {
            section::copy_raw_values(&s.values)
        } else {
            merge_template_values(&values, &s.values, k)
        },
        None => section::copy_raw_values(&s.values),
    };
    let r = RawSection {
        name: text::copy(s.name.as_str()),
        line: s.line,
        is_template: s.is_template,
        parents: text::copy_list(&s.parents),
        values: own,
    };
    if r.is_template {
        match resolved_template_kind(&r) {
            Err(e) => return Err(e),
            Ok(_) => {},
        }
    }
    Ok(r)
}

/// A section that cannot be resolved spoils the configuration.
proof fn lemma_upto_spoiled(sections: Seq<section::RawSectionView>, i: nat, count: nat)
    requires
        i <= count,
        resolved_upto(sections, i) is Err,
    ensures
        resolved_upto(sections, count) == resolved_upto(sections, i),
    decreases count,
{
    if i < count {
        lemma_upto_spoiled(sections, i, (count - 1) as nat);
    }
}

/// Resolves the templates of every section and drops the templates.
pub fn resolve_inheritance(sections: &Vec<RawSection>) -> (r: Result<Vec<RawSection>, ConfigError>)
    ensures
        error::outcome(r) == all_resolved(sections.deep_view()),
{
    let ghost all = sections.deep_view();
    let mut done: Vec<RawSection> = Vec::new();
    let mut i: usize = 0;
    let empty: Vec<usize> = Vec::new();
    assert(empty@ =~= Seq::empty());
    assert(done.deep_view() =~= Seq::empty());
    while i < sections.len()
        invariant
            all == sections.deep_view(),
            empty@ == Seq::<usize>::empty(),
            i <= sections@.len(),
            resolved_upto(all, i as nat) == Ok::<Seq<section::RawSectionView>, error::ErrorView>(
                done.deep_view(),
            ),
        decreases sections.len() - i,
    {
        match resolve_section(i, sections, &empty) {
            Err(e) => {
                proof {
                    lemma_upto_spoiled(all, (i + 1) as nat, all.len());
                }
                return Err(e);
            },
            Ok(s) => {
                assert(all[i as int] == sections@[i as int].deep_view());
                if !sections[i].is_template {
                    let ghost before = done.deep_view();
                    let ghost added = s.deep_view();
                    done.push(s);
                    assert(done.deep_view() =~= before.push(added));
                }
            },
        }
        i += 1;
    }
    Ok(done)
}

// ---------------------------------------------------------------------------
// Laws

proof fn lemma_kept(
    values: Seq<section::RawValueView>,
    newer: Seq<section::RawValueView>,
    kind: TemplateKind,
)
    ensures
        forall|i: int|
            0 <= i < kept(values, newer, kind).len() ==> !is_overridden(
                #[trigger] kept(values, newer, kind)[i],
                newer,
                kind,
            ) && values.contains(kept(values, newer, kind)[i]),
        forall|v: section::RawValueView|
            values.contains(v) && !is_overridden(v, newer, kind) ==> #[trigger] kept(
                values,
                newer,
                kind,
            ).contains(v),
        (forall|i: int|
            0 <= i < values.len() ==> !is_overridden(#[trigger] values[i], newer, kind))
            ==> kept(values, newer, kind) == values,
    decreases values.len(),
{
    if values.len() > 0 {
        let head = values.drop_last();
        let last = values.last();
        let k = kept(head, newer, kind);
        let all = kept(values, newer, kind);
        lemma_kept(head, newer, kind);
        assert forall|i: int| 0 <= i < all.len() implies !is_overridden(
            #[trigger] all[i],
            newer,
            kind,
        ) && values.contains(all[i]) by {
            if i < k.len() {
                assert(all[i] == k[i]);
                let j = choose|j: int| 0 <= j < head.len() && head[j] == k[i];
                assert(values[j] == k[i]);
            } else {
                assert(values[values.len() - 1] == last);
            }
        }
        assert forall|v: section::RawValueView|
            values.contains(v) && !is_overridden(v, newer, kind) implies #[trigger] all.contains(
            v,
        ) by {
            let j = choose|j: int| 0 <= j < values.len() && values[j] == v;
            if j < head.len() {
                assert(head[j] == v);
                assert(k.contains(v));
                let m = choose|m: int| 0 <= m < k.len() && k[m] == v;
                assert(all[m] == v);
            } else {
                assert(all[k.len() as int] == v);
            }
        }
        if forall|i: int| 0 <= i < values.len() ==> !is_overridden(#[trigger] values[i], newer, kind) {
            assert forall|i: int| 0 <= i < head.len() implies !is_overridden(
                #[trigger] head[i],
                newer,
                kind,
            ) by {
                assert(head[i] == values[i]);
            }
            assert(!is_overridden(values[values.len() - 1], newer, kind));
            assert(head.push(last) =~= values);
        }
    }
}

/// The newer settings follow in order behind those that they leave. A setting
/// is gone exactly where a newer one is of the same option and the option holds
/// one setting; options whose settings add up lose none.
pub proof fn law_newer_settings_override(
    values: Seq<section::RawValueView>,
    newer: Seq<section::RawValueView>,
    kind: TemplateKind,
)
    ensures
        ({
            let all = merged(values, newer, kind);
            let left = all.len() - newer.len();
            &&& 0 <= left
            &&& all.skip(left) == newer
            &&& forall|i: int|
                0 <= i < left ==> values.contains(#[trigger] all[i]) && !is_overridden(
                    all[i],
                    newer,
                    kind,
                )
            &&& forall|v: section::RawValueView|
                values.contains(v) && !is_overridden(v, newer, kind) ==> #[trigger] all.contains(v)
            &&& (forall|i: int|
                0 <= i < values.len() ==> is_repeated(
                    kind,
                    key_identity(kind, (#[trigger] values[i]).key),
                )) ==> all == values + newer
        }),
{
    let k = kept(values, newer, kind);
    let all = merged(values, newer, kind);
    lemma_kept(values, newer, kind);
    assert(all.skip(k.len() as int) =~= newer);
    assert forall|i: int| 0 <= i < k.len() implies values.contains(#[trigger] all[i])
        && !is_overridden(all[i], newer, kind) by {
        assert(all[i] == k[i]);
    }
    assert forall|v: section::RawValueView|
        values.contains(v) && !is_overridden(v, newer, kind) implies #[trigger] all.contains(
        v,
    ) by {
        assert(k.contains(v));
        let m = choose|m: int| 0 <= m < k.len() && k[m] == v;
        assert(all[m] == v);
    }
    if forall|i: int|
        0 <= i < values.len() ==> is_repeated(kind, key_identity(kind, (#[trigger] values[i]).key)) {
        assert forall|i: int| 0 <= i < values.len() implies !is_overridden(
            #[trigger] values[i],
            newer,
            kind,
        ) by {}
    }
}

/// A section that is no template and inherits from none.
pub open spec fn is_plain(s: section::RawSectionView) -> bool {
    !s.is_template && s.parents.len() == 0
}

proof fn lemma_plain_upto(sections: Seq<section::RawSectionView>, count: nat)
    requires
        count <= sections.len() <= usize::MAX,
        forall|i: int| 0 <= i < sections.len() ==> is_plain(#[trigger] sections[i]),
    ensures
        resolved_upto(sections, count) == Ok::<Seq<section::RawSectionView>, error::ErrorView>(
            sections.take(count as int),
        ),
    decreases count,
{
    if count == 0 {
        assert(sections.take(0) =~= Seq::empty());
    } else {
        lemma_plain_upto(sections, (count - 1) as nat);
        let i = (count - 1) as usize;
        let s = sections[i as int];
        assert(is_plain(s));
        let stack = Seq::<usize>::empty();
        assert(!stack.contains(i));
        assert(inherited(sections, i, stack.push(i), 0) == Ok::<Inherited, error::ErrorView>(
            Inherited { kind: own_kind(s), values: Seq::empty() },
        ));
        assert(resolved(sections, i, stack) == Ok::<section::RawSectionView, error::ErrorView>(s));
        assert(sections.take(count - 1).push(s) =~= sections.take(count as int));
    }
}

/// Sections without templates resolve to themselves.
pub proof fn law_plain_sections_are_unchanged(sections: Seq<section::RawSectionView>)
    requires
        sections.len() <= usize::MAX,
        forall|i: int| 0 <= i < sections.len() ==> is_plain(#[trigger] sections[i]),
    ensures
        all_resolved(sections) == Ok::<Seq<section::RawSectionView>, error::ErrorView>(sections),
{
    lemma_plain_upto(sections, sections.len());
    assert(sections.take(sections.len() as int) =~= sections);
}

/// What is resolved holds no template, and each section keeps the name of the
/// one that it comes from.
pub proof fn law_templates_are_resolved_away(sections: Seq<section::RawSectionView>, count: nat)
    requires
        count <= sections.len() <= usize::MAX,
        resolved_upto(sections, count) is Ok,
    ensures
        resolved_upto(sections, count)->Ok_0.len() <= count,
        forall|i: int|
            0 <= i < resolved_upto(sections, count)->Ok_0.len() ==> {
                let s = #[trigger] resolved_upto(sections, count)->Ok_0[i];
                &&& !s.is_template
                &&& exists|j: int|
                    i <= j < count && (#[trigger] sections[j]).name == s.name
                        && !sections[j].is_template
            },
    decreases count,
{
    if count > 0 {
        law_templates_are_resolved_away(sections, (count - 1) as nat);
        let done = resolved_upto(sections, (count - 1) as nat)->Ok_0;
        let all = resolved_upto(sections, count)->Ok_0;
        let last = resolved(sections, (count - 1) as usize, Seq::empty())->Ok_0;
        assert forall|i: int| 0 <= i < all.len() implies {
            let s = #[trigger] all[i];
            &&& !s.is_template
            &&& exists|j: int|
                i <= j < count && (#[trigger] sections[j]).name == s.name
                    && !sections[j].is_template
        } by {
            if i < done.len() {
                assert(all[i] == done[i]);
                let j = choose|j: int|
                    i <= j < count - 1 && (#[trigger] sections[j]).name == done[i].name
                        && !sections[j].is_template;
                assert(sections[j].name == all[i].name);
            } else {
                assert(all[i] == last);
                assert(sections[count - 1].name == all[i].name);
            }
        }
    }
}

/// Which settings of a template a section keeps: all those of `allow`,
/// `disallow`, `deny`, `permit`, `permit_host` and `setvar`, on devices also of
/// `button`, `line` and `feature_default`. A setting of any other option is gone
/// exactly if the section sets the option itself, by any of its names. What is
/// kept stands in front of the settings of the section.
pub proof fn law_settings_are_kept_or_replaced(
    values: Seq<section::RawValueView>,
    newer: Seq<section::RawValueView>,
    kind: TemplateKind,
    i: int,
)
    requires
        0 <= i < values.len(),
    ensures
        ({
            let all = merged(values, newer, kind);
            let left = all.len() - newer.len();
            let n = text::name_of(values[i].key);
            let adds_up = n == "allow"@ || n == "disallow"@ || n == "deny"@ || n == "permit"@ || n
                == "permithost"@ || n == "setvar"@ || (kind is Device && (n == "button"@ || n == "line"@
                || n == "featuredefault"@));
            let one_option = |a: text::Text, b: text::Text|
                a == b || match kind {
                    TemplateKind::Device => {
                        ((a == "cfwdall"@ || a == "forwardallenabled"@) && (b == "cfwdall"@ || b == "forwardallenabled"@))
                    || ((a == "cfwdbusy"@ || a == "forwardbusyenabled"@) && (b == "cfwdbusy"@ || b == "forwardbusyenabled"@))
                    || ((a == "cfwdnoanswer"@ || a == "forwardnoanswerenabled"@) && (b == "cfwdnoanswer"@ || b == "forwardnoanswerenabled"@))
                    || ((a == "cfwdnoanswertimeout"@ || a == "forwardnoanswertimeout"@) && (b == "cfwdnoanswertimeout"@ || b == "forwardnoanswertimeout"@))
                    || ((a == "private"@ || a == "privacyfeature"@) && (b == "private"@ || b == "privacyfeature"@))
                    || ((a == "transport"@ || a == "transportrequirement"@) && (b == "transport"@ || b == "transportrequirement"@))
                    || ((a == "sccptos"@ || a == "signalingtos"@ || a == "sccpdscp"@ || a == "signalingdscp"@) && (b == "sccptos"@ || b == "signalingtos"@ || b == "sccpdscp"@ || b == "signalingdscp"@))
                    || ((a == "sccpcos"@ || a == "signalingcos"@) && (b == "sccpcos"@ || b == "signalingcos"@))
                    || ((a == "audiotos"@ || a == "audiodscp"@) && (b == "audiotos"@ || b == "audiodscp"@))
                    || ((a == "videotos"@ || a == "videodscp"@) && (b == "videotos"@ || b == "videodscp"@))
                    },
                    TemplateKind::Line => {
                        ((a == "vmnum"@ || a == "voicemailnumber"@) && (b == "vmnum"@ || b == "voicemailnumber"@))
                    || ((a == "trnsfvm"@ || a == "voicemailtransfer"@ || a == "transfertovoicemail"@) && (b == "trnsfvm"@ || b == "voicemailtransfer"@ || b == "transfertovoicemail"@))
                    || ((a == "pickupmodeanswer"@ || a == "directedpickupmodeanswer"@) && (b == "pickupmodeanswer"@ || b == "directedpickupmodeanswer"@))
                    },
                };
            let set_again = exists|j: int|
                0 <= j < newer.len() && one_option(n, text::name_of((#[trigger] newer[j]).key));
            &&& 0 <= left
            &&& all.skip(left) == newer
            &&& adds_up || !set_again ==> exists|k: int|
                0 <= k < left && #[trigger] all[k] == values[i]
            &&& !adds_up && set_again ==> forall|k: int|
                0 <= k < left ==> #[trigger] all[k] != values[i]
        }),
{
    let n = text::name_of(values[i].key);
    let id = key_identity(kind, values[i].key);
    law_newer_settings_override(values, newer, kind);
    let all = merged(values, newer, kind);
    let left = all.len() - newer.len();
    let adds_up = n == "allow"@ || n == "disallow"@ || n == "deny"@ || n == "permit"@ || n
                == "permithost"@ || n == "setvar"@ || (kind is Device && (n == "button"@ || n == "line"@
                || n == "featuredefault"@));
    let one_option = |a: text::Text, b: text::Text|
        a == b || match kind {
            TemplateKind::Device => {
                ((a == "cfwdall"@ || a == "forwardallenabled"@) && (b == "cfwdall"@ || b == "forwardallenabled"@))
                    || ((a == "cfwdbusy"@ || a == "forwardbusyenabled"@) && (b == "cfwdbusy"@ || b == "forwardbusyenabled"@))
                    || ((a == "cfwdnoanswer"@ || a == "forwardnoanswerenabled"@) && (b == "cfwdnoanswer"@ || b == "forwardnoanswerenabled"@))
                    || ((a == "cfwdnoanswertimeout"@ || a == "forwardnoanswertimeout"@) && (b == "cfwdnoanswertimeout"@ || b == "forwardnoanswertimeout"@))
                    || ((a == "private"@ || a == "privacyfeature"@) && (b == "private"@ || b == "privacyfeature"@))
                    || ((a == "transport"@ || a == "transportrequirement"@) && (b == "transport"@ || b == "transportrequirement"@))
                    || ((a == "sccptos"@ || a == "signalingtos"@ || a == "sccpdscp"@ || a == "signalingdscp"@) && (b == "sccptos"@ || b == "signalingtos"@ || b == "sccpdscp"@ || b == "signalingdscp"@))
                    || ((a == "sccpcos"@ || a == "signalingcos"@) && (b == "sccpcos"@ || b == "signalingcos"@))
                    || ((a == "audiotos"@ || a == "audiodscp"@) && (b == "audiotos"@ || b == "audiodscp"@))
                    || ((a == "videotos"@ || a == "videodscp"@) && (b == "videotos"@ || b == "videodscp"@))
            },
            TemplateKind::Line => {
                ((a == "vmnum"@ || a == "voicemailnumber"@) && (b == "vmnum"@ || b == "voicemailnumber"@))
                    || ((a == "trnsfvm"@ || a == "voicemailtransfer"@ || a == "transfertovoicemail"@) && (b == "trnsfvm"@ || b == "voicemailtransfer"@ || b == "transfertovoicemail"@))
                    || ((a == "pickupmodeanswer"@ || a == "directedpickupmodeanswer"@) && (b == "pickupmodeanswer"@ || b == "directedpickupmodeanswer"@))
            },
        };
    assert(adds_up <==> is_repeated(kind, id)) by {
        lemma_identity_adds_up(kind, n);
    }
    assert forall|j: int| 0 <= j < newer.len() implies (one_option(
        n,
        text::name_of((#[trigger] newer[j]).key),
    ) <==> key_identity(kind, newer[j].key) == id) by {
        lemma_identity_groups(kind, n, text::name_of(newer[j].key));
    }
    if is_overridden(values[i], newer, kind) {
        let j = choose|j: int|
            0 <= j < newer.len() && key_identity(kind, (#[trigger] newer[j]).key) == id;
        assert(one_option(n, text::name_of(newer[j].key)));
    } else {
        assert(values.contains(values[i]));
        let k = lemma_kept_place(values, newer, kind, i);
        assert(all[k] == values[i]);
    }
}

/// An option adds up by its name alone.
proof fn lemma_identity_adds_up(kind: TemplateKind, n: text::Text)
    ensures
        is_repeated(kind, identity(kind, n)) <==> (n == "allow"@ || n == "disallow"@ || n == "deny"@ || n == "permit"@ || n
                == "permithost"@ || n == "setvar"@ || (kind is Device && (n == "button"@ || n == "line"@
                || n == "featuredefault"@))),
{
    reveal_strlit("allow");
    reveal_strlit("audiodscp");
    reveal_strlit("audiotos");
    reveal_strlit("button");
    reveal_strlit("cfwdall");
    reveal_strlit("cfwdbusy");
    reveal_strlit("cfwdnoanswer");
    reveal_strlit("cfwdnoanswertimeout");
    reveal_strlit("deny");
    reveal_strlit("directedpickupmodeanswer");
    reveal_strlit("disallow");
    reveal_strlit("featuredefault");
    reveal_strlit("forwardallenabled");
    reveal_strlit("forwardbusyenabled");
    reveal_strlit("forwardnoanswerenabled");
    reveal_strlit("forwardnoanswertimeout");
    reveal_strlit("line");
    reveal_strlit("permit");
    reveal_strlit("permithost");
    reveal_strlit("pickupmodeanswer");
    reveal_strlit("privacyfeature");
    reveal_strlit("private");
    reveal_strlit("sccpcos");
    reveal_strlit("sccpdscp");
    reveal_strlit("sccptos");
    reveal_strlit("setvar");
    reveal_strlit("signalingcos");
    reveal_strlit("signalingdscp");
    reveal_strlit("signalingtos");
    reveal_strlit("transfertovoicemail");
    reveal_strlit("transport");
    reveal_strlit("transportrequirement");
    reveal_strlit("trnsfvm");
    reveal_strlit("videodscp");
    reveal_strlit("videotos");
    reveal_strlit("vmnum");
    reveal_strlit("voicemailnumber");
    reveal_strlit("voicemailtransfer");
    assert("allow"@.len() == 5 && "allow"@[0] == 'a');
    assert("audiodscp"@.len() == 9 && "audiodscp"@[0] == 'a');
    assert("audiotos"@.len() == 8 && "audiotos"@[0] == 'a');
    assert("button"@.len() == 6 && "button"@[0] == 'b');
    assert("cfwdall"@.len() == 7 && "cfwdall"@[0] == 'c');
    assert("cfwdbusy"@.len() == 8 && "cfwdbusy"@[0] == 'c');
    assert("cfwdnoanswer"@.len() == 12 && "cfwdnoanswer"@[0] == 'c');
    assert("cfwdnoanswertimeout"@.len() == 19 && "cfwdnoanswertimeout"@[0] == 'c');
    assert("deny"@.len() == 4 && "deny"@[0] == 'd');
    assert("directedpickupmodeanswer"@.len() == 24);
    assert("disallow"@.len() == 8 && "disallow"@[0] == 'd');
    assert("featuredefault"@.len() == 14 && "featuredefault"@[0] == 'f');
    assert("forwardallenabled"@.len() == 17 && "forwardallenabled"@[0] == 'f');
    assert("forwardbusyenabled"@.len() == 18);
    assert("forwardnoanswerenabled"@.len() == 22 && "forwardnoanswerenabled"@[15] == 'e');
    assert("forwardnoanswertimeout"@.len() == 22 && "forwardnoanswertimeout"@[15] == 't');
    assert("line"@.len() == 4 && "line"@[0] == 'l');
    assert("permit"@.len() == 6 && "permit"@[0] == 'p');
    assert("permithost"@.len() == 10);
    assert("pickupmodeanswer"@.len() == 16);
    assert("privacyfeature"@.len() == 14 && "privacyfeature"@[0] == 'p');
    assert("private"@.len() == 7 && "private"@[0] == 'p');
    assert("sccpcos"@.len() == 7 && "sccpcos"@[0] == 's' && "sccpcos"@[4] == 'c');
    assert("sccpdscp"@.len() == 8 && "sccpdscp"@[0] == 's');
    assert("sccptos"@.len() == 7 && "sccptos"@[0] == 's' && "sccptos"@[4] == 't');
    assert("setvar"@.len() == 6 && "setvar"@[0] == 's');
    assert("signalingcos"@.len() == 12 && "signalingcos"@[0] == 's' && "signalingcos"@[9] == 'c');
    assert("signalingdscp"@.len() == 13);
    assert("signalingtos"@.len() == 12 && "signalingtos"@[0] == 's' && "signalingtos"@[9] == 't');
    assert("transfertovoicemail"@.len() == 19 && "transfertovoicemail"@[0] == 't');
    assert("transport"@.len() == 9 && "transport"@[0] == 't');
    assert("transportrequirement"@.len() == 20);
    assert("trnsfvm"@.len() == 7 && "trnsfvm"@[0] == 't');
    assert("videodscp"@.len() == 9 && "videodscp"@[0] == 'v');
    assert("videotos"@.len() == 8 && "videotos"@[0] == 'v');
    assert("vmnum"@.len() == 5 && "vmnum"@[0] == 'v');
    assert("voicemailnumber"@.len() == 15);
    assert("voicemailtransfer"@.len() == 17 && "voicemailtransfer"@[0] == 'v');
}

/// Names meet exactly within their group.
proof fn lemma_identity_groups(kind: TemplateKind, a: text::Text, b: text::Text)
    ensures
        identity(kind, a) == identity(kind, b) <==> (a == b || match kind {
            TemplateKind::Device => {
                ((a == "cfwdall"@ || a == "forwardallenabled"@) && (b == "cfwdall"@ || b == "forwardallenabled"@))
                    || ((a == "cfwdbusy"@ || a == "forwardbusyenabled"@) && (b == "cfwdbusy"@ || b == "forwardbusyenabled"@))
                    || ((a == "cfwdnoanswer"@ || a == "forwardnoanswerenabled"@) && (b == "cfwdnoanswer"@ || b == "forwardnoanswerenabled"@))
                    || ((a == "cfwdnoanswertimeout"@ || a == "forwardnoanswertimeout"@) && (b == "cfwdnoanswertimeout"@ || b == "forwardnoanswertimeout"@))
                    || ((a == "private"@ || a == "privacyfeature"@) && (b == "private"@ || b == "privacyfeature"@))
                    || ((a == "transport"@ || a == "transportrequirement"@) && (b == "transport"@ || b == "transportrequirement"@))
                    || ((a == "sccptos"@ || a == "signalingtos"@ || a == "sccpdscp"@ || a == "signalingdscp"@) && (b == "sccptos"@ || b == "signalingtos"@ || b == "sccpdscp"@ || b == "signalingdscp"@))
                    || ((a == "sccpcos"@ || a == "signalingcos"@) && (b == "sccpcos"@ || b == "signalingcos"@))
                    || ((a == "audiotos"@ || a == "audiodscp"@) && (b == "audiotos"@ || b == "audiodscp"@))
                    || ((a == "videotos"@ || a == "videodscp"@) && (b == "videotos"@ || b == "videodscp"@))
            },
            TemplateKind::Line => {
                ((a == "vmnum"@ || a == "voicemailnumber"@) && (b == "vmnum"@ || b == "voicemailnumber"@))
                    || ((a == "trnsfvm"@ || a == "voicemailtransfer"@ || a == "transfertovoicemail"@) && (b == "trnsfvm"@ || b == "voicemailtransfer"@ || b == "transfertovoicemail"@))
                    || ((a == "pickupmodeanswer"@ || a == "directedpickupmodeanswer"@) && (b == "pickupmodeanswer"@ || b == "directedpickupmodeanswer"@))
            },
        }),
{
    reveal_strlit("allow");
    reveal_strlit("audiodscp");
    reveal_strlit("audiotos");
    reveal_strlit("button");
    reveal_strlit("cfwdall");
    reveal_strlit("cfwdbusy");
    reveal_strlit("cfwdnoanswer");
    reveal_strlit("cfwdnoanswertimeout");
    reveal_strlit("deny");
    reveal_strlit("directedpickupmodeanswer");
    reveal_strlit("disallow");
    reveal_strlit("featuredefault");
    reveal_strlit("forwardallenabled");
    reveal_strlit("forwardbusyenabled");
    reveal_strlit("forwardnoanswerenabled");
    reveal_strlit("forwardnoanswertimeout");
    reveal_strlit("line");
    reveal_strlit("permit");
    reveal_strlit("permithost");
    reveal_strlit("pickupmodeanswer");
    reveal_strlit("privacyfeature");
    reveal_strlit("private");
    reveal_strlit("sccpcos");
    reveal_strlit("sccpdscp");
    reveal_strlit("sccptos");
    reveal_strlit("setvar");
    reveal_strlit("signalingcos");
    reveal_strlit("signalingdscp");
    reveal_strlit("signalingtos");
    reveal_strlit("transfertovoicemail");
    reveal_strlit("transport");
    reveal_strlit("transportrequirement");
    reveal_strlit("trnsfvm");
    reveal_strlit("videodscp");
    reveal_strlit("videotos");
    reveal_strlit("vmnum");
    reveal_strlit("voicemailnumber");
    reveal_strlit("voicemailtransfer");
    assert("allow"@.len() == 5 && "allow"@[0] == 'a');
    assert("audiodscp"@.len() == 9 && "audiodscp"@[0] == 'a');
    assert("audiotos"@.len() == 8 && "audiotos"@[0] == 'a');
    assert("button"@.len() == 6 && "button"@[0] == 'b');
    assert("cfwdall"@.len() == 7 && "cfwdall"@[0] == 'c');
    assert("cfwdbusy"@.len() == 8 && "cfwdbusy"@[0] == 'c');
    assert("cfwdnoanswer"@.len() == 12 && "cfwdnoanswer"@[0] == 'c');
    assert("cfwdnoanswertimeout"@.len() == 19 && "cfwdnoanswertimeout"@[0] == 'c');
    assert("deny"@.len() == 4 && "deny"@[0] == 'd');
    assert("directedpickupmodeanswer"@.len() == 24);
    assert("disallow"@.len() == 8 && "disallow"@[0] == 'd');
    assert("featuredefault"@.len() == 14 && "featuredefault"@[0] == 'f');
    assert("forwardallenabled"@.len() == 17 && "forwardallenabled"@[0] == 'f');
    assert("forwardbusyenabled"@.len() == 18);
    assert("forwardnoanswerenabled"@.len() == 22 && "forwardnoanswerenabled"@[15] == 'e');
    assert("forwardnoanswertimeout"@.len() == 22 && "forwardnoanswertimeout"@[15] == 't');
    assert("line"@.len() == 4 && "line"@[0] == 'l');
    assert("permit"@.len() == 6 && "permit"@[0] == 'p');
    assert("permithost"@.len() == 10);
    assert("pickupmodeanswer"@.len() == 16);
    assert("privacyfeature"@.len() == 14 && "privacyfeature"@[0] == 'p');
    assert("private"@.len() == 7 && "private"@[0] == 'p');
    assert("sccpcos"@.len() == 7 && "sccpcos"@[0] == 's' && "sccpcos"@[4] == 'c');
    assert("sccpdscp"@.len() == 8 && "sccpdscp"@[0] == 's');
    assert("sccptos"@.len() == 7 && "sccptos"@[0] == 's' && "sccptos"@[4] == 't');
    assert("setvar"@.len() == 6 && "setvar"@[0] == 's');
    assert("signalingcos"@.len() == 12 && "signalingcos"@[0] == 's' && "signalingcos"@[9] == 'c');
    assert("signalingdscp"@.len() == 13);
    assert("signalingtos"@.len() == 12 && "signalingtos"@[0] == 's' && "signalingtos"@[9] == 't');
    assert("transfertovoicemail"@.len() == 19 && "transfertovoicemail"@[0] == 't');
    assert("transport"@.len() == 9 && "transport"@[0] == 't');
    assert("transportrequirement"@.len() == 20);
    assert("trnsfvm"@.len() == 7 && "trnsfvm"@[0] == 't');
    assert("videodscp"@.len() == 9 && "videodscp"@[0] == 'v');
    assert("videotos"@.len() == 8 && "videotos"@[0] == 'v');
    assert("vmnum"@.len() == 5 && "vmnum"@[0] == 'v');
    assert("voicemailnumber"@.len() == 15);
    assert("voicemailtransfer"@.len() == 17 && "voicemailtransfer"@[0] == 'v');
}

/// Where a setting that is not replaced goes.
proof fn lemma_kept_place(
    values: Seq<section::RawValueView>,
    newer: Seq<section::RawValueView>,
    kind: TemplateKind,
    i: int,
) -> (k: int)
    requires
        0 <= i < values.len(),
        !is_overridden(values[i], newer, kind),
    ensures
        0 <= k < kept(values, newer, kind).len(),
        kept(values, newer, kind)[k] == values[i],
        k == kept(values.take(i), newer, kind).len(),
    decreases values.len(),
{
    let head = values.drop_last();
    if i == values.len() - 1 {
        assert(values.take(i) =~= head);
        kept(head, newer, kind).len() as int
    } else {
        assert(head[i] == values[i]);
        assert(head.take(i) =~= values.take(i));
        lemma_kept_place(head, newer, kind, i)
    }
}

proof fn lemma_kept_grows(
    values: Seq<section::RawValueView>,
    newer: Seq<section::RawValueView>,
    kind: TemplateKind,
    i: int,
    j: int,
)
    requires
        0 <= i < j <= values.len(),
        !is_overridden(values[i], newer, kind),
    ensures
        kept(values.take(i), newer, kind).len() < kept(values.take(j), newer, kind).len(),
    decreases j,
{
    assert(values.take(j).drop_last() =~= values.take(j - 1));
    if i < j - 1 {
        lemma_kept_grows(values, newer, kind, i, j - 1);
    } else {
        assert(values.take(j).last() == values[i]);
    }
}

/// One setting stands in front of another.
pub open spec fn in_turn(
    values: Seq<section::RawValueView>,
    a: section::RawValueView,
    b: section::RawValueView,
) -> bool {
    exists|i: int, j: int|
        0 <= i < j < values.len() && #[trigger] values[i] == a && #[trigger] values[j] == b
}

/// Settings that are kept stay in their order, and in front of the newer ones.
pub proof fn law_kept_settings_stay_in_order(
    values: Seq<section::RawValueView>,
    newer: Seq<section::RawValueView>,
    kind: TemplateKind,
    a: section::RawValueView,
    b: section::RawValueView,
)
    requires
        !is_overridden(a, newer, kind),
    ensures
        in_turn(values, a, b) && !is_overridden(b, newer, kind) ==> in_turn(
            merged(values, newer, kind),
            a,
            b,
        ),
        values.contains(a) && newer.contains(b) ==> in_turn(merged(values, newer, kind), a, b),
        in_turn(newer, a, b) ==> in_turn(merged(values, newer, kind), a, b),
{
    let k = kept(values, newer, kind);
    let all = merged(values, newer, kind);
    if in_turn(values, a, b) && !is_overridden(b, newer, kind) {
        let (i, j) = choose|i: int, j: int|
            0 <= i < j < values.len() && #[trigger] values[i] == a && #[trigger] values[j] == b;
        let x = lemma_kept_place(values, newer, kind, i);
        let y = lemma_kept_place(values, newer, kind, j);
        lemma_kept_grows(values, newer, kind, i, j);
        assert(all[x] == a && all[y] == b);
    }
    if values.contains(a) && newer.contains(b) {
        let i = choose|i: int| 0 <= i < values.len() && values[i] == a;
        let j = choose|j: int| 0 <= j < newer.len() && newer[j] == b;
        let x = lemma_kept_place(values, newer, kind, i);
        assert(all[x] == a && all[k.len() + j] == b);
    }
    if in_turn(newer, a, b) {
        let (i, j) = choose|i: int, j: int|
            0 <= i < j < newer.len() && #[trigger] newer[i] == a && #[trigger] newer[j] == b;
        assert(all[k.len() + i] == a && all[k.len() + j] == b);
    }
}

/// A template of a section, resolved.
pub open spec fn template_at(
    sections: Seq<section::RawSectionView>,
    index: usize,
    stack: Seq<usize>,
    c: int,
) -> Result<section::RawSectionView, error::ErrorView> {
    resolved(
        sections,
        index_of(sections, sections[index as int].parents[c])->0,
        stack.push(index),
    )
}

/// A section that resolves keeps its name and ends with its own settings. Each
/// name in its list of templates is that of a template, which resolves too, and
/// whose `type` says what the section is.
pub proof fn law_resolved_sections_end_with_their_own_settings(
    sections: Seq<section::RawSectionView>,
    index: usize,
    stack: Seq<usize>,
    c: int,
)
    requires
        index < sections.len() <= usize::MAX,
        stack.len() <= sections.len(),
        resolved(sections, index, stack) is Ok,
        0 <= c < sections[index as int].parents.len(),
    ensures
        ({
            let s = sections[index as int];
            let r = resolved(sections, index, stack)->Ok_0;
            let p = index_of(sections, s.parents[c]);
            let t = template_at(sections, index, stack, c);
            &&& r.name == s.name
            &&& r.line == s.line
            &&& r.is_template == s.is_template
            &&& r.values.len() >= s.values.len()
            &&& r.values.skip(r.values.len() - s.values.len()) == s.values
            &&& p matches Some(k) && k < sections.len() && text::same_fold(
                sections[k as int].name,
                s.parents[c],
            ) && sections[k as int].is_template
            &&& t is Ok
            &&& template_kind(t->Ok_0) is Ok
            &&& own_type(s) matches Some(own) ==> kind_of(own) == Some(template_kind(t->Ok_0)->Ok_0)
        }),
{
    let s = sections[index as int];
    let n = s.parents.len();
    let inner = stack.push(index);
    lemma_inherited_from(sections, index, inner, n, c);
    let all = inherited(sections, index, inner, n)->Ok_0;
    if let Some(k) = all.kind {
        law_newer_settings_override(all.values, s.values, k);
    }
    let r = resolved(sections, index, stack)->Ok_0;
    assert(r.values.skip(r.values.len() - s.values.len()) =~= s.values);
    lemma_index_of(sections, s.parents[c]);
}

proof fn lemma_index_of(sections: Seq<section::RawSectionView>, name: text::Text)
    requires
        sections.len() <= usize::MAX,
    ensures
        index_of(sections, name) matches Some(k) ==> k < sections.len() && text::same_fold(
            sections[k as int].name,
            name,
        ),
        index_of(sections, name) is None ==> forall|i: int|
            0 <= i < sections.len() ==> !text::same_fold((#[trigger] sections[i]).name, name),
    decreases sections.len(),
{
    if sections.len() > 0 && !text::same_fold(sections.last().name, name) {
        let head = sections.drop_last();
        lemma_index_of(head, name);
        assert forall|i: int| 0 <= i < head.len() implies #[trigger] sections[i] == head[i] by {}
    }
}

/// What is inherited from the first templates comes from each of them.
proof fn lemma_inherited_from(
    sections: Seq<section::RawSectionView>,
    index: usize,
    inner: Seq<usize>,
    count: nat,
    c: int,
)
    requires
        index < sections.len(),
        inner.len() <= sections.len(),
        0 <= c < count <= sections[index as int].parents.len(),
        inherited(sections, index, inner, count) is Ok,
    ensures
        ({
            let s = sections[index as int];
            let p = index_of(sections, s.parents[c]);
            let t = resolved(sections, p->0, inner);
            let all = inherited(sections, index, inner, count)->Ok_0;
            &&& p is Some
            &&& sections[p->0 as int].is_template
            &&& t is Ok
            &&& template_kind(t->Ok_0) is Ok
            &&& all.kind == Some(template_kind(t->Ok_0)->Ok_0)
            &&& own_type(s) matches Some(own) ==> kind_of(own) == all.kind
        }),
    decreases count,
{
    if c < count - 1 {
        lemma_inherited_from(sections, index, inner, (count - 1) as nat, c);
    } else {
        lemma_own_kind_first(sections, index, inner, (count - 1) as nat);
    }
}

proof fn lemma_own_kind_first(
    sections: Seq<section::RawSectionView>,
    index: usize,
    inner: Seq<usize>,
    count: nat,
)
    requires
        inner.len() <= sections.len(),
        inherited(sections, index, inner, count) is Ok,
    ensures
        ({
            let s = sections[index as int];
            let all = inherited(sections, index, inner, count)->Ok_0;
            own_type(s) matches Some(own) ==> all.kind == kind_of(own)
        }),
    decreases count,
{
    if count > 0 {
        lemma_own_kind_first(sections, index, inner, (count - 1) as nat);
    }
}

/// Whether settings of an option add up, by the name of the option.
spec fn adds_up(kind: TemplateKind, v: section::RawValueView) -> bool {
    is_repeated(kind, key_identity(kind, v.key))
}

/// What adds up of a template reaches the section, whole and in order, behind
/// what adds up of the templates in front.
proof fn lemma_added_reach(
    sections: Seq<section::RawSectionView>,
    index: usize,
    inner: Seq<usize>,
    count: nat,
    c: int,
    a: section::RawValueView,
)
    requires
        index < sections.len(),
        inner.len() <= sections.len(),
        0 <= c < count <= sections[index as int].parents.len(),
        inherited(sections, index, inner, count) is Ok,
        resolved(
            sections,
            index_of(sections, sections[index as int].parents[c])->0,
            inner,
        )->Ok_0.values.contains(a),
        adds_up(inherited(sections, index, inner, count)->Ok_0.kind->0, a),
    ensures
        inherited(sections, index, inner, count)->Ok_0.values.contains(a),
    decreases count,
{
    let s = sections[index as int];
    let all = inherited(sections, index, inner, count)->Ok_0;
    let sofar = inherited(sections, index, inner, (count - 1) as nat)->Ok_0;
    let t = resolved(sections, index_of(sections, s.parents[count - 1])->0, inner)->Ok_0;
    lemma_inherited_from(sections, index, inner, count, c);
    let k = all.kind->0;
    law_newer_settings_override(sofar.values, t.values, k);
    assert(all.values == merged(sofar.values, t.values, k)) by {
        lemma_inherited_from(sections, index, inner, count, count - 1);
    }
    if c < count - 1 {
        lemma_inherited_from(sections, index, inner, (count - 1) as nat, c);
        lemma_added_reach(sections, index, inner, (count - 1) as nat, c, a);
        assert(!is_overridden(a, t.values, k));
    } else {
        let i = choose|i: int| 0 <= i < t.values.len() && t.values[i] == a;
        let left = all.values.len() - t.values.len();
        assert(all.values.skip(left)[i] == a);
        assert(all.values[left + i] == a);
    }
}

/// A line of a template, and every other setting of an option whose settings add
/// up, is a setting of each section that names the template, in front of the
/// section's own.
pub proof fn law_sections_have_what_adds_up_of_their_templates(
    sections: Seq<section::RawSectionView>,
    index: usize,
    stack: Seq<usize>,
    c: int,
    i: int,
)
    requires
        index < sections.len() <= usize::MAX,
        stack.len() <= sections.len(),
        resolved(sections, index, stack) is Ok,
        0 <= c < sections[index as int].parents.len(),
        0 <= i < template_at(sections, index, stack, c)->Ok_0.values.len(),
        ({
            let t = template_at(sections, index, stack, c)->Ok_0;
            let n = text::name_of(t.values[i].key);
            let kind = template_kind(t)->Ok_0;
            n == "allow"@ || n == "disallow"@ || n == "deny"@ || n == "permit"@ || n
                == "permithost"@ || n == "setvar"@ || (kind is Device && (n == "button"@ || n == "line"@
                || n == "featuredefault"@))
        }),
    ensures
        ({
            let r = resolved(sections, index, stack)->Ok_0;
            let own = sections[index as int].values;
            let v = template_at(sections, index, stack, c)->Ok_0.values[i];
            exists|k: int| 0 <= k < r.values.len() - own.len() && #[trigger] r.values[k] == v
        }),
{
    let s = sections[index as int];
    let inner = stack.push(index);
    let n = s.parents.len();
    let t = template_at(sections, index, stack, c)->Ok_0;
    let v = t.values[i];
    lemma_inherited_from(sections, index, inner, n, c);
    let all = inherited(sections, index, inner, n)->Ok_0;
    let kind = all.kind->0;
    lemma_identity_adds_up(kind, text::name_of(v.key));
    assert(t.values.contains(v));
    lemma_added_reach(sections, index, inner, n, c, v);
    let j = choose|j: int| 0 <= j < all.values.len() && all.values[j] == v;
    assert(!is_overridden(v, s.values, kind));
    let k = lemma_kept_place(all.values, s.values, kind, j);
    let r = resolved(sections, index, stack)->Ok_0;
    assert(r.values == merged(all.values, s.values, kind));
    assert(r.values[k] == v);
}

/// What a section sets itself of an option whose settings do not add up is the
/// only setting of that name.
pub proof fn law_own_settings_come_alone(
    sections: Seq<section::RawSectionView>,
    index: usize,
    stack: Seq<usize>,
    j: int,
    k: int,
)
    requires
        index < sections.len() <= usize::MAX,
        stack.len() <= sections.len(),
        resolved(sections, index, stack) is Ok,
        sections[index as int].parents.len() > 0,
        0 <= j < sections[index as int].values.len(),
        0 <= k < resolved(sections, index, stack)->Ok_0.values.len()
            - sections[index as int].values.len(),
        ({
            let n = text::name_of(sections[index as int].values[j].key);
            let kind = TemplateKind::Device;
            !(n == "allow"@ || n == "disallow"@ || n == "deny"@ || n == "permit"@ || n
                == "permithost"@ || n == "setvar"@ || (kind is Device && (n == "button"@ || n == "line"@
                || n == "featuredefault"@)))
        }),
    ensures
        text::name_of(resolved(sections, index, stack)->Ok_0.values[k].key) != text::name_of(
            sections[index as int].values[j].key,
        ),
{
    let s = sections[index as int];
    let inner = stack.push(index);
    lemma_inherited_from(sections, index, inner, s.parents.len(), 0);
    let all = inherited(sections, index, inner, s.parents.len())->Ok_0;
    let kind = all.kind->0;
    let r = resolved(sections, index, stack)->Ok_0;
    law_newer_settings_override(all.values, s.values, kind);
    lemma_identity_adds_up(kind, text::name_of(s.values[j].key));
    assert(!is_overridden(r.values[k], s.values, kind));
    if text::name_of(r.values[k].key) == text::name_of(s.values[j].key) {
        assert(has_identity(s.values, kind, key_identity(kind, r.values[k].key)));
    }
}

/// A setting of a template that no later template and not the section itself
/// sets, under any of the names of the option, is a setting of the section.
pub proof fn law_sections_have_what_is_not_set_later(
    sections: Seq<section::RawSectionView>,
    index: usize,
    stack: Seq<usize>,
    c: int,
    i: int,
)
    requires
        index < sections.len() <= usize::MAX,
        stack.len() <= sections.len(),
        resolved(sections, index, stack) is Ok,
        0 <= c < sections[index as int].parents.len(),
        0 <= i < template_at(sections, index, stack, c)->Ok_0.values.len(),
        ({
            let v = template_at(sections, index, stack, c)->Ok_0.values[i];
            let kind = template_kind(template_at(sections, index, stack, c)->Ok_0)->Ok_0;
            let n = identity(kind, text::name_of(v.key));
            &&& forall|j: int|
                0 <= j < sections[index as int].values.len() ==> identity(
                    kind,
                    text::name_of((#[trigger] sections[index as int].values[j]).key),
                ) != n
            &&& forall|d: int, j: int|
                c < d < sections[index as int].parents.len() && 0 <= j < template_at(
                    sections,
                    index,
                    stack,
                    d,
                )->Ok_0.values.len() ==> identity(
                    kind,
                    text::name_of(
                        (#[trigger] template_at(sections, index, stack, d)->Ok_0.values[j]).key,
                    ),
                ) != n
        }),
    ensures
        resolved(sections, index, stack)->Ok_0.values.contains(
            template_at(sections, index, stack, c)->Ok_0.values[i],
        ),
{
    let s = sections[index as int];
    let inner = stack.push(index);
    let n = s.parents.len();
    let t = template_at(sections, index, stack, c)->Ok_0;
    let v = t.values[i];
    lemma_inherited_from(sections, index, inner, n, c);
    let all = inherited(sections, index, inner, n)->Ok_0;
    let kind = all.kind->0;
    lemma_unset_reach(sections, index, stack, n, c, v, kind);
    law_newer_settings_override(all.values, s.values, kind);
}

proof fn lemma_unset_reach(
    sections: Seq<section::RawSectionView>,
    index: usize,
    stack: Seq<usize>,
    count: nat,
    c: int,
    v: section::RawValueView,
    kind: TemplateKind,
)
    requires
        index < sections.len(),
        stack.len() < sections.len(),
        0 <= c < count <= sections[index as int].parents.len(),
        inherited(sections, index, stack.push(index), count) is Ok,
        inherited(sections, index, stack.push(index), count)->Ok_0.kind == Some(kind),
        template_at(sections, index, stack, c)->Ok_0.values.contains(v),
        forall|d: int, j: int|
            c < d < count && 0 <= j < template_at(sections, index, stack, d)->Ok_0.values.len()
                ==> identity(
                kind,
                text::name_of(
                    (#[trigger] template_at(sections, index, stack, d)->Ok_0.values[j]).key,
                ),
            ) != identity(kind, text::name_of(v.key)),
    ensures
        inherited(sections, index, stack.push(index), count)->Ok_0.values.contains(v),
    decreases count,
{
    let s = sections[index as int];
    let inner = stack.push(index);
    let all = inherited(sections, index, inner, count)->Ok_0;
    let sofar = inherited(sections, index, inner, (count - 1) as nat)->Ok_0;
    let t = template_at(sections, index, stack, count - 1)->Ok_0;
    lemma_inherited_from(sections, index, inner, count, count - 1);
    law_newer_settings_override(sofar.values, t.values, kind);
    assert(all.values == merged(sofar.values, t.values, kind));
    if c < count - 1 {
        lemma_inherited_from(sections, index, inner, count, c);
        lemma_inherited_from(sections, index, inner, (count - 1) as nat, c);
        lemma_unset_reach(sections, index, stack, (count - 1) as nat, c, v, kind);
        assert(!has_identity(t.values, kind, key_identity(kind, v.key))) by {
            if has_identity(t.values, kind, key_identity(kind, v.key)) {
                let j = choose|j: int|
                    0 <= j < t.values.len() && key_identity(kind, (#[trigger] t.values[j]).key)
                        == key_identity(kind, v.key);
                assert(template_at(sections, index, stack, count - 1)->Ok_0.values[j]
                    == t.values[j]);
            }
        }
    } else {
        let j = choose|j: int| 0 <= j < t.values.len() && t.values[j] == v;
        let left = all.values.len() - t.values.len();
        assert(all.values.skip(left)[j] == v);
        assert(all.values[left + j] == v);
    }
}

/// Every section that is no template comes out resolved, in the order of the
/// text.
pub proof fn law_every_section_comes_out_resolved(
    sections: Seq<section::RawSectionView>,
    i: int,
    j: int,
)
    requires
        sections.len() <= usize::MAX,
        all_resolved(sections) is Ok,
        0 <= i < j < sections.len(),
        !sections[i].is_template,
        !sections[j].is_template,
    ensures
        ({
            let all = all_resolved(sections)->Ok_0;
            exists|x: int, y: int|
                {
                    &&& 0 <= x < y < all.len()
                    &&& resolved(sections, i as usize, Seq::empty()) == Ok::<_, error::ErrorView>(
                        #[trigger] all[x],
                    )
                    &&& resolved(sections, j as usize, Seq::empty()) == Ok::<_, error::ErrorView>(
                        #[trigger] all[y],
                    )
                }
        }),
{
    let n = sections.len();
    let x = lemma_comes_out(sections, i, n);
    let y = lemma_comes_out(sections, j, n);
    lemma_upto_grows(sections, i, j as nat);
}

proof fn lemma_comes_out(sections: Seq<section::RawSectionView>, i: int, count: nat) -> (x: int)
    requires
        count <= sections.len() <= usize::MAX,
        resolved_upto(sections, count) is Ok,
        0 <= i < count,
        !sections[i].is_template,
    ensures
        resolved_upto(sections, i as nat) is Ok,
        x == resolved_upto(sections, i as nat)->Ok_0.len(),
        0 <= x < resolved_upto(sections, count)->Ok_0.len(),
        resolved(sections, i as usize, Seq::empty()) == Ok::<_, error::ErrorView>(
            resolved_upto(sections, count)->Ok_0[x],
        ),
    decreases count,
{
    if i == count - 1 {
        resolved_upto(sections, i as nat)->Ok_0.len() as int
    } else {
        let x = lemma_comes_out(sections, i, (count - 1) as nat);
        let before = resolved_upto(sections, (count - 1) as nat)->Ok_0;
        assert(resolved_upto(sections, count)->Ok_0[x] == before[x]);
        x
    }
}

proof fn lemma_upto_grows(sections: Seq<section::RawSectionView>, i: int, count: nat)
    requires
        count <= sections.len() <= usize::MAX,
        resolved_upto(sections, count) is Ok,
        0 <= i < count,
        !sections[i].is_template,
    ensures
        resolved_upto(sections, i as nat) is Ok,
        resolved_upto(sections, i as nat)->Ok_0.len() < resolved_upto(sections, count)->Ok_0.len(),
    decreases count,
{
    if i < count - 1 {
        lemma_upto_grows(sections, i, (count - 1) as nat);
    }
}

} // verus!
