//! Settings from elsewhere laid over the sections of a file.

use vstd::prelude::*;

use crate::config::error;
use crate::config::error::ConfigError;
use crate::config::inheritance;
use crate::config::inheritance::TemplateKind;
use crate::config::section;
use crate::config::section::{RawSection, RawValue};
use crate::text;

verus! {

/// What an overlaid section describes.
#[derive(Clone, Copy, Debug, PartialEq, Eq, Structural)]
pub enum ConfigOverlayKind {
    Device,
    Line,
}

impl DeepView for ConfigOverlayKind {
    type V = ConfigOverlayKind;

    open spec fn deep_view(&self) -> ConfigOverlayKind {
        *self
    }
}

/// One overlaid setting.
#[derive(Debug, PartialEq, Eq)]
pub struct ConfigOverlayValue {
    pub key: String,
    /// Absent to delete the setting of the file; empty text is a setting.
    pub value: Option<String>,
}

/// The contents of [`ConfigOverlayValue`].
pub struct ConfigOverlayValueView {
    pub key: text::Text,
    pub value: Option<text::Text>,
}

impl DeepView for ConfigOverlayValue {
    type V = ConfigOverlayValueView;

    open spec fn deep_view(&self) -> ConfigOverlayValueView {
        ConfigOverlayValueView {
            key: self.key@,
            value: self.value.deep_view(),
        }
    }
}

impl Clone for ConfigOverlayValue {
    fn clone(&self) -> (r: Self)
        ensures
            r.deep_view() == self.deep_view(),
    {
        ConfigOverlayValue {
            key: text::copy(self.key.as_str()),
            value: text::copy_option(&self.value),
        }
    }
}

/// A list with the same contents.
pub fn copy_config_overlay_values(list: &Vec<ConfigOverlayValue>) -> (r: Vec<ConfigOverlayValue>)
    ensures
        r.deep_view() == list.deep_view(),
{
    let mut r: Vec<ConfigOverlayValue> = Vec::new();
    let mut i: usize = 0;
    while i < list.len()
        invariant
            i <= list@.len(),
            r.deep_view() == list.deep_view().take(i as int),
        decreases list.len() - i,
    {
        let ghost before = r.deep_view();
        let x = list[i].clone();
        r.push(x);
        i += 1;
        assert(r.deep_view() =~= before.push(x.deep_view()));
        assert(r.deep_view() =~= list.deep_view().take(i as int));
    }
    assert(list.deep_view().take(i as int) =~= list.deep_view());
    r
}

/// One overlaid section.
#[derive(Debug, PartialEq, Eq)]
pub struct ConfigOverlaySection {
    pub name: String,
    pub source: String,
    pub line: usize,
    pub kind: Option<ConfigOverlayKind>,
    pub delete: bool,
    pub values: Vec<ConfigOverlayValue>,
}

/// The contents of [`ConfigOverlaySection`].
pub struct ConfigOverlaySectionView {
    pub name: text::Text,
    pub source: text::Text,
    pub line: usize,
    pub kind: Option<ConfigOverlayKind>,
    pub delete: bool,
    pub values: Seq<ConfigOverlayValueView>,
}

impl DeepView for ConfigOverlaySection {
    type V = ConfigOverlaySectionView;

    open spec fn deep_view(&self) -> ConfigOverlaySectionView {
        ConfigOverlaySectionView {
            name: self.name@,
            source: self.source@,
            line: self.line,
            kind: self.kind,
            delete: self.delete,
            values: self.values.deep_view(),
        }
    }
}

impl Clone for ConfigOverlaySection {
    fn clone(&self) -> (r: Self)
        ensures
            r.deep_view() == self.deep_view(),
    {
        ConfigOverlaySection {
            name: text::copy(self.name.as_str()),
            source: text::copy(self.source.as_str()),
            line: self.line,
            kind: self.kind,
            delete: self.delete,
            values: copy_config_overlay_values(&self.values),
        }
    }
}

/// A list with the same contents.
pub fn copy_config_overlay_sections(list: &Vec<ConfigOverlaySection>) -> (r: Vec<ConfigOverlaySection>)
    ensures
        r.deep_view() == list.deep_view(),
{
    let mut r: Vec<ConfigOverlaySection> = Vec::new();
    let mut i: usize = 0;
    while i < list.len()
        invariant
            i <= list@.len(),
            r.deep_view() == list.deep_view().take(i as int),
        decreases list.len() - i,
    {
        let ghost before = r.deep_view();
        let x = list[i].clone();
        r.push(x);
        i += 1;
        assert(r.deep_view() =~= before.push(x.deep_view()));
        assert(r.deep_view() =~= list.deep_view().take(i as int));
    }
    assert(list.deep_view().take(i as int) =~= list.deep_view());
    r
}

/// The name under which the spellings of one general option meet, from the
/// reduced name of a key.
pub open spec fn general_identity(name: text::Text) -> text::Text {
    if name == "clearbind"@ {
        "bind"@
    } else if name == "clearbindaddr"@ {
        "bindaddr"@
    } else if name == "clearport"@ {
        "port"@
    } else if name == "advertisedaddressipv4"@ {
        "advertisedipv4"@
    } else if name == "advertisedaddressipv6"@ {
        "advertisedipv6"@
    } else if name == "securebind"@ {
        "tlsbind"@
    } else if name == "tlsbindaddr"@ {
        "secbindaddr"@
    } else if name == "tlsport"@ {
        "secport"@
    } else if name == "tlscombinedpem"@ {
        "certfile"@
    } else if name == "tlscertificatefile"@ {
        "tlscertificate"@
    } else if name == "tlsprivatekeyfile"@ {
        "tlsprivatekey"@
    } else if name == "tlscafile"@ {
        "tlstruststore"@
    } else if name == "externaladdress"@ {
        "externip"@
    } else if name == "externalhost"@ {
        "externhost"@
    } else if name == "externalrefresh"@ {
        "externrefresh"@
    } else if name == "signalingtos"@ || name == "sccpdscp"@ || name == "signalingdscp"@ {
        "sccptos"@
    } else if name == "signalingcos"@ {
        "sccpcos"@
    } else if name == "audiodscp"@ {
        "audiotos"@
    } else if name == "videodscp"@ {
        "videotos"@
    } else {
        name
    }
}

/// The option identity of a key in an overlaid section.
pub open spec fn overlay_identity(kind: Option<TemplateKind>, key: text::Text) -> text::Text {
    let name = text::name_of(key);
    match kind {
        Some(k) => inheritance::key_identity(k, name),
        None => general_identity(name),
    }
}

/// The option identity of a key in an overlaid section.
pub fn overlay_option_identity(kind: Option<TemplateKind>, key: &str) -> (r: String)
    ensures
        r@ == overlay_identity(kind, key@),
{
    let name = text::normalize_name(key);
    let n = name.as_str();
    match kind {
        Some(k) => return inheritance::template_option_identity(k, n),
        None => {},
    }
    if text::same(n, "clearbind") {
        text::copy("bind")
    } else if text::same(n, "clearbindaddr") {
        text::copy("bindaddr")
    } else if text::same(n, "clearport") {
        text::copy("port")
    } else if text::same(n, "advertisedaddressipv4") {
        text::copy("advertisedipv4")
    } else if text::same(n, "advertisedaddressipv6") {
        text::copy("advertisedipv6")
    } else if text::same(n, "securebind") {
        text::copy("tlsbind")
    } else if text::same(n, "tlsbindaddr") {
        text::copy("secbindaddr")
    } else if text::same(n, "tlsport") {
        text::copy("secport")
    } else if text::same(n, "tlscombinedpem") {
        text::copy("certfile")
    } else if text::same(n, "tlscertificatefile") {
        text::copy("tlscertificate")
    } else if text::same(n, "tlsprivatekeyfile") {
        text::copy("tlsprivatekey")
    } else if text::same(n, "tlscafile") {
        text::copy("tlstruststore")
    } else if text::same(n, "externaladdress") {
        text::copy("externip")
    } else if text::same(n, "externalhost") {
        text::copy("externhost")
    } else if text::same(n, "externalrefresh") {
        text::copy("externrefresh")
    } else if text::same(n, "signalingtos") || text::same(n, "sccpdscp") || text::same(n, "signalingdscp") {
        text::copy("sccptos")
    } else if text::same(n, "signalingcos") {
        text::copy("sccpcos")
    } else if text::same(n, "audiodscp") {
        text::copy("audiotos")
    } else if text::same(n, "videodscp") {
        text::copy("videotos")
    } else {
        name
    }
}

/// The kind of template that an overlaid section merges as.
pub open spec fn merge_kind(kind: Option<ConfigOverlayKind>) -> Option<TemplateKind> {
    match kind {
        Some(ConfigOverlayKind::Device) => Some(TemplateKind::Device),
        Some(ConfigOverlayKind::Line) => Some(TemplateKind::Line),
        None => None,
    }
}

/// The settings of an overlay, a setting of its type first where it has a kind.
pub open spec fn overlay_values(o: ConfigOverlaySectionView) -> Seq<ConfigOverlayValueView> {
    match merge_kind(o.kind) {
        Some(k) => seq![
            ConfigOverlayValueView { key: "type"@, value: Some(inheritance::kind_name(k)) },
        ] + o.values,
        None => o.values,
    }
}

/// Some overlaid setting is of the option.
pub open spec fn is_replaced(
    kind: Option<TemplateKind>,
    newer: Seq<ConfigOverlayValueView>,
    id: text::Text,
) -> bool {
    exists|i: int| 0 <= i < newer.len() && overlay_identity(kind, (#[trigger] newer[i]).key) == id
}

/// The settings whose option the overlay does not touch, in order.
pub open spec fn untouched(
    values: Seq<section::RawValueView>,
    kind: Option<TemplateKind>,
    newer: Seq<ConfigOverlayValueView>,
) -> Seq<section::RawValueView>
    decreases values.len(),
{
    if values.len() == 0 {
        Seq::empty()
    } else {
        let head = untouched(values.drop_last(), kind, newer);
        if is_replaced(kind, newer, overlay_identity(kind, values.last().key)) {
            head
        } else {
            head.push(values.last())
        }
    }
}

/// The settings that an overlay adds, in order.
pub open spec fn added(newer: Seq<ConfigOverlayValueView>, o: ConfigOverlaySectionView) -> Seq<
    section::RawValueView,
>
    decreases newer.len(),
{
    if newer.len() == 0 {
        Seq::empty()
    } else {
        let head = added(newer.drop_last(), o);
        match newer.last().value {
            Some(value) => head.push(
                section::RawValueView {
                    key: text::lower(text::trimmed(newer.last().key)),
                    value,
                    line: o.line,
                    section: o.source,
                },
            ),
            None => head,
        }
    }
}

/// A section with an overlay laid over it.
pub open spec fn overlaid(s: section::RawSectionView, o: ConfigOverlaySectionView) -> section::RawSectionView {
    let newer = overlay_values(o);
    section::RawSectionView {
        name: s.name,
        line: s.line,
        is_template: s.is_template,
        parents: s.parents,
        values: untouched(s.values, merge_kind(o.kind), newer) + added(newer, o),
    }
}

/// The sections of other names, in order.
pub open spec fn without_section(
    sections: Seq<section::RawSectionView>,
    name: text::Text,
) -> Seq<section::RawSectionView>
    decreases sections.len(),
{
    if sections.len() == 0 {
        Seq::empty()
    } else {
        let head = without_section(sections.drop_last(), name);
        if text::same_fold(sections.last().name, name) {
            head
        } else {
            head.push(sections.last())
        }
    }
}

/// The index of the first section of the name, or the number of sections.
pub open spec fn first_section(sections: Seq<section::RawSectionView>, name: text::Text) -> nat
    decreases sections.len(),
{
    if sections.len() == 0 || text::same_fold(sections[0].name, name) {
        0
    } else {
        1 + first_section(sections.skip(1), name)
    }
}

/// The sections after one overlay.
pub open spec fn after_overlay(
    sections: Seq<section::RawSectionView>,
    o: ConfigOverlaySectionView,
) -> Result<Seq<section::RawSectionView>, error::ErrorView> {
    let i = first_section(sections, o.name) as int;
    if text::trimmed(o.name).len() == 0 {
        Err(
            error::ErrorView::Syntax {
                line: o.line,
                message: o.source + " has an empty section name"@,
            },
        )
    } else if o.delete {
        Ok(without_section(sections, o.name))
    } else if i < sections.len() {
        Ok(sections.update(i, overlaid(sections[i], o)))
    } else {
        Ok(
            sections.push(
                overlaid(
                    section::RawSectionView {
                        name: o.name,
                        line: o.line,
                        is_template: false,
                        parents: Seq::empty(),
                        values: Seq::empty(),
                    },
                    o,
                ),
            ),
        )
    }
}

/// The sections after a list of overlays, in order.
pub open spec fn after_overlays(
    sections: Seq<section::RawSectionView>,
    overlays: Seq<ConfigOverlaySectionView>,
) -> Result<Seq<section::RawSectionView>, error::ErrorView>
    decreases overlays.len(),
{
    if overlays.len() == 0 {
        Ok(sections)
    } else {
        match after_overlays(sections, overlays.drop_last()) {
            Err(e) => Err(e),
            Ok(all) => after_overlay(all, overlays.last()),
        }
    }
}

/// Whether an overlaid setting is of the option.
fn replaced(kind: Option<TemplateKind>, newer: &Vec<ConfigOverlayValue>, id: &str) -> (r: bool)
    ensures
        r == is_replaced(kind, newer.deep_view(), id@),
{
    let ghost all = newer.deep_view();
    let mut i: usize = 0;
    while i < newer.len()
        invariant
            all == newer.deep_view(),
            i <= newer@.len(),
            forall|j: int| 0 <= j < i ==> overlay_identity(kind, (#[trigger] all[j]).key) != id@,
        decreases newer.len() - i,
    {
        let other = overlay_option_identity(kind, newer[i].key.as_str());
        assert(all[i as int] == newer@[i as int].deep_view());
        if text::same(other.as_str(), id) {
            return true;
        }
        i += 1;
    }
    false
}

/// The kind of template that an overlaid section merges as.
fn to_merge_kind(kind: Option<ConfigOverlayKind>) -> (r: Option<TemplateKind>)
    ensures
        r == merge_kind(kind),
{
    match kind {
        Some(ConfigOverlayKind::Device) => Some(TemplateKind::Device),
        Some(ConfigOverlayKind::Line) => Some(TemplateKind::Line),
        None => None,
    }
}

/// The settings of an overlay, a setting of its type first where it has a kind.
fn list_values(o: &ConfigOverlaySection) -> (r: Vec<ConfigOverlayValue>)
    ensures
        r.deep_view() == overlay_values(o.deep_view()),
{
    let mut r: Vec<ConfigOverlayValue> = Vec::new();
    assert(r.deep_view() =~= Seq::empty());
    match to_merge_kind(o.kind) {
        Some(k) => {
            let v = ConfigOverlayValue {
                key: text::copy("type"),
                value: Some(text::copy(k.as_str())),
            };
            r.push(v);
            assert(r.deep_view() =~= seq![v.deep_view()]);
        },
        None => {},
    }
    let ghost head = r.deep_view();
    let ghost tail = o.values.deep_view();
    let mut i: usize = 0;
    assert(head + tail.take(0) =~= head);
    while i < o.values.len()
        invariant
            tail == o.values.deep_view(),
            i <= o.values@.len(),
            r.deep_view() == head + tail.take(i as int),
        decreases o.values.len() - i,
    {
        let ghost before = r.deep_view();
        let v = o.values[i].clone();
        r.push(v);
        i += 1;
        assert(r.deep_view() =~= before.push(v.deep_view()));
        assert(r.deep_view() =~= head + tail.take(i as int));
    }
    assert(tail.take(i as int) =~= tail);
    assert(Seq::<ConfigOverlayValueView>::empty() + tail =~= tail);
    r
}

/// The settings of a section with an overlay laid over it.
fn overlay_settings(values: &Vec<RawValue>, o: &ConfigOverlaySection) -> (r: Vec<RawValue>)
    ensures
        r.deep_view() == untouched(
            values.deep_view(),
            merge_kind(o.deep_view().kind),
            overlay_values(o.deep_view()),
        ) + added(overlay_values(o.deep_view()), o.deep_view()),
{
    let kind = to_merge_kind(o.kind);
    let newer = list_values(o);
    let ghost views = values.deep_view();
    let ghost news = newer.deep_view();
    let mut r: Vec<RawValue> = Vec::new();
    let mut i: usize = 0;
    assert(r.deep_view() =~= Seq::empty());
    assert(views.take(0) =~= Seq::empty());
    while i < values.len()
        invariant
            views == values.deep_view(),
            news == newer.deep_view(),
            i <= values@.len(),
            r.deep_view() == untouched(views.take(i as int), kind, news),
        decreases values.len() - i,
    {
        assert(views.take(i + 1).drop_last() =~= views.take(i as int));
        assert(views.take(i + 1).last() == values@[i as int].deep_view());
        let id = overlay_option_identity(kind, values[i].key.as_str());
        if !replaced(kind, &newer, id.as_str()) {
            let ghost before = r.deep_view();
            let v = values[i].clone();
            r.push(v);
            assert(r.deep_view() =~= before.push(v.deep_view()));
        }
        i += 1;
    }
    assert(views.take(i as int) =~= views);
    let ghost head = r.deep_view();
    let ghost ov = o.deep_view();
    let mut j: usize = 0;
    assert(news.take(0) =~= Seq::empty());
    assert(head + Seq::<section::RawValueView>::empty() =~= head);
    while j < newer.len()
        invariant
            news == newer.deep_view(),
            ov == o.deep_view(),
            j <= newer@.len(),
            r.deep_view() == head + added(news.take(j as int), ov),
        decreases newer.len() - j,
    {
        assert(news.take(j + 1).drop_last() =~= news.take(j as int));
        assert(news.take(j + 1).last() == newer@[j as int].deep_view());
        match &newer[j].value {
            Some(raw) => {
                let ghost before = r.deep_view();
                let v = RawValue {
                    key: text::to_ascii_lowercase(text::trim(newer[j].key.as_str()).as_str()),
                    value: text::copy(raw.as_str()),
                    line: o.line,
                    section: text::copy(o.source.as_str()),
                };
                r.push(v);
                assert(r.deep_view() =~= before.push(v.deep_view()));
                assert(r.deep_view() =~= head + added(news.take(j as int), ov).push(v.deep_view()));
            },
            None => {},
        }
        j += 1;
    }
    assert(news.take(j as int) =~= news);
    r
}

/// The first section of the name.
fn position_of(sections: &Vec<RawSection>, name: &str) -> (r: usize)
    ensures
        r == first_section(sections.deep_view(), name@),
        r <= sections@.len(),
{
    let ghost all = sections.deep_view();
    let mut i: usize = 0;
    assert(all.skip(0) =~= all);
    while i < sections.len()
        invariant
            all == sections.deep_view(),
            i <= sections@.len(),
            first_section(all, name@) == i + first_section(all.skip(i as int), name@),
        decreases sections.len() - i,
    {
        assert(all.skip(i as int)[0] == sections@[i as int].deep_view());
        assert(all.skip(i as int).skip(1) =~= all.skip(i + 1));
        if text::eq_ignore_ascii_case(sections[i].name.as_str(), name) {
            return i;
        }
        i += 1;
    }
    i
}

/// The sections of other names.
fn remove_section(sections: &Vec<RawSection>, name: &str) -> (r: Vec<RawSection>)
    ensures
        r.deep_view() == without_section(sections.deep_view(), name@),
{
    let ghost all = sections.deep_view();
    let mut r: Vec<RawSection> = Vec::new();
    let mut i: usize = 0;
    assert(r.deep_view() =~= Seq::empty());
    assert(all.take(0) =~= Seq::empty());
    while i < sections.len()
        invariant
            all == sections.deep_view(),
            i <= sections@.len(),
            r.deep_view() == without_section(all.take(i as int), name@),
        decreases sections.len() - i,
    {
        assert(all.take(i + 1).drop_last() =~= all.take(i as int));
        assert(all.take(i + 1).last() == sections@[i as int].deep_view());
        if !text::eq_ignore_ascii_case(sections[i].name.as_str(), name) {
            let ghost before = r.deep_view();
            let s = sections[i].clone();
            r.push(s);
            assert(r.deep_view() =~= before.push(s.deep_view()));
        }
        i += 1;
    }
    assert(all.take(i as int) =~= all);
    r
}

/// Lays one overlay over the sections.
fn apply_overlay(sections: Vec<RawSection>, o: &ConfigOverlaySection) -> (r: Result<
    Vec<RawSection>,
    ConfigError,
>)
    ensures
        error::outcome(r) == after_overlay(sections.deep_view(), o.deep_view()),
{
    if text::trim(o.name.as_str()).as_str().is_empty() {
        let mut message = text::copy(o.source.as_str());
        message.append(" has an empty section name");
        return Err(ConfigError::Syntax { line: o.line, message });
    }
    if o.delete {
        return Ok(remove_section(&sections, o.name.as_str()));
    }
    let ghost all = sections.deep_view();
    let i = position_of(&sections, o.name.as_str());
    let mut sections = sections;
    if i < sections.len() {
        assert(all[i as int] == sections@[i as int].deep_view());
        let values = overlay_settings(&sections[i].values, o);
        let s = RawSection {
            name: text::copy(sections[i].name.as_str()),
            line: sections[i].line,
            is_template: sections[i].is_template,
            parents: text::copy_list(&sections[i].parents),
            values,
        };
        let ghost view = s.deep_view();
        sections.set(i, s);
        assert(sections.deep_view() =~= all.update(i as int, view));
    } else {
        let empty: Vec<RawValue> = Vec::new();
        assert(empty.deep_view() =~= Seq::empty());
        let parents: Vec<String> = Vec::new();
        assert(parents.deep_view() =~= Seq::empty());
        let s = RawSection {
            name: text::copy(o.name.as_str()),
            line: o.line,
            is_template: false,
            parents,
            values: overlay_settings(&empty, o),
        };
        let ghost view = s.deep_view();
        sections.push(s);
        assert(sections.deep_view() =~= all.push(view));
    }
    Ok(sections)
}

/// An overlay that is refused spoils the list.
proof fn lemma_overlays_spoiled(
    sections: Seq<section::RawSectionView>,
    overlays: Seq<ConfigOverlaySectionView>,
    i: int,
)
    requires
        0 <= i <= overlays.len(),
        after_overlays(sections, overlays.take(i)) is Err,
    ensures
        after_overlays(sections, overlays) == after_overlays(sections, overlays.take(i)),
    decreases overlays.len(),
{
    if i < overlays.len() {
        assert(overlays.drop_last().take(i) =~= overlays.take(i));
        lemma_overlays_spoiled(sections, overlays.drop_last(), i);
    } else {
        assert(overlays.take(i) =~= overlays);
    }
}

/// Lays overlays over the sections, in order.
pub fn apply_config_overlays(sections: Vec<RawSection>, overlays: &Vec<ConfigOverlaySection>) -> (r:
    Result<Vec<RawSection>, ConfigError>)
    ensures
        error::outcome(r) == after_overlays(sections.deep_view(), overlays.deep_view()),
{
    let ghost start = sections.deep_view();
    let ghost all = overlays.deep_view();
    let mut current = sections;
    let mut i: usize = 0;
    assert(all.take(0) =~= Seq::empty());
    while i < overlays.len()
        invariant
            start == sections.deep_view(),
            all == overlays.deep_view(),
            i <= overlays@.len(),
            after_overlays(start, all.take(i as int)) == Ok::<
                Seq<section::RawSectionView>,
                error::ErrorView,
            >(current.deep_view()),
        decreases overlays.len() - i,
    {
        assert(all.take(i + 1).drop_last() =~= all.take(i as int));
        assert(all.take(i + 1).last() == overlays@[i as int].deep_view());
        match apply_overlay(current, &overlays[i]) {
            Ok(next) => {
                current = next;
            },
            Err(e) => {
                proof {
                    lemma_overlays_spoiled(start, all, i + 1);
                }
                return Err(e);
            },
        }
        i += 1;
    }
    assert(all.take(i as int) =~= all);
    Ok(current)
}

// ---------------------------------------------------------------------------
// Laws

proof fn lemma_untouched(
    values: Seq<section::RawValueView>,
    kind: Option<TemplateKind>,
    newer: Seq<ConfigOverlayValueView>,
)
    ensures
        forall|i: int|
            0 <= i < untouched(values, kind, newer).len() ==> !is_replaced(
                kind,
                newer,
                overlay_identity(kind, (#[trigger] untouched(values, kind, newer)[i]).key),
            ) && values.contains(untouched(values, kind, newer)[i]),
        forall|v: section::RawValueView|
            values.contains(v) && !is_replaced(kind, newer, overlay_identity(kind, v.key))
                ==> #[trigger] untouched(values, kind, newer).contains(v),
    decreases values.len(),
{
    if values.len() > 0 {
        let head = values.drop_last();
        let last = values.last();
        let k = untouched(head, kind, newer);
        let all = untouched(values, kind, newer);
        lemma_untouched(head, kind, newer);
        assert forall|i: int| 0 <= i < all.len() implies !is_replaced(
            kind,
            newer,
            overlay_identity(kind, (#[trigger] all[i]).key),
        ) && values.contains(all[i]) by {
            if i < k.len() {
                assert(all[i] == k[i]);
                let j = choose|j: int| 0 <= j < head.len() && head[j] == k[i];
                assert(values[j] == k[i]);
            } else {
                assert(values[values.len() - 1] == last);
            }
        }
        assert forall|v: section::RawValueView|
            values.contains(v) && !is_replaced(
                kind,
                newer,
                overlay_identity(kind, v.key),
            ) implies #[trigger] all.contains(v) by {
            let j = choose|j: int| 0 <= j < values.len() && values[j] == v;
            if j < head.len() {
                assert(head[j] == v);
                assert(k.contains(v));
                let m = choose|m: int| 0 <= m < k.len() && k[m] == v;
                assert(all[m] == v);
            } else {
                assert(all[k.len() as int] == v);
            }
        }
    }
}

/// An overlaid section keeps exactly the settings whose option the overlay does
/// not name, in front of those that the overlay gives. An option that the
/// overlay names without a value is left without a setting of the file.
pub proof fn law_overlays_replace_their_options(
    s: section::RawSectionView,
    o: ConfigOverlaySectionView,
)
    ensures
        ({
            let kind = merge_kind(o.kind);
            let newer = overlay_values(o);
            let all = overlaid(s, o).values;
            let left = all.len() - added(newer, o).len();
            &&& 0 <= left
            &&& all.skip(left) == added(newer, o)
            &&& forall|i: int|
                0 <= i < left ==> s.values.contains(#[trigger] all[i]) && !is_replaced(
                    kind,
                    newer,
                    overlay_identity(kind, all[i].key),
                )
            &&& forall|v: section::RawValueView|
                s.values.contains(v) && !is_replaced(kind, newer, overlay_identity(kind, v.key))
                    ==> #[trigger] all.contains(v)
        }),
{
    let kind = merge_kind(o.kind);
    let newer = overlay_values(o);
    let k = untouched(s.values, kind, newer);
    let all = overlaid(s, o).values;
    lemma_untouched(s.values, kind, newer);
    assert(all.skip(k.len() as int) =~= added(newer, o));
    assert forall|i: int| 0 <= i < k.len() implies s.values.contains(#[trigger] all[i])
        && !is_replaced(kind, newer, overlay_identity(kind, all[i].key)) by {
        assert(all[i] == k[i]);
    }
    assert forall|v: section::RawValueView|
        s.values.contains(v) && !is_replaced(
            kind,
            newer,
            overlay_identity(kind, v.key),
        ) implies #[trigger] all.contains(v) by {
        assert(k.contains(v));
        let m = choose|m: int| 0 <= m < k.len() && k[m] == v;
        assert(all[m] == v);
    }
}

proof fn lemma_without_section(sections: Seq<section::RawSectionView>, name: text::Text)
    ensures
        !section::section_named(without_section(sections, name), name),
        forall|s: section::RawSectionView|
            sections.contains(s) && !text::same_fold(s.name, name)
                ==> #[trigger] without_section(sections, name).contains(s),
        forall|i: int|
            0 <= i < without_section(sections, name).len() ==> sections.contains(
                #[trigger] without_section(sections, name)[i],
            ),
    decreases sections.len(),
{
    if sections.len() > 0 {
        let head = sections.drop_last();
        let last = sections.last();
        let k = without_section(head, name);
        let all = without_section(sections, name);
        lemma_without_section(head, name);
        assert forall|i: int| 0 <= i < all.len() implies !text::same_fold(
            (#[trigger] all[i]).name,
            name,
        ) && sections.contains(all[i]) by {
            if i < k.len() {
                assert(all[i] == k[i]);
                assert(head.contains(k[i]));
                let j = choose|j: int| 0 <= j < head.len() && head[j] == k[i];
                assert(sections[j] == k[i]);
            } else {
                assert(sections[sections.len() - 1] == last);
            }
        }
        assert forall|s: section::RawSectionView|
            sections.contains(s) && !text::same_fold(
                s.name,
                name,
            ) implies #[trigger] all.contains(s) by {
            let j = choose|j: int| 0 <= j < sections.len() && sections[j] == s;
            if j < head.len() {
                assert(head[j] == s);
                assert(k.contains(s));
                let m = choose|m: int| 0 <= m < k.len() && k[m] == s;
                assert(all[m] == s);
            } else {
                assert(all[k.len() as int] == s);
            }
        }
    }
}

proof fn lemma_first_section(sections: Seq<section::RawSectionView>, name: text::Text)
    ensures
        first_section(sections, name) <= sections.len(),
        first_section(sections, name) < sections.len() ==> text::same_fold(
            sections[first_section(sections, name) as int].name,
            name,
        ),
    decreases sections.len(),
{
    if sections.len() > 0 && !text::same_fold(sections[0].name, name) {
        lemma_first_section(sections.skip(1), name);
    }
}

/// A deletion leaves no section of its name and all others.
pub proof fn law_deletions_remove_the_named_section(
    sections: Seq<section::RawSectionView>,
    o: ConfigOverlaySectionView,
)
    requires
        o.delete,
        text::trimmed(o.name).len() > 0,
    ensures
        after_overlay(sections, o) is Ok,
        !section::section_named(after_overlay(sections, o)->Ok_0, o.name),
        forall|s: section::RawSectionView|
            sections.contains(s) && !text::same_fold(s.name, o.name)
                ==> #[trigger] after_overlay(sections, o)->Ok_0.contains(s),
        forall|i: int|
            0 <= i < after_overlay(sections, o)->Ok_0.len() ==> sections.contains(
                #[trigger] after_overlay(sections, o)->Ok_0[i],
            ),
{
    lemma_without_section(sections, o.name);
}

/// An overlay that deletes nothing changes only the section of its name, in its
/// place, or adds that section at the end.
pub proof fn law_other_sections_are_untouched(
    sections: Seq<section::RawSectionView>,
    o: ConfigOverlaySectionView,
)
    requires
        !o.delete,
        text::trimmed(o.name).len() > 0,
    ensures
        after_overlay(sections, o) is Ok,
        ({
            let all = after_overlay(sections, o)->Ok_0;
            &&& sections.len() <= all.len() <= sections.len() + 1
            &&& all.len() > sections.len() ==> all.last().name == o.name
            &&& forall|i: int|
                0 <= i < sections.len() && !text::same_fold((#[trigger] sections[i]).name, o.name)
                    ==> all[i] == sections[i]
        }),
{
    lemma_first_section(sections, o.name);
}

} // verus!
