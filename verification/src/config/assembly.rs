//! From resolved sections to lines, devices and the bindings between them.

use vstd::prelude::*;

use crate::config::button;
use crate::config::device;
use crate::config::error;
use crate::config::error::ConfigError;
use crate::config::group;
use crate::config::line;
use crate::config::policy;
use crate::config::policy::DeviceConfig;
use crate::config::policy::GeneralConfig;
use crate::config::policy::LineBinding;
use crate::config::policy::LineConfig;
use crate::config::policy::LineFeatureConfig;
use crate::config::policy::RegistrationTarget;
use crate::config::policy::SoftKeyProfile;
use crate::config::registration;
use crate::config::rules;
use crate::config::rules::LayerRules;
use crate::config::section;
use crate::config::section::RawSection;
use crate::config::section::RawValue;
use crate::config::softkey;
use crate::number;
use crate::station;
use crate::station::ButtonDefinition;
use crate::station::DeviceId;
use crate::text;

verus! {

// ---------------------------------------------------------------------------
// Where a refusal comes from

/// Whether a list of names holds the reduced name of a key.
pub open spec fn names_key(parts: Seq<text::Text>, key: text::Text) -> bool {
    let name = text::name_of(key);
    ||| parts.contains(name)
    ||| parts.contains("codecs"@) && (name == "allow"@ || name == "disallow"@)
}

/// The reduced names between the dots of a key.
pub open spec fn parts_of(key: text::Text) -> Seq<text::Text> {
    text::pieces(key, '.').map_values(|part: text::Text| text::name_of(part))
}

/// The last setting that a refused key speaks of.
pub open spec fn source_of(values: Seq<section::RawValueView>, parts: Seq<text::Text>) -> Option<
    section::RawValueView,
>
    decreases values.len(),
{
    if values.len() == 0 {
        None
    } else if names_key(parts, values.last().key) {
        Some(values.last())
    } else {
        source_of(values.drop_last(), parts)
    }
}

/// A refusal with its place: that of the setting it speaks of, or the section.
pub open spec fn located(e: error::ErrorView, s: section::RawSectionView) -> error::ErrorView {
    match e {
        error::ErrorView::InvalidValue { key, value } => if text::starts_with(key, "line "@) {
            e
        } else {
            error::ErrorView::InvalidValue {
                key: match source_of(s.values, parts_of(key)) {
                    Some(v) => section::place(v),
                    None => section::section_place(s) + "."@ + key,
                },
                value: if text::holds(value, "expected"@) {
                    value
                } else {
                    value + "; expected a valid value for this setting"@
                },
            }
        },
        other => other,
    }
}

/// The reduced names between the dots of a key.
fn key_parts(key: &str) -> (r: Vec<String>)
    ensures
        r.deep_view() == parts_of(key@),
{
    let parts = text::split(key, '.');
    let ghost all = parts.deep_view();
    let mut r: Vec<String> = Vec::new();
    let mut i: usize = 0;
    assert(r.deep_view() =~= parts_of(key@).take(0));
    while i < parts.len()
        invariant
            all == parts.deep_view(),
            all == text::pieces(key@, '.'),
            i <= parts@.len(),
            r.deep_view() == parts_of(key@).take(i as int),
        decreases parts.len() - i,
    {
        assert(all[i as int] == parts@[i as int]@);
        let ghost before = r.deep_view();
        let name = text::normalize_name(parts[i].as_str());
        r.push(name);
        assert(r.deep_view() =~= before.push(name@));
        i += 1;
        assert(r.deep_view() =~= parts_of(key@).take(i as int));
    }
    assert(parts_of(key@).take(i as int) =~= parts_of(key@));
    r
}

/// The place of the last setting that a refused key speaks of.
fn find_source(values: &Vec<RawValue>, parts: &Vec<String>) -> (r: Option<String>)
    ensures
        match source_of(values.deep_view(), parts.deep_view()) {
            Some(v) => r is Some && r->0@ == section::place(v),
            None => r is None,
        },
{
    let ghost all = values.deep_view();
    let mut i: usize = values.len();
    assert(all.take(i as int) =~= all);
    while i > 0
        invariant
            all == values.deep_view(),
            i <= values@.len(),
            source_of(all, parts.deep_view()) == source_of(
                all.take(i as int),
                parts.deep_view(),
            ),
        decreases i,
    {
        i -= 1;
        assert(all.take(i + 1).drop_last() =~= all.take(i as int));
        assert(all.take(i + 1).last() == values@[i as int].deep_view());
        let name = text::normalize_name(values[i].key.as_str());
        if text::is_in(name.as_str(), parts) || (text::is_in("codecs", parts) && (text::same(
            name.as_str(),
            "allow",
        ) || text::same(name.as_str(), "disallow"))) {
            return Some(values[i].diagnostic_key());
        }
    }
    None
}

/// Gives a refusal its place.
pub fn locate_section_error(e: ConfigError, s: &RawSection) -> (r: ConfigError)
    ensures
        r@ == located(e@, s.deep_view()),
{
    match e {
        ConfigError::InvalidValue { key, value } => {
            if text::has_prefix(key.as_str(), "line ") {
                return ConfigError::InvalidValue { key, value };
            }
            let parts = key_parts(key.as_str());
            let place = match find_source(&s.values, &parts) {
                Some(place) => place,
                None => {
                    let mut place = s.section_location();
                    place.append(".");
                    place.append(key.as_str());
                    place
                },
            };
            let mut value = value;
            if !text::contains(value.as_str(), "expected") {
                value.append("; expected a valid value for this setting");
            }
            ConfigError::InvalidValue { key: place, value }
        },
        other => other,
    }
}

// ---------------------------------------------------------------------------
// Kinds of sections

/// Whether a section is the general one.
pub open spec fn is_general(s: section::RawSectionView) -> bool {
    text::same_fold(s.name, "general"@)
}

/// Whether a section is of a device.
pub open spec fn is_device(s: section::RawSectionView) -> bool {
    !is_general(s) && match section::value_of(s, "type"@) {
        Some(kind) => text::same_fold(kind, "device"@),
        None => false,
    }
}

/// Whether a section sets codecs.
pub open spec fn sets_codecs(s: section::RawSectionView) -> bool {
    exists|i: int|
        0 <= i < s.values.len() && is_codec_key((#[trigger] s.values[i]).key)
}

/// Whether a key sets codecs.
pub open spec fn is_codec_key(key: text::Text) -> bool {
    text::name_of(key) == "allow"@ || text::name_of(key) == "disallow"@
}

/// Whether a section sets audio encryption.
pub open spec fn sets_encryption(s: section::RawSectionView) -> bool {
    exists|i: int|
        0 <= i < s.values.len() && text::name_of((#[trigger] s.values[i]).key)
            == "audioencryption"@
}

/// Whether a section is the general one.
pub fn general_section(s: &RawSection) -> (r: bool)
    ensures
        r == is_general(s.deep_view()),
{
    text::eq_ignore_ascii_case(s.name.as_str(), "general")
}

/// Whether a section is of a device.
pub fn device_section(s: &RawSection) -> (r: bool)
    ensures
        r == is_device(s.deep_view()),
{
    !general_section(s) && match s.value("type") {
        Some(kind) => text::eq_ignore_ascii_case(kind.as_str(), "device"),
        None => false,
    }
}

/// Whether a section sets codecs.
fn section_has_codec_settings(s: &RawSection) -> (r: bool)
    ensures
        r == sets_codecs(s.deep_view()),
{
    let ghost all = s.deep_view().values;
    let mut i: usize = 0;
    while i < s.values.len()
        invariant
            all == s.deep_view().values,
            i <= s.values@.len(),
            forall|j: int| 0 <= j < i ==> !is_codec_key((#[trigger] all[j]).key),
        decreases s.values.len() - i,
    {
        assert(all[i as int] == s.values@[i as int].deep_view());
        let name = text::normalize_name(s.values[i].key.as_str());
        if text::same(name.as_str(), "allow") || text::same(name.as_str(), "disallow") {
            assert(is_codec_key(all[i as int].key));
            return true;
        }
        i += 1;
    }
    false
}

/// Whether a section sets audio encryption.
fn section_has_audio_encryption_setting(s: &RawSection) -> (r: bool)
    ensures
        r == sets_encryption(s.deep_view()),
{
    let ghost all = s.deep_view().values;
    let mut i: usize = 0;
    while i < s.values.len()
        invariant
            all == s.deep_view().values,
            i <= s.values@.len(),
            forall|j: int|
                0 <= j < i ==> text::name_of((#[trigger] all[j]).key) != "audioencryption"@,
        decreases s.values.len() - i,
    {
        assert(all[i as int] == s.values@[i as int].deep_view());
        let name = text::normalize_name(s.values[i].key.as_str());
        if text::same(name.as_str(), "audioencryption") {
            assert(text::name_of(all[i as int].key) == "audioencryption"@);
            return true;
        }
        i += 1;
    }
    false
}

// ---------------------------------------------------------------------------
// Registration targets

/// A registration target and the line that has it.
pub struct TargetOwner {
    pub target: RegistrationTarget,
    pub line: String,
}

pub struct TargetOwnerView {
    pub target: policy::RegistrationTargetView,
    pub line: text::Text,
}

impl DeepView for TargetOwner {
    type V = TargetOwnerView;

    open spec fn deep_view(&self) -> TargetOwnerView {
        TargetOwnerView { target: self.target.deep_view(), line: self.line@ }
    }
}

/// The index of the owner of a target.
pub open spec fn owner_index(
    owners: Seq<TargetOwnerView>,
    target: policy::RegistrationTargetView,
) -> Option<nat>
    decreases owners.len(),
{
    if owners.len() == 0 {
        None
    } else if owners.last().target == target {
        Some((owners.len() - 1) as nat)
    } else {
        owner_index(owners.drop_last(), target)
    }
}

/// The owners after a line claims the targets from one on.
pub open spec fn claimed_from(
    owners: Seq<TargetOwnerView>,
    targets: Seq<policy::RegistrationTargetView>,
    i: int,
    line: text::Text,
    key: text::Text,
) -> Result<Seq<TargetOwnerView>, error::ErrorView>
    decreases targets.len() - i,
{
    if i >= targets.len() {
        Ok(owners)
    } else {
        match owner_index(owners, targets[i]) {
            Some(j) => Err(
                error::invalid(
                    key,
                    targets[i].extension + "@"@ + targets[i].context,
                    "a registration target unique across lines; already used by ["@
                        + owners[j as int].line + "]"@,
                    false,
                ),
            ),
            None => claimed_from(
                owners.push(TargetOwnerView { target: targets[i], line }),
                targets,
                i + 1,
                line,
                key,
            ),
        }
    }
}

/// Finds the owner of a target.
fn find_owner(owners: &Vec<TargetOwner>, target: &RegistrationTarget) -> (r: Option<usize>)
    ensures
        match r {
            Some(i) => owner_index(owners.deep_view(), target.deep_view()) == Some(i as nat) && i
                < owners@.len(),
            None => owner_index(owners.deep_view(), target.deep_view()) is None,
        },
{
    let ghost all = owners.deep_view();
    let mut i: usize = owners.len();
    assert(all.take(i as int) =~= all);
    while i > 0
        invariant
            all == owners.deep_view(),
            i <= owners@.len(),
            owner_index(all, target.deep_view()) == owner_index(
                all.take(i as int),
                target.deep_view(),
            ),
        decreases i,
    {
        i -= 1;
        assert(all.take(i + 1).drop_last() =~= all.take(i as int));
        assert(all.take(i + 1).last() == owners@[i as int].deep_view());
        if text::same(owners[i].target.extension.as_str(), target.extension.as_str())
            && text::same(owners[i].target.context.as_str(), target.context.as_str()) {
            return Some(i);
        }
    }
    None
}

/// Claims targets for a line.
fn claim_targets(
    given: Vec<TargetOwner>,
    targets: &Vec<RegistrationTarget>,
    line: &str,
    key: &str,
) -> (r: Result<Vec<TargetOwner>, ConfigError>)
    ensures
        error::outcome(r) == claimed_from(
            given.deep_view(),
            targets.deep_view(),
            0,
            line@,
            key@,
        ),
{
    let mut owners = given;
    let ghost all = targets.deep_view();
    let mut i: usize = 0;
    while i < targets.len()
        invariant
            all == targets.deep_view(),
            i <= targets@.len(),
            claimed_from(given.deep_view(), all, 0, line@, key@) == claimed_from(
                owners.deep_view(),
                all,
                i as int,
                line@,
                key@,
            ),
        decreases targets.len() - i,
    {
        let target = &targets[i];
        assert(all[i as int] == target.deep_view());
        match find_owner(&owners, target) {
            Some(j) => {
                assert(owners.deep_view()[j as int] == owners@[j as int].deep_view());
                let shown = error::cat3(target.extension.as_str(), "@", target.context.as_str());
                let expected = error::cat3(
                    "a registration target unique across lines; already used by [",
                    owners[j].line.as_str(),
                    "]",
                );
                return Err(
                    error::invalid_option(key, shown.as_str(), expected.as_str(), false),
                );
            },
            None => {
                let ghost before = owners.deep_view();
                let x = TargetOwner {
                    target: RegistrationTarget {
                        extension: text::copy(target.extension.as_str()),
                        context: text::copy(target.context.as_str()),
                    },
                    line: text::copy(line),
                };
                owners.push(x);
                assert(owners.deep_view() =~= before.push(x.deep_view()));
            },
        }
        i += 1;
    }
    Ok(owners)
}

// ---------------------------------------------------------------------------
// Lines and profiles

/// The lines and profiles of the sections so far.
pub struct Lines {
    pub lines: Vec<LineConfig>,
    pub features: Vec<LineFeatureConfig>,
    pub owners: Vec<TargetOwner>,
    pub profiles: Vec<SoftKeyProfile>,
    /// The lines that set codecs.
    pub codecs: Vec<String>,
    /// The lines that set audio encryption.
    pub encryption: Vec<String>,
}

pub struct LinesView {
    pub lines: Seq<policy::LineConfigView>,
    pub features: Seq<policy::LineFeatureConfigView>,
    pub owners: Seq<TargetOwnerView>,
    pub profiles: Seq<policy::SoftKeyProfileView>,
    pub codecs: Seq<text::Text>,
    pub encryption: Seq<text::Text>,
}

impl DeepView for Lines {
    type V = LinesView;

    open spec fn deep_view(&self) -> LinesView {
        LinesView {
            lines: self.lines.deep_view(),
            features: self.features.deep_view(),
            owners: self.owners.deep_view(),
            profiles: self.profiles.deep_view(),
            codecs: self.codecs.deep_view(),
            encryption: self.encryption.deep_view(),
        }
    }
}

/// A list of names, with one more where a condition holds.
pub open spec fn marked(list: Seq<text::Text>, name: text::Text, condition: bool) -> Seq<text::Text> {
    if condition {
        list.push(name)
    } else {
        list
    }
}

/// The profiles with one more, which takes the place of one of its name.
pub open spec fn with_profile(
    profiles: Seq<policy::SoftKeyProfileView>,
    p: policy::SoftKeyProfileView,
) -> Seq<policy::SoftKeyProfileView> {
    match device::profile_index(profiles, p.name) {
        Some(i) => profiles.update(i as int, p),
        None => profiles.push(p),
    }
}

/// The lines after one more line section.
pub open spec fn with_line(
    all: LinesView,
    s: section::RawSectionView,
    g: policy::GeneralConfigView,
    w: rules::LayerRulesView,
) -> Result<LinesView, error::ErrorView> {
    match line::line_setting(s, g, w) {
        Err(e) => Err(located(e, s)),
        Ok(p) => if button::line_index(all.lines, p.line.number) is Some {
            Err(error::ErrorView::DuplicateSection(s.name))
        } else {
            match claimed_from(
                all.owners,
                registration::targets_of(
                    g.registration.contexts,
                    p.features.registration.extensions,
                ),
                0,
                p.line.number,
                section::key_place(s, "regexten"@),
            ) {
                Err(e) => Err(e),
                Ok(owners) => Ok(
                    LinesView {
                        lines: all.lines.push(p.line),
                        features: all.features.push(p.features),
                        owners,
                        profiles: all.profiles,
                        codecs: marked(all.codecs, p.line.number, sets_codecs(s)),
                        encryption: marked(all.encryption, p.line.number, sets_encryption(s)),
                    },
                ),
            }
        },
    }
}

/// The lines and profiles after one more section.
pub open spec fn with_section(
    all: LinesView,
    s: section::RawSectionView,
    g: policy::GeneralConfigView,
    w: rules::LayerRulesView,
) -> Result<LinesView, error::ErrorView> {
    if is_general(s) {
        Ok(all)
    } else {
        match section::value_of(s, "type"@) {
            None => Err(error::ErrorView::MissingSectionType(s.name)),
            Some(kind) => if text::lower(kind) == "device"@ {
                Ok(all)
            } else if text::lower(kind) == "line"@ {
                with_line(all, s, g, w)
            } else if text::lower(kind) == "softkey_profile"@ {
                match softkey::profile_setting(s) {
                    Err(e) => Err(located(e, s)),
                    Ok(p) => Ok(LinesView { profiles: with_profile(all.profiles, p), ..all }),
                }
            } else {
                Err(
                    error::ErrorView::UnknownSectionType {
                        section: s.name,
                        kind: text::lower(kind),
                    },
                )
            },
        }
    }
}

/// The lines and profiles after the sections from one on.
pub open spec fn lines_from(
    sections: Seq<section::RawSectionView>,
    i: int,
    all: LinesView,
    g: policy::GeneralConfigView,
    w: rules::LayerRulesView,
) -> Result<LinesView, error::ErrorView>
    decreases sections.len() - i,
{
    if i >= sections.len() {
        Ok(all)
    } else {
        match with_section(all, sections[i], g, w) {
            Err(e) => Err(e),
            Ok(next) => lines_from(sections, i + 1, next, g, w),
        }
    }
}

/// No line, and the built-in profile.
pub open spec fn no_lines() -> LinesView {
    LinesView {
        lines: Seq::empty(),
        features: Seq::empty(),
        owners: Seq::empty(),
        profiles: seq![softkey::built_in_profile()],
        codecs: Seq::empty(),
        encryption: Seq::empty(),
    }
}

/// Adds a name where a condition holds.
fn mark(list: &mut Vec<String>, name: &str, condition: bool)
    ensures
        final(list).deep_view() == marked(old(list).deep_view(), name@, condition),
{
    if condition {
        let ghost before = list.deep_view();
        let s = text::copy(name);
        list.push(s);
        assert(list.deep_view() =~= before.push(s@));
    }
}

/// Adds a profile, in the place of one of its name.
fn put_profile(profiles: &mut Vec<SoftKeyProfile>, p: SoftKeyProfile)
    ensures
        final(profiles).deep_view() == with_profile(old(profiles).deep_view(), p.deep_view()),
{
    let ghost before = profiles.deep_view();
    match device::find_profile(profiles, p.name.as_str()) {
        Some(i) => {
            profiles.set(i, p);
            assert(profiles.deep_view() =~= before.update(i as int, p.deep_view()));
        },
        None => {
            profiles.push(p);
            assert(profiles.deep_view() =~= before.push(p.deep_view()));
        },
    }
}

/// Adds a line section.
fn add_line(all: Lines, s: &RawSection, g: &GeneralConfig, with: &LayerRules) -> (r: Result<
    Lines,
    ConfigError,
>)
    ensures
        error::outcome(r) == with_line(
            all.deep_view(),
            s.deep_view(),
            g.deep_view(),
            with.deep_view(),
        ),
{
    let p = match line::parse_line(s, g, with) {
        Ok(p) => p,
        Err(e) => return Err(locate_section_error(e, s)),
    };
    let number = text::copy(p.line.number.as_str());
    match button::find_line(&all.lines, number.as_str()) {
        Some(_) => return Err(ConfigError::DuplicateSection(text::copy(s.name.as_str()))),
        None => {},
    }
    let targets = registration::resolve_registration_targets(
        &g.registration.contexts,
        &p.features.registration.extensions,
    );
    let owners = match claim_targets(
        all.owners,
        &targets,
        number.as_str(),
        s.diagnostic_key("regexten").as_str(),
    ) {
        Ok(x) => x,
        Err(e) => return Err(e),
    };
    let mut lines = all.lines;
    let mut features = all.features;
    let mut codecs = all.codecs;
    let mut encryption = all.encryption;
    mark(&mut codecs, number.as_str(), section_has_codec_settings(s));
    mark(&mut encryption, number.as_str(), section_has_audio_encryption_setting(s));
    lines.push(p.line);
    features.push(p.features);
    assert(lines.deep_view() =~= all.lines.deep_view().push(p.line.deep_view()));
    assert(features.deep_view() =~= all.features.deep_view().push(p.features.deep_view()));
    Ok(Lines { lines, features, owners, profiles: all.profiles, codecs, encryption })
}

/// Adds a section.
fn add_section(all: Lines, s: &RawSection, g: &GeneralConfig, with: &LayerRules) -> (r: Result<
    Lines,
    ConfigError,
>)
    ensures
        error::outcome(r) == with_section(
            all.deep_view(),
            s.deep_view(),
            g.deep_view(),
            with.deep_view(),
        ),
{
    if general_section(s) {
        return Ok(all);
    }
    let kind = match s.value("type") {
        Some(kind) => text::to_ascii_lowercase(kind.as_str()),
        None => return Err(ConfigError::MissingSectionType(text::copy(s.name.as_str()))),
    };
    if text::same(kind.as_str(), "device") {
        Ok(all)
    } else if text::same(kind.as_str(), "line") {
        add_line(all, s, g, with)
    } else if text::same(kind.as_str(), "softkey_profile") {
        match softkey::parse_soft_key_profile(s) {
            Err(e) => Err(locate_section_error(e, s)),
            Ok(p) => {
                let mut profiles = all.profiles;
                put_profile(&mut profiles, p);
                Ok(
                    Lines {
                        lines: all.lines,
                        features: all.features,
                        owners: all.owners,
                        profiles,
                        codecs: all.codecs,
                        encryption: all.encryption,
                    },
                )
            },
        }
    } else {
        Err(ConfigError::UnknownSectionType { section: text::copy(s.name.as_str()), kind })
    }
}

/// Reads the lines and profiles of sections.
pub fn collect_lines(sections: &Vec<RawSection>, g: &GeneralConfig, with: &LayerRules) -> (r: Result<
    Lines,
    ConfigError,
>)
    ensures
        error::outcome(r) == lines_from(
            sections.deep_view(),
            0,
            no_lines(),
            g.deep_view(),
            with.deep_view(),
        ),
{
    let ghost view = sections.deep_view();
    let mut all = Lines {
        lines: Vec::new(),
        features: Vec::new(),
        owners: Vec::new(),
        profiles: vec![SoftKeyProfile::built_in()],
        codecs: Vec::new(),
        encryption: Vec::new(),
    };
    proof {
        let v = all.deep_view();
        assert(v.lines =~= no_lines().lines);
        assert(v.features =~= no_lines().features);
        assert(v.owners =~= no_lines().owners);
        assert(v.profiles =~= no_lines().profiles);
        assert(v.codecs =~= no_lines().codecs);
        assert(v.encryption =~= no_lines().encryption);
    }
    let mut i: usize = 0;
    while i < sections.len()
        invariant
            view == sections.deep_view(),
            i <= sections@.len(),
            lines_from(view, 0, no_lines(), g.deep_view(), with.deep_view()) == lines_from(
                view,
                i as int,
                all.deep_view(),
                g.deep_view(),
                with.deep_view(),
            ),
        decreases sections.len() - i,
    {
        assert(view[i as int] == sections@[i as int].deep_view());
        all = match add_section(all, &sections[i], g, with) {
            Ok(x) => x,
            Err(e) => return Err(e),
        };
        i += 1;
    }
    Ok(all)
}

// ---------------------------------------------------------------------------
// Devices

/// The devices of the sections so far.
pub struct Devices {
    pub devices: Vec<DeviceConfig>,
    /// The devices that set codecs.
    pub codecs: Vec<String>,
    /// The devices that set audio encryption.
    pub encryption: Vec<String>,
}

pub struct DevicesView {
    pub devices: Seq<policy::DeviceConfigView>,
    pub codecs: Seq<text::Text>,
    pub encryption: Seq<text::Text>,
}

impl DeepView for Devices {
    type V = DevicesView;

    open spec fn deep_view(&self) -> DevicesView {
        DevicesView {
            devices: self.devices.deep_view(),
            codecs: self.codecs.deep_view(),
            encryption: self.encryption.deep_view(),
        }
    }
}

/// The index of the device of a name.
pub open spec fn device_index(devices: Seq<policy::DeviceConfigView>, name: text::Text) -> Option<nat>
    decreases devices.len(),
{
    if devices.len() == 0 {
        None
    } else if devices.last().id.name == name {
        Some((devices.len() - 1) as nat)
    } else {
        device_index(devices.drop_last(), name)
    }
}

/// Finds the device of a name.
pub fn find_device(devices: &Vec<DeviceConfig>, name: &str) -> (r: Option<usize>)
    ensures
        match r {
            Some(i) => device_index(devices.deep_view(), name@) == Some(i as nat) && i
                < devices@.len(),
            None => device_index(devices.deep_view(), name@) is None,
        },
{
    let ghost all = devices.deep_view();
    let mut i: usize = devices.len();
    assert(all.take(i as int) =~= all);
    while i > 0
        invariant
            all == devices.deep_view(),
            i <= devices@.len(),
            device_index(all, name@) == device_index(all.take(i as int), name@),
        decreases i,
    {
        i -= 1;
        assert(all.take(i + 1).drop_last() =~= all.take(i as int));
        assert(all.take(i + 1).last() == devices@[i as int].deep_view());
        if text::same(devices[i].id.name.as_str(), name) {
            return Some(i);
        }
    }
    None
}

/// The devices after the sections from one on.
pub open spec fn devices_from(
    sections: Seq<section::RawSectionView>,
    i: int,
    all: DevicesView,
    lines: LinesView,
    g: policy::GeneralConfigView,
    w: rules::LayerRulesView,
) -> Result<DevicesView, error::ErrorView>
    decreases sections.len() - i,
{
    if i >= sections.len() {
        Ok(all)
    } else {
        let s = sections[i];
        if !is_device(s) {
            devices_from(sections, i + 1, all, lines, g, w)
        } else {
            match device::device_setting(s, lines.lines, lines.profiles, g, w) {
                Err(e) => Err(located(e, s)),
                Ok(d) => if device_index(all.devices, d.id.name) is Some {
                    Err(error::ErrorView::DuplicateSection(s.name))
                } else {
                    devices_from(
                        sections,
                        i + 1,
                        DevicesView {
                            devices: all.devices.push(d),
                            codecs: marked(all.codecs, d.id.name, sets_codecs(s)),
                            encryption: marked(all.encryption, d.id.name, sets_encryption(s)),
                        },
                        lines,
                        g,
                        w,
                    )
                },
            }
        }
    }
}

/// No device.
pub open spec fn no_devices() -> DevicesView {
    DevicesView { devices: Seq::empty(), codecs: Seq::empty(), encryption: Seq::empty() }
}

/// Reads the devices of sections.
pub fn collect_devices(
    sections: &Vec<RawSection>,
    lines: &Lines,
    g: &GeneralConfig,
    with: &LayerRules,
) -> (r: Result<Devices, ConfigError>)
    ensures
        error::outcome(r) == devices_from(
            sections.deep_view(),
            0,
            no_devices(),
            lines.deep_view(),
            g.deep_view(),
            with.deep_view(),
        ),
{
    let ghost view = sections.deep_view();
    let mut devices: Vec<DeviceConfig> = Vec::new();
    let mut codecs: Vec<String> = Vec::new();
    let mut encryption: Vec<String> = Vec::new();
    assert(devices.deep_view() =~= Seq::empty());
    assert(codecs.deep_view() =~= Seq::empty());
    assert(encryption.deep_view() =~= Seq::empty());
    let mut i: usize = 0;
    while i < sections.len()
        invariant
            view == sections.deep_view(),
            i <= sections@.len(),
            devices_from(
                view,
                0,
                no_devices(),
                lines.deep_view(),
                g.deep_view(),
                with.deep_view(),
            ) == devices_from(
                view,
                i as int,
                DevicesView {
                    devices: devices.deep_view(),
                    codecs: codecs.deep_view(),
                    encryption: encryption.deep_view(),
                },
                lines.deep_view(),
                g.deep_view(),
                with.deep_view(),
            ),
        decreases sections.len() - i,
    {
        let s = &sections[i];
        assert(view[i as int] == s.deep_view());
        if device_section(s) {
            let d = match device::parse_device(s, &lines.lines, &lines.profiles, g, with) {
                Ok(d) => d,
                Err(e) => return Err(locate_section_error(e, s)),
            };
            let name = text::copy(d.id.name.as_str());
            match find_device(&devices, name.as_str()) {
                Some(_) => return Err(ConfigError::DuplicateSection(text::copy(s.name.as_str()))),
                None => {},
            }
            mark(&mut codecs, name.as_str(), section_has_codec_settings(s));
            mark(&mut encryption, name.as_str(), section_has_audio_encryption_setting(s));
            let ghost before = devices.deep_view();
            devices.push(d);
            assert(devices.deep_view() =~= before.push(d.deep_view()));
        }
        i += 1;
    }
    Ok(Devices { devices, codecs, encryption })
}

// ---------------------------------------------------------------------------
// Bindings

/// The names of devices, ascending.
pub open spec fn sorted_names(devices: Seq<policy::DeviceConfigView>) -> Seq<text::Text>
    decreases devices.len(),
{
    if devices.len() == 0 {
        Seq::empty()
    } else {
        group::with_text(sorted_names(devices.drop_last()), devices.last().id.name)
    }
}

/// The names of devices, ascending.
pub fn sort_names(devices: &Vec<DeviceConfig>) -> (r: Vec<String>)
    ensures
        r.deep_view() == sorted_names(devices.deep_view()),
{
    let ghost all = devices.deep_view();
    let mut r: Vec<String> = Vec::new();
    let mut i: usize = 0;
    assert(all.take(0) =~= Seq::empty());
    assert(r.deep_view() =~= Seq::empty());
    while i < devices.len()
        invariant
            all == devices.deep_view(),
            i <= devices@.len(),
            r.deep_view() == sorted_names(all.take(i as int)),
        decreases devices.len() - i,
    {
        assert(all.take(i + 1).drop_last() =~= all.take(i as int));
        assert(all.take(i + 1).last() == devices@[i as int].deep_view());
        r = group::insert_text(&r, devices[i].id.name.as_str());
        i += 1;
    }
    assert(all.take(i as int) =~= all);
    r
}

/// The bindings after the buttons of a device from one on.
pub open spec fn bound_from(
    d: policy::DeviceConfigView,
    lines: Seq<policy::LineConfigView>,
    i: int,
    seen: Seq<text::Text>,
    instances: Seq<u32>,
    list: Seq<policy::LineBindingView>,
) -> Result<Seq<policy::LineBindingView>, error::ErrorView>
    decreases d.buttons.len() - i,
{
    if i >= d.buttons.len() {
        Ok(list)
    } else {
        match d.buttons[i] {
            station::ButtonDefinitionView::Line(a) => if seen.contains(a.number) {
                Err(error::refused(d.id.name + ".line"@, a.number))
            } else {
                match button::line_index(lines, a.number) {
                    None => Err(
                        error::ErrorView::UnknownLine { device: d.id.name, line: a.number },
                    ),
                    Some(j) => if instances.contains(a.instance) {
                        Err(
                            error::refused(
                                d.id.name + ".line_instance"@,
                                number::decimal(a.instance as nat),
                            ),
                        )
                    } else {
                        bound_from(
                            d,
                            lines,
                            i + 1,
                            seen.push(a.number),
                            instances.push(a.instance),
                            list.push(
                                policy::LineBindingView {
                                    device_id: d.id,
                                    line_instance: a.instance,
                                    appearance: a,
                                    line: lines[j as int],
                                },
                            ),
                        )
                    },
                }
            },
            _ => bound_from(d, lines, i + 1, seen, instances, list),
        }
    }
}

/// The bindings after the devices of the names from one on.
pub open spec fn bindings_from(
    devices: Seq<policy::DeviceConfigView>,
    lines: Seq<policy::LineConfigView>,
    names: Seq<text::Text>,
    i: int,
    list: Seq<policy::LineBindingView>,
) -> Result<Seq<policy::LineBindingView>, error::ErrorView>
    decreases names.len() - i,
{
    if i >= names.len() {
        Ok(list)
    } else {
        match device_index(devices, names[i]) {
            None => bindings_from(devices, lines, names, i + 1, list),
            Some(j) => match bound_from(
                devices[j as int],
                lines,
                0,
                Seq::empty(),
                Seq::empty(),
                list,
            ) {
                Err(e) => Err(e),
                Ok(next) => bindings_from(devices, lines, names, i + 1, next),
            },
        }
    }
}

/// The bindings of lines to device buttons, by ascending device name.
pub open spec fn bindings_of(
    devices: Seq<policy::DeviceConfigView>,
    lines: Seq<policy::LineConfigView>,
) -> Result<Seq<policy::LineBindingView>, error::ErrorView> {
    bindings_from(devices, lines, sorted_names(devices), 0, Seq::empty())
}

/// Whether a line has a binding.
pub open spec fn is_bound(list: Seq<policy::LineBindingView>, number: text::Text) -> bool {
    exists|i: int| 0 <= i < list.len() && (#[trigger] list[i]).line.number == number
}

/// The first line without a binding.
pub open spec fn first_unbound(
    lines: Seq<policy::LineConfigView>,
    list: Seq<policy::LineBindingView>,
) -> Option<text::Text>
    decreases lines.len(),
{
    if lines.len() == 0 {
        None
    } else if !is_bound(list, lines[0].number) {
        Some(lines[0].number)
    } else {
        first_unbound(lines.skip(1), list)
    }
}

/// Whether a list holds a number.
fn holds_instance(list: &Vec<u32>, x: u32) -> (r: bool)
    ensures
        r == list@.contains(x),
{
    let mut i: usize = 0;
    while i < list.len()
        invariant
            i <= list@.len(),
            forall|j: int| 0 <= j < i ==> list@[j] != x,
        decreases list.len() - i,
    {
        if list[i] == x {
            return true;
        }
        i += 1;
    }
    false
}

/// Binds the line buttons of a device.
fn bind_device(d: &DeviceConfig, lines: &Vec<LineConfig>, given: Vec<LineBinding>) -> (r: Result<
    Vec<LineBinding>,
    ConfigError,
>)
    ensures
        error::outcome(r) == bound_from(
            d.deep_view(),
            lines.deep_view(),
            0,
            Seq::empty(),
            Seq::empty(),
            given.deep_view(),
        ),
{
    let ghost dv = d.deep_view();
    let ghost all = lines.deep_view();
    let mut list = given;
    let mut seen: Vec<String> = Vec::new();
    let mut instances: Vec<u32> = Vec::new();
    let mut i: usize = 0;
    assert(seen.deep_view() =~= Seq::empty());
    while i < d.buttons.len()
        invariant
            dv == d.deep_view(),
            all == lines.deep_view(),
            i <= d.buttons@.len(),
            bound_from(dv, all, 0, Seq::empty(), Seq::empty(), given.deep_view()) == bound_from(
                dv,
                all,
                i as int,
                seen.deep_view(),
                instances@,
                list.deep_view(),
            ),
        decreases d.buttons.len() - i,
    {
        assert(dv.buttons[i as int] == d.buttons@[i as int].deep_view());
        match &d.buttons[i] {
            ButtonDefinition::Line(a) => {
                let name = d.id.name.as_str();
                if text::is_in(a.number.as_str(), &seen) {
                    return Err(
                        error::invalid_value(
                            line::name_with(name, ".line").as_str(),
                            a.number.as_str(),
                        ),
                    );
                }
                let j = match button::find_line(lines, a.number.as_str()) {
                    Some(j) => j,
                    None => return Err(
                        ConfigError::UnknownLine {
                            device: text::copy(name),
                            line: text::copy(a.number.as_str()),
                        },
                    ),
                };
                assert(all[j as int] == lines@[j as int].deep_view());
                if holds_instance(&instances, a.instance) {
                    return Err(
                        error::invalid_value(
                            line::name_with(name, ".line_instance").as_str(),
                            number::to_decimal(a.instance as u64).as_str(),
                        ),
                    );
                }
                let ghost numbers = seen.deep_view();
                let n = text::copy(a.number.as_str());
                seen.push(n);
                assert(seen.deep_view() =~= numbers.push(n@));
                instances.push(a.instance);
                let ghost before = list.deep_view();
                let x = LineBinding {
                    device_id: DeviceId { name: text::copy(name) },
                    line_instance: a.instance,
                    appearance: a.clone(),
                    line: lines[j].clone(),
                };
                list.push(x);
                assert(list.deep_view() =~= before.push(x.deep_view()));
            },
            _ => {},
        }
        i += 1;
    }
    Ok(list)
}

/// Binds the line buttons of every device.
pub fn bind_devices(devices: &Vec<DeviceConfig>, lines: &Vec<LineConfig>) -> (r: Result<
    Vec<LineBinding>,
    ConfigError,
>)
    ensures
        error::outcome(r) == bindings_of(devices.deep_view(), lines.deep_view()),
{
    let names = sort_names(devices);
    let ghost order = names.deep_view();
    let ghost all = devices.deep_view();
    let mut list: Vec<LineBinding> = Vec::new();
    let mut i: usize = 0;
    assert(list.deep_view() =~= Seq::empty());
    while i < names.len()
        invariant
            order == names.deep_view(),
            all == devices.deep_view(),
            order == sorted_names(all),
            i <= names@.len(),
            bindings_of(all, lines.deep_view()) == bindings_from(
                all,
                lines.deep_view(),
                order,
                i as int,
                list.deep_view(),
            ),
        decreases names.len() - i,
    {
        assert(order[i as int] == names@[i as int]@);
        match find_device(devices, names[i].as_str()) {
            None => {},
            Some(j) => {
                assert(all[j as int] == devices@[j as int].deep_view());
                list = match bind_device(&devices[j], lines, list) {
                    Ok(x) => x,
                    Err(e) => return Err(e),
                };
            },
        }
        i += 1;
    }
    Ok(list)
}

/// Whether a line has a binding.
fn has_binding(list: &Vec<LineBinding>, number: &str) -> (r: bool)
    ensures
        r == is_bound(list.deep_view(), number@),
{
    let ghost all = list.deep_view();
    let mut i: usize = 0;
    while i < list.len()
        invariant
            all == list.deep_view(),
            i <= list@.len(),
            forall|j: int| 0 <= j < i ==> (#[trigger] all[j]).line.number != number@,
        decreases list.len() - i,
    {
        assert(all[i as int] == list@[i as int].deep_view());
        if text::same(list[i].line.number.as_str(), number) {
            assert(all[i as int].line.number == number@);
            return true;
        }
        i += 1;
    }
    false
}

/// The first line without a binding.
pub fn find_unbound(lines: &Vec<LineConfig>, list: &Vec<LineBinding>) -> (r: Option<String>)
    ensures
        r.deep_view() == first_unbound(lines.deep_view(), list.deep_view()),
{
    let ghost all = lines.deep_view();
    let mut i: usize = 0;
    assert(all.skip(0) =~= all);
    while i < lines.len()
        invariant
            all == lines.deep_view(),
            i <= lines@.len(),
            first_unbound(all, list.deep_view()) == first_unbound(
                all.skip(i as int),
                list.deep_view(),
            ),
        decreases lines.len() - i,
    {
        assert(all.skip(i as int)[0] == lines@[i as int].deep_view());
        if !has_binding(list, lines[i].number.as_str()) {
            return Some(text::copy(lines[i].number.as_str()));
        }
        assert(all.skip(i as int).skip(1) =~= all.skip(i + 1));
        i += 1;
    }
    None
}

} // verus!
