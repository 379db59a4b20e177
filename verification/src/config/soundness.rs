//! What holds of every accepted configuration.

use vstd::prelude::*;

use crate::config::appearance;
use crate::config::assembly;
use crate::config::button;
use crate::config::device;
use crate::config::error;
use crate::config::inheritance;
use crate::config::line;
use crate::config::module;
use crate::config::option;
use crate::config::option::Setting;
use crate::config::overlay;
use crate::config::policy;
use crate::config::registration;
use crate::config::rules;
use crate::config::section;
use crate::config::softkey;
use crate::config::value;
use crate::station;
use crate::text;

verus! {

// ---------------------------------------------------------------------------
// What holds

/// No two lines have one number.
pub open spec fn lines_distinct(lines: Seq<policy::LineConfigView>) -> bool {
    forall|i: int, j: int|
        0 <= i < j < lines.len() ==> (#[trigger] lines[i]).number != (#[trigger] lines[j]).number
}

/// No two devices have one name.
pub open spec fn devices_distinct(devices: Seq<policy::DeviceConfigView>) -> bool {
    forall|i: int, j: int|
        0 <= i < j < devices.len() ==> (#[trigger] devices[i]).id.name != (
        #[trigger] devices[j]).id.name
}

/// No two profiles have one name.
pub open spec fn profiles_distinct(profiles: Seq<policy::SoftKeyProfileView>) -> bool {
    forall|i: int, j: int|
        0 <= i < j < profiles.len() ==> (#[trigger] profiles[i]).name != (
        #[trigger] profiles[j]).name
}

/// Some profile has the name.
pub open spec fn has_profile(profiles: Seq<policy::SoftKeyProfileView>, name: text::Text) -> bool {
    exists|i: int| 0 <= i < profiles.len() && (#[trigger] profiles[i]).name == name
}

/// A binding joins a device and a line of the configuration.
pub open spec fn binding_known(
    b: policy::LineBindingView,
    devices: Seq<policy::DeviceConfigView>,
    lines: Seq<policy::LineConfigView>,
) -> bool {
    &&& exists|i: int| 0 <= i < devices.len() && (#[trigger] devices[i]).id == b.device_id
    &&& exists|j: int| 0 <= j < lines.len() && #[trigger] lines[j] == b.line
    &&& b.line.number == b.appearance.number
    &&& b.line_instance == b.appearance.instance
}

/// The registration targets of a line.
pub open spec fn targets_of_line(
    g: policy::GeneralConfigView,
    features: policy::LineFeatureConfigView,
) -> Seq<policy::RegistrationTargetView> {
    registration::targets_of(g.registration.contexts, features.registration.extensions)
}

/// No two lines share a registration target.
pub open spec fn targets_distinct(
    g: policy::GeneralConfigView,
    features: Seq<policy::LineFeatureConfigView>,
) -> bool {
    forall|i: int, j: int, a: int, b: int|
        0 <= i < j < features.len() && 0 <= a < targets_of_line(g, features[i]).len() && 0 <= b
            < targets_of_line(g, features[j]).len() ==> #[trigger] targets_of_line(
            g,
            features[i],
        )[a] != #[trigger] targets_of_line(g, features[j])[b]
}

/// What holds of an accepted configuration.
pub open spec fn is_sound(c: module::ModuleConfigView, w: rules::LayerRulesView) -> bool {
    &&& c.devices.len() > 0
    &&& c.lines.len() > 0
    &&& lines_distinct(c.lines)
    &&& devices_distinct(c.devices)
    &&& profiles_distinct(c.soft_key_profiles)
    &&& has_profile(c.soft_key_profiles, softkey::default_name())
    &&& c.line_features.len() == c.lines.len()
    &&& targets_distinct(c.general, c.line_features)
    &&& forall|i: int|
        0 <= i < c.devices.len() ==> has_profile(
            c.soft_key_profiles,
            (#[trigger] c.devices[i]).soft_key_profile,
        ) && c.devices[i].lines.len() > 0 && !w.refused_devices.contains(c.devices[i].id.name)
    &&& forall|i: int|
        0 <= i < c.bindings.len() ==> binding_known(#[trigger] c.bindings[i], c.devices, c.lines)
    &&& forall|i: int|
        0 <= i < c.lines.len() ==> assembly::is_bound(c.bindings, (#[trigger] c.lines[i]).number)
    &&& appearance::are_bindings_sound(c.bindings, c.devices)
    &&& module::general_fault(c.general, w) is None
    &&& !module::shares_priority(c.general.signaling_servers)
}

// ---------------------------------------------------------------------------
// Lines and profiles

pub(crate) proof fn lemma_line_index(lines: Seq<policy::LineConfigView>, number: text::Text)
    ensures
        match button::line_index(lines, number) {
            Some(i) => i < lines.len() && lines[i as int].number == number,
            None => forall|j: int| 0 <= j < lines.len() ==> (#[trigger] lines[j]).number != number,
        },
    decreases lines.len(),
{
    if lines.len() > 0 && lines.last().number != number {
        lemma_line_index(lines.drop_last(), number);
        if button::line_index(lines, number) is None {
            assert forall|j: int| 0 <= j < lines.len() implies (#[trigger] lines[j]).number
                != number by {
                if j < lines.len() - 1 {
                    assert(lines.drop_last()[j] == lines[j]);
                }
            }
        }
    }
}

proof fn lemma_profile_index(profiles: Seq<policy::SoftKeyProfileView>, name: text::Text)
    ensures
        match device::profile_index(profiles, name) {
            Some(i) => i < profiles.len() && profiles[i as int].name == name,
            None => forall|j: int|
                0 <= j < profiles.len() ==> (#[trigger] profiles[j]).name != name,
        },
    decreases profiles.len(),
{
    if profiles.len() > 0 && profiles.last().name != name {
        lemma_profile_index(profiles.drop_last(), name);
        if device::profile_index(profiles, name) is None {
            assert forall|j: int| 0 <= j < profiles.len() implies (#[trigger] profiles[j]).name
                != name by {
                if j < profiles.len() - 1 {
                    assert(profiles.drop_last()[j] == profiles[j]);
                }
            }
        }
    }
}

proof fn lemma_owner_index(
    owners: Seq<assembly::TargetOwnerView>,
    target: policy::RegistrationTargetView,
)
    ensures
        assembly::owner_index(owners, target) is None ==> forall|j: int|
            0 <= j < owners.len() ==> (#[trigger] owners[j]).target != target,
    decreases owners.len(),
{
    if owners.len() > 0 && owners.last().target != target {
        lemma_owner_index(owners.drop_last(), target);
        if assembly::owner_index(owners, target) is None {
            assert forall|j: int| 0 <= j < owners.len() implies (#[trigger] owners[j]).target
                != target by {
                if j < owners.len() - 1 {
                    assert(owners.drop_last()[j] == owners[j]);
                }
            }
        }
    }
}

proof fn lemma_claims(
    owners: Seq<assembly::TargetOwnerView>,
    targets: Seq<policy::RegistrationTargetView>,
    i: int,
    line: text::Text,
    key: text::Text,
)
    requires
        0 <= i <= targets.len(),
        assembly::claimed_from(owners, targets, i, line, key) is Ok,
    ensures
        ({
            let after = assembly::claimed_from(owners, targets, i, line, key)->Ok_0;
            &&& after.len() >= owners.len()
            &&& forall|j: int| 0 <= j < owners.len() ==> after[j] == #[trigger] owners[j]
            &&& forall|k: int|
                i <= k < targets.len() ==> exists|j: int|
                    owners.len() <= j < after.len() && (#[trigger] after[j]).target
                        == #[trigger] targets[k]
            &&& forall|k: int, j: int|
                i <= k < targets.len() && 0 <= j < owners.len() ==> (#[trigger] owners[j]).target
                    != #[trigger] targets[k]
        }),
    decreases targets.len() - i,
{
    if i < targets.len() {
        let next = owners.push(assembly::TargetOwnerView { target: targets[i], line });
        let after = assembly::claimed_from(owners, targets, i, line, key)->Ok_0;
        lemma_owner_index(owners, targets[i]);
        lemma_claims(next, targets, i + 1, line, key);
        assert forall|j: int| 0 <= j < owners.len() implies after[j] == #[trigger] owners[j] by {
            assert(next[j] == owners[j]);
        }
        assert forall|k: int| i <= k < targets.len() implies exists|j: int|
            owners.len() <= j < after.len() && (#[trigger] after[j]).target
                == #[trigger] targets[k] by {
            if k == i {
                assert(after[owners.len() as int] == next[owners.len() as int]);
            } else {
                let j = choose|j: int|
                    next.len() <= j < after.len() && (#[trigger] after[j]).target == targets[k];
                assert(after[j].target == targets[k]);
            }
        }
        assert forall|k: int, j: int|
            i <= k < targets.len() && 0 <= j < owners.len() implies (#[trigger] owners[j]).target
            != #[trigger] targets[k] by {
            if k > i {
                assert(next[j] == owners[j]);
                assert(next[j].target != targets[k]);
            }
        }
    }
}

/// What holds of the lines read so far.
spec fn lines_sound(all: assembly::LinesView, g: policy::GeneralConfigView) -> bool {
    &&& lines_distinct(all.lines)
    &&& profiles_distinct(all.profiles)
    &&& has_profile(all.profiles, softkey::default_name())
    &&& all.features.len() == all.lines.len()
    &&& targets_distinct(g, all.features)
    &&& targets_owned(all, g)
}

/// Every target of a line read so far is owned.
spec fn targets_owned(all: assembly::LinesView, g: policy::GeneralConfigView) -> bool {
    forall|i: int, a: int|
        0 <= i < all.features.len() && 0 <= a < targets_of_line(g, all.features[i]).len()
            ==> exists|j: int|
            0 <= j < all.owners.len() && (#[trigger] all.owners[j]).target
                == #[trigger] targets_of_line(g, all.features[i])[a]
}

proof fn lemma_line_keeps_sound(
    all: assembly::LinesView,
    line: policy::LineConfigView,
    features: policy::LineFeatureConfigView,
    key: text::Text,
    g: policy::GeneralConfigView,
    next: assembly::LinesView,
)
    requires
        lines_sound(all, g),
        button::line_index(all.lines, line.number) is None,
        assembly::claimed_from(all.owners, targets_of_line(g, features), 0, line.number, key)
            == Ok::<Seq<assembly::TargetOwnerView>, error::ErrorView>(next.owners),
        next.lines == all.lines.push(line),
        next.features == all.features.push(features),
        next.profiles == all.profiles,
    ensures
        lines_sound(next, g),
{
    let targets = targets_of_line(g, features);
    lemma_line_index(all.lines, line.number);
    lemma_claims(all.owners, targets, 0, line.number, key);
    assert forall|i: int, j: int| 0 <= i < j < next.lines.len() implies (
    #[trigger] next.lines[i]).number != (#[trigger] next.lines[j]).number by {
        assert(next.lines[i] == all.lines[i]);
        if j < all.lines.len() {
            assert(next.lines[j] == all.lines[j]);
        }
    }
    assert forall|i: int, j: int, a: int, b: int|
        0 <= i < j < next.features.len() && 0 <= a < targets_of_line(g, next.features[i]).len()
            && 0 <= b < targets_of_line(g, next.features[j]).len() implies #[trigger] targets_of_line(
        g,
        next.features[i],
    )[a] != #[trigger] targets_of_line(g, next.features[j])[b] by {
        assert(next.features[i] == all.features[i]);
        if j < all.features.len() {
            assert(next.features[j] == all.features[j]);
        } else {
            let t = targets_of_line(g, all.features[i])[a];
            let k = choose|k: int|
                0 <= k < all.owners.len() && (#[trigger] all.owners[k]).target == t;
            assert(all.owners[k].target != targets[b]);
        }
    }
    assert forall|i: int, a: int|
        0 <= i < next.features.len() && 0 <= a < targets_of_line(
            g,
            next.features[i],
        ).len() implies exists|j: int|
        0 <= j < next.owners.len() && (#[trigger] next.owners[j]).target
            == #[trigger] targets_of_line(g, next.features[i])[a] by {
        if i < all.features.len() {
            assert(next.features[i] == all.features[i]);
            let t = targets_of_line(g, all.features[i])[a];
            let k = choose|k: int|
                0 <= k < all.owners.len() && (#[trigger] all.owners[k]).target == t;
            assert(next.owners[k] == all.owners[k]);
            assert(next.owners[k].target == t);
        } else {
            let k = choose|k: int|
                all.owners.len() <= k < next.owners.len() && (#[trigger] next.owners[k]).target
                    == targets[a];
            assert(next.owners[k].target == targets[a]);
        }
    }
}

proof fn lemma_profile_keeps_sound(
    profiles: Seq<policy::SoftKeyProfileView>,
    p: policy::SoftKeyProfileView,
)
    requires
        profiles_distinct(profiles),
        has_profile(profiles, softkey::default_name()),
    ensures
        profiles_distinct(assembly::with_profile(profiles, p)),
        has_profile(assembly::with_profile(profiles, p), softkey::default_name()),
{
    let next = assembly::with_profile(profiles, p);
    lemma_profile_index(profiles, p.name);
    let d = choose|i: int|
        0 <= i < profiles.len() && (#[trigger] profiles[i]).name == softkey::default_name();
    assert(next[d].name == softkey::default_name());
    assert forall|i: int, j: int| 0 <= i < j < next.len() implies (#[trigger] next[i]).name != (
    #[trigger] next[j]).name by {
        if j < profiles.len() {
            assert(next[i].name == profiles[i].name && next[j].name == profiles[j].name);
        } else {
            assert(next[i] == profiles[i]);
        }
    }
}

proof fn lemma_lines_sound(
    sections: Seq<section::RawSectionView>,
    i: int,
    all: assembly::LinesView,
    g: policy::GeneralConfigView,
    w: rules::LayerRulesView,
)
    requires
        lines_sound(all, g),
        assembly::lines_from(sections, i, all, g, w) is Ok,
    ensures
        lines_sound(assembly::lines_from(sections, i, all, g, w)->Ok_0, g),
    decreases sections.len() - i,
{
    if i < sections.len() {
        let s = sections[i];
        let next = assembly::with_section(all, s, g, w)->Ok_0;
        if !assembly::is_general(s) {
            let kind = text::lower(section::value_of(s, "type"@)->0);
            if kind == "device"@ {
            } else if kind == "line"@ {
                let p = line::line_setting(s, g, w)->Ok_0;
                lemma_line_keeps_sound(
                    all,
                    p.line,
                    p.features,
                    section::key_place(s, "regexten"@),
                    g,
                    next,
                );
            } else if kind == "softkey_profile"@ {
                lemma_profile_keeps_sound(all.profiles, softkey::profile_setting(s)->Ok_0);
                assert(next.features == all.features);
            }
        }
        lemma_lines_sound(sections, i + 1, next, g, w);
    }
}

// ---------------------------------------------------------------------------
// Devices

pub(crate) proof fn lemma_device_index(devices: Seq<policy::DeviceConfigView>, name: text::Text)
    ensures
        match assembly::device_index(devices, name) {
            Some(i) => i < devices.len() && devices[i as int].id.name == name,
            None => forall|j: int|
                0 <= j < devices.len() ==> (#[trigger] devices[j]).id.name != name,
        },
    decreases devices.len(),
{
    if devices.len() > 0 && devices.last().id.name != name {
        lemma_device_index(devices.drop_last(), name);
        if assembly::device_index(devices, name) is None {
            assert forall|j: int| 0 <= j < devices.len() implies (#[trigger] devices[j]).id.name
                != name by {
                if j < devices.len() - 1 {
                    assert(devices.drop_last()[j] == devices[j]);
                }
            }
        }
    }
}

proof fn lemma_profile_checked(
    o: option::OptionsView,
    i: int,
    lines: Seq<policy::LineConfigView>,
    profiles: Seq<policy::SoftKeyProfileView>,
    w: rules::LayerRulesView,
)
    requires
        0 <= i,
        device::first_fault(o, i, lines, profiles, w) is None,
    ensures
        value::found_from(o, Setting::SoftkeyProfile, i) matches Some(v)
            ==> device::profile_index(profiles, softkey::name_of_profile(v.value)) is Some,
    decreases o.settings.len() - i,
{
    if i < o.settings.len() {
        assert(device::entry_fault(o, i, lines, profiles, w) is None);
        if o.settings[i] != Setting::SoftkeyProfile {
            lemma_profile_checked(o, i + 1, lines, profiles, w);
        }
    }
}

/// A device names a profile that there is, has a line, and is one that the
/// station protocol takes.
proof fn lemma_device_sound(
    s: section::RawSectionView,
    lines: assembly::LinesView,
    g: policy::GeneralConfigView,
    w: rules::LayerRulesView,
)
    requires
        lines_sound(lines, g),
        device::device_setting(s, lines.lines, lines.profiles, g, w) is Ok,
    ensures
        ({
            let d = device::device_setting(s, lines.lines, lines.profiles, g, w)->Ok_0;
            &&& has_profile(lines.profiles, d.soft_key_profile)
            &&& d.lines.len() > 0
            &&& !w.refused_devices.contains(d.id.name)
        }),
{
    let o = option::decoded(option::Scope::Device, s)->Ok_0;
    let d = device::device_setting(s, lines.lines, lines.profiles, g, w)->Ok_0;
    lemma_profile_checked(o, 0, lines.lines, lines.profiles, w);
    assert(o.section == s);
    assert(d.soft_key_profile == device::profile_of(o));
    match value::found(o, Setting::SoftkeyProfile) {
        Some(v) => {
            lemma_profile_index(lines.profiles, softkey::name_of_profile(v.value));
            let i = device::profile_index(lines.profiles, softkey::name_of_profile(v.value))->0;
            assert(lines.profiles[i as int].name == d.soft_key_profile);
        },
        None => {},
    }
}

/// What holds of the devices read so far.
spec fn devices_sound(
    devices: Seq<policy::DeviceConfigView>,
    profiles: Seq<policy::SoftKeyProfileView>,
    w: rules::LayerRulesView,
) -> bool {
    &&& devices_distinct(devices)
    &&& forall|i: int|
        0 <= i < devices.len() ==> has_profile(
            profiles,
            (#[trigger] devices[i]).soft_key_profile,
        ) && devices[i].lines.len() > 0 && !w.refused_devices.contains(devices[i].id.name)
}

proof fn lemma_devices_sound(
    sections: Seq<section::RawSectionView>,
    i: int,
    all: assembly::DevicesView,
    lines: assembly::LinesView,
    g: policy::GeneralConfigView,
    w: rules::LayerRulesView,
)
    requires
        lines_sound(lines, g),
        devices_sound(all.devices, lines.profiles, w),
        assembly::devices_from(sections, i, all, lines, g, w) is Ok,
    ensures
        devices_sound(
            assembly::devices_from(sections, i, all, lines, g, w)->Ok_0.devices,
            lines.profiles,
            w,
        ),
    decreases sections.len() - i,
{
    if i < sections.len() {
        let s = sections[i];
        if !assembly::is_device(s) {
            lemma_devices_sound(sections, i + 1, all, lines, g, w);
        } else {
            let d = device::device_setting(s, lines.lines, lines.profiles, g, w)->Ok_0;
            lemma_device_sound(s, lines, g, w);
            lemma_device_index(all.devices, d.id.name);
            let next = assembly::DevicesView {
                devices: all.devices.push(d),
                codecs: assembly::marked(all.codecs, d.id.name, assembly::sets_codecs(s)),
                encryption: assembly::marked(
                    all.encryption,
                    d.id.name,
                    assembly::sets_encryption(s),
                ),
            };
            assert forall|a: int, b: int| 0 <= a < b < next.devices.len() implies (
            #[trigger] next.devices[a]).id.name != (#[trigger] next.devices[b]).id.name by {
                assert(next.devices[a] == all.devices[a]);
                if b < all.devices.len() {
                    assert(next.devices[b] == all.devices[b]);
                }
            }
            assert forall|a: int| 0 <= a < next.devices.len() implies has_profile(
                lines.profiles,
                (#[trigger] next.devices[a]).soft_key_profile,
            ) && next.devices[a].lines.len() > 0 && !w.refused_devices.contains(
                next.devices[a].id.name,
            ) by {
                if a < all.devices.len() {
                    assert(next.devices[a] == all.devices[a]);
                }
            }
            lemma_devices_sound(sections, i + 1, next, lines, g, w);
        }
    }
}

// ---------------------------------------------------------------------------
// Bindings

/// Every binding joins a device and a line.
spec fn bindings_known(
    list: Seq<policy::LineBindingView>,
    devices: Seq<policy::DeviceConfigView>,
    lines: Seq<policy::LineConfigView>,
) -> bool {
    forall|i: int| 0 <= i < list.len() ==> binding_known(#[trigger] list[i], devices, lines)
}

proof fn lemma_bound_known(
    k: int,
    devices: Seq<policy::DeviceConfigView>,
    lines: Seq<policy::LineConfigView>,
    i: int,
    seen: Seq<text::Text>,
    instances: Seq<u32>,
    list: Seq<policy::LineBindingView>,
)
    requires
        0 <= k < devices.len(),
        0 <= i,
        bindings_known(list, devices, lines),
        assembly::bound_from(devices[k], lines, i, seen, instances, list) is Ok,
    ensures
        bindings_known(
            assembly::bound_from(devices[k], lines, i, seen, instances, list)->Ok_0,
            devices,
            lines,
        ),
    decreases devices[k].buttons.len() - i,
{
    let d = devices[k];
    if i < d.buttons.len() {
        match d.buttons[i] {
            station::ButtonDefinitionView::Line(a) => {
                lemma_line_index(lines, a.number);
                let j = button::line_index(lines, a.number)->0 as int;
                let b = policy::LineBindingView {
                    device_id: d.id,
                    line_instance: a.instance,
                    appearance: a,
                    line: lines[j],
                };
                assert(devices[k].id == b.device_id);
                assert(lines[j] == b.line);
                assert(binding_known(b, devices, lines));
                let next = list.push(b);
                assert forall|m: int| 0 <= m < next.len() implies binding_known(
                    #[trigger] next[m],
                    devices,
                    lines,
                ) by {
                    if m < list.len() {
                        assert(next[m] == list[m]);
                    }
                }
                lemma_bound_known(
                    k,
                    devices,
                    lines,
                    i + 1,
                    seen.push(a.number),
                    instances.push(a.instance),
                    next,
                );
            },
            _ => {
                lemma_bound_known(k, devices, lines, i + 1, seen, instances, list);
            },
        }
    }
}

proof fn lemma_bindings_known(
    devices: Seq<policy::DeviceConfigView>,
    lines: Seq<policy::LineConfigView>,
    names: Seq<text::Text>,
    i: int,
    list: Seq<policy::LineBindingView>,
)
    requires
        bindings_known(list, devices, lines),
        assembly::bindings_from(devices, lines, names, i, list) is Ok,
    ensures
        bindings_known(
            assembly::bindings_from(devices, lines, names, i, list)->Ok_0,
            devices,
            lines,
        ),
    decreases names.len() - i,
{
    if i < names.len() {
        lemma_device_index(devices, names[i]);
        match assembly::device_index(devices, names[i]) {
            None => lemma_bindings_known(devices, lines, names, i + 1, list),
            Some(k) => {
                lemma_bound_known(
                    k as int,
                    devices,
                    lines,
                    0,
                    Seq::empty(),
                    Seq::empty(),
                    list,
                );
                let next = assembly::bound_from(
                    devices[k as int],
                    lines,
                    0,
                    Seq::empty(),
                    Seq::empty(),
                    list,
                )->Ok_0;
                lemma_bindings_known(devices, lines, names, i + 1, next);
            },
        }
    }
}

proof fn lemma_all_bound(
    lines: Seq<policy::LineConfigView>,
    list: Seq<policy::LineBindingView>,
)
    requires
        assembly::first_unbound(lines, list) is None,
    ensures
        forall|i: int|
            0 <= i < lines.len() ==> assembly::is_bound(list, (#[trigger] lines[i]).number),
    decreases lines.len(),
{
    if lines.len() > 0 {
        let rest = lines.skip(1);
        lemma_all_bound(rest, list);
        assert forall|i: int| 0 <= i < lines.len() implies assembly::is_bound(
            list,
            (#[trigger] lines[i]).number,
        ) by {
            if i > 0 {
                assert(rest[i - 1] == lines[i]);
            }
        }
    }
}

// ---------------------------------------------------------------------------
// Laws

/// An accepted configuration has devices and lines; line numbers, device names,
/// profile names and registration targets are unique; every device names a
/// profile that there is and shows a line; every binding joins a device and a
/// line of the configuration, and every line has one. Bindings come by ascending
/// device: no device shows a line or an instance twice, each shows the lines of
/// its buttons in their order, and each binding is found by its device and
/// instance.
pub proof fn law_accepted_configurations_are_sound(
    sections: Seq<section::RawSectionView>,
    w: rules::LayerRulesView,
)
    requires
        module::config_of(sections, w) is Ok,
    ensures
        is_sound(module::config_of(sections, w)->Ok_0, w),
{
    let resolved = inheritance::all_resolved(sections)->Ok_0;
    let g = module::general_from(resolved, 0, w)->Ok_0;
    let none = assembly::no_lines();
    assert(none.profiles[0].name == softkey::default_name());
    assert(lines_sound(none, g));
    lemma_lines_sound(resolved, 0, none, g, w);
    let lines = assembly::lines_from(resolved, 0, none, g, w)->Ok_0;
    lemma_devices_sound(resolved, 0, assembly::no_devices(), lines, g, w);
    let devices = assembly::devices_from(resolved, 0, assembly::no_devices(), lines, g, w)->Ok_0;
    lemma_bindings_known(
        devices.devices,
        lines.lines,
        assembly::sorted_names(devices.devices),
        0,
        Seq::empty(),
    );
    let bindings = assembly::bindings_of(devices.devices, lines.lines)->Ok_0;
    lemma_all_bound(lines.lines, bindings);
    appearance::lemma_bindings_sound(devices.devices, lines.lines);
}

/// What a text holds is a sound configuration wherever it is accepted.
pub proof fn law_parsed_configurations_are_sound(input: text::Text, w: rules::LayerRulesView)
    requires
        module::config_in(input, w) is Ok,
    ensures
        is_sound(module::config_in(input, w)->Ok_0, w),
{
    law_accepted_configurations_are_sound(section::parsed(input)->Ok_0, w);
}

/// What a text holds under overlays is a sound configuration wherever it is
/// accepted.
pub proof fn law_overlaid_configurations_are_sound(
    input: text::Text,
    overlays: Seq<overlay::ConfigOverlaySectionView>,
    w: rules::LayerRulesView,
)
    requires
        module::overlaid_config(input, overlays, w) is Ok,
    ensures
        is_sound(module::overlaid_config(input, overlays, w)->Ok_0, w),
{
    law_accepted_configurations_are_sound(
        overlay::after_overlays(section::parsed(input)->Ok_0, overlays)->Ok_0,
        w,
    );
}

} // verus!
