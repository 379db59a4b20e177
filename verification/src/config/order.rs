//! The order of sections: in whichever order they stand, the same sections give
//! the same configuration.

use vstd::prelude::*;

use crate::config::assembly;
use crate::config::button;
use crate::config::canonical;
use crate::config::defaults;
use crate::config::device;
use crate::config::fidelity;
use crate::config::general;
use crate::config::group;
use crate::config::line;
use crate::config::meaning;
use crate::config::module;
use crate::config::option;
use crate::config::option::Scope;
use crate::config::policy;
use crate::config::registration;
use crate::config::rules;
use crate::config::section;
use crate::config::softkey;
use crate::config::soundness;
use crate::config::value;
use crate::station;
use crate::text;

verus! {

// ---------------------------------------------------------------------------
// What is looked up

/// The features of a line.
pub open spec fn features_at(all: assembly::LinesView, number: text::Text) -> Option<
    policy::LineFeatureConfigView,
> {
    match button::line_index(all.lines, number) {
        Some(i) => Some(all.features[i as int]),
        None => None,
    }
}

/// The profile of a name.
pub open spec fn profile_at(profiles: Seq<policy::SoftKeyProfileView>, name: text::Text) -> Option<
    policy::SoftKeyProfileView,
> {
    match device::profile_index(profiles, name) {
        Some(i) => Some(profiles[i as int]),
        None => None,
    }
}

/// The device of a name.
pub open spec fn device_at(devices: Seq<policy::DeviceConfigView>, name: text::Text) -> Option<
    policy::DeviceConfigView,
> {
    match assembly::device_index(devices, name) {
        Some(i) => Some(devices[i as int]),
        None => None,
    }
}

/// Whether a target has an owner.
pub open spec fn is_owned(
    owners: Seq<assembly::TargetOwnerView>,
    target: policy::RegistrationTargetView,
) -> bool {
    assembly::owner_index(owners, target) is Some
}

/// One more line is found by its number.
proof fn lemma_line_pushed(
    lines: Seq<policy::LineConfigView>,
    x: policy::LineConfigView,
    number: text::Text,
)
    ensures
        button::line_index(lines.push(x), number) == if x.number == number {
            Some(lines.len())
        } else {
            button::line_index(lines, number)
        },
        button::line_index(lines, number) matches Some(i) ==> i < lines.len()
            && lines[i as int].number == number,
    decreases lines.len(),
{
    assert(lines.push(x).drop_last() =~= lines);
    if lines.len() > 0 {
        lemma_line_pushed(lines.drop_last(), lines.last(), number);
        assert(lines.drop_last().push(lines.last()) =~= lines);
    }
}

/// One more device is found by its name.
proof fn lemma_device_pushed(
    devices: Seq<policy::DeviceConfigView>,
    x: policy::DeviceConfigView,
    name: text::Text,
)
    ensures
        assembly::device_index(devices.push(x), name) == if x.id.name == name {
            Some(devices.len())
        } else {
            assembly::device_index(devices, name)
        },
        assembly::device_index(devices, name) matches Some(i) ==> i < devices.len()
            && devices[i as int].id.name == name,
    decreases devices.len(),
{
    assert(devices.push(x).drop_last() =~= devices);
    if devices.len() > 0 {
        lemma_device_pushed(devices.drop_last(), devices.last(), name);
        assert(devices.drop_last().push(devices.last()) =~= devices);
    }
}

/// One more owner is found by its target.
proof fn lemma_owner_pushed(
    owners: Seq<assembly::TargetOwnerView>,
    x: assembly::TargetOwnerView,
    target: policy::RegistrationTargetView,
)
    ensures
        is_owned(owners.push(x), target) == (x.target == target || is_owned(owners, target)),
{
    assert(owners.push(x).drop_last() =~= owners);
}

/// A profile that takes the place of one of its name is found there.
proof fn lemma_profile_updated(
    profiles: Seq<policy::SoftKeyProfileView>,
    i: int,
    p: policy::SoftKeyProfileView,
    name: text::Text,
)
    requires
        0 <= i < profiles.len(),
        profiles[i].name == p.name,
    ensures
        device::profile_index(profiles.update(i, p), name) == device::profile_index(profiles, name),
    decreases profiles.len(),
{
    let next = profiles.update(i, p);
    if i < profiles.len() - 1 {
        assert(next.drop_last() =~= profiles.drop_last().update(i, p));
        lemma_profile_updated(profiles.drop_last(), i, p, name);
    } else {
        assert(next.drop_last() =~= profiles.drop_last());
    }
}

/// Where a profile of a name stands.
proof fn lemma_profile_found(profiles: Seq<policy::SoftKeyProfileView>, name: text::Text)
    ensures
        device::profile_index(profiles, name) matches Some(i) ==> i < profiles.len()
            && profiles[i as int].name == name,
    decreases profiles.len(),
{
    if profiles.len() > 0 {
        lemma_profile_found(profiles.drop_last(), name);
    }
}

/// One more profile is found by its name.
proof fn lemma_with_profile(
    profiles: Seq<policy::SoftKeyProfileView>,
    p: policy::SoftKeyProfileView,
    name: text::Text,
)
    ensures
        profile_at(assembly::with_profile(profiles, p), name) == if p.name == name {
            Some(p)
        } else {
            profile_at(profiles, name)
        },
{
    lemma_profile_found(profiles, p.name);
    lemma_profile_found(profiles, name);
    match device::profile_index(profiles, p.name) {
        Some(i) => {
            lemma_profile_updated(profiles, i as int, p, name);
        },
        None => {
            assert(profiles.push(p).drop_last() =~= profiles);
        },
    }
}

/// When targets are claimed, and what is owned then.
proof fn lemma_claimed(
    owners: Seq<assembly::TargetOwnerView>,
    targets: Seq<policy::RegistrationTargetView>,
    i: int,
    number: text::Text,
    key: text::Text,
)
    requires
        0 <= i <= targets.len(),
    ensures
        assembly::claimed_from(owners, targets, i, number, key) is Ok <==> (forall|k: int|
            i <= k < targets.len() ==> !is_owned(owners, #[trigger] targets[k])) && (forall|
            k: int,
            l: int,
        |
            i <= k < l < targets.len() ==> #[trigger] targets[k] != #[trigger] targets[l]),
        assembly::claimed_from(owners, targets, i, number, key) matches Ok(after) ==> forall|
            t: policy::RegistrationTargetView,
        | #[trigger]
            is_owned(after, t) <==> is_owned(owners, t) || targets.skip(i).contains(t),
    decreases targets.len() - i,
{
    if i < targets.len() {
        let x = assembly::TargetOwnerView { target: targets[i], line: number };
        let next = owners.push(x);
        lemma_claimed(next, targets, i + 1, number, key);
        assert forall|t: policy::RegistrationTargetView| #[trigger] is_owned(next, t) <==> (
        targets[i] == t || is_owned(owners, t)) by {
            lemma_owner_pushed(owners, x, t);
        }
        assert forall|t: policy::RegistrationTargetView| #[trigger]
            targets.skip(i).contains(t) <==> targets[i] == t || targets.skip(i + 1).contains(t) by {
            let a = targets.skip(i);
            let b = targets.skip(i + 1);
            if a.contains(t) {
                let k = choose|k: int| 0 <= k < a.len() && a[k] == t;
                if k > 0 {
                    assert(b[k - 1] == t);
                }
            }
            if targets[i] == t {
                assert(a[0] == t);
            }
            if b.contains(t) {
                let k = choose|k: int| 0 <= k < b.len() && b[k] == t;
                assert(a[k + 1] == t);
            }
        }
        if assembly::claimed_from(owners, targets, i, number, key) is Ok {
            assert forall|k: int| i <= k < targets.len() implies !is_owned(
                owners,
                #[trigger] targets[k],
            ) by {
                if k > i {
                    assert(!is_owned(next, targets[k]));
                }
            }
            assert forall|k: int, l: int| i <= k < l < targets.len() implies #[trigger] targets[k]
                != #[trigger] targets[l] by {
                if k == i {
                    assert(!is_owned(next, targets[l]));
                }
            }
        }
    } else {
        assert(targets.skip(i) =~= Seq::empty());
    }
}

// ---------------------------------------------------------------------------
// Lines and profiles

/// Whether a section is of a line.
pub open spec fn is_line(s: section::RawSectionView) -> bool {
    !assembly::is_general(s) && match section::value_of(s, "type"@) {
        Some(kind) => text::lower(kind) == "line"@,
        None => false,
    }
}

/// Whether a section is of a profile.
pub open spec fn is_profile(s: section::RawSectionView) -> bool {
    !assembly::is_general(s) && match section::value_of(s, "type"@) {
        Some(kind) => text::lower(kind) == "softkey_profile"@,
        None => false,
    }
}

/// What a line section says, where it is accepted.
#[verifier::opaque]
pub open spec fn line_in(
    s: section::RawSectionView,
    g: policy::GeneralConfigView,
    w: rules::LayerRulesView,
) -> Option<line::ParsedLineView> {
    value::value_in(line::line_setting(s, g, w))
}

/// What a profile section says, where it is accepted.
#[verifier::opaque]
pub open spec fn profile_in(s: section::RawSectionView) -> Option<policy::SoftKeyProfileView> {
    value::value_in(softkey::profile_setting(s))
}

/// The targets that a line section claims.
pub open spec fn targets_in(
    s: section::RawSectionView,
    g: policy::GeneralConfigView,
    w: rules::LayerRulesView,
) -> Seq<policy::RegistrationTargetView> {
    registration::targets_of(
        g.registration.contexts,
        line_in(s, g, w)->0.features.registration.extensions,
    )
}

/// Whether a section is accepted by itself.
#[verifier::opaque]
pub open spec fn is_acceptable(
    s: section::RawSectionView,
    g: policy::GeneralConfigView,
    w: rules::LayerRulesView,
) -> bool {
    ||| assembly::is_general(s)
    ||| assembly::is_device(s)
    ||| is_line(s) && line_in(s, g, w) is Some && targets_in(s, g, w).no_duplicates()
    ||| is_profile(s) && profile_in(s) is Some
}

/// Whether two line sections claim one target.
#[verifier::opaque]
pub open spec fn share_target(
    s: section::RawSectionView,
    t: section::RawSectionView,
    g: policy::GeneralConfigView,
    w: rules::LayerRulesView,
) -> bool {
    &&& is_line(s) && is_line(t)
    &&& exists|x: policy::RegistrationTargetView| #[trigger]
        targets_in(s, g, w).contains(x) && targets_in(t, g, w).contains(x)
}

/// Whether a name is that of a line among the first sections.
pub open spec fn names_line(
    sections: Seq<section::RawSectionView>,
    n: int,
    number: text::Text,
) -> bool {
    exists|j: int| 0 <= j < n && is_line(#[trigger] sections[j]) && sections[j].name == number
}

/// Whether a name is that of a profile among the first sections.
pub open spec fn names_profile(
    sections: Seq<section::RawSectionView>,
    n: int,
    name: text::Text,
) -> bool {
    exists|j: int|
        0 <= j < n && is_profile(#[trigger] sections[j]) && softkey::name_of_profile(
            sections[j].name,
        ) == name
}

/// Whether the lines of the first sections are those of a list.
#[verifier::opaque]
pub open spec fn holds_lines(
    all: assembly::LinesView,
    sections: Seq<section::RawSectionView>,
    n: int,
    g: policy::GeneralConfigView,
    w: rules::LayerRulesView,
) -> bool {
    &&& all.lines.len() == all.features.len()
    &&& forall|j: int|
        0 <= j < n && is_line(#[trigger] sections[j]) ==> line_in(sections[j], g, w) is Some
            && meaning::line_at(all.lines, sections[j].name) == Some(
            line_in(sections[j], g, w)->0.line,
        ) && features_at(all, sections[j].name) == Some(line_in(sections[j], g, w)->0.features)
    &&& forall|number: text::Text| #[trigger]
        meaning::line_at(all.lines, number) is Some ==> names_line(sections, n, number)
}

/// Whether the profiles of the first sections are those of a list.
#[verifier::opaque]
pub open spec fn holds_profiles(
    all: assembly::LinesView,
    sections: Seq<section::RawSectionView>,
    n: int,
) -> bool {
    &&& forall|j: int|
        0 <= j < n && is_profile(#[trigger] sections[j]) ==> profile_in(sections[j]) is Some
            && profile_at(all.profiles, softkey::name_of_profile(sections[j].name)) == profile_in(
            sections[j],
        )
    &&& forall|name: text::Text| #[trigger]
        profile_at(all.profiles, name) == profile_at(assembly::no_lines().profiles, name)
            || names_profile(sections, n, name)
}

/// Whether the claims of the first sections are those of a list.
#[verifier::opaque]
pub open spec fn holds_claims(
    all: assembly::LinesView,
    sections: Seq<section::RawSectionView>,
    n: int,
    g: policy::GeneralConfigView,
    w: rules::LayerRulesView,
) -> bool {
    forall|x: policy::RegistrationTargetView| #[trigger]
        is_owned(all.owners, x) <==> exists|j: int|
            0 <= j < n && is_line(#[trigger] sections[j]) && targets_in(
                sections[j],
                g,
                w,
            ).contains(x)
}

/// Whether the overrides of the first sections are those of a list.
#[verifier::opaque]
pub open spec fn holds_overrides(
    all: assembly::LinesView,
    sections: Seq<section::RawSectionView>,
    n: int,
) -> bool {
    &&& forall|number: text::Text| #[trigger]
        all.codecs.contains(number) <==> exists|j: int|
            0 <= j < n && is_line(#[trigger] sections[j]) && sections[j].name == number
                && assembly::sets_codecs(sections[j])
    &&& forall|number: text::Text| #[trigger]
        all.encryption.contains(number) <==> exists|j: int|
            0 <= j < n && is_line(#[trigger] sections[j]) && sections[j].name == number
                && assembly::sets_encryption(sections[j])
}

/// Whether a list is that of the first sections.
pub open spec fn holds(
    all: assembly::LinesView,
    sections: Seq<section::RawSectionView>,
    n: int,
    g: policy::GeneralConfigView,
    w: rules::LayerRulesView,
) -> bool {
    &&& holds_lines(all, sections, n, g, w)
    &&& holds_profiles(all, sections, n)
    &&& holds_claims(all, sections, n, g, w)
    &&& holds_overrides(all, sections, n)
}

/// What one more section makes of the lines and profiles.
#[verifier::opaque]
pub open spec fn is_joined(
    next: assembly::LinesView,
    all: assembly::LinesView,
    s: section::RawSectionView,
    g: policy::GeneralConfigView,
    w: rules::LayerRulesView,
) -> bool {
    if is_line(s) {
        &&& line_in(s, g, w) is Some
        &&& next.lines == all.lines.push(line_in(s, g, w)->0.line)
        &&& next.features == all.features.push(line_in(s, g, w)->0.features)
        &&& next.profiles == all.profiles
        &&& forall|x: policy::RegistrationTargetView| #[trigger]
            is_owned(next.owners, x) <==> is_owned(all.owners, x) || targets_in(
                s,
                g,
                w,
            ).contains(x)
        &&& next.codecs == assembly::marked(all.codecs, s.name, assembly::sets_codecs(s))
        &&& next.encryption == assembly::marked(
            all.encryption,
            s.name,
            assembly::sets_encryption(s),
        )
    } else if is_profile(s) {
        &&& profile_in(s) is Some
        &&& next == (assembly::LinesView {
            profiles: assembly::with_profile(all.profiles, profile_in(s)->0),
            ..all
        })
    } else {
        next == all
    }
}

/// What accepted sections are named.
proof fn lemma_names(
    s: section::RawSectionView,
    g: policy::GeneralConfigView,
    w: rules::LayerRulesView,
)
    ensures
        line_in(s, g, w) matches Some(p) ==> p.line.number == s.name,
        profile_in(s) matches Some(p) ==> p.name == softkey::name_of_profile(s.name),
{
    reveal(line_in);
    reveal(profile_in);
}

/// The kinds of sections differ.
proof fn lemma_kinds(s: section::RawSectionView)
    ensures
        !(is_line(s) && is_profile(s)),
        !(is_line(s) && assembly::is_device(s)),
        !(is_profile(s) && assembly::is_device(s)),
        !assembly::is_general(s) ==> (assembly::is_device(s) <==> (section::value_of(s, "type"@)
            matches Some(kind) && text::lower(kind) == "device"@)),
{
    reveal_strlit("device");
    reveal_strlit("line");
    reveal_strlit("softkey_profile");
    assert("device"@.len() == 6 && "line"@.len() == 4 && "softkey_profile"@.len() == 15);
    assert(text::lower("device"@) =~= "device"@);
}

/// Whether a line section can join: no line of its number, no target of its
/// own that is owned, none twice.
pub open spec fn can_join(
    all: assembly::LinesView,
    s: section::RawSectionView,
    g: policy::GeneralConfigView,
    w: rules::LayerRulesView,
) -> bool {
    &&& line_in(s, g, w) is Some
    &&& meaning::line_at(all.lines, s.name) is None
    &&& forall|x: policy::RegistrationTargetView| #[trigger]
        targets_in(s, g, w).contains(x) ==> !is_owned(all.owners, x)
    &&& targets_in(s, g, w).no_duplicates()
}

/// When a line section joins, and what it makes.
proof fn lemma_with_line(
    all: assembly::LinesView,
    s: section::RawSectionView,
    g: policy::GeneralConfigView,
    w: rules::LayerRulesView,
)
    requires
        is_line(s),
    ensures
        assembly::with_line(all, s, g, w) is Ok <==> can_join(all, s, g, w),
        assembly::with_line(all, s, g, w) matches Ok(next) ==> is_joined(next, all, s, g, w),
{
    lemma_names(s, g, w);
    let key = section::key_place(s, "regexten"@);
    let targets = targets_in(s, g, w);
    assert(line_in(s, g, w) == value::value_in(line::line_setting(s, g, w))) by {
        reveal(line_in);
    }
    lemma_claimed(all.owners, targets, 0, s.name, key);
    assert(targets.skip(0) =~= targets);
    reveal(is_joined);
    if assembly::with_line(all, s, g, w) is Ok {
        assert forall|x: policy::RegistrationTargetView| #[trigger]
            targets.contains(x) implies !is_owned(all.owners, x) by {
            let k = choose|k: int| 0 <= k < targets.len() && targets[k] == x;
            assert(!is_owned(all.owners, targets[k]));
        }
    }
    if can_join(all, s, g, w) {
        assert forall|k: int| 0 <= k < targets.len() implies !is_owned(
            all.owners,
            #[trigger] targets[k],
        ) by {
            assert(targets.contains(targets[k]));
        }
    }
}

/// When a section joins, and what it makes.
proof fn lemma_with_section(
    all: assembly::LinesView,
    s: section::RawSectionView,
    g: policy::GeneralConfigView,
    w: rules::LayerRulesView,
)
    ensures
        assembly::with_section(all, s, g, w) is Ok <==> assembly::is_general(s)
            || assembly::is_device(s) || is_line(s) && can_join(all, s, g, w) || is_profile(s)
            && profile_in(s) is Some,
        assembly::with_section(all, s, g, w) matches Ok(next) ==> is_joined(next, all, s, g, w),
{
    lemma_kinds(s);
    reveal(is_joined);
    if is_line(s) {
        lemma_with_line(all, s, g, w);
    }
    if is_profile(s) {
        reveal(profile_in);
    }
}

/// When a section joins the lines and profiles of those before it.
proof fn lemma_joins(
    all: assembly::LinesView,
    sections: Seq<section::RawSectionView>,
    n: int,
    g: policy::GeneralConfigView,
    w: rules::LayerRulesView,
)
    requires
        0 <= n < sections.len(),
        fidelity::are_readable(sections),
        holds_lines(all, sections, n, g, w),
        holds_claims(all, sections, n, g, w),
        is_line(sections[n]),
    ensures
        can_join(all, sections[n], g, w) <==> is_acceptable(sections[n], g, w) && forall|j: int|
            0 <= j < n ==> !share_target(#[trigger] sections[j], sections[n], g, w),
{
    reveal(holds_lines);
    reveal(holds_claims);
    reveal(is_acceptable);
    reveal(share_target);
    let s = sections[n];
    lemma_kinds(s);
    let targets = targets_in(s, g, w);
    if meaning::line_at(all.lines, s.name) is Some {
        let j = choose|j: int|
            0 <= j < n && is_line(#[trigger] sections[j]) && sections[j].name == s.name;
        assert(text::same_fold(sections[j].name, sections[n].name));
        assert(false);
    }
    if can_join(all, s, g, w) {
        assert forall|j: int| 0 <= j < n implies !share_target(#[trigger] sections[j], s, g, w) by {
            if share_target(sections[j], s, g, w) {
                let x = choose|x: policy::RegistrationTargetView| #[trigger]
                    targets_in(sections[j], g, w).contains(x) && targets.contains(x);
                assert(is_owned(all.owners, x));
            }
        }
    }
    if is_acceptable(s, g, w) && forall|j: int|
        0 <= j < n ==> !share_target(#[trigger] sections[j], s, g, w) {
        assert forall|x: policy::RegistrationTargetView| #[trigger]
            targets.contains(x) implies !is_owned(all.owners, x) by {
            if is_owned(all.owners, x) {
                let j = choose|j: int|
                    0 <= j < n && is_line(#[trigger] sections[j]) && targets_in(
                        sections[j],
                        g,
                        w,
                    ).contains(x);
                assert(share_target(sections[j], s, g, w));
            }
        }
    }
}

/// One more section among the first of a list.
proof fn lemma_one_more(sections: Seq<section::RawSectionView>, n: int, name: text::Text)
    requires
        0 <= n < sections.len(),
    ensures
        names_line(sections, n + 1, name) <==> names_line(sections, n, name) || is_line(
            sections[n],
        ) && sections[n].name == name,
        names_profile(sections, n + 1, name) <==> names_profile(sections, n, name) || is_profile(
            sections[n],
        ) && softkey::name_of_profile(sections[n].name) == name,
{
    if names_line(sections, n + 1, name) {
        let j = choose|j: int|
            0 <= j < n + 1 && is_line(#[trigger] sections[j]) && sections[j].name == name;
        assert(is_line(sections[j]));
    }
    if names_line(sections, n, name) {
        let j = choose|j: int|
            0 <= j < n && is_line(#[trigger] sections[j]) && sections[j].name == name;
        assert(is_line(sections[j]));
    }
    if names_profile(sections, n + 1, name) {
        let j = choose|j: int|
            0 <= j < n + 1 && is_profile(#[trigger] sections[j]) && softkey::name_of_profile(
                sections[j].name,
            ) == name;
        assert(is_profile(sections[j]));
    }
    if names_profile(sections, n, name) {
        let j = choose|j: int|
            0 <= j < n && is_profile(#[trigger] sections[j]) && softkey::name_of_profile(
                sections[j].name,
            ) == name;
        assert(is_profile(sections[j]));
    }
}

/// The lines with one more section.
proof fn lemma_lines_joined(
    next: assembly::LinesView,
    all: assembly::LinesView,
    sections: Seq<section::RawSectionView>,
    n: int,
    g: policy::GeneralConfigView,
    w: rules::LayerRulesView,
)
    requires
        0 <= n < sections.len(),
        fidelity::are_readable(sections),
        holds_lines(all, sections, n, g, w),
        is_joined(next, all, sections[n], g, w),
    ensures
        holds_lines(next, sections, n + 1, g, w),
{
    reveal(holds_lines);
    reveal(is_joined);
    let s = sections[n];
    lemma_names(s, g, w);
    let line = line_in(s, g, w)->0.line;
    if is_line(s) {
        assert forall|number: text::Text| #[trigger]
            button::line_index(next.lines, number) == if s.name == number {
                Some(all.lines.len())
            } else {
                button::line_index(all.lines, number)
            } by {
            lemma_line_pushed(all.lines, line, number);
        }
    } else {
        assert(next.lines == all.lines && next.features == all.features);
    }
    assert forall|number: text::Text| #[trigger] meaning::line_at(next.lines, number) is Some
        implies names_line(sections, n + 1, number) by {
        lemma_one_more(sections, n, number);
        if !(is_line(s) && s.name == number) {
            assert(meaning::line_at(all.lines, number) is Some);
        }
    }
    assert forall|j: int| 0 <= j < n + 1 && is_line(#[trigger] sections[j]) implies line_in(
        sections[j],
        g,
        w,
    ) is Some && meaning::line_at(next.lines, sections[j].name) == Some(
        line_in(sections[j], g, w)->0.line,
    ) && features_at(next, sections[j].name) == Some(line_in(sections[j], g, w)->0.features) by {
        let name = sections[j].name;
        lemma_line_pushed(all.lines, line, name);
        if j < n {
            assert(!text::same_fold(sections[j].name, sections[n].name));
            assert(meaning::line_at(all.lines, name) == Some(line_in(sections[j], g, w)->0.line));
            assert(features_at(all, name) == Some(line_in(sections[j], g, w)->0.features));
        }
    }
}

/// The profiles with one more section.
proof fn lemma_profiles_joined(
    next: assembly::LinesView,
    all: assembly::LinesView,
    sections: Seq<section::RawSectionView>,
    n: int,
    g: policy::GeneralConfigView,
    w: rules::LayerRulesView,
)
    requires
        0 <= n < sections.len(),
        fidelity::are_readable(sections),
        holds_profiles(all, sections, n),
        is_joined(next, all, sections[n], g, w),
    ensures
        holds_profiles(next, sections, n + 1),
{
    reveal(holds_profiles);
    reveal(is_joined);
    let s = sections[n];
    lemma_names(s, g, w);
    lemma_kinds(s);
    let p = profile_in(s)->0;
    if is_profile(s) {
        assert forall|name: text::Text| #[trigger]
            profile_at(next.profiles, name) == if p.name == name {
                Some(p)
            } else {
                profile_at(all.profiles, name)
            } by {
            lemma_with_profile(all.profiles, p, name);
        }
    } else {
        assert(next.profiles == all.profiles);
    }
    assert forall|name: text::Text| #[trigger]
        profile_at(next.profiles, name) == profile_at(assembly::no_lines().profiles, name)
            || names_profile(sections, n + 1, name) by {
        lemma_one_more(sections, n, name);
        assert(profile_at(all.profiles, name) == profile_at(assembly::no_lines().profiles, name)
            || names_profile(sections, n, name));
    }
    assert forall|j: int| 0 <= j < n + 1 && is_profile(#[trigger] sections[j]) implies profile_in(
        sections[j],
    ) is Some && profile_at(next.profiles, softkey::name_of_profile(sections[j].name))
        == profile_in(sections[j]) by {
        let name = softkey::name_of_profile(sections[j].name);
        if j < n {
            assert(!text::same_fold(sections[j].name, sections[n].name));
            assert(fidelity::is_section_name(sections[j].name));
            assert(fidelity::is_section_name(sections[n].name));
            assert(profile_at(all.profiles, name) == profile_in(sections[j]));
        }
    }
}

/// The claims with one more section.
proof fn lemma_claims_joined(
    next: assembly::LinesView,
    all: assembly::LinesView,
    sections: Seq<section::RawSectionView>,
    n: int,
    g: policy::GeneralConfigView,
    w: rules::LayerRulesView,
)
    requires
        0 <= n < sections.len(),
        holds_claims(all, sections, n, g, w),
        is_joined(next, all, sections[n], g, w),
    ensures
        holds_claims(next, sections, n + 1, g, w),
{
    reveal(holds_claims);
    reveal(is_joined);
    let s = sections[n];
    assert forall|x: policy::RegistrationTargetView| #[trigger]
        is_owned(next.owners, x) <==> exists|j: int|
            0 <= j < n + 1 && is_line(#[trigger] sections[j]) && targets_in(
                sections[j],
                g,
                w,
            ).contains(x) by {
        assert(is_owned(next.owners, x) <==> is_owned(all.owners, x) || is_line(s) && targets_in(
            s,
            g,
            w,
        ).contains(x));
        if is_owned(all.owners, x) {
            let j = choose|j: int|
                0 <= j < n && is_line(#[trigger] sections[j]) && targets_in(
                    sections[j],
                    g,
                    w,
                ).contains(x);
            assert(is_line(sections[j]));
        }
    }
}

/// A list of names with one more where a condition holds.
pub(crate) proof fn lemma_marked(list: Seq<text::Text>, name: text::Text, condition: bool, x: text::Text)
    ensures
        assembly::marked(list, name, condition).contains(x) <==> list.contains(x) || condition
            && name == x,
{
    let next = list.push(name);
    if list.contains(x) {
        let k = choose|k: int| 0 <= k < list.len() && list[k] == x;
        assert(next[k] == x);
    }
    assert(next[list.len() as int] == name);
    if next.contains(x) {
        let k = choose|k: int| 0 <= k < next.len() && next[k] == x;
        if k < list.len() {
            assert(list[k] == x);
        }
    }
}

/// The overrides with one more section.
proof fn lemma_overrides_joined(
    next: assembly::LinesView,
    all: assembly::LinesView,
    sections: Seq<section::RawSectionView>,
    n: int,
    g: policy::GeneralConfigView,
    w: rules::LayerRulesView,
)
    requires
        0 <= n < sections.len(),
        holds_overrides(all, sections, n),
        is_joined(next, all, sections[n], g, w),
    ensures
        holds_overrides(next, sections, n + 1),
{
    reveal(holds_overrides);
    reveal(is_joined);
    let s = sections[n];
    assert forall|number: text::Text| #[trigger]
        next.codecs.contains(number) <==> exists|j: int|
            0 <= j < n + 1 && is_line(#[trigger] sections[j]) && sections[j].name == number
                && assembly::sets_codecs(sections[j]) by {
        lemma_marked(all.codecs, s.name, assembly::sets_codecs(s), number);
        assert(next.codecs.contains(number) <==> all.codecs.contains(number) || is_line(s)
            && s.name == number && assembly::sets_codecs(s));
        if all.codecs.contains(number) {
            let j = choose|j: int|
                0 <= j < n && is_line(#[trigger] sections[j]) && sections[j].name == number
                    && assembly::sets_codecs(sections[j]);
            assert(is_line(sections[j]));
        }
    }
    assert forall|number: text::Text| #[trigger]
        next.encryption.contains(number) <==> exists|j: int|
            0 <= j < n + 1 && is_line(#[trigger] sections[j]) && sections[j].name == number
                && assembly::sets_encryption(sections[j]) by {
        lemma_marked(all.encryption, s.name, assembly::sets_encryption(s), number);
        assert(next.encryption.contains(number) <==> all.encryption.contains(number) || is_line(s)
            && s.name == number && assembly::sets_encryption(s));
        if all.encryption.contains(number) {
            let j = choose|j: int|
                0 <= j < n && is_line(#[trigger] sections[j]) && sections[j].name == number
                    && assembly::sets_encryption(sections[j]);
            assert(is_line(sections[j]));
        }
    }
}

/// Whether a section is accepted behind those before it.
pub open spec fn is_welcome(
    sections: Seq<section::RawSectionView>,
    k: int,
    g: policy::GeneralConfigView,
    w: rules::LayerRulesView,
) -> bool {
    &&& is_acceptable(sections[k], g, w)
    &&& forall|j: int| 0 <= j < k ==> !share_target(#[trigger] sections[j], sections[k], g, w)
}

/// When a section joins, and what it makes.
proof fn lemma_step(
    all: assembly::LinesView,
    sections: Seq<section::RawSectionView>,
    n: int,
    g: policy::GeneralConfigView,
    w: rules::LayerRulesView,
)
    requires
        0 <= n < sections.len(),
        fidelity::are_readable(sections),
        holds(all, sections, n, g, w),
    ensures
        assembly::with_section(all, sections[n], g, w) is Ok <==> is_welcome(sections, n, g, w),
        assembly::with_section(all, sections[n], g, w) matches Ok(next) ==> holds(
            next,
            sections,
            n + 1,
            g,
            w,
        ),
{
    let s = sections[n];
    lemma_with_section(all, s, g, w);
    lemma_kinds(s);
    if let Ok(next) = assembly::with_section(all, s, g, w) {
        lemma_lines_joined(next, all, sections, n, g, w);
        lemma_profiles_joined(next, all, sections, n, g, w);
        lemma_claims_joined(next, all, sections, n, g, w);
        lemma_overrides_joined(next, all, sections, n, g, w);
    }
    if is_line(s) {
        lemma_joins(all, sections, n, g, w);
    } else {
        reveal(is_acceptable);
        reveal(share_target);
    }
}

/// When the sections from one on give lines and profiles, and which.
proof fn lemma_lines(
    sections: Seq<section::RawSectionView>,
    i: int,
    all: assembly::LinesView,
    g: policy::GeneralConfigView,
    w: rules::LayerRulesView,
)
    requires
        0 <= i <= sections.len(),
        fidelity::are_readable(sections),
        holds(all, sections, i, g, w),
    ensures
        assembly::lines_from(sections, i, all, g, w) is Ok <==> forall|k: int|
            i <= k < sections.len() ==> #[trigger] is_welcome(sections, k, g, w),
        assembly::lines_from(sections, i, all, g, w) matches Ok(after) ==> holds(
            after,
            sections,
            sections.len() as int,
            g,
            w,
        ),
    decreases sections.len() - i,
{
    if i < sections.len() {
        lemma_step(all, sections, i, g, w);
        match assembly::with_section(all, sections[i], g, w) {
            Ok(next) => {
                lemma_lines(sections, i + 1, next, g, w);
                assert(is_welcome(sections, i, g, w));
            },
            Err(_) => {
                assert(!is_welcome(sections, i, g, w));
            },
        }
    }
}

/// No section has given anything yet.
proof fn lemma_no_lines(
    sections: Seq<section::RawSectionView>,
    g: policy::GeneralConfigView,
    w: rules::LayerRulesView,
)
    ensures
        holds(assembly::no_lines(), sections, 0, g, w),
{
    reveal(holds_lines);
    reveal(holds_profiles);
    reveal(holds_claims);
    reveal(holds_overrides);
}

/// Whether two lists hold the same sections.
pub open spec fn are_reordered(
    a: Seq<section::RawSectionView>,
    b: Seq<section::RawSectionView>,
) -> bool {
    &&& fidelity::are_readable(a)
    &&& fidelity::are_readable(b)
    &&& forall|i: int| 0 <= i < a.len() ==> b.contains(#[trigger] a[i])
    &&& forall|i: int| 0 <= i < b.len() ==> a.contains(#[trigger] b[i])
}

/// Where a section stands in a list.
proof fn lemma_stands(list: Seq<section::RawSectionView>, s: section::RawSectionView) -> (i: int)
    requires
        list.contains(s),
    ensures
        0 <= i < list.len(),
        list[i] == s,
{
    choose|i: int| 0 <= i < list.len() && list[i] == s
}

/// Sections that are accepted in one order are accepted in another.
proof fn lemma_welcome(
    a: Seq<section::RawSectionView>,
    b: Seq<section::RawSectionView>,
    g: policy::GeneralConfigView,
    w: rules::LayerRulesView,
)
    requires
        are_reordered(a, b),
        forall|k: int| 0 <= k < a.len() ==> #[trigger] is_welcome(a, k, g, w),
    ensures
        forall|k: int| 0 <= k < b.len() ==> #[trigger] is_welcome(b, k, g, w),
{
    assert forall|k: int| 0 <= k < b.len() implies #[trigger] is_welcome(b, k, g, w) by {
        assert(a.contains(b[k]));
        let q = lemma_stands(a, b[k]);
        assert(is_welcome(a, q, g, w));
        assert forall|j: int| 0 <= j < k implies !share_target(#[trigger] b[j], b[k], g, w) by {
            assert(a.contains(b[j]));
            let p = lemma_stands(a, b[j]);
            assert(is_welcome(a, p, g, w));
            assert(!text::same_fold(b[j].name, b[k].name));
            if p < q {
                assert(!share_target(a[p], a[q], g, w));
            } else {
                assert(p != q);
                assert(!share_target(a[q], a[p], g, w));
                reveal(share_target);
                if share_target(a[p], a[q], g, w) {
                    let x = choose|x: policy::RegistrationTargetView| #[trigger]
                        targets_in(a[p], g, w).contains(x) && targets_in(a[q], g, w).contains(x);
                    assert(targets_in(a[q], g, w).contains(x));
                    assert(share_target(a[q], a[p], g, w));
                }
            }
        }
    }
}

/// Lists of lines and profiles in which the same is found.
pub open spec fn same_found(l: assembly::LinesView, m: assembly::LinesView) -> bool {
    &&& meaning::same_lines(l.lines, m.lines)
    &&& forall|number: text::Text| #[trigger] features_at(l, number) == features_at(m, number)
    &&& forall|name: text::Text| #[trigger]
        profile_at(l.profiles, name) == profile_at(m.profiles, name)
    &&& forall|number: text::Text| #[trigger]
        l.codecs.contains(number) == m.codecs.contains(number)
    &&& forall|number: text::Text| #[trigger]
        l.encryption.contains(number) == m.encryption.contains(number)
}

/// The line that sections give is the same in every order.
proof fn lemma_same_line(
    l: assembly::LinesView,
    m: assembly::LinesView,
    a: Seq<section::RawSectionView>,
    b: Seq<section::RawSectionView>,
    g: policy::GeneralConfigView,
    w: rules::LayerRulesView,
    number: text::Text,
)
    requires
        are_reordered(a, b),
        holds_lines(l, a, a.len() as int, g, w),
        holds_lines(m, b, b.len() as int, g, w),
    ensures
        meaning::line_at(l.lines, number) == meaning::line_at(m.lines, number),
        features_at(l, number) == features_at(m, number),
{
    reveal(holds_lines);
    if meaning::line_at(l.lines, number) is Some {
        let j = choose|j: int|
            0 <= j < a.len() && is_line(#[trigger] a[j]) && a[j].name == number;
        assert(is_line(a[j]));
        assert(b.contains(a[j]));
        let k = lemma_stands(b, a[j]);
        assert(is_line(b[k]));
    } else if meaning::line_at(m.lines, number) is Some {
        let j = choose|j: int|
            0 <= j < b.len() && is_line(#[trigger] b[j]) && b[j].name == number;
        assert(is_line(b[j]));
        assert(a.contains(b[j]));
        let k = lemma_stands(a, b[j]);
        assert(is_line(a[k]));
    }
}

/// The profile that sections give is the same in every order.
proof fn lemma_same_profile(
    l: assembly::LinesView,
    m: assembly::LinesView,
    a: Seq<section::RawSectionView>,
    b: Seq<section::RawSectionView>,
    name: text::Text,
)
    requires
        are_reordered(a, b),
        holds_profiles(l, a, a.len() as int),
        holds_profiles(m, b, b.len() as int),
    ensures
        profile_at(l.profiles, name) == profile_at(m.profiles, name),
{
    reveal(holds_profiles);
    let start = profile_at(assembly::no_lines().profiles, name);
    assert(profile_at(l.profiles, name) == start || names_profile(a, a.len() as int, name));
    assert(profile_at(m.profiles, name) == start || names_profile(b, b.len() as int, name));
    if names_profile(a, a.len() as int, name) {
        let j = choose|j: int|
            0 <= j < a.len() && is_profile(#[trigger] a[j]) && softkey::name_of_profile(a[j].name)
                == name;
        assert(is_profile(a[j]));
        assert(b.contains(a[j]));
        let k = lemma_stands(b, a[j]);
        assert(is_profile(b[k]));
    } else if names_profile(b, b.len() as int, name) {
        let j = choose|j: int|
            0 <= j < b.len() && is_profile(#[trigger] b[j]) && softkey::name_of_profile(b[j].name)
                == name;
        assert(is_profile(b[j]));
        assert(a.contains(b[j]));
        let k = lemma_stands(a, b[j]);
        assert(is_profile(a[k]));
    }
}

/// The overrides that sections give in one order they give in another.
proof fn lemma_same_overrides(
    l: assembly::LinesView,
    m: assembly::LinesView,
    a: Seq<section::RawSectionView>,
    b: Seq<section::RawSectionView>,
    number: text::Text,
)
    requires
        are_reordered(a, b),
        holds_overrides(l, a, a.len() as int),
        holds_overrides(m, b, b.len() as int),
    ensures
        l.codecs.contains(number) ==> m.codecs.contains(number),
        l.encryption.contains(number) ==> m.encryption.contains(number),
{
    reveal(holds_overrides);
    if l.codecs.contains(number) {
        let j = choose|j: int|
            0 <= j < a.len() && is_line(#[trigger] a[j]) && a[j].name == number
                && assembly::sets_codecs(a[j]);
        assert(b.contains(a[j]));
        let k = lemma_stands(b, a[j]);
        assert(is_line(b[k]));
    }
    if l.encryption.contains(number) {
        let j = choose|j: int|
            0 <= j < a.len() && is_line(#[trigger] a[j]) && a[j].name == number
                && assembly::sets_encryption(a[j]);
        assert(b.contains(a[j]));
        let k = lemma_stands(b, a[j]);
        assert(is_line(b[k]));
    }
}

/// Whether every line has features.
pub open spec fn features_match(l: assembly::LinesView) -> bool {
    l.lines.len() == l.features.len()
}

/// Sections give the same lines and profiles in every order.
proof fn lemma_reordered_lines(
    a: Seq<section::RawSectionView>,
    b: Seq<section::RawSectionView>,
    g: policy::GeneralConfigView,
    w: rules::LayerRulesView,
)
    requires
        are_reordered(a, b),
        assembly::lines_from(a, 0, assembly::no_lines(), g, w) is Ok,
    ensures
        assembly::lines_from(b, 0, assembly::no_lines(), g, w) is Ok,
        same_found(
            assembly::lines_from(a, 0, assembly::no_lines(), g, w)->Ok_0,
            assembly::lines_from(b, 0, assembly::no_lines(), g, w)->Ok_0,
        ),
        features_match(assembly::lines_from(a, 0, assembly::no_lines(), g, w)->Ok_0),
        features_match(assembly::lines_from(b, 0, assembly::no_lines(), g, w)->Ok_0),
{
    let all = assembly::no_lines();
    lemma_no_lines(a, g, w);
    lemma_no_lines(b, g, w);
    lemma_lines(a, 0, all, g, w);
    lemma_welcome(a, b, g, w);
    lemma_lines(b, 0, all, g, w);
    let l = assembly::lines_from(a, 0, all, g, w)->Ok_0;
    let m = assembly::lines_from(b, 0, all, g, w)->Ok_0;
    lemma_same_found(l, m, a, b, g, w);
    reveal(holds_lines);
}

/// Lists of lines and profiles of the same sections hold the same.
proof fn lemma_same_found(
    l: assembly::LinesView,
    m: assembly::LinesView,
    a: Seq<section::RawSectionView>,
    b: Seq<section::RawSectionView>,
    g: policy::GeneralConfigView,
    w: rules::LayerRulesView,
)
    requires
        are_reordered(a, b),
        holds(l, a, a.len() as int, g, w),
        holds(m, b, b.len() as int, g, w),
    ensures
        same_found(l, m),
{
    assert forall|number: text::Text| #[trigger]
        meaning::line_at(l.lines, number) == meaning::line_at(m.lines, number) by {
        lemma_same_line(l, m, a, b, g, w, number);
    }
    assert forall|number: text::Text| #[trigger]
        features_at(l, number) == features_at(m, number) by {
        lemma_same_line(l, m, a, b, g, w, number);
    }
    assert forall|name: text::Text| #[trigger]
        profile_at(l.profiles, name) == profile_at(m.profiles, name) by {
        lemma_same_profile(l, m, a, b, name);
    }
    assert forall|number: text::Text| #[trigger]
        l.codecs.contains(number) == m.codecs.contains(number) by {
        lemma_same_overrides(l, m, a, b, number);
        lemma_same_overrides(m, l, b, a, number);
    }
    assert forall|number: text::Text| #[trigger]
        l.encryption.contains(number) == m.encryption.contains(number) by {
        lemma_same_overrides(l, m, a, b, number);
        lemma_same_overrides(m, l, b, a, number);
    }
}

// ---------------------------------------------------------------------------
// General policy

/// No general section stands behind another.
proof fn lemma_no_other_general(sections: Seq<section::RawSectionView>, i: int, k: int)
    requires
        0 <= k < i <= sections.len(),
        fidelity::are_readable(sections),
        assembly::is_general(sections[k]),
    ensures
        module::next_general(sections, i) is None,
    decreases sections.len() - i,
{
    if i < sections.len() {
        assert(!text::same_fold(sections[k].name, sections[i].name));
        lemma_no_other_general(sections, i + 1, k);
    }
}

/// The general policy is that of the general section, wherever it stands.
proof fn lemma_general_is(
    sections: Seq<section::RawSectionView>,
    i: int,
    k: int,
    w: rules::LayerRulesView,
)
    requires
        0 <= i <= k < sections.len(),
        fidelity::are_readable(sections),
        assembly::is_general(sections[k]),
    ensures
        value::value_in(module::general_from(sections, i, w)) == value::value_in(
            general::general_setting(sections[k], w),
        ),
    decreases k - i,
{
    if i < k {
        assert(!text::same_fold(sections[i].name, sections[k].name));
        lemma_general_is(sections, i + 1, k, w);
    } else {
        lemma_no_other_general(sections, k + 1, k);
    }
}

/// Without a general section the general policy is the default one.
proof fn lemma_general_absent(
    sections: Seq<section::RawSectionView>,
    i: int,
    w: rules::LayerRulesView,
)
    requires
        0 <= i <= sections.len(),
        forall|k: int| 0 <= k < sections.len() ==> !assembly::is_general(#[trigger] sections[k]),
    ensures
        value::value_in(module::general_from(sections, i, w)) == Some(
            defaults::default_general_config(),
        ),
    decreases sections.len() - i,
{
    if i < sections.len() {
        assert(!assembly::is_general(sections[i]));
        lemma_general_absent(sections, i + 1, w);
    }
}

/// Sections give the same general policy in every order.
proof fn lemma_reordered_general(
    a: Seq<section::RawSectionView>,
    b: Seq<section::RawSectionView>,
    w: rules::LayerRulesView,
)
    requires
        are_reordered(a, b),
    ensures
        value::value_in(module::general_from(a, 0, w)) == value::value_in(
            module::general_from(b, 0, w),
        ),
{
    if exists|k: int| 0 <= k < a.len() && assembly::is_general(#[trigger] a[k]) {
        let k = choose|k: int| 0 <= k < a.len() && assembly::is_general(#[trigger] a[k]);
        assert(b.contains(a[k]));
        let l = lemma_stands(b, a[k]);
        lemma_general_is(a, 0, k, w);
        lemma_general_is(b, 0, l, w);
    } else {
        assert forall|k: int| 0 <= k < b.len() implies !assembly::is_general(#[trigger] b[k]) by {
            assert(a.contains(b[k]));
            let l = lemma_stands(a, b[k]);
            assert(!assembly::is_general(a[l]));
        }
        lemma_general_absent(a, 0, w);
        lemma_general_absent(b, 0, w);
    }
}

// ---------------------------------------------------------------------------
// Devices

/// What a device section says, where it is accepted.
#[verifier::opaque]
pub open spec fn device_in(
    s: section::RawSectionView,
    l: assembly::LinesView,
    g: policy::GeneralConfigView,
    w: rules::LayerRulesView,
) -> Option<policy::DeviceConfigView> {
    value::value_in(device::device_setting(s, l.lines, l.profiles, g, w))
}

/// The name of a device is that of its section.
proof fn lemma_device_name(
    s: section::RawSectionView,
    l: assembly::LinesView,
    g: policy::GeneralConfigView,
    w: rules::LayerRulesView,
)
    ensures
        device_in(s, l, g, w) matches Some(d) ==> d.id.name == s.name,
{
    reveal(device_in);
}

/// A device is the same over lines and profiles in which the same is found.
proof fn lemma_device_same(
    s: section::RawSectionView,
    l: assembly::LinesView,
    m: assembly::LinesView,
    g: policy::GeneralConfigView,
    w: rules::LayerRulesView,
)
    requires
        same_found(l, m),
    ensures
        device_in(s, l, g, w) == device_in(s, m, g, w),
{
    reveal(device_in);
    assert(meaning::same_profile_names(l.profiles, m.profiles)) by {
        assert forall|name: text::Text| #[trigger]
            device::profile_index(l.profiles, name) is None == device::profile_index(
                m.profiles,
                name,
            ) is None by {
            assert(profile_at(l.profiles, name) == profile_at(m.profiles, name));
        }
    }
    if let Ok(o) = option::decoded(Scope::Device, s) {
        fidelity::lemma_settings_from(Scope::Device, s.values, 0, Seq::empty());
        assert(meaning::are_alike(o, o));
        meaning::lemma_device_fault(o, o, 0, l.lines, m.lines, l.profiles, m.profiles, w);
        meaning::lemma_device(o, o, l.lines, m.lines, g, w);
    }
}

/// Whether a name is that of a device among the first sections.
pub open spec fn names_device(
    sections: Seq<section::RawSectionView>,
    n: int,
    name: text::Text,
) -> bool {
    exists|j: int|
        0 <= j < n && assembly::is_device(#[trigger] sections[j]) && sections[j].name == name
}

/// Whether the devices of the first sections are those of a list.
#[verifier::opaque]
pub open spec fn holds_devices(
    all: assembly::DevicesView,
    sections: Seq<section::RawSectionView>,
    n: int,
    l: assembly::LinesView,
    g: policy::GeneralConfigView,
    w: rules::LayerRulesView,
) -> bool {
    &&& forall|j: int|
        0 <= j < n && assembly::is_device(#[trigger] sections[j]) ==> device_in(
            sections[j],
            l,
            g,
            w,
        ) is Some && device_at(all.devices, sections[j].name) == device_in(sections[j], l, g, w)
    &&& forall|name: text::Text| #[trigger]
        device_at(all.devices, name) is Some ==> names_device(sections, n, name)
    &&& forall|name: text::Text| #[trigger]
        all.codecs.contains(name) <==> exists|j: int|
            0 <= j < n && assembly::is_device(#[trigger] sections[j]) && sections[j].name == name
                && assembly::sets_codecs(sections[j])
    &&& forall|name: text::Text| #[trigger]
        all.encryption.contains(name) <==> exists|j: int|
            0 <= j < n && assembly::is_device(#[trigger] sections[j]) && sections[j].name == name
                && assembly::sets_encryption(sections[j])
    &&& soundness::devices_distinct(all.devices)
}

/// The devices with one more.
pub open spec fn with_device(
    all: assembly::DevicesView,
    s: section::RawSectionView,
    d: policy::DeviceConfigView,
) -> assembly::DevicesView {
    assembly::DevicesView {
        devices: all.devices.push(d),
        codecs: assembly::marked(all.codecs, d.id.name, assembly::sets_codecs(s)),
        encryption: assembly::marked(all.encryption, d.id.name, assembly::sets_encryption(s)),
    }
}

/// The devices with one more device section.
proof fn lemma_device_joined(
    all: assembly::DevicesView,
    sections: Seq<section::RawSectionView>,
    n: int,
    d: policy::DeviceConfigView,
    l: assembly::LinesView,
    g: policy::GeneralConfigView,
    w: rules::LayerRulesView,
)
    requires
        0 <= n < sections.len(),
        fidelity::are_readable(sections),
        holds_devices(all, sections, n, l, g, w),
        assembly::is_device(sections[n]),
        device_in(sections[n], l, g, w) == Some(d),
    ensures
        assembly::device_index(all.devices, d.id.name) is None,
        holds_devices(with_device(all, sections[n], d), sections, n + 1, l, g, w),
{
    reveal(holds_devices);
    let s = sections[n];
    let next = with_device(all, s, d);
    lemma_device_name(s, l, g, w);
    if device_at(all.devices, s.name) is Some {
        let j = choose|j: int|
            0 <= j < n && assembly::is_device(#[trigger] sections[j]) && sections[j].name == s.name;
        assert(text::same_fold(sections[j].name, sections[n].name));
    }
    assert(device_at(all.devices, s.name) is None);
    assert forall|name: text::Text| #[trigger]
        device_at(next.devices, name) == if name == s.name {
            Some(d)
        } else {
            device_at(all.devices, name)
        } by {
        lemma_device_pushed(all.devices, d, name);
    }
    assert forall|name: text::Text| #[trigger] device_at(next.devices, name) is Some
        implies names_device(sections, n + 1, name) by {
        if name != s.name {
            assert(device_at(all.devices, name) is Some);
            let j = choose|j: int|
                0 <= j < n && assembly::is_device(#[trigger] sections[j]) && sections[j].name
                    == name;
            assert(assembly::is_device(sections[j]));
        } else {
            assert(assembly::is_device(sections[n]));
        }
    }
    assert forall|j: int| 0 <= j < n + 1 && assembly::is_device(#[trigger] sections[j])
        implies device_in(sections[j], l, g, w) is Some && device_at(
        next.devices,
        sections[j].name,
    ) == device_in(sections[j], l, g, w) by {
        if j < n {
            assert(!text::same_fold(sections[j].name, sections[n].name));
        }
    }
    assert forall|name: text::Text| #[trigger]
        next.codecs.contains(name) <==> exists|j: int|
            0 <= j < n + 1 && assembly::is_device(#[trigger] sections[j]) && sections[j].name
                == name && assembly::sets_codecs(sections[j]) by {
        lemma_marked(all.codecs, s.name, assembly::sets_codecs(s), name);
        if all.codecs.contains(name) {
            let j = choose|j: int|
                0 <= j < n && assembly::is_device(#[trigger] sections[j]) && sections[j].name
                    == name && assembly::sets_codecs(sections[j]);
            assert(assembly::is_device(sections[j]));
        }
    }
    assert forall|name: text::Text| #[trigger]
        next.encryption.contains(name) <==> exists|j: int|
            0 <= j < n + 1 && assembly::is_device(#[trigger] sections[j]) && sections[j].name
                == name && assembly::sets_encryption(sections[j]) by {
        lemma_marked(all.encryption, s.name, assembly::sets_encryption(s), name);
        if all.encryption.contains(name) {
            let j = choose|j: int|
                0 <= j < n && assembly::is_device(#[trigger] sections[j]) && sections[j].name
                    == name && assembly::sets_encryption(sections[j]);
            assert(assembly::is_device(sections[j]));
        }
    }
    soundness::lemma_device_index(all.devices, s.name);
    assert forall|i: int, j: int| 0 <= i < j < next.devices.len() implies (
    #[trigger] next.devices[i]).id.name != (#[trigger] next.devices[j]).id.name by {
        assert(next.devices[i] == all.devices[i]);
        if j < all.devices.len() {
            assert(next.devices[j] == all.devices[j]);
        }
    }
}

/// The devices with one more section of another kind.
proof fn lemma_device_passed(
    all: assembly::DevicesView,
    sections: Seq<section::RawSectionView>,
    n: int,
    l: assembly::LinesView,
    g: policy::GeneralConfigView,
    w: rules::LayerRulesView,
)
    requires
        0 <= n < sections.len(),
        holds_devices(all, sections, n, l, g, w),
        !assembly::is_device(sections[n]),
    ensures
        holds_devices(all, sections, n + 1, l, g, w),
{
    reveal(holds_devices);
    assert forall|name: text::Text| #[trigger] device_at(all.devices, name) is Some
        implies names_device(sections, n + 1, name) by {
        let j = choose|j: int|
            0 <= j < n && assembly::is_device(#[trigger] sections[j]) && sections[j].name == name;
        assert(assembly::is_device(sections[j]));
    }
    assert forall|name: text::Text| #[trigger]
        all.codecs.contains(name) <==> exists|j: int|
            0 <= j < n + 1 && assembly::is_device(#[trigger] sections[j]) && sections[j].name
                == name && assembly::sets_codecs(sections[j]) by {
        if all.codecs.contains(name) {
            let j = choose|j: int|
                0 <= j < n && assembly::is_device(#[trigger] sections[j]) && sections[j].name
                    == name && assembly::sets_codecs(sections[j]);
            assert(assembly::is_device(sections[j]));
        }
    }
    assert forall|name: text::Text| #[trigger]
        all.encryption.contains(name) <==> exists|j: int|
            0 <= j < n + 1 && assembly::is_device(#[trigger] sections[j]) && sections[j].name
                == name && assembly::sets_encryption(sections[j]) by {
        if all.encryption.contains(name) {
            let j = choose|j: int|
                0 <= j < n && assembly::is_device(#[trigger] sections[j]) && sections[j].name
                    == name && assembly::sets_encryption(sections[j]);
            assert(assembly::is_device(sections[j]));
        }
    }
}

/// Whether a section gives a device, if it is of one.
pub open spec fn is_provided(
    s: section::RawSectionView,
    l: assembly::LinesView,
    g: policy::GeneralConfigView,
    w: rules::LayerRulesView,
) -> bool {
    assembly::is_device(s) ==> device_in(s, l, g, w) is Some
}

/// When the sections from one on give devices, and which.
proof fn lemma_devices(
    sections: Seq<section::RawSectionView>,
    i: int,
    all: assembly::DevicesView,
    l: assembly::LinesView,
    g: policy::GeneralConfigView,
    w: rules::LayerRulesView,
)
    requires
        0 <= i <= sections.len(),
        fidelity::are_readable(sections),
        holds_devices(all, sections, i, l, g, w),
    ensures
        assembly::devices_from(sections, i, all, l, g, w) is Ok <==> forall|k: int|
            i <= k < sections.len() ==> is_provided(#[trigger] sections[k], l, g, w),
        assembly::devices_from(sections, i, all, l, g, w) matches Ok(after) ==> holds_devices(
            after,
            sections,
            sections.len() as int,
            l,
            g,
            w,
        ),
    decreases sections.len() - i,
{
    if i < sections.len() {
        let s = sections[i];
        let here = device::device_setting(s, l.lines, l.profiles, g, w);
        assert(device_in(s, l, g, w) == value::value_in(here)) by {
            reveal(device_in);
        }
        if !assembly::is_device(s) {
            lemma_device_passed(all, sections, i, l, g, w);
            lemma_devices(sections, i + 1, all, l, g, w);
            assert(is_provided(sections[i], l, g, w));
        } else {
            match here {
                Ok(d) => {
                    lemma_device_joined(all, sections, i, d, l, g, w);
                    lemma_devices(sections, i + 1, with_device(all, s, d), l, g, w);
                    assert(is_provided(sections[i], l, g, w));
                },
                Err(_) => {
                    assert(!is_provided(sections[i], l, g, w));
                },
            }
        }
    }
}

/// Lists of devices in which the same is found.
pub open spec fn same_devices(c: assembly::DevicesView, d: assembly::DevicesView) -> bool {
    &&& forall|name: text::Text| #[trigger] device_at(c.devices, name) == device_at(d.devices, name)
    &&& forall|name: text::Text| #[trigger] c.codecs.contains(name) == d.codecs.contains(name)
    &&& forall|name: text::Text| #[trigger]
        c.encryption.contains(name) == d.encryption.contains(name)
}

/// What sections give of a device in one order they give in another.
proof fn lemma_same_device(
    c: assembly::DevicesView,
    d: assembly::DevicesView,
    a: Seq<section::RawSectionView>,
    b: Seq<section::RawSectionView>,
    l: assembly::LinesView,
    m: assembly::LinesView,
    g: policy::GeneralConfigView,
    w: rules::LayerRulesView,
    name: text::Text,
)
    requires
        are_reordered(a, b),
        same_found(l, m),
        holds_devices(c, a, a.len() as int, l, g, w),
        holds_devices(d, b, b.len() as int, m, g, w),
    ensures
        device_at(c.devices, name) is Some ==> device_at(c.devices, name) == device_at(
            d.devices,
            name,
        ),
        c.codecs.contains(name) ==> d.codecs.contains(name),
        c.encryption.contains(name) ==> d.encryption.contains(name),
{
    reveal(holds_devices);
    if device_at(c.devices, name) is Some {
        let j = choose|j: int|
            0 <= j < a.len() && assembly::is_device(#[trigger] a[j]) && a[j].name == name;
        assert(assembly::is_device(a[j]));
        assert(b.contains(a[j]));
        let k = lemma_stands(b, a[j]);
        assert(assembly::is_device(b[k]));
        lemma_device_same(a[j], l, m, g, w);
    }
    if c.codecs.contains(name) {
        let j = choose|j: int|
            0 <= j < a.len() && assembly::is_device(#[trigger] a[j]) && a[j].name == name
                && assembly::sets_codecs(a[j]);
        assert(b.contains(a[j]));
        let k = lemma_stands(b, a[j]);
        assert(assembly::is_device(b[k]));
    }
    if c.encryption.contains(name) {
        let j = choose|j: int|
            0 <= j < a.len() && assembly::is_device(#[trigger] a[j]) && a[j].name == name
                && assembly::sets_encryption(a[j]);
        assert(b.contains(a[j]));
        let k = lemma_stands(b, a[j]);
        assert(assembly::is_device(b[k]));
    }
}

/// Lines and profiles in which the same is found, the other way round.
proof fn lemma_same_back(l: assembly::LinesView, m: assembly::LinesView)
    requires
        same_found(l, m),
    ensures
        same_found(m, l),
{
    assert forall|number: text::Text| #[trigger]
        meaning::line_at(m.lines, number) == meaning::line_at(l.lines, number) by {
        assert(meaning::line_at(l.lines, number) == meaning::line_at(m.lines, number));
    }
    assert forall|number: text::Text| #[trigger]
        features_at(m, number) == features_at(l, number) by {
        assert(features_at(l, number) == features_at(m, number));
    }
    assert forall|name: text::Text| #[trigger]
        profile_at(m.profiles, name) == profile_at(l.profiles, name) by {
        assert(profile_at(l.profiles, name) == profile_at(m.profiles, name));
    }
    assert forall|number: text::Text| #[trigger]
        m.codecs.contains(number) == l.codecs.contains(number) by {
        assert(l.codecs.contains(number) == m.codecs.contains(number));
    }
    assert forall|number: text::Text| #[trigger]
        m.encryption.contains(number) == l.encryption.contains(number) by {
        assert(l.encryption.contains(number) == m.encryption.contains(number));
    }
}

/// Sections give the same devices in every order.
proof fn lemma_reordered_devices(
    a: Seq<section::RawSectionView>,
    b: Seq<section::RawSectionView>,
    l: assembly::LinesView,
    m: assembly::LinesView,
    g: policy::GeneralConfigView,
    w: rules::LayerRulesView,
)
    requires
        are_reordered(a, b),
        same_found(l, m),
        assembly::devices_from(a, 0, assembly::no_devices(), l, g, w) is Ok,
    ensures
        ({
            let c = assembly::devices_from(a, 0, assembly::no_devices(), l, g, w);
            let d = assembly::devices_from(b, 0, assembly::no_devices(), m, g, w);
            &&& d is Ok
            &&& same_devices(c->Ok_0, d->Ok_0)
            &&& soundness::devices_distinct(c->Ok_0.devices)
            &&& soundness::devices_distinct(d->Ok_0.devices)
        }),
{
    let none = assembly::no_devices();
    assert(holds_devices(none, a, 0, l, g, w) && holds_devices(none, b, 0, m, g, w)) by {
        reveal(holds_devices);
    }
    lemma_devices(a, 0, none, l, g, w);
    assert forall|k: int| 0 <= k < b.len() implies is_provided(#[trigger] b[k], m, g, w) by {
        assert(a.contains(b[k]));
        let j = lemma_stands(a, b[k]);
        assert(is_provided(a[j], l, g, w));
        lemma_device_same(b[k], l, m, g, w);
    }
    lemma_devices(b, 0, none, m, g, w);
    let c = assembly::devices_from(a, 0, none, l, g, w)->Ok_0;
    let d = assembly::devices_from(b, 0, none, m, g, w)->Ok_0;
    lemma_same_back(l, m);
    assert forall|name: text::Text| #[trigger]
        device_at(c.devices, name) == device_at(d.devices, name) by {
        lemma_same_device(c, d, a, b, l, m, g, w, name);
        lemma_same_device(d, c, b, a, m, l, g, w, name);
    }
    assert forall|name: text::Text| #[trigger]
        c.codecs.contains(name) == d.codecs.contains(name) by {
        lemma_same_device(c, d, a, b, l, m, g, w, name);
        lemma_same_device(d, c, b, a, m, l, g, w, name);
    }
    assert forall|name: text::Text| #[trigger]
        c.encryption.contains(name) == d.encryption.contains(name) by {
        lemma_same_device(c, d, a, b, l, m, g, w, name);
        lemma_same_device(d, c, b, a, m, l, g, w, name);
    }
    reveal(holds_devices);
}

// ---------------------------------------------------------------------------
// Bindings

/// Whether texts stand in ascending order, none twice.
pub open spec fn are_ascending(list: Seq<text::Text>) -> bool {
    forall|i: int, j: int|
        0 <= i < j < list.len() ==> text::less(#[trigger] list[i], #[trigger] list[j])
}

/// An ascending list with one more text is ascending.
proof fn lemma_with_text(list: Seq<text::Text>, x: text::Text)
    requires
        are_ascending(list),
        !list.contains(x),
    ensures
        are_ascending(group::with_text(list, x)),
        forall|y: text::Text| #[trigger]
            group::with_text(list, x).contains(y) <==> list.contains(y) || x == y,
    decreases list.len(),
{
    let r = group::with_text(list, x);
    if list.len() == 0 || text::less(list.last(), x) {
        assert forall|i: int, j: int| 0 <= i < j < r.len() implies text::less(
            #[trigger] r[i],
            #[trigger] r[j],
        ) by {
            if j == list.len() && i < list.len() - 1 {
                assert(text::less(list[i], list[list.len() - 1]));
                text::law_text_order_is_total(list[i], list.last(), x);
            }
        }
        assert forall|y: text::Text| #[trigger] r.contains(y) <==> list.contains(y) || x == y by {
            lemma_marked(list, x, true, y);
        }
    } else {
        let head = list.drop_last();
        let last = list.last();
        assert(list[list.len() - 1] == last);
        assert forall|i: int, j: int| 0 <= i < j < head.len() implies text::less(
            #[trigger] head[i],
            #[trigger] head[j],
        ) by {
            assert(text::less(list[i], list[j]));
        }
        assert(!head.contains(x)) by {
            if head.contains(x) {
                let k = choose|k: int| 0 <= k < head.len() && head[k] == x;
                assert(list[k] == x);
            }
        }
        lemma_with_text(head, x);
        let inner = group::with_text(head, x);
        text::law_text_order_is_total(x, last, x);
        assert(text::less(x, last));
        assert forall|i: int, j: int| 0 <= i < j < r.len() implies text::less(
            #[trigger] r[i],
            #[trigger] r[j],
        ) by {
            if j == inner.len() {
                assert(inner.contains(inner[i]));
                if head.contains(inner[i]) {
                    let k = choose|k: int| 0 <= k < head.len() && head[k] == inner[i];
                    assert(text::less(list[k], list[list.len() - 1]));
                }
            } else {
                assert(text::less(inner[i], inner[j]));
            }
        }
        assert forall|y: text::Text| #[trigger] r.contains(y) <==> list.contains(y) || x == y by {
            lemma_marked(inner, last, true, y);
            lemma_marked(head, last, true, y);
            assert(head.push(last) =~= list);
        }
    }
}

/// The sorted names of devices ascend, and are those that devices have.
pub(crate) proof fn lemma_sorted_names(devices: Seq<policy::DeviceConfigView>)
    requires
        soundness::devices_distinct(devices),
    ensures
        are_ascending(assembly::sorted_names(devices)),
        forall|name: text::Text| #[trigger]
            assembly::sorted_names(devices).contains(name) <==> device_at(devices, name) is Some,
    decreases devices.len(),
{
    if devices.len() > 0 {
        let head = devices.drop_last();
        let last = devices.last();
        assert(devices[devices.len() - 1] == last);
        assert forall|i: int, j: int| 0 <= i < j < head.len() implies (
        #[trigger] head[i]).id.name != (#[trigger] head[j]).id.name by {
            assert(devices[i].id.name != devices[j].id.name);
        }
        lemma_sorted_names(head);
        let names = assembly::sorted_names(head);
        soundness::lemma_device_index(head, last.id.name);
        if device_at(head, last.id.name) is Some {
            let i = assembly::device_index(head, last.id.name)->0 as int;
            assert(devices[i].id.name != devices[devices.len() - 1].id.name);
        }
        assert(!names.contains(last.id.name));
        lemma_with_text(names, last.id.name);
        assert(head.push(last) =~= devices);
        assert forall|name: text::Text| #[trigger]
            assembly::sorted_names(devices).contains(name) <==> device_at(devices, name)
                is Some by {
            lemma_device_pushed(head, last, name);
            assert(names.contains(name) <==> device_at(head, name) is Some);
        }
    }
}

/// Ascending lists of the same texts are the same.
proof fn lemma_ascending_same(a: Seq<text::Text>, b: Seq<text::Text>)
    requires
        are_ascending(a),
        are_ascending(b),
        forall|x: text::Text| #[trigger] a.contains(x) <==> b.contains(x),
    ensures
        a == b,
    decreases a.len(),
{
    if a.len() == 0 || b.len() == 0 {
        if a.len() > 0 {
            assert(a.contains(a[0]));
        }
        if b.len() > 0 {
            assert(b.contains(b[0]));
            assert(a.contains(b[0]));
        }
        assert(a =~= b);
    } else {
        let x = a.last();
        let y = b.last();
        let p = a.drop_last();
        let q = b.drop_last();
        assert(a[a.len() - 1] == x && b[b.len() - 1] == y);
        assert(a.contains(x) && b.contains(y));
        assert(b.contains(x) && a.contains(y));
        let i = choose|i: int| 0 <= i < b.len() && b[i] == x;
        let j = choose|j: int| 0 <= j < a.len() && a[j] == y;
        text::law_text_order_is_total(x, y, x);
        if x != y {
            assert(text::less(b[i], b[b.len() - 1]));
            assert(text::less(a[j], a[a.len() - 1]));
        }
        assert forall|i: int, j: int| 0 <= i < j < p.len() implies text::less(
            #[trigger] p[i],
            #[trigger] p[j],
        ) by {
            assert(text::less(a[i], a[j]));
        }
        assert forall|i: int, j: int| 0 <= i < j < q.len() implies text::less(
            #[trigger] q[i],
            #[trigger] q[j],
        ) by {
            assert(text::less(b[i], b[j]));
        }
        assert forall|z: text::Text| #[trigger] p.contains(z) <==> q.contains(z) by {
            lemma_shorter(a, z);
            lemma_shorter(b, z);
            assert(a.contains(z) <==> b.contains(z));
        }
        lemma_ascending_same(p, q);
        assert(p.push(x) =~= a && q.push(y) =~= b);
    }
}

/// What an ascending list holds without its last text.
proof fn lemma_shorter(a: Seq<text::Text>, z: text::Text)
    requires
        are_ascending(a),
        a.len() > 0,
    ensures
        a.drop_last().contains(z) <==> a.contains(z) && z != a.last(),
{
    let p = a.drop_last();
    if p.contains(z) {
        let k = choose|k: int| 0 <= k < p.len() && p[k] == z;
        assert(a[k] == z);
        assert(text::less(a[k], a[a.len() - 1]));
        text::law_text_order_is_total(z, z, z);
    }
    if a.contains(z) && z != a.last() {
        let k = choose|k: int| 0 <= k < a.len() && a[k] == z;
        assert(p[k] == z);
    }
}

/// The bindings of a device are the same over the same lines.
proof fn lemma_bound_from(
    d: policy::DeviceConfigView,
    l: Seq<policy::LineConfigView>,
    m: Seq<policy::LineConfigView>,
    i: int,
    seen: Seq<text::Text>,
    instances: Seq<u32>,
    list: Seq<policy::LineBindingView>,
)
    requires
        meaning::same_lines(l, m),
    ensures
        assembly::bound_from(d, l, i, seen, instances, list) == assembly::bound_from(
            d,
            m,
            i,
            seen,
            instances,
            list,
        ),
    decreases d.buttons.len() - i,
{
    if i < d.buttons.len() {
        match d.buttons[i] {
            station::ButtonDefinitionView::Line(a) => {
                assert(meaning::line_at(l, a.number) == meaning::line_at(m, a.number));
                if let Some(line) = meaning::line_at(l, a.number) {
                    lemma_bound_from(
                        d,
                        l,
                        m,
                        i + 1,
                        seen.push(a.number),
                        instances.push(a.instance),
                        list.push(
                            policy::LineBindingView {
                                device_id: d.id,
                                line_instance: a.instance,
                                appearance: a,
                                line,
                            },
                        ),
                    );
                }
            },
            _ => {
                lemma_bound_from(d, l, m, i + 1, seen, instances, list);
            },
        }
    }
}

/// The bindings of names are the same over the same devices and lines.
proof fn lemma_bindings_from(
    c: Seq<policy::DeviceConfigView>,
    d: Seq<policy::DeviceConfigView>,
    l: Seq<policy::LineConfigView>,
    m: Seq<policy::LineConfigView>,
    names: Seq<text::Text>,
    i: int,
    list: Seq<policy::LineBindingView>,
)
    requires
        0 <= i,
        meaning::same_lines(l, m),
        forall|name: text::Text| #[trigger] device_at(c, name) == device_at(d, name),
    ensures
        assembly::bindings_from(c, l, names, i, list) == assembly::bindings_from(
            d,
            m,
            names,
            i,
            list,
        ),
    decreases names.len() - i,
{
    if i < names.len() {
        assert(device_at(c, names[i]) == device_at(d, names[i]));
        match device_at(c, names[i]) {
            Some(x) => {
                lemma_bound_from(x, l, m, 0, Seq::empty(), Seq::empty(), list);
                if let Ok(next) = assembly::bound_from(
                    x,
                    l,
                    0,
                    Seq::empty(),
                    Seq::empty(),
                    list,
                ) {
                    lemma_bindings_from(c, d, l, m, names, i + 1, next);
                }
            },
            None => {
                lemma_bindings_from(c, d, l, m, names, i + 1, list);
            },
        }
    }
}

/// No line is without a binding where every line has one.
proof fn lemma_unbound(
    lines: Seq<policy::LineConfigView>,
    list: Seq<policy::LineBindingView>,
)
    ensures
        assembly::first_unbound(lines, list) is None <==> forall|i: int|
            0 <= i < lines.len() ==> assembly::is_bound(list, (#[trigger] lines[i]).number),
    decreases lines.len(),
{
    if lines.len() > 0 {
        let rest = lines.skip(1);
        lemma_unbound(rest, list);
        if assembly::first_unbound(lines, list) is None {
            assert forall|i: int| 0 <= i < lines.len() implies assembly::is_bound(
                list,
                (#[trigger] lines[i]).number,
            ) by {
                if i > 0 {
                    assert(rest[i - 1] == lines[i]);
                }
            }
        }
        if forall|i: int|
            0 <= i < lines.len() ==> assembly::is_bound(list, (#[trigger] lines[i]).number) {
            assert(assembly::is_bound(list, lines[0].number));
            assert forall|i: int| 0 <= i < rest.len() implies assembly::is_bound(
                list,
                (#[trigger] rest[i]).number,
            ) by {
                assert(rest[i] == lines[i + 1]);
            }
        }
    }
}

/// The same lines are bound by the same bindings, and are as many as one.
proof fn lemma_bound_alike(
    l: Seq<policy::LineConfigView>,
    m: Seq<policy::LineConfigView>,
    list: Seq<policy::LineBindingView>,
)
    requires
        meaning::same_lines(l, m),
        assembly::first_unbound(l, list) is None,
    ensures
        assembly::first_unbound(m, list) is None,
        l.len() > 0 ==> m.len() > 0,
{
    lemma_unbound(l, list);
    lemma_unbound(m, list);
    assert forall|i: int| 0 <= i < m.len() implies assembly::is_bound(
        list,
        (#[trigger] m[i]).number,
    ) by {
        let number = m[i].number;
        soundness::lemma_line_index(m, number);
        soundness::lemma_line_index(l, number);
        assert(meaning::line_at(l, number) == meaning::line_at(m, number));
        let k = button::line_index(l, number)->0 as int;
        assert(assembly::is_bound(list, l[k].number));
    }
    if l.len() > 0 {
        soundness::lemma_line_index(l, l[0].number);
        soundness::lemma_line_index(m, l[0].number);
        assert(meaning::line_at(l, l[0].number) == meaning::line_at(m, l[0].number));
    }
}

// ---------------------------------------------------------------------------
// Configurations

/// Configurations in which the same is found.
pub open spec fn same_config(c: module::ModuleConfigView, d: module::ModuleConfigView) -> bool {
    &&& c.general == d.general
    &&& forall|name: text::Text| #[trigger] c.device(name) == d.device(name)
    &&& meaning::same_lines(c.lines, d.lines)
    &&& forall|number: text::Text| #[trigger] c.features(number) == d.features(number)
    &&& forall|name: text::Text| #[trigger] c.profile(name) == d.profile(name)
    &&& c.bindings == d.bindings
    &&& forall|name: text::Text| #[trigger]
        c.device_codec_overrides.contains(name) == d.device_codec_overrides.contains(name)
    &&& forall|number: text::Text| #[trigger]
        c.line_codec_overrides.contains(number) == d.line_codec_overrides.contains(number)
    &&& forall|name: text::Text| #[trigger]
        c.device_audio_encryption_overrides.contains(name)
            == d.device_audio_encryption_overrides.contains(name)
    &&& forall|number: text::Text| #[trigger]
        c.line_audio_encryption_overrides.contains(number)
            == d.line_audio_encryption_overrides.contains(number)
}

/// The same lines and devices make the same configuration.
proof fn lemma_bound_config(
    g: policy::GeneralConfigView,
    l: assembly::LinesView,
    m: assembly::LinesView,
    c: assembly::DevicesView,
    d: assembly::DevicesView,
    w: rules::LayerRulesView,
)
    requires
        same_found(l, m),
        features_match(l),
        features_match(m),
        same_devices(c, d),
        soundness::devices_distinct(c.devices),
        soundness::devices_distinct(d.devices),
        module::bound_config(g, l, c, w) is Ok,
    ensures
        module::bound_config(g, m, d, w) is Ok,
        same_config(module::bound_config(g, l, c, w)->Ok_0, module::bound_config(g, m, d, w)->Ok_0),
{
    lemma_sorted_names(c.devices);
    lemma_sorted_names(d.devices);
    let names = assembly::sorted_names(c.devices);
    let others = assembly::sorted_names(d.devices);
    assert forall|name: text::Text| #[trigger] names.contains(name) <==> others.contains(name) by {
        assert(device_at(c.devices, name) == device_at(d.devices, name));
        assert(others.contains(name) <==> device_at(d.devices, name) is Some);
    }
    lemma_ascending_same(names, others);
    lemma_bindings_from(c.devices, d.devices, l.lines, m.lines, names, 0, Seq::empty());
    let bindings = assembly::bindings_of(c.devices, l.lines)->Ok_0;
    lemma_bound_alike(l.lines, m.lines, bindings);
    assert(d.devices.len() > 0) by {
        let name = c.devices[0].id.name;
        soundness::lemma_device_index(c.devices, name);
        soundness::lemma_device_index(d.devices, name);
        assert(device_at(c.devices, name) == device_at(d.devices, name));
    }
    let x = module::bound_config(g, l, c, w)->Ok_0;
    let y = module::bound_config(g, m, d, w)->Ok_0;
    assert forall|name: text::Text| #[trigger] x.device(name) == y.device(name) by {
        assert(device_at(c.devices, name) == device_at(d.devices, name));
    }
    assert forall|number: text::Text| #[trigger] x.features(number) == y.features(number) by {
        assert(features_at(l, number) == features_at(m, number));
        soundness::lemma_line_index(l.lines, number);
        soundness::lemma_line_index(m.lines, number);
    }
    assert forall|name: text::Text| #[trigger] x.profile(name) == y.profile(name) by {
        assert(profile_at(l.profiles, name) == profile_at(m.profiles, name));
    }
}

/// The order in which sections stand does not matter: the same sections are
/// accepted in every order, and configure the same.
pub proof fn law_order_of_sections_does_not_matter(
    a: Seq<section::RawSectionView>,
    b: Seq<section::RawSectionView>,
    w: rules::LayerRulesView,
)
    requires
        are_reordered(a, b),
        module::resolved_config(a, w) is Ok,
    ensures
        module::resolved_config(b, w) is Ok,
        same_config(module::resolved_config(a, w)->Ok_0, module::resolved_config(b, w)->Ok_0),
{
    lemma_reordered_general(a, b, w);
    let g = module::general_from(a, 0, w)->Ok_0;
    lemma_reordered_lines(a, b, g, w);
    let l = assembly::lines_from(a, 0, assembly::no_lines(), g, w)->Ok_0;
    let m = assembly::lines_from(b, 0, assembly::no_lines(), g, w)->Ok_0;
    lemma_reordered_devices(a, b, l, m, g, w);
    let c = assembly::devices_from(a, 0, assembly::no_devices(), l, g, w)->Ok_0;
    let d = assembly::devices_from(b, 0, assembly::no_devices(), m, g, w)->Ok_0;
    lemma_bound_config(g, l, m, c, d, w);
}

/// What is accepted of a section by itself can be written.
proof fn lemma_writable(
    s: section::RawSectionView,
    l: assembly::LinesView,
    g: policy::GeneralConfigView,
    w: rules::LayerRulesView,
)
    requires
        is_acceptable(s, g, w),
        is_provided(s, l, g, w),
        assembly::is_general(s) ==> general::general_setting(s, w) is Ok,
    ensures
        canonical::section_text(s) is Ok,
{
    reveal(is_acceptable);
    reveal(line_in);
    reveal(profile_in);
    reveal(device_in);
    lemma_kinds(s);
    reveal_strlit("general");
    reveal_strlit("device");
    reveal_strlit("line");
    reveal_strlit("softkey_profile");
    assert("general"@.len() == 7 && "device"@.len() == 6 && "line"@.len() == 4
        && "softkey_profile"@.len() == 15);
}

/// The sections of an accepted configuration can be written.
pub(crate) proof fn lemma_all_writable(
    sections: Seq<section::RawSectionView>,
    w: rules::LayerRulesView,
)
    requires
        fidelity::are_readable(sections),
        module::resolved_config(sections, w) is Ok,
    ensures
        forall|i: int|
            0 <= i < sections.len() ==> canonical::section_text(#[trigger] sections[i]) is Ok,
{
    let g = module::general_from(sections, 0, w)->Ok_0;
    let none = assembly::no_lines();
    lemma_no_lines(sections, g, w);
    lemma_lines(sections, 0, none, g, w);
    let l = assembly::lines_from(sections, 0, none, g, w)->Ok_0;
    assert(holds_devices(assembly::no_devices(), sections, 0, l, g, w)) by {
        reveal(holds_devices);
    }
    lemma_devices(sections, 0, assembly::no_devices(), l, g, w);
    assert forall|i: int| 0 <= i < sections.len() implies canonical::section_text(
        #[trigger] sections[i],
    ) is Ok by {
        assert(is_welcome(sections, i, g, w));
        assert(is_provided(sections[i], l, g, w));
        if assembly::is_general(sections[i]) {
            lemma_general_is(sections, 0, i, w);
        }
        lemma_writable(sections[i], l, g, w);
    }
}

/// Configurations in which the same is found answer the same questions alike.
pub proof fn law_same_configurations_answer_alike(
    c: module::ModuleConfigView,
    d: module::ModuleConfigView,
)
    requires
        same_config(c, d),
    ensures
        forall|b: policy::LineBindingView| #[trigger] c.media(b) == d.media(b),
        forall|b: policy::LineBindingView| #[trigger] c.conference(b) == d.conference(b),
        forall|b: policy::LineBindingView| #[trigger] c.hotline(b) == d.hotline(b),
        forall|address: text::Text| #[trigger] c.dialed(address) == d.dialed(address),
        forall|name: text::Text, instance: u32| #[trigger]
            c.button(name, instance) == d.button(name, instance),
        forall|name: text::Text| #[trigger] c.guest_binding(name) == d.guest_binding(name),
        forall|x: policy::DeviceConfigView| #[trigger]
            module::definition_of(c, x) == module::definition_of(d, x),
{
    assert forall|b: policy::LineBindingView| #[trigger] c.media(b) == d.media(b) by {
        let device = b.device_id.name;
        let number = b.line.number;
        assert(c.device(device) == d.device(device) && c.features(number) == d.features(number));
        assert(c.line_codec_overrides.contains(number) == d.line_codec_overrides.contains(number));
        assert(c.device_codec_overrides.contains(device) == d.device_codec_overrides.contains(
            device,
        ));
        assert(c.line_audio_encryption_overrides.contains(number)
            == d.line_audio_encryption_overrides.contains(number));
        assert(c.device_audio_encryption_overrides.contains(device)
            == d.device_audio_encryption_overrides.contains(device));
    }
    assert forall|b: policy::LineBindingView| #[trigger] c.conference(b) == d.conference(b) by {
        assert(c.device(b.device_id.name) == d.device(b.device_id.name));
        assert(c.features(b.line.number) == d.features(b.line.number));
    }
    assert forall|b: policy::LineBindingView| #[trigger] c.hotline(b) == d.hotline(b) by {
        assert(c.device(b.device_id.name) == d.device(b.device_id.name));
        assert(c.features(b.line.number) == d.features(b.line.number));
    }
    assert forall|x: policy::DeviceConfigView| #[trigger]
        module::definition_of(c, x) == module::definition_of(d, x) by {
        assert(c.profile(x.soft_key_profile) == d.profile(x.soft_key_profile));
        let l = x.buttons.map_values(|b: station::ButtonDefinitionView| module::toned(c, b));
        let m = x.buttons.map_values(|b: station::ButtonDefinitionView| module::toned(d, b));
        assert forall|i: int| 0 <= i < l.len() implies l[i] == m[i] by {
            if let station::ButtonDefinitionView::Line(a) = x.buttons[i] {
                assert(c.features(a.number) == d.features(a.number));
            }
        }
        assert(l =~= m);
    }
}

} // verus!
