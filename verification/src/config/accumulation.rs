//! What adds up: settings that a section may hold again and again, and sections
//! that become one configuration.

use vstd::prelude::*;

use crate::config::assembly;
use crate::config::button;
use crate::config::codec;
use crate::config::device;
use crate::config::effect;
use crate::config::effect::unset;
use crate::config::error;
use crate::config::general;
use crate::config::line;
use crate::config::module;
use crate::config::network;
use crate::config::option;
use crate::config::option::{Scope, Setting};
use crate::config::policy;
use crate::config::policy::{AclAction, AclRule};
use crate::config::rules;
use crate::config::section;
use crate::config::soundness;
use crate::config::spelling;
use crate::config::value;
use crate::station;
use crate::station::Codec;
use crate::text;

verus! {

// ---------------------------------------------------------------------------
// One more setting

/// One section holds what another holds, and one more setting behind.
pub open spec fn adds(
    s: section::RawSectionView,
    t: section::RawSectionView,
    x: section::RawValueView,
) -> bool {
    t.name == s.name && t.values == s.values.push(x)
}

/// The options of the longer section begin with those of the shorter.
proof fn lemma_longer(
    scope: Scope,
    s: section::RawSectionView,
    t: section::RawSectionView,
    x: section::RawValueView,
)
    requires
        adds(s, t, x),
        option::decoded(scope, s) is Ok,
        option::decoded(scope, t) is Ok,
    ensures
        ({
            let a = option::decoded(scope, s)->Ok_0;
            let b = option::decoded(scope, t)->Ok_0;
            &&& a.matched() && b.matched()
            &&& a.section == s && b.section == t
            &&& b.settings.len() == a.settings.len() + 1
            &&& forall|i: int|
                0 <= i < a.settings.len() ==> #[trigger] b.settings[i] == a.settings[i]
                    && b.section.values[i] == a.section.values[i]
            &&& option::named(scope, text::lower(x.key)) == Some(b.settings.last())
            &&& b.section.values.last() == x
        }),
{
    effect::lemma_decoded(scope, s);
    effect::lemma_decoded(scope, t);
    let a = option::decoded(scope, s)->Ok_0;
    let b = option::decoded(scope, t)->Ok_0;
    assert forall|i: int| 0 <= i < a.settings.len() implies #[trigger] b.settings[i]
        == a.settings[i] && b.section.values[i] == a.section.values[i] by {
        assert(t.values[i] == s.values[i]);
    }
    assert(t.values[t.values.len() - 1] == x);
}

/// Sections agree on what their first settings add up to.
proof fn lemma_same_sums(a: option::OptionsView, b: option::OptionsView, n: int)
    requires
        0 <= n <= a.settings.len(),
        n <= b.settings.len(),
        forall|i: int|
            0 <= i < n ==> #[trigger] b.settings[i] == a.settings[i] && b.section.values[i]
                == a.section.values[i],
    ensures
        value::acl_upto(a, n) == value::acl_upto(b, n),
        value::local_upto(a, n) == value::local_upto(b, n),
        value::servers_upto(a, n) == value::servers_upto(b, n),
        value::codecs_upto(a, n) == value::codecs_upto(b, n),
    decreases n,
{
    if n > 0 {
        lemma_same_sums(a, b, n - 1);
        assert(b.settings[n - 1] == a.settings[n - 1]);
    }
}

/// An option without a setting adds nothing.
proof fn lemma_no_local(o: option::OptionsView, n: int)
    requires
        0 <= n <= o.settings.len(),
    ensures
        value::local_upto(o, n) is None <==> forall|i: int|
            0 <= i < n ==> #[trigger] o.settings[i] != Setting::LocalNetwork,
    decreases n,
{
    if n > 0 {
        lemma_no_local(o, n - 1);
    }
}

/// What an accepted general section adds up.
proof fn lemma_general_sums(s: section::RawSectionView, w: rules::LayerRulesView)
    requires
        general::general_setting(s, w) is Ok,
    ensures
        ({
            let g = general::general_setting(s, w)->Ok_0;
            let o = option::decoded(Scope::General, s)->Ok_0;
            let n = o.settings.len() as int;
            &&& option::decoded(Scope::General, s) is Ok
            &&& value::first_fault(o, 0, w) is None
            &&& g.network.acl.rules == network::over(value::acl_upto(o, n), Seq::empty())
            &&& g.network.local_networks == network::over(
                value::local_upto(o, n),
                network::internal(),
            )
            &&& g.signaling_servers == value::servers_upto(o, n)
        }),
{
}

/// A further `permit` or `deny` puts its networks behind the rules, in their
/// order, and an empty one takes all rules away. A further `localnet` puts its
/// networks behind those that were set, or in place of the built-in ones; a
/// further `signaling_server` is the last of them. Nothing else changes these
/// lists.
pub proof fn law_further_settings_add_up(
    s: section::RawSectionView,
    t: section::RawSectionView,
    x: section::RawValueView,
    w: rules::LayerRulesView,
)
    requires
        adds(s, t, x),
        general::general_setting(s, w) is Ok,
        general::general_setting(t, w) is Ok,
    ensures
        ({
            let a = general::general_setting(s, w)->Ok_0;
            let b = general::general_setting(t, w)->Ok_0;
            let k = text::lower(x.key);
            let nets = network::networks_setting(section::place(x), x.value);
            let blank = text::trimmed(x.value).len() == 0;
            let before = if unset(s, "localnet"@) {
                Seq::empty()
            } else {
                a.network.local_networks
            };
            &&& k == "permit"@ || k == "deny"@ ==> {
                if blank {
                    b.network.acl.rules.len() == 0
                } else {
                    &&& nets is Ok
                    &&& b.network.acl.rules == a.network.acl.rules + Seq::new(
                        nets->Ok_0.len(),
                        |i: int|
                            AclRule {
                                action: if k == "permit"@ {
                                    AclAction::Permit
                                } else {
                                    AclAction::Deny
                                },
                                network: nets->Ok_0[i],
                            },
                    )
                }
            }
            &&& k != "permit"@ && k != "deny"@ ==> b.network.acl.rules == a.network.acl.rules
            &&& k == "localnet"@ ==> {
                if blank {
                    b.network.local_networks.len() == 0
                } else {
                    nets is Ok && b.network.local_networks == before + nets->Ok_0
                }
            }
            &&& k != "localnet"@ ==> b.network.local_networks == a.network.local_networks
            &&& k == "signaling_server"@ ==> network::server_of(x.value) is Some
                && b.signaling_servers == a.signaling_servers.push(network::server_of(x.value)->0)
            &&& k != "signaling_server"@ ==> b.signaling_servers == a.signaling_servers
        }),
{
    lemma_general_sums(s, w);
    lemma_general_sums(t, w);
    lemma_longer(Scope::General, s, t, x);
    let a = option::decoded(Scope::General, s)->Ok_0;
    let b = option::decoded(Scope::General, t)->Ok_0;
    let n = a.settings.len() as int;
    lemma_same_sums(a, b, n);
    effect::lemma_none_refused(b, w, n, 0);
    lemma_general_lists(text::lower(x.key));
    lemma_no_local(a, n);
    effect::lemma_decoded(Scope::General, s);
    let unnamed = forall|i: int|
        0 <= i < n ==> #[trigger] a.settings[i] != Setting::LocalNetwork;
    assert(unset(s, "localnet"@) <==> unnamed) by {
        if unset(s, "localnet"@) {
            assert forall|i: int| 0 <= i < n implies #[trigger] a.settings[i]
                != Setting::LocalNetwork by {
                lemma_general_lists(text::lower(s.values[i].key));
            }
        }
        if unnamed {
            assert forall|i: int| 0 <= i < s.values.len() implies text::lower(
                (#[trigger] s.values[i]).key,
            ) != "localnet"@ by {
                lemma_general_lists(text::lower(s.values[i].key));
                assert(a.settings[i] != Setting::LocalNetwork);
            }
        }
    }
    lemma_last_sum(b, w);
}

/// What the last setting does.
proof fn lemma_last_sum(o: option::OptionsView, w: rules::LayerRulesView)
    requires
        o.matched(),
        o.settings.len() > 0,
        value::entry_fault(o, o.settings.len() - 1, w) is None,
    ensures
        ({
            let n = o.settings.len() as int;
            let k = o.settings.last();
            let x = o.section.values.last();
            let nets = network::networks_setting(section::place(x), x.value);
            let blank = text::trimmed(x.value).len() == 0;
            let rules = network::over(value::acl_upto(o, n - 1), Seq::empty());
            let local = network::over(value::local_upto(o, n - 1), Seq::empty());
            &&& k == Setting::Permit || k == Setting::Deny ==> {
                if blank {
                    value::acl_upto(o, n) == Some(Seq::<AclRule>::empty())
                } else {
                    &&& nets is Ok
                    &&& value::acl_upto(o, n) == Some(
                        rules + network::rules_for(
                            if k == Setting::Permit {
                                AclAction::Permit
                            } else {
                                AclAction::Deny
                            },
                            nets->Ok_0,
                        ),
                    )
                }
            }
            &&& k != Setting::Permit && k != Setting::Deny ==> value::acl_upto(o, n)
                == value::acl_upto(o, n - 1)
            &&& k == Setting::LocalNetwork ==> {
                if blank {
                    value::local_upto(o, n) == Some(Seq::<policy::IpNetwork>::empty())
                } else {
                    nets is Ok && value::local_upto(o, n) == Some(local + nets->Ok_0)
                }
            }
            &&& k != Setting::LocalNetwork ==> value::local_upto(o, n) == value::local_upto(
                o,
                n - 1,
            )
            &&& k == Setting::SignalingServer ==> network::server_of(x.value) is Some
                && value::servers_upto(o, n) == value::servers_upto(o, n - 1).push(
                network::server_of(x.value)->0,
            )
            &&& k != Setting::SignalingServer ==> value::servers_upto(o, n) == value::servers_upto(
                o,
                n - 1,
            )
        }),
{
}

/// The names of the options that add up in the general section.
proof fn lemma_general_lists(n: text::Text)
    ensures
        n == "permit"@ <==> option::general_named(n) == Some(Setting::Permit),
        n == "deny"@ <==> option::general_named(n) == Some(Setting::Deny),
        n == "localnet"@ <==> option::general_named(n) == Some(Setting::LocalNetwork),
        n == "signaling_server"@ <==> option::general_named(n) == Some(Setting::SignalingServer),
{
    spelling::lemma_general_spellings();
}

// ---------------------------------------------------------------------------
// The lines of a device

proof fn lemma_same_buttons(
    a: option::OptionsView,
    b: option::OptionsView,
    n: int,
    lines: Seq<policy::LineConfigView>,
)
    requires
        0 <= n <= a.settings.len(),
        n <= b.settings.len(),
        a.section.name == b.section.name,
        forall|i: int|
            0 <= i < n ==> #[trigger] b.settings[i] == a.settings[i] && b.section.values[i]
                == a.section.values[i],
    ensures
        device::buttons_upto(a, n, lines) == device::buttons_upto(b, n, lines),
    decreases n,
{
    if n > 0 {
        lemma_same_buttons(a, b, n - 1, lines);
        assert(b.settings[n - 1] == a.settings[n - 1]);
    }
}

proof fn lemma_unrefused(
    o: option::OptionsView,
    lines: Seq<policy::LineConfigView>,
    profiles: Seq<policy::SoftKeyProfileView>,
    w: rules::LayerRulesView,
    i: int,
    j: int,
)
    requires
        0 <= j <= i < o.settings.len(),
        device::first_fault(o, j, lines, profiles, w) is None,
    ensures
        device::entry_fault(o, i, lines, profiles, w) is None,
    decreases i - j,
{
    if j < i {
        lemma_unrefused(o, lines, profiles, w, i, j + 1);
    }
}

/// Options of a button keep the number of its line.
proof fn lemma_options_keep_the_number(
    raw: text::Text,
    fields: Seq<text::Text>,
    i: int,
    seen: Seq<text::Text>,
    a: station::LineAppearanceView,
)
    requires
        button::with_options(raw, fields, i, seen, a) is Ok,
    ensures
        button::with_options(raw, fields, i, seen, a)->Ok_0.number == a.number,
    decreases fields.len() - i,
{
    if i < fields.len() {
        let (key, v) = button::option_of(fields[i], raw)->Ok_0;
        lemma_options_keep_the_number(
            raw,
            fields,
            i + 1,
            seen.push(key),
            button::with_option(a, key, v)->Ok_0,
        );
    }
}

/// A line button shows the line that its first field names.
proof fn lemma_line_button(
    raw: text::Text,
    device: text::Text,
    lines: Seq<policy::LineConfigView>,
    at: button::ButtonInstances,
)
    requires
        button::line_button(raw, device, lines, at) is Ok,
    ensures
        button::line_button(raw, device, lines, at)->Ok_0.definition matches
            station::ButtonDefinitionView::Line(a) && a.number == text::trimmed(
            text::fields_of(raw, ',')[0],
        ),
{
    let fields = text::fields_of(raw, ',');
    let number = text::trimmed(fields[0]);
    soundness::lemma_line_index(lines, number);
    let i = button::line_index(lines, number)->0;
    lemma_options_keep_the_number(
        raw,
        fields,
        1,
        Seq::empty(),
        button::plain_appearance(button::next(at.line), lines[i as int]),
    );
}

/// A further `line` of a device is the last of its lines: the one that stands in
/// front of the first comma. Its other lines stay as they are, in their order.
pub proof fn law_further_lines_come_last(
    s: section::RawSectionView,
    t: section::RawSectionView,
    x: section::RawValueView,
    lines: Seq<policy::LineConfigView>,
    profiles: Seq<policy::SoftKeyProfileView>,
    g: policy::GeneralConfigView,
    w: rules::LayerRulesView,
)
    requires
        adds(s, t, x),
        device::device_setting(s, lines, profiles, g, w) is Ok,
        device::device_setting(t, lines, profiles, g, w) is Ok,
    ensures
        ({
            let a = device::device_setting(s, lines, profiles, g, w)->Ok_0;
            let b = device::device_setting(t, lines, profiles, g, w)->Ok_0;
            let k = text::lower(x.key);
            &&& k == "line"@ ==> b.lines == a.lines.push(
                text::trimmed(text::fields_of(x.value, ',')[0]),
            )
            &&& k != "line"@ && k != "button"@ ==> b.lines == a.lines && b.buttons == a.buttons
        }),
{
    lemma_device_buttons(s, lines, profiles, g, w);
    lemma_device_buttons(t, lines, profiles, g, w);
    lemma_longer(Scope::Device, s, t, x);
    let a = option::decoded(Scope::Device, s)->Ok_0;
    let b = option::decoded(Scope::Device, t)->Ok_0;
    lemma_one_more_button(a, b, lines, profiles, w);
    lemma_device_lists(text::lower(x.key));
}

proof fn lemma_device_buttons(
    s: section::RawSectionView,
    lines: Seq<policy::LineConfigView>,
    profiles: Seq<policy::SoftKeyProfileView>,
    g: policy::GeneralConfigView,
    w: rules::LayerRulesView,
)
    requires
        device::device_setting(s, lines, profiles, g, w) is Ok,
    ensures
        ({
            let d = device::device_setting(s, lines, profiles, g, w)->Ok_0;
            let o = option::decoded(Scope::Device, s)->Ok_0;
            let n = o.settings.len() as int;
            &&& option::decoded(Scope::Device, s) is Ok
            &&& device::first_fault(o, 0, lines, profiles, w) is None
            &&& d.buttons == device::buttons_upto(o, n, lines).buttons
            &&& d.lines == device::line_numbers(device::buttons_upto(o, n, lines).buttons)
        }),
{
}

proof fn lemma_one_more_button(
    a: option::OptionsView,
    b: option::OptionsView,
    lines: Seq<policy::LineConfigView>,
    profiles: Seq<policy::SoftKeyProfileView>,
    w: rules::LayerRulesView,
)
    requires
        a.matched() && b.matched(),
        a.section.name == b.section.name,
        b.settings.len() == a.settings.len() + 1,
        forall|i: int|
            0 <= i < a.settings.len() ==> #[trigger] b.settings[i] == a.settings[i]
                && b.section.values[i] == a.section.values[i],
        device::first_fault(b, 0, lines, profiles, w) is None,
    ensures
        ({
            let x = b.section.values.last();
            let before = device::buttons_upto(a, a.settings.len() as int, lines).buttons;
            let after = device::buttons_upto(b, b.settings.len() as int, lines).buttons;
            &&& b.settings.last() == Setting::Line ==> device::line_numbers(after)
                == device::line_numbers(before).push(
                text::trimmed(text::fields_of(x.value, ',')[0]),
            )
            &&& !device::is_button(b.settings.last()) ==> after == before
        }),
{
    let n = a.settings.len() as int;
    lemma_same_buttons(a, b, n, lines);
    lemma_unrefused(b, lines, profiles, w, n, 0);
    let before = device::buttons_upto(b, n, lines);
    if b.settings[n] == Setting::Line {
        let r = device::button_at(b, n, lines, before.instances);
        assert(r is Ok);
        lemma_line_button(b.section.values[n].value, b.section.name, lines, before.instances);
        let after = before.buttons.push(r->Ok_0.definition);
        assert(after.drop_last() =~= before.buttons);
        assert(device::buttons_upto(b, n + 1, lines).buttons == after);
    }
}

proof fn lemma_device_lists(n: text::Text)
    ensures
        n == "line"@ <==> option::device_named(n) == Some(Setting::Line),
        n == "button"@ <==> option::device_named(n) == Some(Setting::Button),
{
    spelling::lemma_device_spellings();
}

// ---------------------------------------------------------------------------
// Codecs

proof fn lemma_without(list: Seq<Codec>, codec: Codec, c: Codec)
    ensures
        codec::without(list, codec).contains(c) <==> list.contains(c) && c != codec,
    decreases list.len(),
{
    if list.len() > 0 {
        let head = list.drop_last();
        lemma_without(head, codec, c);
        let short = codec::without(head, codec);
        assert(list =~= head.push(list.last()));
        lemma_push(head, list.last(), c);
        lemma_push(short, list.last(), c);
    }
}

proof fn lemma_push(list: Seq<Codec>, x: Codec, c: Codec)
    ensures
        list.push(x).contains(c) <==> list.contains(c) || x == c,
{
    if list.contains(c) {
        let i = choose|i: int| 0 <= i < list.len() && list[i] == c;
        assert(list.push(x)[i] == c);
    }
    if x == c {
        assert(list.push(x)[list.len() as int] == c);
    }
    if list.push(x).contains(c) && x != c {
        let i = choose|i: int| 0 <= i < list.push(x).len() && list.push(x)[i] == c;
        assert(list[i] == c);
    }
}

proof fn lemma_group(
    key: text::Text,
    allow: bool,
    group: Seq<Codec>,
    i: int,
    list: Seq<Codec>,
    c: Codec,
)
    requires
        0 <= i <= group.len(),
        codec::after_group(key, allow, group, i, list) is Ok,
    ensures
        codec::after_group(key, allow, group, i, list)->Ok_0.contains(c) <==> (if allow {
            list.contains(c) || group.skip(i).contains(c)
        } else {
            list.contains(c) && !group.skip(i).contains(c)
        }),
    decreases group.len() - i,
{
    let rest = group.skip(i);
    if i < group.len() {
        let short = codec::without(list, group[i]);
        lemma_without(list, group[i], c);
        let next = if allow {
            short.push(group[i])
        } else {
            short
        };
        lemma_push(short, group[i], c);
        lemma_group(key, allow, group, i + 1, next, c);
        let tail = group.skip(i + 1);
        assert(rest =~= seq![group[i]] + tail);
        assert(rest.contains(c) <==> c == group[i] || tail.contains(c)) by {
            if tail.contains(c) {
                let j = choose|j: int| 0 <= j < tail.len() && tail[j] == c;
                assert(rest[j + 1] == c);
            }
            if c == group[i] {
                assert(rest[0] == c);
            }
            if rest.contains(c) && c != group[i] {
                let j = choose|j: int| 0 <= j < rest.len() && rest[j] == c;
                assert(tail[j - 1] == c);
            }
        }
    }
}

/// Allowing a name adds the codecs of the name, disallowing it takes them away,
/// and no other codec comes or goes. A negated name does the opposite, and
/// disallowing all leaves none.
pub proof fn law_names_add_or_take_away_their_codecs(
    key: text::Text,
    allow: bool,
    raw: text::Text,
    token: text::Text,
    list: Seq<Codec>,
    c: Codec,
)
    requires
        codec::after_token(key, allow, raw, token, list) is Ok,
    ensures
        ({
            let after = codec::after_token(key, allow, raw, token, list)->Ok_0;
            let turned = token.len() > 0 && token[0] == '!';
            let name = if turned {
                text::trimmed(token.skip(1))
            } else {
                token
            };
            let group = codec::group_of(text::name_of(name));
            if text::same_fold(name, "all"@) && allow == turned {
                after.len() == 0
            } else {
                &&& group is Some
                &&& allow != turned ==> (after.contains(c) <==> list.contains(c)
                    || group->0.contains(c))
                &&& allow == turned ==> (after.contains(c) <==> list.contains(c)
                    && !group->0.contains(c))
            }
        }),
{
    let name = codec::bare(token);
    if let Some(group) = codec::group_of(text::name_of(name)) {
        if !(text::same_fold(name, "all"@) && allow == codec::negated(token)) {
            lemma_group(key, allow != codec::negated(token), group, 0, list, c);
            assert(group.skip(0) =~= group);
        }
    }
}

// ---------------------------------------------------------------------------
// Sections

proof fn lemma_lines_kept(
    sections: Seq<section::RawSectionView>,
    i: int,
    all: assembly::LinesView,
    g: policy::GeneralConfigView,
    w: rules::LayerRulesView,
    k: int,
)
    requires
        0 <= i,
        assembly::lines_from(sections, i, all, g, w) is Ok,
        0 <= k < all.lines.len(),
        all.features.len() == all.lines.len(),
    ensures
        ({
            let end = assembly::lines_from(sections, i, all, g, w)->Ok_0;
            &&& k < end.lines.len()
            &&& end.features.len() == end.lines.len()
            &&& end.lines[k] == all.lines[k]
            &&& end.features[k] == all.features[k]
        }),
    decreases sections.len() - i,
{
    if i < sections.len() {
        let next = assembly::with_section(all, sections[i], g, w)->Ok_0;
        lemma_lines_kept(sections, i + 1, next, g, w, k);
    }
}

proof fn lemma_line_comes(
    sections: Seq<section::RawSectionView>,
    i: int,
    all: assembly::LinesView,
    g: policy::GeneralConfigView,
    w: rules::LayerRulesView,
    j: int,
) -> (k: int)
    requires
        0 <= i <= j < sections.len(),
        assembly::lines_from(sections, i, all, g, w) is Ok,
        all.features.len() == all.lines.len(),
        !assembly::is_general(sections[j]),
        section::value_of(sections[j], "type"@) matches Some(kind) && text::lower(kind) == "line"@,
        "line"@ != "device"@,
    ensures
        ({
            let end = assembly::lines_from(sections, i, all, g, w)->Ok_0;
            let p = line::line_setting(sections[j], g, w);
            &&& p is Ok
            &&& 0 <= k < end.lines.len()
            &&& end.features.len() == end.lines.len()
            &&& end.lines[k] == p->Ok_0.line
            &&& end.features[k] == p->Ok_0.features
        }),
    decreases j - i,
{
    let next = assembly::with_section(all, sections[i], g, w)->Ok_0;
    if i == j {
        lemma_lines_kept(sections, i + 1, next, g, w, all.lines.len() as int);
        all.lines.len() as int
    } else {
        lemma_line_comes(sections, i + 1, next, g, w, j)
    }
}

proof fn lemma_devices_kept(
    sections: Seq<section::RawSectionView>,
    i: int,
    all: assembly::DevicesView,
    lines: assembly::LinesView,
    g: policy::GeneralConfigView,
    w: rules::LayerRulesView,
    k: int,
)
    requires
        0 <= i,
        assembly::devices_from(sections, i, all, lines, g, w) is Ok,
        0 <= k < all.devices.len(),
    ensures
        ({
            let end = assembly::devices_from(sections, i, all, lines, g, w)->Ok_0;
            k < end.devices.len() && end.devices[k] == all.devices[k]
        }),
    decreases sections.len() - i,
{
    if i < sections.len() {
        let s = sections[i];
        if assembly::is_device(s) {
            let d = device::device_setting(s, lines.lines, lines.profiles, g, w)->Ok_0;
            let next = assembly::DevicesView {
                devices: all.devices.push(d),
                codecs: assembly::marked(all.codecs, d.id.name, assembly::sets_codecs(s)),
                encryption: assembly::marked(
                    all.encryption,
                    d.id.name,
                    assembly::sets_encryption(s),
                ),
            };
            lemma_devices_kept(sections, i + 1, next, lines, g, w, k);
        } else {
            lemma_devices_kept(sections, i + 1, all, lines, g, w, k);
        }
    }
}

proof fn lemma_device_comes(
    sections: Seq<section::RawSectionView>,
    i: int,
    all: assembly::DevicesView,
    lines: assembly::LinesView,
    g: policy::GeneralConfigView,
    w: rules::LayerRulesView,
    j: int,
) -> (k: int)
    requires
        0 <= i <= j < sections.len(),
        assembly::devices_from(sections, i, all, lines, g, w) is Ok,
        assembly::is_device(sections[j]),
    ensures
        ({
            let end = assembly::devices_from(sections, i, all, lines, g, w)->Ok_0;
            let p = device::device_setting(sections[j], lines.lines, lines.profiles, g, w);
            &&& p is Ok
            &&& 0 <= k < end.devices.len()
            &&& end.devices[k] == p->Ok_0
        }),
    decreases j - i,
{
    let s = sections[i];
    if assembly::is_device(s) {
        let d = device::device_setting(s, lines.lines, lines.profiles, g, w)->Ok_0;
        let next = assembly::DevicesView {
            devices: all.devices.push(d),
            codecs: assembly::marked(all.codecs, d.id.name, assembly::sets_codecs(s)),
            encryption: assembly::marked(all.encryption, d.id.name, assembly::sets_encryption(s)),
        };
        if i == j {
            lemma_devices_kept(sections, i + 1, next, lines, g, w, all.devices.len() as int);
            all.devices.len() as int
        } else {
            lemma_device_comes(sections, i + 1, next, lines, g, w, j)
        }
    } else {
        lemma_device_comes(sections, i + 1, all, lines, g, w, j)
    }
}

/// The configuration that sections make.
#[verifier::opaque]
spec fn gives(
    sections: Seq<section::RawSectionView>,
    w: rules::LayerRulesView,
    c: module::ModuleConfigView,
) -> bool {
    module::resolved_config(sections, w) == Ok::<_, error::ErrorView>(c)
}

/// A section says a line and its features.
#[verifier::opaque]
pub open spec fn says_line(
    s: section::RawSectionView,
    g: policy::GeneralConfigView,
    w: rules::LayerRulesView,
    line: policy::LineConfigView,
    features: policy::LineFeatureConfigView,
) -> bool {
    line::line_setting(s, g, w) == Ok::<_, error::ErrorView>(
        line::ParsedLineView { line, features },
    )
}

/// A section says a device, against the lines and the profiles there are.
#[verifier::opaque]
pub open spec fn says_device(
    s: section::RawSectionView,
    lines: Seq<policy::LineConfigView>,
    profiles: Seq<policy::SoftKeyProfileView>,
    g: policy::GeneralConfigView,
    w: rules::LayerRulesView,
    device: policy::DeviceConfigView,
) -> bool {
    device::device_setting(s, lines, profiles, g, w) == Ok::<_, error::ErrorView>(device)
}

/// The parts of a configuration.
proof fn lemma_gives(
    sections: Seq<section::RawSectionView>,
    w: rules::LayerRulesView,
    c: module::ModuleConfigView,
) -> (parts: (assembly::LinesView, assembly::DevicesView))
    requires
        gives(sections, w, c),
    ensures
        assembly::lines_from(sections, 0, assembly::no_lines(), c.general, w) == Ok::<
            _,
            error::ErrorView,
        >(parts.0),
        assembly::devices_from(
            sections,
            0,
            assembly::no_devices(),
            parts.0,
            c.general,
            w,
        ) == Ok::<_, error::ErrorView>(parts.1),
        c.lines == parts.0.lines,
        c.line_features == parts.0.features,
        c.soft_key_profiles == parts.0.profiles,
        c.devices == parts.1.devices,
{
    reveal(gives);
    let g = module::general_from(sections, 0, w)->Ok_0;
    let lines = assembly::lines_from(sections, 0, assembly::no_lines(), g, w)->Ok_0;
    let devices = assembly::devices_from(
        sections,
        0,
        assembly::no_devices(),
        lines,
        g,
        w,
    )->Ok_0;
    (lines, devices)
}

proof fn lemma_line_in(
    sections: Seq<section::RawSectionView>,
    w: rules::LayerRulesView,
    c: module::ModuleConfigView,
    j: int,
) -> (k: int)
    requires
        gives(sections, w, c),
        0 <= j < sections.len(),
        !assembly::is_general(sections[j]),
        section::value_of(sections[j], "type"@) matches Some(kind) && text::lower(kind) == "line"@,
    ensures
        0 <= k < c.lines.len(),
        c.line_features.len() == c.lines.len(),
        says_line(sections[j], c.general, w, c.lines[k], c.line_features[k]),
{
    reveal_strlit("line");
    reveal_strlit("device");
    assert("line"@.len() == 4 && "device"@.len() == 6);
    let parts = lemma_gives(sections, w, c);
    let k = lemma_line_comes(sections, 0, assembly::no_lines(), c.general, w, j);
    reveal(says_line);
    k
}

proof fn lemma_device_in(
    sections: Seq<section::RawSectionView>,
    w: rules::LayerRulesView,
    c: module::ModuleConfigView,
    j: int,
) -> (k: int)
    requires
        gives(sections, w, c),
        0 <= j < sections.len(),
        assembly::is_device(sections[j]),
    ensures
        0 <= k < c.devices.len(),
        says_device(sections[j], c.lines, c.soft_key_profiles, c.general, w, c.devices[k]),
{
    let parts = lemma_gives(sections, w, c);
    let k = lemma_device_comes(sections, 0, assembly::no_devices(), parts.0, c.general, w, j);
    reveal(says_device);
    k
}

/// Every section of type `line` in an accepted configuration is one of its
/// lines, with the features beside it, as the section says against the general
/// policy of the same configuration.
pub proof fn law_every_line_is_configured(
    sections: Seq<section::RawSectionView>,
    w: rules::LayerRulesView,
    c: module::ModuleConfigView,
    j: int,
)
    requires
        module::resolved_config(sections, w) == Ok::<_, error::ErrorView>(c),
        0 <= j < sections.len(),
        text::lower(sections[j].name) != text::lower("general"@),
        section::value_of(sections[j], "type"@) matches Some(kind) && text::lower(kind) == "line"@,
    ensures
        c.line_features.len() == c.lines.len(),
        exists|k: int|
            0 <= k < c.lines.len() && says_line(
                sections[j],
                c.general,
                w,
                #[trigger] c.lines[k],
                c.line_features[k],
            ),
{
    assert(gives(sections, w, c)) by {
        reveal(gives);
    }
    let k = lemma_line_in(sections, w, c, j);
    assert(says_line(sections[j], c.general, w, c.lines[k], c.line_features[k]));
}

/// Every section of type `device` in an accepted configuration is one of its
/// devices, as the section says against the lines, the profiles and the general
/// policy of the same configuration.
pub proof fn law_every_device_is_configured(
    sections: Seq<section::RawSectionView>,
    w: rules::LayerRulesView,
    c: module::ModuleConfigView,
    j: int,
)
    requires
        module::resolved_config(sections, w) == Ok::<_, error::ErrorView>(c),
        0 <= j < sections.len(),
        text::lower(sections[j].name) != text::lower("general"@),
        section::value_of(sections[j], "type"@) matches Some(kind) && text::lower(kind)
            == text::lower("device"@),
    ensures
        exists|k: int|
            0 <= k < c.devices.len() && says_device(
                sections[j],
                c.lines,
                c.soft_key_profiles,
                c.general,
                w,
                #[trigger] c.devices[k],
            ),
{
    assert(gives(sections, w, c)) by {
        reveal(gives);
    }
    let k = lemma_device_in(sections, w, c, j);
    assert(says_device(
        sections[j],
        c.lines,
        c.soft_key_profiles,
        c.general,
        w,
        c.devices[k],
    ));
}

} // verus!
