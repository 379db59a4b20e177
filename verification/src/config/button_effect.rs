//! What a button of a device says.

use vstd::prelude::*;

use crate::config::button;
use crate::config::button::ButtonInstances;
use crate::config::policy;
use crate::config::setting;
use crate::station;
use crate::station::{AppearanceRingMode, ButtonDefinitionView};
use crate::text;

verus! {

/// A button is of the kind that its first field names, and its further fields
/// are its label and what it dials, watches, does or opens. Each kind counts its
/// own instances, and a button takes the next one of its kind.
pub proof fn law_buttons_are_what_they_say(
    raw: text::Text,
    device: text::Text,
    lines: Seq<policy::LineConfigView>,
    at: ButtonInstances,
)
    requires
        button::button_setting(raw, device, lines, at) is Ok,
        at.speed_dial < u32::MAX,
        at.feature < u32::MAX,
        at.service < u32::MAX,
    ensures
        ({
            let p = button::button_setting(raw, device, lines, at)->Ok_0;
            let f = text::fields_of(raw, ',');
            let kind = text::name_of(f[0]);
            let dials = kind == "speeddial"@ || kind == "blf"@ || kind == "blfspeeddial"@;
            &&& dials && f.len() == 3 ==> {
                &&& p.definition matches ButtonDefinitionView::SpeedDial(b)
                    && b.display_name == text::trimmed(f[1]) && b.number == text::trimmed(f[2])
                    && b.instance == at.speed_dial + 1
                &&& p.feature_argument is None
                &&& p.instances == (ButtonInstances {
                    speed_dial: (at.speed_dial + 1) as u32,
                    ..at
                })
            }
            &&& dials && f.len() == 4 ==> {
                &&& p.definition matches ButtonDefinitionView::BlfSpeedDial(b)
                    && b.display_name == text::trimmed(f[1]) && b.number == text::trimmed(f[2])
                    && b.hint == text::trimmed(f[3]) && b.hint.contains('@') && b.instance
                    == at.speed_dial + 1
                &&& p.feature_argument is None
                &&& p.instances == (ButtonInstances {
                    speed_dial: (at.speed_dial + 1) as u32,
                    ..at
                })
            }
            &&& kind == "feature"@ ==> {
                &&& p.definition matches ButtonDefinitionView::Feature(b)
                    && b.label == text::trimmed(f[1]) && b.instance == at.feature + 1
                    && button::feature_setting(text::trimmed(f[2])) is Ok
                    && button::feature_setting(text::trimmed(f[2]))->Ok_0 == b.feature
                &&& f.len() == 3 ==> p.feature_argument is None
                &&& f.len() == 4 ==> p.feature_argument is Some && p.feature_argument->0.instance
                    == at.feature + 1 && p.feature_argument->0.argument == text::trimmed(
                    text::joined(seq![f[3]], ","@),
                )
                &&& p.instances == (ButtonInstances { feature: (at.feature + 1) as u32, ..at })
            }
            &&& kind == "service"@ ==> {
                &&& p.definition matches ButtonDefinitionView::Service(b)
                    && b.label == text::trimmed(f[1]) && b.url == text::trimmed(
                    text::joined(f.skip(2), ","@),
                ) && b.instance == at.service + 1
                &&& p.feature_argument is None
                &&& p.instances == (ButtonInstances { service: (at.service + 1) as u32, ..at })
            }
            &&& kind == "empty"@ || kind == "unused"@ ==> p.definition is Unused && p.instances
                == at && p.feature_argument is None
            &&& kind == "addon"@ || kind == "addonmodule"@ ==> {
                &&& p.definition matches ButtonDefinitionView::AddonModule(b) && 1 <= b.slot <= 56
                    && button::addon_setting(text::trimmed(f[2])) is Ok
                    && button::addon_setting(text::trimmed(f[2]))->Ok_0 == b.device_type
                &&& p.instances == at && p.feature_argument is None
            }
            &&& kind == "line"@ ==> p.definition is Line && p.feature_argument is None
        }),
{
    reveal_strlit("addon");
    reveal_strlit("addonmodule");
    reveal_strlit("blf");
    reveal_strlit("blfspeeddial");
    reveal_strlit("empty");
    reveal_strlit("feature");
    reveal_strlit("line");
    reveal_strlit("service");
    reveal_strlit("speeddial");
    reveal_strlit("unused");
    assert("addon"@.len() == 5 && "addon"@[0] == 'a');
    assert("addonmodule"@.len() == 11);
    assert("blf"@.len() == 3);
    assert("blfspeeddial"@.len() == 12);
    assert("empty"@.len() == 5 && "empty"@[0] == 'e');
    assert("feature"@.len() == 7 && "feature"@[0] == 'f');
    assert("line"@.len() == 4);
    assert("service"@.len() == 7 && "service"@[0] == 's');
    assert("speeddial"@.len() == 9);
    assert("unused"@.len() == 6);
    let f = text::fields_of(raw, ',');
    if f.len() == 4 {
        assert(f.skip(3) =~= seq![f[3]]);
        let hint = text::trimmed(f[3]);
        text::lemma_position(hint, '@');
        let p = text::position(hint, '@');
        if p < hint.len() {
            assert(hint[p as int] == '@');
        }
    }
}

/// An option of a line button sets the part that its name says, and no other.
pub proof fn law_appearance_options_set_their_part(
    a: station::LineAppearanceView,
    key: text::Text,
    value: text::Text,
)
    ensures
        ({
            let r = button::with_option(a, key, value);
            let name = text::name_of(value);
            &&& key == "label"@ ==> r is Ok && r->Ok_0 == (station::LineAppearanceView {
                label: Some(value),
                ..a
            })
            &&& key == "callername"@ ==> r is Ok && r->Ok_0 == (station::LineAppearanceView {
                caller_id: station::CallerIdentityView {
                    name: Some(value),
                    number: a.caller_id.number,
                },
                ..a
            })
            &&& key == "callernumber"@ ==> r is Ok && r->Ok_0 == (station::LineAppearanceView {
                caller_id: station::CallerIdentityView {
                    name: a.caller_id.name,
                    number: Some(value),
                },
                ..a
            })
            &&& key == "subscription"@ || key == "subscriptionidentity"@ ==> r is Ok && r->Ok_0 == (
            station::LineAppearanceView { subscription_identity: Some(value), ..a })
            &&& key == "privacy"@ ==> {
                let said = setting::bool_setting("button.line.privacy"@, value);
                &&& r is Ok <==> said is Ok
                &&& r is Ok ==> r->Ok_0 == (station::LineAppearanceView {
                    privacy: said->Ok_0,
                    ..a
                })
            }
            &&& key == "ring"@ || key == "ringmode"@ ==> {
                &&& r is Ok <==> name == "normal"@ || name == "silent"@ || name == "disabled"@
                    || name == "off"@
                &&& r is Ok ==> r->Ok_0 == (station::LineAppearanceView {
                    ring_mode: r->Ok_0.ring_mode,
                    ..a
                })
                &&& name == "normal"@ ==> r->Ok_0.ring_mode == AppearanceRingMode::Normal
                &&& name == "silent"@ ==> r->Ok_0.ring_mode == AppearanceRingMode::Silent
                &&& name == "disabled"@ || name == "off"@ ==> r->Ok_0.ring_mode
                    == AppearanceRingMode::Disabled
            }
        }),
{
    reveal_strlit("callername");
    reveal_strlit("callernumber");
    reveal_strlit("disabled");
    reveal_strlit("label");
    reveal_strlit("normal");
    reveal_strlit("off");
    reveal_strlit("privacy");
    reveal_strlit("ring");
    reveal_strlit("ringmode");
    reveal_strlit("silent");
    reveal_strlit("subscription");
    reveal_strlit("subscriptionidentity");
    assert("callername"@.len() == 10);
    assert("callernumber"@.len() == 12 && "callernumber"@[0] == 'c');
    assert("disabled"@.len() == 8 && "disabled"@[0] == 'd');
    assert("label"@.len() == 5);
    assert("normal"@.len() == 6 && "normal"@[0] == 'n');
    assert("off"@.len() == 3);
    assert("privacy"@.len() == 7);
    assert("ring"@.len() == 4);
    assert("ringmode"@.len() == 8 && "ringmode"@[0] == 'r');
    assert("silent"@.len() == 6 && "silent"@[0] == 's');
    assert("subscription"@.len() == 12 && "subscription"@[0] == 's');
    assert("subscriptionidentity"@.len() == 20);
}

} // verus!
