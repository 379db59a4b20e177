//! What is found in a configuration, and by what.

use vstd::prelude::*;

use crate::config::button;
use crate::config::module;
use crate::config::network;
use crate::config::policy;
use crate::config::policy::DndButtonMode;
use crate::config::soundness;
use crate::text;

verus! {

// ---------------------------------------------------------------------------
// Devices, lines and bindings

/// A device is found by its name; none is found only
/// where no device has the name.
pub proof fn law_devices_are_found_by_name(c: module::ModuleConfigView, name: text::Text)
    ensures
        match c.device(name) {
            Some(d) => d.id.name == name && c.devices.contains(d),
            None => forall|i: int| 0 <= i < c.devices.len() ==> (#[trigger] c.devices[i]).id.name
                != name,
        },
{
    soundness::lemma_device_index(c.devices, name);
}

/// The features that are found by a number are those beside the line of that
/// number.
pub proof fn law_features_are_found_by_number(c: module::ModuleConfigView, number: text::Text)
    requires
        c.line_features.len() == c.lines.len(),
    ensures
        match c.features(number) {
            Some(f) => exists|i: int|
                0 <= i < c.lines.len() && (#[trigger] c.lines[i]).number == number
                    && c.line_features[i] == f,
            None => forall|i: int| 0 <= i < c.lines.len() ==> (#[trigger] c.lines[i]).number
                != number,
        },
{
    soundness::lemma_line_index(c.lines, number);
    if let Some(i) = button::line_index(c.lines, number) {
        assert(c.lines[i as int].number == number);
    }
}

/// The binding that is found is the first that has what is asked for.
proof fn lemma_binding(
    list: Seq<policy::LineBindingView>,
    device: Option<text::Text>,
    number: Option<text::Text>,
    instance: Option<u32>,
    i: int,
)
    requires
        0 <= i <= list.len(),
    ensures
        match module::binding_from(list, device, number, instance, i) {
            Some(b) => exists|k: int|
                {
                    &&& i <= k < list.len()
                    &&& #[trigger] list[k] == b
                    &&& is_asked_for(b, device, number, instance)
                    &&& forall|j: int|
                        i <= j < k ==> !is_asked_for(#[trigger] list[j], device, number, instance)
                },
            None => forall|j: int|
                i <= j < list.len() ==> !is_asked_for(#[trigger] list[j], device, number, instance),
        },
    decreases list.len() - i,
{
    if i < list.len() {
        if is_asked_for(list[i], device, number, instance) {
            assert(module::binding_from(list, device, number, instance, i) == Some(list[i]));
        } else {
            lemma_binding(list, device, number, instance, i + 1);
            assert(module::binding_from(list, device, number, instance, i) == module::binding_from(
                list,
                device,
                number,
                instance,
                i + 1,
            ));
        }
    }
}

/// A binding is on the device, of the line and at the instance that are given.
pub open spec fn is_asked_for(
    b: policy::LineBindingView,
    device: Option<text::Text>,
    number: Option<text::Text>,
    instance: Option<u32>,
) -> bool {
    &&& device matches Some(d) ==> b.device_id.name == d
    &&& number matches Some(n) ==> b.line.number == n
    &&& instance matches Some(i) ==> b.line_instance == i
}

/// A button is bound by the first binding on its device at its instance; none is
/// found only where there is none.
pub proof fn law_buttons_have_their_binding(
    c: module::ModuleConfigView,
    device: text::Text,
    instance: u32,
)
    ensures
        match c.button(device, instance) {
            Some(b) => exists|k: int|
                {
                    &&& 0 <= k < c.bindings.len()
                    &&& #[trigger] c.bindings[k] == b
                    &&& b.device_id.name == device && b.line_instance == instance
                    &&& forall|j: int|
                        0 <= j < k ==> !((#[trigger] c.bindings[j]).device_id.name == device
                            && c.bindings[j].line_instance == instance)
                },
            None => forall|j: int|
                0 <= j < c.bindings.len() ==> !((#[trigger] c.bindings[j]).device_id.name == device
                    && c.bindings[j].line_instance == instance),
        },
{
    lemma_binding(c.bindings, Some(device), None, Some(instance), 0);
}

proof fn lemma_plain_pieces(s: text::Text, c: char)
    requires
        !s.contains(c),
    ensures
        text::pieces(s, c) == seq![s],
{
    text::lemma_position(s, c);
    let p = text::position(s, c);
    if p < s.len() {
        assert(s[p as int] == c);
    }
}

/// An address without a slash dials the first binding of the line of that
/// number.
pub proof fn law_numbers_dial_their_line(c: module::ModuleConfigView, address: text::Text)
    requires
        !address.contains('/'),
    ensures
        match c.dialed(address) {
            Some(b) => exists|k: int|
                {
                    &&& 0 <= k < c.bindings.len()
                    &&& #[trigger] c.bindings[k] == b
                    &&& b.line.number == text::trimmed(address)
                    &&& forall|j: int|
                        0 <= j < k ==> (#[trigger] c.bindings[j]).line.number != text::trimmed(
                            address,
                        )
                },
            None => forall|j: int|
                0 <= j < c.bindings.len() ==> (#[trigger] c.bindings[j]).line.number
                    != text::trimmed(address),
        },
{
    lemma_plain_pieces(address, '/');
    assert(text::fields_of(address, '/') =~= seq![text::trimmed(address)]);
    lemma_binding(c.bindings, None, Some(text::trimmed(address)), None, 0);
}

/// An address of a device and a number dials the first binding of that line on
/// that device.
pub proof fn law_device_addresses_dial_their_device(
    c: module::ModuleConfigView,
    name: text::Text,
    number: text::Text,
)
    requires
        !name.contains('/'),
        !number.contains('/'),
    ensures
        ({
            let d = text::trimmed(name);
            let n = text::trimmed(number);
            match c.dialed(name + seq!['/'] + number) {
                Some(b) => exists|k: int|
                    {
                        &&& 0 <= k < c.bindings.len()
                        &&& #[trigger] c.bindings[k] == b
                        &&& b.device_id.name == d && b.line.number == n
                        &&& forall|j: int|
                            0 <= j < k ==> !((#[trigger] c.bindings[j]).device_id.name == d
                                && c.bindings[j].line.number == n)
                    },
                None => forall|j: int|
                    0 <= j < c.bindings.len() ==> !((#[trigger] c.bindings[j]).device_id.name == d
                        && c.bindings[j].line.number == n),
            }
        }),
{
    let address = name + seq!['/'] + number;
    let p = name.len() as int;
    assert forall|i: int| 0 <= i < p implies address[i] != '/' by {
        assert(address[i] == name[i]);
    }
    assert(address[p] == '/');
    text::lemma_position_is(address, '/', p);
    assert(address.take(p) =~= name);
    assert(address.skip(p + 1) =~= number);
    lemma_plain_pieces(number, '/');
    assert(text::pieces(address, '/') =~= seq![name, number]);
    let parts = text::fields_of(address, '/');
    assert(parts =~= seq![text::trimmed(name), text::trimmed(number)]);
    lemma_binding(c.bindings, Some(parts[0]), Some(parts[1]), None, 0);
}

/// The bindings of a line are all those of its number; those of a device are all
/// those of its name.
pub proof fn law_bindings_are_found_by_line_and_device(
    list: Seq<policy::LineBindingView>,
    name: text::Text,
    b: policy::LineBindingView,
)
    ensures
        module::bindings_of_line(list, name, list.len() as int).contains(b) <==> list.contains(b)
            && b.line.number == name,
        module::bindings_of_device(list, name, list.len() as int).contains(b) <==> list.contains(b)
            && b.device_id.name == name,
{
    lemma_picked(list, name, b, list.len() as int);
    assert(list.take(list.len() as int) =~= list);
}

proof fn lemma_last_in(
    list: Seq<policy::LineBindingView>,
    x: policy::LineBindingView,
    b: policy::LineBindingView,
)
    ensures
        list.push(x).contains(b) <==> list.contains(b) || x == b,
{
    if list.contains(b) {
        let i = choose|i: int| 0 <= i < list.len() && list[i] == b;
        assert(list.push(x)[i] == b);
    }
    assert(list.push(x)[list.len() as int] == x);
    if list.push(x).contains(b) && x != b {
        let i = choose|i: int| 0 <= i < list.push(x).len() && list.push(x)[i] == b;
        assert(list[i] == b);
    }
}

proof fn lemma_picked(
    list: Seq<policy::LineBindingView>,
    name: text::Text,
    b: policy::LineBindingView,
    n: int,
)
    requires
        0 <= n <= list.len(),
    ensures
        module::bindings_of_line(list, name, n).contains(b) <==> list.take(n).contains(b)
            && b.line.number == name,
        module::bindings_of_device(list, name, n).contains(b) <==> list.take(n).contains(b)
            && b.device_id.name == name,
    decreases n,
{
    if n > 0 {
        lemma_picked(list, name, b, n - 1);
        assert(list.take(n) =~= list.take(n - 1).push(list[n - 1]));
        lemma_last_in(list.take(n - 1), list[n - 1], b);
        lemma_last_in(module::bindings_of_line(list, name, n - 1), list[n - 1], b);
        lemma_last_in(module::bindings_of_device(list, name, n - 1), list[n - 1], b);
    }
}

// ---------------------------------------------------------------------------
// What a line sets over its device

/// The media of a binding: a line that sets codecs has its own, else a device
/// that sets them has its own, else the general ones hold; so too for
/// encryption. What else the device decides comes from the device, what the
/// line decides from the line.
pub proof fn law_lines_go_before_devices_and_devices_before_the_rest(
    c: module::ModuleConfigView,
    b: policy::LineBindingView,
)
    ensures
        ({
            let n = b.line.number;
            let name = b.device_id.name;
            &&& c.media(b) is Some <==> c.device(name) is Some && c.features(n) is Some
            &&& c.media(b) matches Some(m) ==> {
                let d = c.device(name)->0.media;
                let l = c.features(n)->0.media;
                &&& c.line_codec_overrides.contains(n) ==> m.codecs == l.codecs
                &&& !c.line_codec_overrides.contains(n) && c.device_codec_overrides.contains(name)
                    ==> m.codecs == d.codecs
                &&& !c.line_codec_overrides.contains(n) && !c.device_codec_overrides.contains(name)
                    ==> m.codecs == c.general.codecs
                &&& c.line_audio_encryption_overrides.contains(n) ==> m.audio_encryption
                    == l.audio_encryption
                &&& !c.line_audio_encryption_overrides.contains(n)
                    && c.device_audio_encryption_overrides.contains(name) ==> m.audio_encryption
                    == d.audio_encryption
                &&& !c.line_audio_encryption_overrides.contains(n)
                    && !c.device_audio_encryption_overrides.contains(name) ==> m.audio_encryption
                    == c.general.audio_encryption
                &&& m.dtmf_mode == d.dtmf_mode
                &&& m.direct_media == d.direct_media
                &&& m.early_media == d.early_media
                &&& m.video_mode == l.video_mode
                &&& m.audio_processing == l.audio_processing
            }
        }),
{
}

/// Conference dialing of a binding: what the line says holds, and the device
/// decides what the line leaves open. The destination is that of the line.
pub proof fn law_lines_go_before_devices_in_conferences(
    c: module::ModuleConfigView,
    b: policy::LineBindingView,
)
    ensures
        ({
            let d = c.device(b.device_id.name);
            let l = c.features(b.line.number);
            &&& c.conference(b) is Some <==> d is Some && l is Some
            &&& c.conference(b) matches Some(r) ==> {
                let own = l->0.conference;
                let shared = d->0.conference.dialing;
                &&& own.enabled is Some ==> own.enabled == Some(r.enabled)
                &&& own.enabled is None ==> r.enabled == shared.enabled
                &&& own.application_options is Some ==> own.application_options == Some(
                    r.application_options,
                )
                &&& own.application_options is None ==> r.application_options
                    == shared.application_options
                &&& r.destination == own.destination
            }
        }),
{
}

/// A known device dials the hotline of its line. An unknown one dials the guest
/// extension, and only from the one guest line while guests are allowed.
pub proof fn law_hotlines_are_of_the_line_or_for_guests(
    c: module::ModuleConfigView,
    b: policy::LineBindingView,
)
    ensures
        ({
            let guest = c.general.guest_hotline;
            let known = c.device(b.device_id.name) is Some;
            let f = c.features(b.line.number);
            &&& known && f is Some ==> c.hotline(b) == f->0.hotline.destination
            &&& known && f is None ==> c.hotline(b) is None
            &&& !known && guest.enabled && b.line_instance == 1 && b.line.number == "hotline"@
                ==> c.hotline(b) == guest.extension
            &&& !known && !(guest.enabled && b.line_instance == 1 && b.line.number == "hotline"@)
                ==> c.hotline(b) is None
        }),
{
}

/// A do-not-disturb button with the argument `silent` or `reject` sets that mode;
/// any other goes through the modes.
pub proof fn law_dnd_buttons_go_by_their_argument(argument: text::Text)
    ensures
        argument == "silent"@ ==> module::dnd_mode_of(Some(argument)) == DndButtonMode::Silent,
        argument == "reject"@ ==> module::dnd_mode_of(Some(argument)) == DndButtonMode::Reject,
        argument != "silent"@ && argument != "reject"@ ==> module::dnd_mode_of(Some(argument))
            == DndButtonMode::Cycle,
        module::dnd_mode_of(None) == DndButtonMode::Cycle,
{
    reveal_strlit("silent");
    reveal_strlit("reject");
    assert("silent"@[0] == 's' && "reject"@[0] == 'r');
}

/// A station is provisioned with what its device says, and with the keys of its
/// profile.
pub proof fn law_stations_get_what_their_device_says(
    c: module::ModuleConfigView,
    d: policy::DeviceConfigView,
)
    ensures
        ({
            let s = module::definition_of(c, d);
            &&& s.id == d.id
            &&& s.description == d.description
            &&& s.transport is Clear <==> d.network.transport is Clear
            &&& s.transport is Secure <==> d.network.transport is Tls
            &&& s.transport is Either <==> d.network.transport is Either
            &&& s.signaling_qos matches Some(q) && q.dscp == d.network.qos.signaling.dscp.value
                && q.cos == d.network.qos.signaling.cos.value
            &&& s.ui.placed_calls_redial_menu <==> d.call_ui.redial_mode is PlacedCallsMenu
            &&& s.ui.hinted_ringing_notification == d.call_ui.hinted_ringing_notification
            &&& s.ui.speed_dial_await_further_digits == c.general.speed_dial_await_further_digits
            &&& s.ui.mwi_lamp_mode == d.call_ui.mwi_lamp_mode
            &&& s.ui.mwi_on_call == d.call_ui.mwi_on_call
            &&& s.ui.legacy_code_page == d.call_ui.legacy_code_page
            &&& s.buttons.len() == d.buttons.len()
        }),
{
}

// ---------------------------------------------------------------------------
// Marking

/// Class selectors stand for eight times their class; assured forwarding for
/// eight times the class and twice the precedence; expedited forwarding and the
/// older names have their own code points.
pub proof fn law_class_names_stand_for_code_points(name: text::Text, class: u8, precedence: u8)
    requires
        class <= 7,
        1 <= precedence <= 3,
    ensures
        name == seq!['c', 's', digit(class)] ==> network::named_dscp(name) == Some((8 * class) as u8),
        1 <= class <= 4 && name == seq!['a', 'f', digit(class), digit(precedence)]
            ==> network::named_dscp(name) == Some((8 * class + 2 * precedence) as u8),
        name == "ef"@ ==> network::named_dscp(name) == Some(46u8),
        name == "none"@ ==> network::named_dscp(name) == Some(0u8),
        name == "lowdelay"@ ==> network::named_dscp(name) == Some(4u8),
        name == "throughput"@ ==> network::named_dscp(name) == Some(2u8),
        name == "reliability"@ ==> network::named_dscp(name) == Some(1u8),
        name == "mincost"@ ==> network::named_dscp(name) == Some(0u8),
{
    reveal_strlit("none");
    reveal_strlit("ef");
    reveal_strlit("lowdelay");
    reveal_strlit("throughput");
    reveal_strlit("reliability");
    reveal_strlit("mincost");
    assert("none"@.len() == 4 && "none"@[0] == 'n');
    assert("ef"@.len() == 2);
    assert("lowdelay"@.len() == 8);
    assert("throughput"@.len() == 10);
    assert("reliability"@.len() == 11);
    assert("mincost"@.len() == 7);
}

/// The digit of a small number.
pub open spec fn digit(n: u8) -> char {
    if n == 0 {
        '0'
    } else if n == 1 {
        '1'
    } else if n == 2 {
        '2'
    } else if n == 3 {
        '3'
    } else if n == 4 {
        '4'
    } else if n == 5 {
        '5'
    } else if n == 6 {
        '6'
    } else {
        '7'
    }
}

} // verus!
