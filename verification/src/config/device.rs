//! Device sections.

use vstd::prelude::*;

use crate::config::button;
use crate::config::button::ButtonInstances;
use crate::config::error;
use crate::config::error::ConfigError;
use crate::config::general;
use crate::config::group;
use crate::config::line;
use crate::config::network;
use crate::config::option;
use crate::config::option::Options;
use crate::config::option::Scope;
use crate::config::option::Setting;
use crate::config::policy;
use crate::config::policy::AccessControlList;
use crate::config::policy::ChannelVariable;
use crate::config::policy::ConferenceDialingConfig;
use crate::config::policy::DeviceCallUiConfig;
use crate::config::policy::DeviceConferenceConfig;
use crate::config::policy::DeviceConfig;
use crate::config::policy::DeviceFeatureDefaults;
use crate::config::policy::DeviceMediaConfig;
use crate::config::policy::DeviceNetworkPolicy;
use crate::config::policy::DeviceParkingConfig;
use crate::config::policy::DndMode;
use crate::config::policy::FeatureArgument;
use crate::config::policy::FeatureButtonDefault;
use crate::config::policy::ForwardingDefaults;
use crate::config::policy::GeneralConfig;
use crate::config::policy::LineConfig;
use crate::config::policy::ParkingButton;
use crate::config::policy::RedialMode;
use crate::config::policy::SoftKeyProfile;
use crate::config::policy::TransportRequirement;
use crate::config::rules;
use crate::config::rules::LayerRules;
use crate::config::section;
use crate::config::section::RawSection;
use crate::config::setting;
use crate::config::softkey;
use crate::config::value;
use crate::config::variable;
use crate::number;
use crate::station;
use crate::station::ButtonDefinition;
use crate::station::ButtonType;
use crate::station::Codec;
use crate::station::DeviceDefinition;
use crate::station::DeviceId;
use crate::station::DtmfMode;
use crate::station::KeyMode;
use crate::station::KeySet;
use crate::station::LampMode;
use crate::station::LegacyCodePage;
use crate::station::StationTransportRequirement;
use crate::station::StationUiPolicy;
use crate::text;

verus! {

// ---------------------------------------------------------------------------
// Profiles

/// The index of the profile of a name.
pub open spec fn profile_index(profiles: Seq<policy::SoftKeyProfileView>, name: text::Text) -> Option<
    nat,
>
    decreases profiles.len(),
{
    if profiles.len() == 0 {
        None
    } else if profiles.last().name == name {
        Some((profiles.len() - 1) as nat)
    } else {
        profile_index(profiles.drop_last(), name)
    }
}

/// Finds the profile of a name.
pub fn find_profile(profiles: &Vec<SoftKeyProfile>, name: &str) -> (r: Option<usize>)
    ensures
        match r {
            Some(i) => profile_index(profiles.deep_view(), name@) == Some(i as nat) && i
                < profiles@.len(),
            None => profile_index(profiles.deep_view(), name@) is None,
        },
{
    let ghost all = profiles.deep_view();
    let mut i: usize = profiles.len();
    assert(all.take(i as int) =~= all);
    while i > 0
        invariant
            all == profiles.deep_view(),
            i <= profiles@.len(),
            profile_index(all, name@) == profile_index(all.take(i as int), name@),
        decreases i,
    {
        i -= 1;
        assert(all.take(i + 1).drop_last() =~= all.take(i as int));
        assert(all.take(i + 1).last() == profiles@[i as int].deep_view());
        if text::same(profiles[i].name.as_str(), name) {
            return Some(i);
        }
    }
    None
}

// ---------------------------------------------------------------------------
// Settings that add up

/// The buttons of a device with the arguments of their features.
pub struct ButtonsView {
    pub buttons: Seq<station::ButtonDefinitionView>,
    pub arguments: Seq<policy::FeatureArgumentView>,
    pub instances: ButtonInstances,
}

/// The button of one setting.
pub open spec fn button_at(
    o: option::OptionsView,
    i: int,
    lines: Seq<policy::LineConfigView>,
    at: ButtonInstances,
) -> Result<button::ParsedButtonView, error::ErrorView> {
    let raw = o.section.values[i].value;
    if o.settings[i] == Setting::Line {
        button::line_button(raw, o.section.name, lines, at)
    } else {
        button::button_setting(raw, o.section.name, lines, at)
    }
}

/// The buttons with one more.
pub open spec fn with_button(b: ButtonsView, x: button::ParsedButtonView) -> ButtonsView {
    ButtonsView {
        buttons: b.buttons.push(x.definition),
        arguments: match x.feature_argument {
            Some(a) => b.arguments.push(a),
            None => b.arguments,
        },
        instances: x.instances,
    }
}

/// Whether a setting declares a button.
pub open spec fn is_button(s: Setting) -> bool {
    s == Setting::Line || s == Setting::Button
}

/// The buttons among the first `n` settings.
pub open spec fn buttons_upto(
    o: option::OptionsView,
    n: int,
    lines: Seq<policy::LineConfigView>,
) -> ButtonsView
    decreases n,
{
    if n <= 0 {
        ButtonsView {
            buttons: Seq::empty(),
            arguments: Seq::empty(),
            instances: ButtonInstances::none(),
        }
    } else {
        let before = buttons_upto(o, n - 1, lines);
        if is_button(o.settings[n - 1]) {
            match button_at(o, n - 1, lines, before.instances) {
                Ok(x) => with_button(before, x),
                Err(_) => before,
            }
        } else {
            before
        }
    }
}

/// The permitted hosts after one more setting: empty text clears them.
pub open spec fn hosts_after(hosts: Seq<text::Text>, k: text::Text, r: text::Text) -> Result<
    Seq<text::Text>,
    error::ErrorView,
> {
    if text::trimmed(r).len() == 0 {
        Ok(Seq::empty())
    } else {
        match setting::hostname_setting(k, r) {
            Err(e) => Err(e),
            Ok(name) => if hosts.contains(name) {
                Err(error::invalid(k, r, "a unique permitted hostname"@, false))
            } else {
                Ok(hosts.push(name))
            },
        }
    }
}

/// The permitted hosts among the first `n` settings.
pub open spec fn hosts_upto(o: option::OptionsView, n: int) -> Seq<text::Text>
    decreases n,
{
    if n <= 0 {
        Seq::empty()
    } else {
        let before = hosts_upto(o, n - 1);
        let v = o.section.values[n - 1];
        if o.settings[n - 1] == Setting::PermitHost {
            match hosts_after(before, section::place(v), v.value) {
                Ok(next) => next,
                Err(_) => before,
            }
        } else {
            before
        }
    }
}

/// The feature defaults that the first `n` settings give.
pub open spec fn states_upto(o: option::OptionsView, n: int) -> Seq<FeatureButtonDefault>
    decreases n,
{
    if n <= 0 {
        Seq::empty()
    } else {
        let before = states_upto(o, n - 1);
        let v = o.section.values[n - 1];
        if o.settings[n - 1] == Setting::FeatureDefault {
            match group::feature_default_setting(section::place(v), v.value) {
                Ok(x) => before.push(x),
                Err(_) => before,
            }
        } else {
            before
        }
    }
}

/// Adds the hosts of one more setting.
fn apply_host(hosts: &mut Vec<String>, key: &str, raw: &str) -> (r: Option<ConfigError>)
    ensures
        match hosts_after(old(hosts).deep_view(), key@, raw@) {
            Ok(next) => r is None && final(hosts).deep_view() == next,
            Err(e) => r is Some && r->0@ == e && final(hosts).deep_view() == old(
                hosts,
            ).deep_view(),
        },
{
    if text::trim(raw).as_str().is_empty() {
        hosts.clear();
        assert(hosts.deep_view() =~= Seq::empty());
        return None;
    }
    let name = match setting::parse_hostname(key, raw) {
        Ok(x) => x,
        Err(e) => return Some(e),
    };
    if text::is_in(name.as_str(), hosts) {
        return Some(error::invalid_option(key, raw, "a unique permitted hostname", false));
    }
    let ghost before = hosts.deep_view();
    hosts.push(name);
    assert(hosts.deep_view() =~= before.push(name@));
    None
}

/// The feature defaults of a section.
fn get_states(o: &Options) -> (r: Vec<FeatureButtonDefault>)
    requires
        o.deep_view().matched(),
    ensures
        r@ == states_upto(o.deep_view(), o.settings@.len() as int),
{
    let mut list: Vec<FeatureButtonDefault> = Vec::new();
    let mut i: usize = 0;
    while i < o.settings.len()
        invariant
            o.deep_view().matched(),
            i <= o.settings@.len(),
            list@ == states_upto(o.deep_view(), i as int),
        decreases o.settings.len() - i,
    {
        let v = &o.section.values[i];
        assert(o.deep_view().section.values[i as int] == v.deep_view());
        if o.settings[i] == Setting::FeatureDefault {
            match group::parse_feature_default(v.diagnostic_key().as_str(), v.value.as_str()) {
                Ok(x) => {
                    list.push(x);
                },
                Err(_) => {},
            }
        }
        i += 1;
    }
    list
}

// ---------------------------------------------------------------------------
// Refusals

/// Why a soft-key profile reference is refused.
pub open spec fn profile_fault(
    v: section::RawValueView,
    device: text::Text,
    profiles: Seq<policy::SoftKeyProfileView>,
) -> Option<error::ErrorView> {
    let name = softkey::name_of_profile(v.value);
    if name.len() == 0 {
        Some(
            error::invalid(
                section::place(v),
                v.value,
                "the name of a declared soft-key profile"@,
                false,
            ),
        )
    } else if profile_index(profiles, name) is None {
        Some(error::ErrorView::UnknownSoftKeyProfile { device, profile: v.value })
    } else {
        None
    }
}

/// Why one setting of a device is refused.
pub open spec fn entry_fault(
    o: option::OptionsView,
    i: int,
    lines: Seq<policy::LineConfigView>,
    profiles: Seq<policy::SoftKeyProfileView>,
    w: rules::LayerRulesView,
) -> Option<error::ErrorView> {
    let s = o.settings[i];
    let v = o.section.values[i];
    if is_button(s) {
        value::refusal_of(button_at(o, i, lines, buttons_upto(o, i, lines).instances))
    } else if s == Setting::PermitHost {
        value::refusal_of(hosts_after(hosts_upto(o, i), section::place(v), v.value))
    } else {
        match line::entry_fault(o, i, w) {
            Some(e) => Some(e),
            None => if s == Setting::SoftkeyProfile {
                profile_fault(v, o.section.name, profiles)
            } else {
                None
            },
        }
    }
}

/// The first refusal from one setting on.
pub open spec fn first_fault(
    o: option::OptionsView,
    i: int,
    lines: Seq<policy::LineConfigView>,
    profiles: Seq<policy::SoftKeyProfileView>,
    w: rules::LayerRulesView,
) -> Option<error::ErrorView>
    decreases o.settings.len() - i,
{
    if i >= o.settings.len() {
        None
    } else {
        match entry_fault(o, i, lines, profiles, w) {
            Some(e) => Some(e),
            None => first_fault(o, i + 1, lines, profiles, w),
        }
    }
}

/// What the settings of a device add up to.
struct Collected {
    variables: Vec<ChannelVariable>,
    hosts: Vec<String>,
    buttons: Vec<ButtonDefinition>,
    arguments: Vec<FeatureArgument>,
}

impl Collected {
    /// What the first `n` settings add up to.
    spec fn matches(
        &self,
        o: option::OptionsView,
        n: int,
        lines: Seq<policy::LineConfigView>,
        w: rules::LayerRulesView,
    ) -> bool {
        &&& self.variables.deep_view() == value::variables_upto(o, n, w)
        &&& self.hosts.deep_view() == hosts_upto(o, n)
        &&& self.buttons.deep_view() == buttons_upto(o, n, lines).buttons
        &&& self.arguments.deep_view() == buttons_upto(o, n, lines).arguments
    }
}

/// Refuses a soft-key profile reference.
fn check_profile(o: &Options, i: usize, profiles: &Vec<SoftKeyProfile>) -> (r: Option<ConfigError>)
    requires
        i < o.section.values@.len(),
    ensures
        error::refusal(r) == profile_fault(
            o.section.values@[i as int].deep_view(),
            o.section.name@,
            profiles.deep_view(),
        ),
{
    let v = &o.section.values[i];
    let name = softkey::canonical_profile_name(v.value.as_str());
    if name.as_str().is_empty() {
        return Some(
            error::invalid_option(
                v.diagnostic_key().as_str(),
                v.value.as_str(),
                "the name of a declared soft-key profile",
                false,
            ),
        );
    }
    match find_profile(profiles, name.as_str()) {
        None => Some(
            ConfigError::UnknownSoftKeyProfile {
                device: text::copy(o.section.name.as_str()),
                profile: text::copy(v.value.as_str()),
            },
        ),
        Some(_) => None,
    }
}

/// Judges every setting of a device section, in order, and adds them up.
fn collect(
    o: &Options,
    lines: &Vec<LineConfig>,
    profiles: &Vec<SoftKeyProfile>,
    with: &LayerRules,
) -> (r: Result<Collected, ConfigError>)
    requires
        o.deep_view().matched(),
    ensures
        match first_fault(
            o.deep_view(),
            0,
            lines.deep_view(),
            profiles.deep_view(),
            with.deep_view(),
        ) {
            Some(e) => r is Err && r->Err_0@ == e,
            None => r is Ok && r->Ok_0.matches(
                o.deep_view(),
                o.settings@.len() as int,
                lines.deep_view(),
                with.deep_view(),
            ),
        },
{
    let mut variables: Vec<ChannelVariable> = Vec::new();
    let mut hosts: Vec<String> = Vec::new();
    let mut buttons: Vec<ButtonDefinition> = Vec::new();
    let mut arguments: Vec<FeatureArgument> = Vec::new();
    let mut instances = ButtonInstances::none();
    let mut i: usize = 0;
    let ghost view = o.deep_view();
    let ghost all = lines.deep_view();
    let ghost known = profiles.deep_view();
    let ghost w = with.deep_view();
    assert(variables.deep_view() =~= Seq::empty());
    assert(hosts.deep_view() =~= Seq::empty());
    assert(buttons.deep_view() =~= Seq::empty());
    assert(arguments.deep_view() =~= Seq::empty());
    while i < o.settings.len()
        invariant
            view == o.deep_view(),
            all == lines.deep_view(),
            known == profiles.deep_view(),
            w == with.deep_view(),
            view.matched(),
            i <= o.settings@.len(),
            variables.deep_view() == value::variables_upto(view, i as int, w),
            hosts.deep_view() == hosts_upto(view, i as int),
            buttons.deep_view() == buttons_upto(view, i as int, all).buttons,
            arguments.deep_view() == buttons_upto(view, i as int, all).arguments,
            instances == buttons_upto(view, i as int, all).instances,
            first_fault(view, 0, all, known, w) == first_fault(view, i as int, all, known, w),
        decreases o.settings.len() - i,
    {
        let s = o.settings[i];
        let v = &o.section.values[i];
        assert(view.section.values[i as int] == v.deep_view());
        let raw = v.value.as_str();
        if s == Setting::Line || s == Setting::Button {
            let device = o.section.name.as_str();
            let parsed = if s == Setting::Line {
                button::parse_line_button(raw, device, lines, instances)
            } else {
                button::parse_button(raw, device, lines, instances)
            };
            match parsed {
                Err(e) => return Err(e),
                Ok(x) => {
                    let ghost before = buttons.deep_view();
                    buttons.push(x.definition);
                    assert(buttons.deep_view() =~= before.push(x.definition.deep_view()));
                    match x.feature_argument {
                        Some(a) => {
                            let ghost prior = arguments.deep_view();
                            arguments.push(a);
                            assert(arguments.deep_view() =~= prior.push(a.deep_view()));
                        },
                        None => {},
                    }
                    instances = x.instances;
                },
            }
        } else if s == Setting::PermitHost {
            match apply_host(&mut hosts, v.diagnostic_key().as_str(), raw) {
                Some(e) => return Err(e),
                None => {},
            }
        } else if s == Setting::SetVariable {
            match variable::push_channel_variable(
                &mut variables,
                v.diagnostic_key().as_str(),
                raw,
                with,
            ) {
                Some(e) => return Err(e),
                None => {},
            }
        } else {
            match value::check_entry(o, i, with) {
                Some(e) => return Err(e),
                None => {},
            }
            if s == Setting::SoftkeyProfile {
                match check_profile(o, i, profiles) {
                    Some(e) => return Err(e),
                    None => {},
                }
            }
        }
        i += 1;
    }
    Ok(Collected { variables, hosts, buttons, arguments })
}

// ---------------------------------------------------------------------------
// Feature buttons

/// The index of the argument of a feature button.
pub open spec fn argument_index(arguments: Seq<policy::FeatureArgumentView>, instance: u32) -> Option<
    nat,
>
    decreases arguments.len(),
{
    if arguments.len() == 0 {
        None
    } else if arguments.last().instance == instance {
        Some((arguments.len() - 1) as nat)
    } else {
        argument_index(arguments.drop_last(), instance)
    }
}

/// The argument of a feature button.
pub open spec fn argument_of(arguments: Seq<policy::FeatureArgumentView>, instance: u32) -> Option<
    text::Text,
> {
    match argument_index(arguments, instance) {
        Some(i) => Some(arguments[i as int].argument),
        None => None,
    }
}

/// The place of a feature button, as diagnostics name it.
pub open spec fn feature_place(name: text::Text, instance: u32) -> text::Text {
    name + ".button.feature."@ + number::decimal(instance as nat)
}

/// The instance of a button of one feature.
pub open spec fn instance_of(b: station::ButtonDefinitionView, feature: ButtonType) -> Option<u32> {
    match b {
        station::ButtonDefinitionView::Feature(f) => if f.feature == feature {
            Some(f.instance)
        } else {
            None
        },
        _ => None,
    }
}

/// The arguments, those of do-not-disturb buttons from one button on brought
/// to their canonical names.
pub open spec fn normalized_from(
    name: text::Text,
    buttons: Seq<station::ButtonDefinitionView>,
    i: int,
    arguments: Seq<policy::FeatureArgumentView>,
) -> Result<Seq<policy::FeatureArgumentView>, error::ErrorView>
    decreases buttons.len() - i,
{
    if i >= buttons.len() {
        Ok(arguments)
    } else {
        match instance_of(buttons[i], ButtonType::DoNotDisturb) {
            None => normalized_from(name, buttons, i + 1, arguments),
            Some(instance) => match argument_index(arguments, instance) {
                None => normalized_from(name, buttons, i + 1, arguments),
                Some(j) => match setting::dnd_button_setting(
                    feature_place(name, instance),
                    arguments[j as int].argument,
                ) {
                    Err(e) => Err(e),
                    Ok(mode) => normalized_from(
                        name,
                        buttons,
                        i + 1,
                        arguments.update(
                            j as int,
                            policy::FeatureArgumentView {
                                instance,
                                argument: network::over(mode.name_of(), ""@),
                            },
                        ),
                    ),
                },
            },
        }
    }
}

/// The numbers of the lines that have a button, in order.
pub open spec fn line_numbers(buttons: Seq<station::ButtonDefinitionView>) -> Seq<text::Text>
    decreases buttons.len(),
{
    if buttons.len() == 0 {
        Seq::empty()
    } else {
        let head = line_numbers(buttons.drop_last());
        match buttons.last() {
            station::ButtonDefinitionView::Line(a) => head.push(a.number),
            _ => head,
        }
    }
}

/// Every feature button, switched off.
pub open spec fn feature_states(buttons: Seq<station::ButtonDefinitionView>) -> Seq<
    FeatureButtonDefault,
>
    decreases buttons.len(),
{
    if buttons.len() == 0 {
        Seq::empty()
    } else {
        let head = feature_states(buttons.drop_last());
        match buttons.last() {
            station::ButtonDefinitionView::Feature(f) => head.push(
                FeatureButtonDefault { instance: f.instance, enabled: false },
            ),
            _ => head,
        }
    }
}

/// The index of the state of an instance.
pub open spec fn state_index(states: Seq<FeatureButtonDefault>, instance: u32) -> Option<nat>
    decreases states.len(),
{
    if states.len() == 0 {
        None
    } else if states.last().instance == instance {
        Some((states.len() - 1) as nat)
    } else {
        state_index(states.drop_last(), instance)
    }
}

/// The states after the defaults from one on.
pub open spec fn states_after(
    name: text::Text,
    states: Seq<FeatureButtonDefault>,
    set: Seq<FeatureButtonDefault>,
    i: int,
) -> Result<Seq<FeatureButtonDefault>, error::ErrorView>
    decreases set.len() - i,
{
    if i >= set.len() {
        Ok(states)
    } else {
        match state_index(states, set[i].instance) {
            None => Err(
                error::refused(
                    name + ".feature_default"@,
                    number::decimal(set[i].instance as nat),
                ),
            ),
            Some(j) => states_after(name, states.update(j as int, set[i]), set, i + 1),
        }
    }
}

/// The parking buttons from one button on, after those already read.
pub open spec fn parking_from(
    name: text::Text,
    buttons: Seq<station::ButtonDefinitionView>,
    arguments: Seq<policy::FeatureArgumentView>,
    i: int,
    list: Seq<policy::ParkingButtonView>,
) -> Result<Seq<policy::ParkingButtonView>, error::ErrorView>
    decreases buttons.len() - i,
{
    if i >= buttons.len() {
        Ok(list)
    } else {
        match instance_of(buttons[i], ButtonType::ParkingLot) {
            None => parking_from(name, buttons, arguments, i + 1, list),
            Some(instance) => match setting::parking_setting(
                feature_place(name, instance),
                argument_of(arguments, instance),
            ) {
                Err(e) => Err(e),
                Ok(button) => parking_from(
                    name,
                    buttons,
                    arguments,
                    i + 1,
                    list.push(policy::ParkingButtonView { instance, button }),
                ),
            },
        }
    }
}

/// Finds the argument of a feature button.
pub fn find_argument(arguments: &Vec<FeatureArgument>, instance: u32) -> (r: Option<usize>)
    ensures
        match r {
            Some(i) => argument_index(arguments.deep_view(), instance) == Some(i as nat) && i
                < arguments@.len(),
            None => argument_index(arguments.deep_view(), instance) is None,
        },
{
    let ghost all = arguments.deep_view();
    let mut i: usize = arguments.len();
    assert(all.take(i as int) =~= all);
    while i > 0
        invariant
            all == arguments.deep_view(),
            i <= arguments@.len(),
            argument_index(all, instance) == argument_index(all.take(i as int), instance),
        decreases i,
    {
        i -= 1;
        assert(all.take(i + 1).drop_last() =~= all.take(i as int));
        assert(all.take(i + 1).last() == arguments@[i as int].deep_view());
        if arguments[i].instance == instance {
            return Some(i);
        }
    }
    None
}

/// Finds the state of an instance.
fn find_state(states: &Vec<FeatureButtonDefault>, instance: u32) -> (r: Option<usize>)
    ensures
        match r {
            Some(i) => state_index(states@, instance) == Some(i as nat) && i < states@.len(),
            None => state_index(states@, instance) is None,
        },
{
    let mut i: usize = states.len();
    assert(states@.take(i as int) =~= states@);
    while i > 0
        invariant
            i <= states@.len(),
            state_index(states@, instance) == state_index(states@.take(i as int), instance),
        decreases i,
    {
        i -= 1;
        assert(states@.take(i + 1).drop_last() =~= states@.take(i as int));
        if states[i].instance == instance {
            return Some(i);
        }
    }
    None
}

/// The place of a feature button.
fn feature_key(name: &str, instance: u32) -> (r: String)
    ensures
        r@ == feature_place(name@, instance),
{
    error::cat3(name, ".button.feature.", number::to_decimal(instance as u64).as_str())
}

/// The instance of a button of one feature.
pub fn feature_instance(b: &ButtonDefinition, feature: ButtonType) -> (r: Option<u32>)
    ensures
        r == instance_of(b.deep_view(), feature),
{
    match b {
        ButtonDefinition::Feature(f) => if f.feature == feature {
            Some(f.instance)
        } else {
            None
        },
        _ => None,
    }
}

/// Brings the arguments of do-not-disturb buttons to their canonical names.
fn normalize_dnd(name: &str, buttons: &Vec<ButtonDefinition>, given: Vec<FeatureArgument>) -> (r:
    Result<Vec<FeatureArgument>, ConfigError>)
    ensures
        error::outcome(r) == normalized_from(
            name@,
            buttons.deep_view(),
            0,
            given.deep_view(),
        ),
{
    let mut arguments = given;
    let ghost all = buttons.deep_view();
    let mut i: usize = 0;
    while i < buttons.len()
        invariant
            all == buttons.deep_view(),
            i <= buttons@.len(),
            normalized_from(name@, all, 0, given.deep_view()) == normalized_from(
                name@,
                all,
                i as int,
                arguments.deep_view(),
            ),
        decreases buttons.len() - i,
    {
        assert(all[i as int] == buttons@[i as int].deep_view());
        match feature_instance(&buttons[i], ButtonType::DoNotDisturb) {
            None => {},
            Some(instance) => match find_argument(&arguments, instance) {
                None => {},
                Some(j) => {
                    let ghost before = arguments.deep_view();
                    assert(before[j as int] == arguments@[j as int].deep_view());
                    match setting::parse_dnd_button_mode(
                        feature_key(name, instance).as_str(),
                        arguments[j].argument.as_str(),
                    ) {
                        Err(e) => return Err(e),
                        Ok(mode) => {
                            let argument = match mode.canonical() {
                                Some(x) => text::copy(x),
                                None => text::copy(""),
                            };
                            let x = FeatureArgument { instance, argument };
                            arguments.set(j, x);
                            assert(arguments.deep_view() =~= before.update(
                                j as int,
                                x.deep_view(),
                            ));
                        },
                    }
                },
            },
        }
        i += 1;
    }
    Ok(arguments)
}

/// The numbers of the lines that have a button.
fn get_line_numbers(buttons: &Vec<ButtonDefinition>) -> (r: Vec<String>)
    ensures
        r.deep_view() == line_numbers(buttons.deep_view()),
{
    let ghost all = buttons.deep_view();
    let mut r: Vec<String> = Vec::new();
    let mut i: usize = 0;
    assert(all.take(0) =~= Seq::empty());
    assert(r.deep_view() =~= Seq::empty());
    while i < buttons.len()
        invariant
            all == buttons.deep_view(),
            i <= buttons@.len(),
            r.deep_view() == line_numbers(all.take(i as int)),
        decreases buttons.len() - i,
    {
        assert(all.take(i + 1).drop_last() =~= all.take(i as int));
        assert(all.take(i + 1).last() == buttons@[i as int].deep_view());
        match &buttons[i] {
            ButtonDefinition::Line(a) => {
                let ghost before = r.deep_view();
                let n = text::copy(a.number.as_str());
                r.push(n);
                assert(r.deep_view() =~= before.push(n@));
            },
            _ => {},
        }
        i += 1;
    }
    assert(all.take(i as int) =~= all);
    r
}

/// Every feature button, switched off.
fn get_feature_states(buttons: &Vec<ButtonDefinition>) -> (r: Vec<FeatureButtonDefault>)
    ensures
        r@ == feature_states(buttons.deep_view()),
{
    let ghost all = buttons.deep_view();
    let mut r: Vec<FeatureButtonDefault> = Vec::new();
    let mut i: usize = 0;
    assert(all.take(0) =~= Seq::empty());
    while i < buttons.len()
        invariant
            all == buttons.deep_view(),
            i <= buttons@.len(),
            r@ == feature_states(all.take(i as int)),
        decreases buttons.len() - i,
    {
        assert(all.take(i + 1).drop_last() =~= all.take(i as int));
        assert(all.take(i + 1).last() == buttons@[i as int].deep_view());
        match &buttons[i] {
            ButtonDefinition::Feature(f) => {
                r.push(FeatureButtonDefault { instance: f.instance, enabled: false });
            },
            _ => {},
        }
        i += 1;
    }
    assert(all.take(i as int) =~= all);
    r
}

/// Sets the states of feature buttons.
fn set_states(
    name: &str,
    given: Vec<FeatureButtonDefault>,
    set: &Vec<FeatureButtonDefault>,
) -> (r: Result<Vec<FeatureButtonDefault>, ConfigError>)
    ensures
        error::listed(r) == states_after(name@, given@, set@, 0),
{
    let mut states = given;
    let mut i: usize = 0;
    while i < set.len()
        invariant
            i <= set@.len(),
            states_after(name@, given@, set@, 0) == states_after(
                name@,
                states@,
                set@,
                i as int,
            ),
        decreases set.len() - i,
    {
        match find_state(&states, set[i].instance) {
            None => {
                let mut key = text::copy(name);
                key.append(".feature_default");
                return Err(
                    error::invalid_value(
                        key.as_str(),
                        number::to_decimal(set[i].instance as u64).as_str(),
                    ),
                );
            },
            Some(j) => {
                states.set(j, set[i]);
            },
        }
        i += 1;
    }
    Ok(states)
}

/// The parking buttons of a device.
fn get_parking(name: &str, buttons: &Vec<ButtonDefinition>, arguments: &Vec<FeatureArgument>) -> (r:
    Result<Vec<ParkingButton>, ConfigError>)
    ensures
        error::outcome(r) == parking_from(
            name@,
            buttons.deep_view(),
            arguments.deep_view(),
            0,
            Seq::empty(),
        ),
{
    let ghost all = buttons.deep_view();
    let mut list: Vec<ParkingButton> = Vec::new();
    let mut i: usize = 0;
    assert(list.deep_view() =~= Seq::empty());
    while i < buttons.len()
        invariant
            all == buttons.deep_view(),
            i <= buttons@.len(),
            parking_from(name@, all, arguments.deep_view(), 0, Seq::empty()) == parking_from(
                name@,
                all,
                arguments.deep_view(),
                i as int,
                list.deep_view(),
            ),
        decreases buttons.len() - i,
    {
        assert(all[i as int] == buttons@[i as int].deep_view());
        match feature_instance(&buttons[i], ButtonType::ParkingLot) {
            None => {},
            Some(instance) => {
                let raw = match find_argument(arguments, instance) {
                    Some(j) => {
                        assert(arguments.deep_view()[j as int]
                            == arguments@[j as int].deep_view());
                        Some(arguments[j].argument.as_str())
                    },
                    None => None,
                };
                match setting::parse_parking_lot_button(
                    feature_key(name, instance).as_str(),
                    raw,
                ) {
                    Err(e) => return Err(e),
                    Ok(button) => {
                        let ghost before = list.deep_view();
                        let x = ParkingButton { instance, button };
                        list.push(x);
                        assert(list.deep_view() =~= before.push(x.deep_view()));
                    },
                }
            },
        }
        i += 1;
    }
    Ok(list)
}

// ---------------------------------------------------------------------------
// The whole section

/// The soft-key profile that a device names.
pub open spec fn profile_of(o: option::OptionsView) -> text::Text {
    match value::found(o, Setting::SoftkeyProfile) {
        Some(v) => softkey::name_of_profile(v.value),
        None => softkey::default_name(),
    }
}

/// The description of a device: what it sets, or its name.
pub open spec fn description_of(s: section::RawSectionView) -> text::Text {
    network::over(section::value_of(s, "description"@), s.name)
}

/// The feature defaults of a device.
pub open spec fn features_of(
    o: option::OptionsView,
    w: rules::LayerRulesView,
    buttons: Seq<FeatureButtonDefault>,
) -> policy::DeviceFeatureDefaultsView {
    policy::DeviceFeatureDefaultsView {
        forwarding: policy::ForwardingDefaultsView {
            all_enabled: network::over(value::flag_at(o, Setting::ForwardAllEnabled), true),
            busy_enabled: network::over(value::flag_at(o, Setting::ForwardBusyEnabled), true),
            no_answer_enabled: network::over(
                value::flag_at(o, Setting::ForwardNoAnswerEnabled),
                true,
            ),
            no_answer_timeout_seconds: network::over(
                value::answer_timeout_at(o, Setting::ForwardNoAnswerTimeout),
                30,
            ) as u32,
            all: network::over(value::forwarding_at(o, Setting::ForwardAll, w), None),
            busy: network::over(value::forwarding_at(o, Setting::ForwardBusy, w), None),
            no_answer: network::over(value::forwarding_at(o, Setting::ForwardNoAnswer, w), None),
        },
        dnd_enabled: network::over(value::flag_at(o, Setting::DndFeature), true),
        dnd: network::over(value::dnd_at(o, Setting::Dnd), DndMode::Off),
        privacy_enabled: network::over(value::flag_at(o, Setting::PrivacyFeature), true),
        privacy: network::over(value::flag_at(o, Setting::Privacy), false),
        buttons,
    }
}

/// The conferences of a device, over the general dialing.
pub open spec fn conference_of(
    o: option::OptionsView,
    base: policy::ConferenceDialingConfigView,
) -> policy::DeviceConferenceConfigView {
    policy::DeviceConferenceConfigView {
        allowed: network::over(value::flag_at(o, Setting::ConferenceAllow), true),
        music_on_hold_class: network::over(
            value::empty_optional_at(o, Setting::ConferenceMusicOnHoldClass),
            Some("default"@),
        ),
        play_general_announcements: network::over(
            value::flag_at(o, Setting::ConferencePlayGeneralAnnounce),
            true,
        ),
        play_participant_announcements: network::over(
            value::flag_at(o, Setting::ConferencePlayParticipantAnnounce),
            true,
        ),
        mute_on_entry: network::over(value::flag_at(o, Setting::ConferenceMuteOnEntry), false),
        show_conference_list: network::over(
            value::flag_at(o, Setting::ConferenceShowList),
            true,
        ),
        dialing: policy::ConferenceDialingConfigView {
            enabled: network::over(
                value::flag_at(o, Setting::ConferenceDialingEnabled),
                base.enabled,
            ),
            application_options: network::over(
                value::app_options_at(o, Setting::ConferenceOptions),
                base.application_options,
            ),
        },
    }
}

/// The call presentation of a device.
pub open spec fn call_ui_of(o: option::OptionsView) -> DeviceCallUiConfig {
    DeviceCallUiConfig {
        redial_mode: if network::over(value::flag_at(o, Setting::UseRedialMenu), false) {
            RedialMode::PlacedCallsMenu
        } else {
            RedialMode::LastNumber
        },
        hinted_ringing_notification: network::over(
            value::flag_at(o, Setting::AllowRinginNotification),
            false,
        ),
        mwi_lamp_mode: network::over(value::lamp_at(o, Setting::MwiLamp), LampMode::On),
        mwi_on_call: network::over(value::flag_at(o, Setting::MwiOnCall), false),
        legacy_code_page: network::over(
            value::code_page_at(o, Setting::PhoneCodePage),
            LegacyCodePage::Iso8859_1,
        ),
    }
}

/// The media of a device, over the general one.
pub open spec fn media_of(
    o: option::OptionsView,
    g: policy::GeneralConfigView,
    codecs: Seq<Codec>,
) -> policy::DeviceMediaConfigView {
    policy::DeviceMediaConfigView {
        codecs,
        audio_encryption: network::over(
            value::encryption_at(o, Setting::AudioEncryption),
            g.audio_encryption,
        ),
        dtmf_mode: network::over(value::dtmf_at(o, Setting::ForceDtmfMode), DtmfMode::Auto),
        direct_media: network::over(value::flag_at(o, Setting::DirectMedia), g.direct_media),
        early_media: network::over(value::early_at(o, Setting::EarlyMedia), g.early_media),
    }
}

/// The transport that a device asks for.
pub open spec fn transport_of(o: option::OptionsView) -> TransportRequirement {
    network::over(value::transport_at(o, Setting::Transport), TransportRequirement::Either)
}

/// The network policy of a device, over the general one.
pub open spec fn network_of(o: option::OptionsView, g: policy::GeneralConfigView) -> policy::DeviceNetworkPolicyView {
    let n = o.settings.len() as int;
    policy::DeviceNetworkPolicyView {
        acl: match value::acl_upto(o, n) {
            Some(rules) => policy::AccessControlListView { rules },
            None => g.network.acl,
        },
        permitted_hosts: hosts_upto(o, n),
        nat: network::over(value::nat_at(o, Setting::Nat), g.network.nat),
        qos: general::marks_of(o).resolved(g.qos),
        transport: transport_of(o),
    }
}

/// What the options of a device section say, once each of them is in order.
pub open spec fn device_of(
    o: option::OptionsView,
    lines: Seq<policy::LineConfigView>,
    g: policy::GeneralConfigView,
    w: rules::LayerRulesView,
) -> Result<policy::DeviceConfigView, error::ErrorView> {
    let s = o.section;
    let n = o.settings.len() as int;
    let buttons = buttons_upto(o, n, lines).buttons;
    match normalized_from(s.name, buttons, 0, buttons_upto(o, n, lines).arguments) {
        Err(e) => Err(e),
        Ok(arguments) => if line_numbers(buttons).len() == 0 {
            Err(error::ErrorView::DeviceWithoutLines(s.name))
        } else {
            match rules::reason_for(w.refused_definitions, s.name) {
                Some(reason) => Err(error::refused(s.name + ".button"@, reason)),
                None => match (
                    states_after(s.name, feature_states(buttons), states_upto(o, n), 0),
                    parking_from(s.name, buttons, arguments, 0, Seq::empty()),
                    general::codecs_of(o, s.name + ".codecs"@, g.codecs),
                ) {
                    (Err(e), _, _) => Err(e),
                    (_, Err(e), _) => Err(e),
                    (_, _, Err(e)) => Err(e),
                    (Ok(states), Ok(parking), Ok(codecs)) => if transport_of(o)
                        == TransportRequirement::Tls && g.listeners.tls is None {
                        Err(
                            error::invalid(
                                section::key_place(s, "transport"@),
                                "tls"@,
                                "a configured general TLS listener and credentials"@,
                                false,
                            ),
                        )
                    } else {
                        Ok(
                            policy::DeviceConfigView {
                                id: station::DeviceIdView { name: s.name },
                                description: description_of(s),
                                lines: line_numbers(buttons),
                                buttons,
                                feature_arguments: arguments,
                                channel_variables: value::variables_upto(o, n, w),
                                soft_key_profile: profile_of(o),
                                feature_defaults: features_of(o, w, states),
                                parking: policy::DeviceParkingConfigView {
                                    enabled: network::over(value::flag_at(o, Setting::Park), true),
                                    feature_buttons: parking,
                                },
                                conference: conference_of(o, g.conference_dialing),
                                call_ui: call_ui_of(o),
                                allow_overlap: network::over(
                                    value::flag_at(o, Setting::AllowOverlap),
                                    g.allow_overlap,
                                ),
                                media: media_of(o, g, codecs),
                                network: network_of(o, g),
                            },
                        )
                    },
                },
            }
        },
    }
}

/// What a device section says.
pub open spec fn device_setting(
    s: section::RawSectionView,
    lines: Seq<policy::LineConfigView>,
    profiles: Seq<policy::SoftKeyProfileView>,
    g: policy::GeneralConfigView,
    w: rules::LayerRulesView,
) -> Result<policy::DeviceConfigView, error::ErrorView> {
    if w.refused_devices.contains(s.name) {
        Err(error::ErrorView::InvalidDevice(s.name))
    } else {
        match option::decoded(Scope::Device, s) {
            Err(e) => Err(e),
            Ok(o) => match first_fault(o, 0, lines, profiles, w) {
                Some(e) => Err(e),
                None => device_of(o, lines, g, w),
            },
        }
    }
}

/// The soft-key profile that a device names.
fn get_profile(o: &Options) -> (r: String)
    requires
        o.deep_view().matched(),
    ensures
        r@ == profile_of(o.deep_view()),
{
    match value::find(o, Setting::SoftkeyProfile) {
        Some(i) => softkey::canonical_profile_name(o.section.values[i].value.as_str()),
        None => text::copy("default"),
    }
}

/// The feature defaults of a device.
fn build_features(o: &Options, with: &LayerRules, buttons: Vec<FeatureButtonDefault>) -> (r:
    DeviceFeatureDefaults)
    requires
        o.deep_view().matched(),
    ensures
        r.deep_view() == features_of(o.deep_view(), with.deep_view(), buttons@),
{
    DeviceFeatureDefaults {
        forwarding: ForwardingDefaults {
            all_enabled: general::pick(value::get_flag(o, Setting::ForwardAllEnabled), true),
            busy_enabled: general::pick(value::get_flag(o, Setting::ForwardBusyEnabled), true),
            no_answer_enabled: general::pick(
                value::get_flag(o, Setting::ForwardNoAnswerEnabled),
                true,
            ),
            no_answer_timeout_seconds: general::pick(
                value::get_answer_timeout(o, Setting::ForwardNoAnswerTimeout),
                30,
            ) as u32,
            all: match value::get_forwarding(o, Setting::ForwardAll, with) {
                Some(x) => x,
                None => None,
            },
            busy: match value::get_forwarding(o, Setting::ForwardBusy, with) {
                Some(x) => x,
                None => None,
            },
            no_answer: match value::get_forwarding(o, Setting::ForwardNoAnswer, with) {
                Some(x) => x,
                None => None,
            },
        },
        dnd_enabled: general::pick(value::get_flag(o, Setting::DndFeature), true),
        dnd: general::pick(value::get_dnd(o, Setting::Dnd), DndMode::Off),
        privacy_enabled: general::pick(value::get_flag(o, Setting::PrivacyFeature), true),
        privacy: general::pick(value::get_flag(o, Setting::Privacy), false),
        buttons,
    }
}

/// The conferences of a device.
fn build_conference(o: &Options, base: &ConferenceDialingConfig) -> (r: DeviceConferenceConfig)
    requires
        o.deep_view().matched(),
    ensures
        r.deep_view() == conference_of(o.deep_view(), base.deep_view()),
{
    DeviceConferenceConfig {
        allowed: general::pick(value::get_flag(o, Setting::ConferenceAllow), true),
        music_on_hold_class: match value::get_empty_optional(
            o,
            Setting::ConferenceMusicOnHoldClass,
        ) {
            Some(x) => x,
            None => Some(text::copy("default")),
        },
        play_general_announcements: general::pick(
            value::get_flag(o, Setting::ConferencePlayGeneralAnnounce),
            true,
        ),
        play_participant_announcements: general::pick(
            value::get_flag(o, Setting::ConferencePlayParticipantAnnounce),
            true,
        ),
        mute_on_entry: general::pick(value::get_flag(o, Setting::ConferenceMuteOnEntry), false),
        show_conference_list: general::pick(value::get_flag(o, Setting::ConferenceShowList), true),
        dialing: ConferenceDialingConfig {
            enabled: general::pick(
                value::get_flag(o, Setting::ConferenceDialingEnabled),
                base.enabled,
            ),
            application_options: match value::get_app_options(o, Setting::ConferenceOptions) {
                Some(x) => x,
                None => text::copy(base.application_options.as_str()),
            },
        },
    }
}

/// The call presentation of a device.
fn build_call_ui(o: &Options) -> (r: DeviceCallUiConfig)
    requires
        o.deep_view().matched(),
    ensures
        r == call_ui_of(o.deep_view()),
{
    DeviceCallUiConfig {
        redial_mode: if general::pick(value::get_flag(o, Setting::UseRedialMenu), false) {
            RedialMode::PlacedCallsMenu
        } else {
            RedialMode::LastNumber
        },
        hinted_ringing_notification: general::pick(
            value::get_flag(o, Setting::AllowRinginNotification),
            false,
        ),
        mwi_lamp_mode: general::pick(value::get_lamp(o, Setting::MwiLamp), LampMode::On),
        mwi_on_call: general::pick(value::get_flag(o, Setting::MwiOnCall), false),
        legacy_code_page: general::pick(
            value::get_code_page(o, Setting::PhoneCodePage),
            LegacyCodePage::Iso8859_1,
        ),
    }
}

/// The media of a device.
fn build_media(o: &Options, g: &GeneralConfig, codecs: Vec<Codec>) -> (r: DeviceMediaConfig)
    requires
        o.deep_view().matched(),
    ensures
        r.deep_view() == media_of(o.deep_view(), g.deep_view(), codecs@),
{
    DeviceMediaConfig {
        codecs,
        audio_encryption: match value::get_encryption(o, Setting::AudioEncryption) {
            Some(x) => x,
            None => g.audio_encryption.clone(),
        },
        dtmf_mode: general::pick(value::get_dtmf(o, Setting::ForceDtmfMode), DtmfMode::Auto),
        direct_media: general::pick(value::get_flag(o, Setting::DirectMedia), g.direct_media),
        early_media: general::pick(value::get_early(o, Setting::EarlyMedia), g.early_media),
    }
}

/// The network policy of a device.
fn build_network(o: &Options, g: &GeneralConfig, permitted_hosts: Vec<String>) -> (r:
    DeviceNetworkPolicy)
    requires
        o.deep_view().matched(),
        permitted_hosts.deep_view() == hosts_upto(o.deep_view(), o.settings@.len() as int),
    ensures
        r.deep_view() == network_of(o.deep_view(), g.deep_view()),
{
    DeviceNetworkPolicy {
        acl: match value::get_acl(o) {
            Some(rules) => AccessControlList { rules },
            None => g.network.acl.clone(),
        },
        permitted_hosts,
        nat: general::pick(value::get_nat(o, Setting::Nat), g.network.nat),
        qos: general::get_marks(o).resolve(g.qos),
        transport: general::pick(
            value::get_transport(o, Setting::Transport),
            TransportRequirement::Either,
        ),
    }
}

/// Reads a device section over the general configuration, the lines and the
/// soft-key profiles.
pub fn parse_device(
    s: &RawSection,
    lines: &Vec<LineConfig>,
    profiles: &Vec<SoftKeyProfile>,
    g: &GeneralConfig,
    with: &LayerRules,
) -> (r: Result<DeviceConfig, ConfigError>)
    ensures
        error::outcome(r) == device_setting(
            s.deep_view(),
            lines.deep_view(),
            profiles.deep_view(),
            g.deep_view(),
            with.deep_view(),
        ),
{
    if text::is_in(s.name.as_str(), &with.refused_devices) {
        return Err(ConfigError::InvalidDevice(text::copy(s.name.as_str())));
    }
    let o = match option::deserialize_entries(Scope::Device, s) {
        Ok(o) => o,
        Err(e) => return Err(e),
    };
    let got = match collect(&o, lines, profiles, with) {
        Ok(x) => x,
        Err(e) => return Err(e),
    };
    let name = o.section.name.as_str();
    let arguments = match normalize_dnd(name, &got.buttons, got.arguments) {
        Ok(x) => x,
        Err(e) => return Err(e),
    };
    let numbers = get_line_numbers(&got.buttons);
    assert(numbers.deep_view().len() == numbers@.len());
    if numbers.len() == 0 {
        return Err(ConfigError::DeviceWithoutLines(text::copy(name)));
    }
    match rules::find_reason(&with.refused_definitions, name) {
        Some(reason) => return Err(
            error::invalid_value(line::name_with(name, ".button").as_str(), reason.as_str()),
        ),
        None => {},
    }
    let states = match set_states(name, get_feature_states(&got.buttons), &get_states(&o)) {
        Ok(x) => x,
        Err(e) => return Err(e),
    };
    let parking = match get_parking(name, &got.buttons, &arguments) {
        Ok(x) => x,
        Err(e) => return Err(e),
    };
    let codecs = match general::get_preferences(
        &o,
        line::name_with(name, ".codecs").as_str(),
        &g.codecs,
    ) {
        Ok(x) => x,
        Err(e) => return Err(e),
    };
    let transport = general::pick(
        value::get_transport(&o, Setting::Transport),
        TransportRequirement::Either,
    );
    if transport == TransportRequirement::Tls && g.listeners.tls.is_none() {
        return Err(
            error::invalid_option(
                o.section.diagnostic_key("transport").as_str(),
                "tls",
                "a configured general TLS listener and credentials",
                false,
            ),
        );
    }
    let description = match o.section.value("description") {
        Some(x) => x,
        None => text::copy(name),
    };
    Ok(
        DeviceConfig {
            id: DeviceId { name: text::copy(name) },
            description,
            lines: numbers,
            buttons: got.buttons,
            feature_arguments: arguments,
            channel_variables: got.variables,
            soft_key_profile: get_profile(&o),
            feature_defaults: build_features(&o, with, states),
            parking: DeviceParkingConfig {
                enabled: general::pick(value::get_flag(&o, Setting::Park), true),
                feature_buttons: parking,
            },
            conference: build_conference(&o, &g.conference_dialing),
            call_ui: build_call_ui(&o),
            allow_overlap: general::pick(
                value::get_flag(&o, Setting::AllowOverlap),
                g.allow_overlap,
            ),
            media: build_media(&o, g, codecs),
            network: build_network(&o, g, got.hosts),
        },
    )
}

// ---------------------------------------------------------------------------
// What the station protocol judges

/// The keys of every mode in a profile.
pub open spec fn station_keys(p: policy::SoftKeyProfileView) -> Seq<station::KeySetView> {
    softkey::modes().map_values(
        |mode: KeyMode| station::KeySetView { mode, actions: softkey::keys_in(p.sets, mode) },
    )
}

/// The keys of every mode in the profile of a name; none where there is no such
/// profile.
pub open spec fn keys_of_profile(profiles: Seq<policy::SoftKeyProfileView>, name: text::Text) -> Seq<
    station::KeySetView,
> {
    match profile_index(profiles, name) {
        Some(i) => station_keys(profiles[i as int]),
        None => Seq::empty(),
    }
}

/// The station presentation before a device says anything of it.
#[verifier::allow_in_spec]
pub fn plain_ui() -> StationUiPolicy
    returns
        (StationUiPolicy {
            placed_calls_redial_menu: false,
            hinted_ringing_notification: false,
            speed_dial_await_further_digits: false,
            mwi_lamp_mode: LampMode::On,
            mwi_on_call: false,
            legacy_code_page: LegacyCodePage::Iso8859_1,
        }),
{
    StationUiPolicy {
        placed_calls_redial_menu: false,
        hinted_ringing_notification: false,
        speed_dial_await_further_digits: false,
        mwi_lamp_mode: LampMode::On,
        mwi_on_call: false,
        legacy_code_page: LegacyCodePage::Iso8859_1,
    }
}

/// The definition of a device that the station protocol judges, where its
/// settings, its buttons and its lines are in order.
pub open spec fn judged(
    s: section::RawSectionView,
    lines: Seq<policy::LineConfigView>,
    profiles: Seq<policy::SoftKeyProfileView>,
    w: rules::LayerRulesView,
) -> Option<station::DeviceDefinitionView> {
    if w.refused_devices.contains(s.name) {
        None
    } else {
        match option::decoded(Scope::Device, s) {
            Err(_) => None,
            Ok(o) => {
                let all = buttons_upto(o, o.settings.len() as int, lines);
                if first_fault(o, 0, lines, profiles, w) is Some || normalized_from(
                    s.name,
                    all.buttons,
                    0,
                    all.arguments,
                ) is Err || line_numbers(all.buttons).len() == 0 {
                    None
                } else {
                    Some(
                        station::DeviceDefinitionView {
                            id: station::DeviceIdView { name: s.name },
                            description: description_of(s),
                            transport: StationTransportRequirement::Either,
                            signaling_qos: None,
                            buttons: all.buttons,
                            soft_keys: keys_of_profile(profiles, profile_of(o)),
                            ui: plain_ui(),
                        },
                    )
                }
            },
        }
    }
}

impl SoftKeyProfile {
    /// The keys of every mode.
    pub fn station_profile(&self) -> (r: Vec<KeySet>)
        ensures
            r.deep_view() == station_keys(self.deep_view()),
    {
        let modes = softkey::key_modes();
        let ghost whole = station_keys(self.deep_view());
        let mut sets: Vec<KeySet> = Vec::new();
        let mut i: usize = 0;
        assert(sets.deep_view() =~= whole.take(0));
        while i < modes.len()
            invariant
                modes@ == softkey::modes(),
                whole == station_keys(self.deep_view()),
                i <= modes@.len(),
                sets.deep_view() == whole.take(i as int),
            decreases modes.len() - i,
        {
            let ghost before = sets.deep_view();
            let x = KeySet { mode: modes[i], actions: self.actions(modes[i]) };
            sets.push(x);
            assert(sets.deep_view() =~= before.push(x.deep_view()));
            i += 1;
            assert(sets.deep_view() =~= whole.take(i as int));
        }
        assert(whole.take(i as int) =~= whole);
        sets
    }
}

/// The keys of every mode in the profile of a name.
pub fn profile_keys(profiles: &Vec<SoftKeyProfile>, name: &str) -> (r: Vec<KeySet>)
    ensures
        r.deep_view() == keys_of_profile(profiles.deep_view(), name@),
{
    match find_profile(profiles, name) {
        Some(i) => {
            assert(profiles.deep_view()[i as int] == profiles@[i as int].deep_view());
            profiles[i].station_profile()
        },
        None => {
            let r: Vec<KeySet> = Vec::new();
            assert(r.deep_view() =~= Seq::empty());
            r
        },
    }
}

/// The definition of a device that the station protocol judges.
pub fn definition_to_judge(
    s: &RawSection,
    lines: &Vec<LineConfig>,
    profiles: &Vec<SoftKeyProfile>,
    with: &LayerRules,
) -> (r: Option<DeviceDefinition>)
    ensures
        r.deep_view() == judged(
            s.deep_view(),
            lines.deep_view(),
            profiles.deep_view(),
            with.deep_view(),
        ),
{
    if text::is_in(s.name.as_str(), &with.refused_devices) {
        return None;
    }
    let o = match option::deserialize_entries(Scope::Device, s) {
        Ok(o) => o,
        Err(_) => return None,
    };
    let got = match collect(&o, lines, profiles, with) {
        Ok(x) => x,
        Err(_) => return None,
    };
    let name = o.section.name.as_str();
    match normalize_dnd(name, &got.buttons, got.arguments) {
        Ok(_) => {},
        Err(_) => return None,
    }
    let numbers = get_line_numbers(&got.buttons);
    assert(numbers.deep_view().len() == numbers@.len());
    if numbers.len() == 0 {
        return None;
    }
    let description = match o.section.value("description") {
        Some(x) => x,
        None => text::copy(name),
    };
    Some(
        DeviceDefinition {
            id: DeviceId { name: text::copy(name) },
            description,
            transport: StationTransportRequirement::Either,
            signaling_qos: None,
            buttons: got.buttons,
            soft_keys: profile_keys(profiles, get_profile(&o).as_str()),
            ui: plain_ui(),
        },
    )
}

} // verus!
