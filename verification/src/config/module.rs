//! The whole configuration: one snapshot of general policy, lines, devices and
//! soft-key profiles.

use vstd::prelude::*;

use crate::config::assembly;
use crate::config::button;
use crate::config::defaults;
use crate::config::device;
use crate::config::error;
use crate::config::error::ConfigError;
use crate::config::general;
use crate::config::inheritance;
use crate::config::network;
use crate::config::overlay;
use crate::config::overlay::ConfigOverlaySection;
use crate::config::policy;
use crate::config::policy::AutoAnswerConfig;
use crate::config::policy::CallAnswerOrder;
use crate::config::policy::DeviceCallUiConfig;
use crate::config::policy::DeviceConferenceConfig;
use crate::config::policy::DeviceConfig;
use crate::config::policy::DeviceFeatureDefaults;
use crate::config::policy::DeviceMediaConfig;
use crate::config::policy::DeviceNetworkPolicy;
use crate::config::policy::DeviceParkingConfig;
use crate::config::policy::DndButtonMode;
use crate::config::policy::FallbackRegistrationConfig;
use crate::config::policy::GeneralConfig;
use crate::config::policy::GuestHotlineConfig;
use crate::config::policy::HotlineDestination;
use crate::config::policy::LineBinding;
use crate::config::policy::LineConferenceConfig;
use crate::config::policy::LineConfig;
use crate::config::policy::LineFeatureConfig;
use crate::config::policy::LineHotlineConfig;
use crate::config::policy::LineMediaConfig;
use crate::config::policy::LineMobilityConfig;
use crate::config::policy::LineParkingConfig;
use crate::config::policy::LineRegistrationConfig;
use crate::config::policy::ListenerPolicy;
use crate::config::policy::NetworkPolicy;
use crate::config::policy::ParkingLotButtonConfig;
use crate::config::policy::QosPolicy;
use crate::config::policy::RealtimeTableConfig;
use crate::config::policy::RedialMode;
use crate::config::policy::RegistrationTarget;
use crate::config::policy::ResolvedConferenceDialing;
use crate::config::policy::ResolvedMediaConfig;
use crate::config::policy::SoftKeyProfile;
use crate::config::policy::TransportRequirement;
use crate::config::registration;
use crate::config::rules;
use crate::config::rules::LayerRules;
use crate::config::section;
use crate::config::section::RawSection;
use crate::config::softkey;
use crate::number;
use crate::station;
use crate::station::AppearanceRingMode;
use crate::station::ButtonDefinition;
use crate::station::ButtonType;
use crate::station::CallerIdentity;
use crate::station::DeviceDefinition;
use crate::station::DeviceId;
use crate::station::LineAppearance;
use crate::station::SignalingQos;
use crate::station::SignalingServerRoute;
use crate::station::StationTransportRequirement;
use crate::station::StationUiPolicy;
use crate::station::Tone;
use crate::text;

verus! {

/// A configuration.
pub struct ModuleConfig {
    pub general: GeneralConfig,
    /// The devices, no two of one name.
    pub devices: Vec<DeviceConfig>,
    /// The lines, no two of one number.
    pub lines: Vec<LineConfig>,
    /// The features of each line, in the order of the lines.
    pub line_features: Vec<LineFeatureConfig>,
    /// The soft-key profiles, no two of one name.
    pub soft_key_profiles: Vec<SoftKeyProfile>,
    pub bindings: Vec<LineBinding>,
    pub device_codec_overrides: Vec<String>,
    pub line_codec_overrides: Vec<String>,
    pub device_audio_encryption_overrides: Vec<String>,
    pub line_audio_encryption_overrides: Vec<String>,
}

/// The contents of [`ModuleConfig`].
pub struct ModuleConfigView {
    pub general: policy::GeneralConfigView,
    pub devices: Seq<policy::DeviceConfigView>,
    pub lines: Seq<policy::LineConfigView>,
    pub line_features: Seq<policy::LineFeatureConfigView>,
    pub soft_key_profiles: Seq<policy::SoftKeyProfileView>,
    pub bindings: Seq<policy::LineBindingView>,
    pub device_codec_overrides: Seq<text::Text>,
    pub line_codec_overrides: Seq<text::Text>,
    pub device_audio_encryption_overrides: Seq<text::Text>,
    pub line_audio_encryption_overrides: Seq<text::Text>,
}

impl DeepView for ModuleConfig {
    type V = ModuleConfigView;

    open spec fn deep_view(&self) -> ModuleConfigView {
        ModuleConfigView {
            general: self.general.deep_view(),
            devices: self.devices.deep_view(),
            lines: self.lines.deep_view(),
            line_features: self.line_features.deep_view(),
            soft_key_profiles: self.soft_key_profiles.deep_view(),
            bindings: self.bindings.deep_view(),
            device_codec_overrides: self.device_codec_overrides.deep_view(),
            line_codec_overrides: self.line_codec_overrides.deep_view(),
            device_audio_encryption_overrides: self.device_audio_encryption_overrides.deep_view(),
            line_audio_encryption_overrides: self.line_audio_encryption_overrides.deep_view(),
        }
    }
}

// ---------------------------------------------------------------------------
// The general section among others

/// The first general section from one section on.
pub open spec fn next_general(sections: Seq<section::RawSectionView>, i: int) -> Option<int>
    decreases sections.len() - i,
{
    if i >= sections.len() {
        None
    } else if assembly::is_general(sections[i]) {
        Some(i)
    } else {
        next_general(sections, i + 1)
    }
}

/// What the general section from one section on says. There is one at most.
pub open spec fn general_from(
    sections: Seq<section::RawSectionView>,
    i: int,
    w: rules::LayerRulesView,
) -> Result<policy::GeneralConfigView, error::ErrorView>
    decreases sections.len() - i,
{
    if i >= sections.len() {
        Ok(defaults::default_general_config())
    } else if assembly::is_general(sections[i]) {
        match general::general_setting(sections[i], w) {
            Ok(g) => match next_general(sections, i + 1) {
                Some(k) => Err(error::ErrorView::DuplicateSection(sections[k].name)),
                None => Ok(g),
            },
            Err(e) => Err(assembly::located(e, sections[i])),
        }
    } else {
        general_from(sections, i + 1, w)
    }
}

/// Finds the first general section from one section on.
fn find_next_general(sections: &Vec<RawSection>, from: usize) -> (r: Option<usize>)
    requires
        from <= sections.len(),
    ensures
        match r {
            Some(k) => k < sections@.len() && next_general(sections.deep_view(), from as int)
                == Some(k as int),
            None => next_general(sections.deep_view(), from as int) is None,
        },
{
    let ghost all = sections.deep_view();
    let mut i: usize = from;
    while i < sections.len()
        invariant
            all == sections.deep_view(),
            from <= i <= sections@.len(),
            next_general(all, from as int) == next_general(all, i as int),
        decreases sections.len() - i,
    {
        assert(all[i as int] == sections@[i as int].deep_view());
        if assembly::general_section(&sections[i]) {
            return Some(i);
        }
        i += 1;
    }
    None
}

/// Reads the general section, or takes the defaults.
fn find_general(sections: &Vec<RawSection>, with: &LayerRules) -> (r: Result<
    GeneralConfig,
    ConfigError,
>)
    ensures
        error::outcome(r) == general_from(sections.deep_view(), 0, with.deep_view()),
{
    let ghost all = sections.deep_view();
    let mut i: usize = 0;
    while i < sections.len()
        invariant
            all == sections.deep_view(),
            i <= sections@.len(),
            general_from(all, 0, with.deep_view()) == general_from(
                all,
                i as int,
                with.deep_view(),
            ),
        decreases sections.len() - i,
    {
        assert(all[i as int] == sections@[i as int].deep_view());
        if assembly::general_section(&sections[i]) {
            return match general::parse_general(&sections[i], with) {
                Ok(g) => match find_next_general(sections, i + 1) {
                    Some(k) => Err(
                        ConfigError::DuplicateSection(text::copy(sections[k].name.as_str())),
                    ),
                    None => Ok(g),
                },
                Err(e) => Err(assembly::locate_section_error(e, &sections[i])),
            };
        }
        i += 1;
    }
    Ok(GeneralConfig::default())
}

// ---------------------------------------------------------------------------
// Conditions on the whole

/// Whether two servers have one priority.
pub open spec fn shares_priority(servers: Seq<station::SignalingServerRouteView>) -> bool {
    exists|i: int, j: int|
        0 <= i < j < servers.len() && (#[trigger] servers[i]).priority == (
        #[trigger] servers[j]).priority
}

/// Whether a server has a priority.
pub open spec fn has_priority(servers: Seq<station::SignalingServerRouteView>, priority: u8) -> bool {
    exists|i: int| 0 <= i < servers.len() && (#[trigger] servers[i]).priority == priority
}

/// Why a general configuration does not carry any devices and lines.
pub open spec fn general_fault(g: policy::GeneralConfigView, w: rules::LayerRulesView) -> Option<
    error::ErrorView,
> {
    if g.keepalive_seconds < 5 || g.secondary_keepalive_seconds < 5 || g.interdigit_timeout_ms
        < 250 {
        Some(
            error::refused(
                "keepalive/secondary_keepalive/interdigit_timeout"@,
                number::decimal(g.keepalive_seconds as nat) + "/"@ + number::decimal(
                    g.secondary_keepalive_seconds as nat,
                ) + "/"@ + number::decimal(g.interdigit_timeout_ms as nat),
            ),
        )
    } else if g.signaling_servers.len() > w.limits.signaling_servers {
        Some(error::refused("signaling_server"@, "too many configured endpoints"@))
    } else if shares_priority(g.signaling_servers) || (g.signaling_servers.len() > 0
        && !has_priority(g.signaling_servers, g.fallback_registration.server_priority)) {
        Some(
            error::refused(
                "signaling_server/server_priority"@,
                "priorities must be unique and include this server"@,
            ),
        )
    } else {
        None
    }
}

/// Whether two servers have one priority.
fn find_shared(servers: &Vec<SignalingServerRoute>) -> (r: bool)
    ensures
        r == shares_priority(servers.deep_view()),
{
    let ghost all = servers.deep_view();
    let mut i: usize = 0;
    while i < servers.len()
        invariant
            all == servers.deep_view(),
            i <= servers@.len(),
            forall|a: int, b: int|
                0 <= a < b < i ==> (#[trigger] all[a]).priority != (#[trigger] all[b]).priority,
        decreases servers.len() - i,
    {
        assert(all[i as int] == servers@[i as int].deep_view());
        let mut j: usize = 0;
        while j < i
            invariant
                all == servers.deep_view(),
                j <= i < servers@.len(),
                all[i as int] == servers@[i as int].deep_view(),
                forall|a: int| 0 <= a < j ==> (#[trigger] all[a]).priority != all[i as int].priority,
            decreases i - j,
        {
            assert(all[j as int] == servers@[j as int].deep_view());
            if servers[j].priority == servers[i].priority {
                assert(all[j as int].priority == all[i as int].priority);
                return true;
            }
            j += 1;
        }
        i += 1;
    }
    false
}

/// Whether a server has a priority.
fn find_priority(servers: &Vec<SignalingServerRoute>, priority: u8) -> (r: bool)
    ensures
        r == has_priority(servers.deep_view(), priority),
{
    let ghost all = servers.deep_view();
    let mut i: usize = 0;
    while i < servers.len()
        invariant
            all == servers.deep_view(),
            i <= servers@.len(),
            forall|j: int| 0 <= j < i ==> (#[trigger] all[j]).priority != priority,
        decreases servers.len() - i,
    {
        assert(all[i as int] == servers@[i as int].deep_view());
        if servers[i].priority == priority {
            assert(all[i as int].priority == priority);
            return true;
        }
        i += 1;
    }
    false
}

/// Judges a general configuration.
fn check_general(g: &GeneralConfig, with: &LayerRules) -> (r: Option<ConfigError>)
    ensures
        error::refusal(r) == general_fault(g.deep_view(), with.deep_view()),
{
    assert(g.signaling_servers.deep_view().len() == g.signaling_servers@.len());
    if g.keepalive_seconds < 5 || g.secondary_keepalive_seconds < 5 || g.interdigit_timeout_ms
        < 250 {
        let value = error::cat5(
            number::to_decimal(g.keepalive_seconds as u64).as_str(),
            "/",
            number::to_decimal(g.secondary_keepalive_seconds as u64).as_str(),
            "/",
            number::to_decimal(g.interdigit_timeout_ms).as_str(),
        );
        return Some(
            error::invalid_value(
                "keepalive/secondary_keepalive/interdigit_timeout",
                value.as_str(),
            ),
        );
    }
    if g.signaling_servers.len() > with.limits.signaling_servers {
        return Some(error::invalid_value("signaling_server", "too many configured endpoints"));
    }
    if find_shared(&g.signaling_servers) || (g.signaling_servers.len() > 0 && !find_priority(
        &g.signaling_servers,
        g.fallback_registration.server_priority,
    )) {
        return Some(
            error::invalid_value(
                "signaling_server/server_priority",
                "priorities must be unique and include this server",
            ),
        );
    }
    None
}

// ---------------------------------------------------------------------------
// The whole

/// The configuration of lines and devices, once they are read.
pub open spec fn bound_config(
    g: policy::GeneralConfigView,
    lines: assembly::LinesView,
    devices: assembly::DevicesView,
    w: rules::LayerRulesView,
) -> Result<ModuleConfigView, error::ErrorView> {
    if devices.devices.len() == 0 || lines.lines.len() == 0 {
        Err(error::ErrorView::Empty)
    } else {
        match general_fault(g, w) {
            Some(e) => Err(e),
            None => match assembly::bindings_of(devices.devices, lines.lines) {
                Err(e) => Err(e),
                Ok(bindings) => match assembly::first_unbound(lines.lines, bindings) {
                    Some(number) => Err(error::ErrorView::UnassignedLine(number)),
                    None => Ok(
                        ModuleConfigView {
                            general: g,
                            devices: devices.devices,
                            lines: lines.lines,
                            line_features: lines.features,
                            soft_key_profiles: lines.profiles,
                            bindings,
                            device_codec_overrides: devices.codecs,
                            line_codec_overrides: lines.codecs,
                            device_audio_encryption_overrides: devices.encryption,
                            line_audio_encryption_overrides: lines.encryption,
                        },
                    ),
                },
            },
        }
    }
}

/// The configuration of resolved sections: general policy first, then lines
/// and profiles, then devices.
pub open spec fn resolved_config(
    sections: Seq<section::RawSectionView>,
    w: rules::LayerRulesView,
) -> Result<ModuleConfigView, error::ErrorView> {
    match general_from(sections, 0, w) {
        Err(e) => Err(e),
        Ok(g) => match assembly::lines_from(sections, 0, assembly::no_lines(), g, w) {
            Err(e) => Err(e),
            Ok(lines) => match assembly::devices_from(
                sections,
                0,
                assembly::no_devices(),
                lines,
                g,
                w,
            ) {
                Err(e) => Err(e),
                Ok(devices) => bound_config(g, lines, devices, w),
            },
        },
    }
}

/// The configuration of sections, templates included.
pub open spec fn config_of(sections: Seq<section::RawSectionView>, w: rules::LayerRulesView) -> Result<
    ModuleConfigView,
    error::ErrorView,
> {
    match inheritance::all_resolved(sections) {
        Err(e) => Err(e),
        Ok(resolved) => resolved_config(resolved, w),
    }
}

/// The configuration of a text.
pub open spec fn config_in(input: text::Text, w: rules::LayerRulesView) -> Result<
    ModuleConfigView,
    error::ErrorView,
> {
    match section::parsed(input) {
        Err(e) => Err(e),
        Ok(sections) => config_of(sections, w),
    }
}

/// The configuration of a text under overlays.
pub open spec fn overlaid_config(
    input: text::Text,
    overlays: Seq<overlay::ConfigOverlaySectionView>,
    w: rules::LayerRulesView,
) -> Result<ModuleConfigView, error::ErrorView> {
    match section::parsed(input) {
        Err(e) => Err(e),
        Ok(sections) => match overlay::after_overlays(sections, overlays) {
            Err(e) => Err(e),
            Ok(all) => config_of(all, w),
        },
    }
}

/// The realtime tables that a text names.
pub open spec fn tables_in(input: text::Text, w: rules::LayerRulesView) -> Result<
    Option<policy::RealtimeTableConfigView>,
    error::ErrorView,
> {
    match section::parsed(input) {
        Err(e) => Err(e),
        Ok(sections) => match general_from(sections, 0, w) {
            Err(e) => Err(e),
            Ok(g) => Ok(g.realtime_tables),
        },
    }
}

/// The definitions of the device sections from one on, where they can be
/// judged.
pub open spec fn judged_from(
    sections: Seq<section::RawSectionView>,
    i: int,
    lines: assembly::LinesView,
    w: rules::LayerRulesView,
    list: Seq<station::DeviceDefinitionView>,
) -> Seq<station::DeviceDefinitionView>
    decreases sections.len() - i,
{
    if i >= sections.len() {
        list
    } else {
        let next = match device::judged(sections[i], lines.lines, lines.profiles, w) {
            Some(d) => if assembly::is_device(sections[i]) {
                list.push(d)
            } else {
                list
            },
            None => list,
        };
        judged_from(sections, i + 1, lines, w, next)
    }
}

/// The device definitions of sections that the station protocol judges.
pub open spec fn judged_in(sections: Seq<section::RawSectionView>, w: rules::LayerRulesView) -> Seq<
    station::DeviceDefinitionView,
> {
    match inheritance::all_resolved(sections) {
        Err(_) => Seq::empty(),
        Ok(resolved) => match general_from(resolved, 0, w) {
            Err(_) => Seq::empty(),
            Ok(g) => match assembly::lines_from(resolved, 0, assembly::no_lines(), g, w) {
                Err(_) => Seq::empty(),
                Ok(lines) => judged_from(resolved, 0, lines, w, Seq::empty()),
            },
        },
    }
}

/// The device definitions of sections that the station protocol judges.
pub fn definitions_to_judge(sections: &Vec<RawSection>, with: &LayerRules) -> (r: Vec<
    DeviceDefinition,
>)
    ensures
        r.deep_view() == judged_in(sections.deep_view(), with.deep_view()),
{
    let mut list: Vec<DeviceDefinition> = Vec::new();
    assert(list.deep_view() =~= Seq::empty());
    let resolved = match inheritance::resolve_inheritance(sections) {
        Ok(x) => x,
        Err(_) => return list,
    };
    let g = match find_general(&resolved, with) {
        Ok(x) => x,
        Err(_) => return list,
    };
    let lines = match assembly::collect_lines(&resolved, &g, with) {
        Ok(x) => x,
        Err(_) => return list,
    };
    let ghost all = resolved.deep_view();
    let mut i: usize = 0;
    while i < resolved.len()
        invariant
            all == resolved.deep_view(),
            i <= resolved@.len(),
            judged_from(all, 0, lines.deep_view(), with.deep_view(), Seq::empty()) == judged_from(
                all,
                i as int,
                lines.deep_view(),
                with.deep_view(),
                list.deep_view(),
            ),
        decreases resolved.len() - i,
    {
        assert(all[i as int] == resolved@[i as int].deep_view());
        if assembly::device_section(&resolved[i]) {
            match device::definition_to_judge(
                &resolved[i],
                &lines.lines,
                &lines.profiles,
                with,
            ) {
                Some(d) => {
                    let ghost before = list.deep_view();
                    list.push(d);
                    assert(list.deep_view() =~= before.push(d.deep_view()));
                },
                None => {},
            }
        }
        i += 1;
    }
    list
}

// ---------------------------------------------------------------------------
// Lookups

/// The bindings of one line among the first `n`.
pub open spec fn bindings_of_line(
    list: Seq<policy::LineBindingView>,
    number: text::Text,
    n: int,
) -> Seq<policy::LineBindingView>
    decreases n,
{
    if n <= 0 {
        Seq::empty()
    } else {
        let head = bindings_of_line(list, number, n - 1);
        if list[n - 1].line.number == number {
            head.push(list[n - 1])
        } else {
            head
        }
    }
}

/// The bindings of one device among the first `n`.
pub open spec fn bindings_of_device(
    list: Seq<policy::LineBindingView>,
    device: text::Text,
    n: int,
) -> Seq<policy::LineBindingView>
    decreases n,
{
    if n <= 0 {
        Seq::empty()
    } else {
        let head = bindings_of_device(list, device, n - 1);
        if list[n - 1].device_id.name == device {
            head.push(list[n - 1])
        } else {
            head
        }
    }
}

/// The first binding of a line on a device, by what is asked for.
pub open spec fn binding_from(
    list: Seq<policy::LineBindingView>,
    device: Option<text::Text>,
    number: Option<text::Text>,
    instance: Option<u32>,
    i: int,
) -> Option<policy::LineBindingView>
    decreases list.len() - i,
{
    if i >= list.len() {
        None
    } else if (device is Some ==> device == Some(list[i].device_id.name)) && (number is Some
        ==> number == Some(list[i].line.number)) && (instance is Some ==> instance == Some(
        list[i].line_instance,
    )) {
        Some(list[i])
    } else {
        binding_from(list, device, number, instance, i + 1)
    }
}

/// What a do-not-disturb button does, by its argument.
pub open spec fn dnd_mode_of(argument: Option<text::Text>) -> DndButtonMode {
    match argument {
        Some(a) => if a == "silent"@ {
            DndButtonMode::Silent
        } else if a == "reject"@ {
            DndButtonMode::Reject
        } else {
            DndButtonMode::Cycle
        },
        None => DndButtonMode::Cycle,
    }
}

/// The do-not-disturb buttons among the first `n` buttons of a device.
pub open spec fn dnd_upto(d: policy::DeviceConfigView, n: int) -> Seq<(u32, DndButtonMode)>
    decreases n,
{
    if n <= 0 {
        Seq::empty()
    } else {
        let head = dnd_upto(d, n - 1);
        match device::instance_of(d.buttons[n - 1], ButtonType::DoNotDisturb) {
            Some(instance) => head.push(
                (instance, dnd_mode_of(device::argument_of(d.feature_arguments, instance))),
            ),
            None => head,
        }
    }
}

/// The mode of an instance in a list of do-not-disturb buttons.
pub open spec fn dnd_in(list: Seq<(u32, DndButtonMode)>, instance: u32) -> Option<DndButtonMode>
    decreases list.len(),
{
    if list.len() == 0 {
        None
    } else if list[0].0 == instance {
        Some(list[0].1)
    } else {
        dnd_in(list.skip(1), instance)
    }
}

/// The parking settings of a button.
pub open spec fn parking_button(list: Seq<policy::ParkingButtonView>, instance: u32) -> Option<
    policy::ParkingLotButtonConfigView,
>
    decreases list.len(),
{
    if list.len() == 0 {
        None
    } else if list.last().instance == instance {
        Some(list.last().button)
    } else {
        parking_button(list.drop_last(), instance)
    }
}

/// The buttons of a device, with the dial tones of their lines.
pub open spec fn toned(
    c: ModuleConfigView,
    b: station::ButtonDefinitionView,
) -> station::ButtonDefinitionView {
    match b {
        station::ButtonDefinitionView::Line(a) => station::ButtonDefinitionView::Line(
            match c.features(a.number) {
                Some(f) => station::LineAppearanceView { initial_tone: f.dial_tones.initial, ..a },
                None => a,
            },
        ),
        other => other,
    }
}

/// What a transport requirement is called on stations.
pub open spec fn station_transport(t: TransportRequirement) -> StationTransportRequirement {
    match t {
        TransportRequirement::Clear => StationTransportRequirement::Clear,
        TransportRequirement::Tls => StationTransportRequirement::Secure,
        TransportRequirement::Either => StationTransportRequirement::Either,
    }
}

/// What a station is provisioned with.
pub open spec fn definition_of(c: ModuleConfigView, d: policy::DeviceConfigView) -> station::DeviceDefinitionView {
    station::DeviceDefinitionView {
        id: d.id,
        description: d.description,
        transport: station_transport(d.network.transport),
        signaling_qos: Some(
            SignalingQos {
                dscp: d.network.qos.signaling.dscp.value,
                cos: d.network.qos.signaling.cos.value,
            },
        ),
        buttons: d.buttons.map_values(|b: station::ButtonDefinitionView| toned(c, b)),
        soft_keys: device::keys_of_profile(c.soft_key_profiles, d.soft_key_profile),
        ui: StationUiPolicy {
            placed_calls_redial_menu: d.call_ui.redial_mode == RedialMode::PlacedCallsMenu,
            hinted_ringing_notification: d.call_ui.hinted_ringing_notification,
            speed_dial_await_further_digits: c.general.speed_dial_await_further_digits,
            mwi_lamp_mode: d.call_ui.mwi_lamp_mode,
            mwi_on_call: d.call_ui.mwi_on_call,
            legacy_code_page: d.call_ui.legacy_code_page,
        },
    }
}

/// What the stations of the names from one on are provisioned with.
pub open spec fn definitions_from(
    c: ModuleConfigView,
    names: Seq<text::Text>,
    i: int,
    list: Seq<station::DeviceDefinitionView>,
) -> Seq<station::DeviceDefinitionView>
    decreases names.len() - i,
{
    if i >= names.len() {
        list
    } else {
        match c.device(names[i]) {
            Some(d) => definitions_from(c, names, i + 1, list.push(definition_of(c, d))),
            None => definitions_from(c, names, i + 1, list),
        }
    }
}

impl ModuleConfigView {
    /// The device of a name.
    pub open spec fn device(self, name: text::Text) -> Option<policy::DeviceConfigView> {
        match assembly::device_index(self.devices, name) {
            Some(i) => Some(self.devices[i as int]),
            None => None,
        }
    }

    /// The features of a line.
    pub open spec fn features(self, number: text::Text) -> Option<policy::LineFeatureConfigView> {
        match button::line_index(self.lines, number) {
            Some(i) => if i < self.line_features.len() {
                Some(self.line_features[i as int])
            } else {
                None
            },
            None => None,
        }
    }

    /// The profile of a reduced name.
    pub open spec fn profile(self, name: text::Text) -> Option<policy::SoftKeyProfileView> {
        match device::profile_index(self.soft_key_profiles, name) {
            Some(i) => Some(self.soft_key_profiles[i as int]),
            None => None,
        }
    }

    /// The binding of a button.
    pub open spec fn button(self, device: text::Text, instance: u32) -> Option<
        policy::LineBindingView,
    > {
        binding_from(self.bindings, Some(device), None, Some(instance), 0)
    }

    /// The media of a binding: what the line sets, or else the device, or else
    /// the general policy.
    pub open spec fn media(self, b: policy::LineBindingView) -> Option<
        policy::ResolvedMediaConfigView,
    > {
        match (self.device(b.device_id.name), self.features(b.line.number)) {
            (Some(d), Some(l)) => Some(
                policy::ResolvedMediaConfigView {
                    codecs: if self.line_codec_overrides.contains(b.line.number) {
                        l.media.codecs
                    } else if self.device_codec_overrides.contains(b.device_id.name) {
                        d.media.codecs
                    } else {
                        self.general.codecs
                    },
                    audio_encryption: if self.line_audio_encryption_overrides.contains(
                        b.line.number,
                    ) {
                        l.media.audio_encryption
                    } else if self.device_audio_encryption_overrides.contains(
                        b.device_id.name,
                    ) {
                        d.media.audio_encryption
                    } else {
                        self.general.audio_encryption
                    },
                    dtmf_mode: d.media.dtmf_mode,
                    direct_media: d.media.direct_media,
                    early_media: d.media.early_media,
                    video_mode: l.media.video_mode,
                    audio_processing: l.media.audio_processing,
                },
            ),
            _ => None,
        }
    }

    /// The conference dialing of a binding: what the line sets, over the device.
    pub open spec fn conference(self, b: policy::LineBindingView) -> Option<
        policy::ResolvedConferenceDialingView,
    > {
        match (self.device(b.device_id.name), self.features(b.line.number)) {
            (Some(d), Some(l)) => Some(
                policy::ResolvedConferenceDialingView {
                    enabled: network::over(l.conference.enabled, d.conference.dialing.enabled),
                    destination: l.conference.destination,
                    application_options: network::over(
                        l.conference.application_options,
                        d.conference.dialing.application_options,
                    ),
                },
            ),
            _ => None,
        }
    }

    /// The line of a guest station.
    pub open spec fn guest_binding(self, device: text::Text) -> policy::LineBindingView {
        let guest = self.general.guest_hotline;
        policy::LineBindingView {
            device_id: station::DeviceIdView { name: device },
            line_instance: 1,
            appearance: station::LineAppearanceView {
                instance: 1,
                number: "hotline"@,
                display_name: guest.label,
                label: Some(guest.label),
                caller_id: station::CallerIdentityView { name: None, number: None },
                ring_mode: AppearanceRingMode::Normal,
                subscription_identity: None,
                privacy: false,
                initial_tone: Tone::InsideDial,
            },
            line: policy::LineConfigView {
                number: "hotline"@,
                label: guest.label,
                context: guest.context,
                caller_name: guest.label,
                caller_number: "hotline"@,
                mailbox: None,
                language: self.general.language,
                account_code: self.general.account_code,
                channel_variables: Seq::empty(),
            },
        }
    }

    /// Where a binding dials when it goes off hook.
    pub open spec fn hotline(self, b: policy::LineBindingView) -> Option<
        policy::HotlineDestinationView,
    > {
        let guest = self.general.guest_hotline;
        if self.device(b.device_id.name) is Some {
            match self.features(b.line.number) {
                Some(f) => f.hotline.destination,
                None => None,
            }
        } else if guest.enabled && b.line_instance == 1 && b.line.number == "hotline"@ {
            guest.extension
        } else {
            None
        }
    }

    /// The binding that an address dials: a line, or a device and a line.
    pub open spec fn dialed(self, address: text::Text) -> Option<policy::LineBindingView> {
        let parts = text::fields_of(address, '/');
        if parts.len() == 1 {
            binding_from(self.bindings, None, Some(parts[0]), None, 0)
        } else if parts.len() == 2 {
            binding_from(self.bindings, Some(parts[0]), Some(parts[1]), None, 0)
        } else {
            None
        }
    }
}

impl ModuleConfig {
    /// Builds a configuration from sections.
    pub(crate) fn from_raw_sections(sections: &Vec<RawSection>, with: &LayerRules) -> (r: Result<
        ModuleConfig,
        ConfigError,
    >)
        ensures
            error::outcome(r) == config_of(sections.deep_view(), with.deep_view()),
    {
        let resolved = match inheritance::resolve_inheritance(sections) {
            Ok(x) => x,
            Err(e) => return Err(e),
        };
        let g = match find_general(&resolved, with) {
            Ok(x) => x,
            Err(e) => return Err(e),
        };
        let lines = match assembly::collect_lines(&resolved, &g, with) {
            Ok(x) => x,
            Err(e) => return Err(e),
        };
        let devices = match assembly::collect_devices(&resolved, &lines, &g, with) {
            Ok(x) => x,
            Err(e) => return Err(e),
        };
        assert(devices.devices.deep_view().len() == devices.devices@.len());
        assert(lines.lines.deep_view().len() == lines.lines@.len());
        if devices.devices.len() == 0 || lines.lines.len() == 0 {
            return Err(ConfigError::Empty);
        }
        match check_general(&g, with) {
            Some(e) => return Err(e),
            None => {},
        }
        let bindings = match assembly::bind_devices(&devices.devices, &lines.lines) {
            Ok(x) => x,
            Err(e) => return Err(e),
        };
        match assembly::find_unbound(&lines.lines, &bindings) {
            Some(number) => return Err(ConfigError::UnassignedLine(number)),
            None => {},
        }
        Ok(
            ModuleConfig {
                general: g,
                devices: devices.devices,
                lines: lines.lines,
                line_features: lines.features,
                soft_key_profiles: lines.profiles,
                bindings,
                device_codec_overrides: devices.codecs,
                line_codec_overrides: lines.codecs,
                device_audio_encryption_overrides: devices.encryption,
                line_audio_encryption_overrides: lines.encryption,
            },
        )
    }

    /// Reads a configuration.
    pub fn parse(input: &str, with: &LayerRules) -> (r: Result<ModuleConfig, ConfigError>)
        ensures
            error::outcome(r) == config_in(input@, with.deep_view()),
    {
        match section::parse_sections(input) {
            Ok(sections) => ModuleConfig::from_raw_sections(&sections, with),
            Err(e) => Err(e),
        }
    }

    /// Reads a configuration under overlays.
    pub fn parse_with_overlays(
        input: &str,
        overlays: &Vec<ConfigOverlaySection>,
        with: &LayerRules,
    ) -> (r: Result<ModuleConfig, ConfigError>)
        ensures
            error::outcome(r) == overlaid_config(
                input@,
                overlays.deep_view(),
                with.deep_view(),
            ),
    {
        let sections = match section::parse_sections(input) {
            Ok(sections) => sections,
            Err(e) => return Err(e),
        };
        match overlay::apply_config_overlays(sections, overlays) {
            Ok(all) => ModuleConfig::from_raw_sections(&all, with),
            Err(e) => Err(e),
        }
    }

    /// The realtime tables that a text names.
    pub fn realtime_tables_from_source(input: &str, with: &LayerRules) -> (r: Result<
        Option<RealtimeTableConfig>,
        ConfigError,
    >)
        ensures
            error::outcome(r) == tables_in(input@, with.deep_view()),
    {
        let sections = match section::parse_sections(input) {
            Ok(sections) => sections,
            Err(e) => return Err(e),
        };
        match find_general(&sections, with) {
            Ok(g) => Ok(g.realtime_tables),
            Err(e) => Err(e),
        }
    }

    /// The device of a name.
    pub fn find_device(&self, name: &str) -> (r: Option<&DeviceConfig>)
        ensures
            match self.deep_view().device(name@) {
                Some(d) => r is Some && r->0.deep_view() == d,
                None => r is None,
            },
    {
        match assembly::find_device(&self.devices, name) {
            Some(i) => {
                assert(self.devices.deep_view()[i as int] == self.devices@[i as int].deep_view());
                Some(&self.devices[i])
            },
            None => None,
        }
    }

    /// The features of a line.
    pub fn features_for_line(&self, number: &str) -> (r: Option<&LineFeatureConfig>)
        ensures
            match self.deep_view().features(number@) {
                Some(f) => r is Some && r->0.deep_view() == f,
                None => r is None,
            },
    {
        assert(self.line_features.deep_view().len() == self.line_features@.len());
        match button::find_line(&self.lines, number) {
            Some(i) => if i < self.line_features.len() {
                assert(self.line_features.deep_view()[i as int]
                    == self.line_features@[i as int].deep_view());
                Some(&self.line_features[i])
            } else {
                None
            },
            None => None,
        }
    }

    /// The soft-key profile of a name.
    pub fn soft_key_profile(&self, name: &str) -> (r: Option<&SoftKeyProfile>)
        ensures
            match self.deep_view().profile(softkey::name_of_profile(name@)) {
                Some(p) => r is Some && r->0.deep_view() == p,
                None => r is None,
            },
    {
        let name = softkey::canonical_profile_name(name);
        self.find_profile(name.as_str())
    }

    /// The soft-key profile of a reduced name.
    fn find_profile(&self, name: &str) -> (r: Option<&SoftKeyProfile>)
        ensures
            match self.deep_view().profile(name@) {
                Some(p) => r is Some && r->0.deep_view() == p,
                None => r is None,
            },
    {
        match device::find_profile(&self.soft_key_profiles, name) {
            Some(i) => {
                assert(self.soft_key_profiles.deep_view()[i as int]
                    == self.soft_key_profiles@[i as int].deep_view());
                Some(&self.soft_key_profiles[i])
            },
            None => None,
        }
    }

    /// The soft-key profile of a device.
    pub fn soft_key_profile_for_device(&self, device: &DeviceId) -> (r: Option<&SoftKeyProfile>)
        ensures
            match self.deep_view().device(device.name@) {
                Some(d) => match self.deep_view().profile(d.soft_key_profile) {
                    Some(p) => r is Some && r->0.deep_view() == p,
                    None => r is None,
                },
                None => r is None,
            },
    {
        match self.find_device(device.name.as_str()) {
            Some(d) => self.find_profile(d.soft_key_profile.as_str()),
            None => None,
        }
    }

    /// The first binding that is asked for.
    fn find_binding(
        &self,
        device: Option<&str>,
        number: Option<&str>,
        instance: Option<u32>,
    ) -> (r: Option<&LineBinding>)
        ensures
            match binding_from(
                self.deep_view().bindings,
                device.deep_view(),
                number.deep_view(),
                instance,
                0,
            ) {
                Some(b) => r is Some && r->0.deep_view() == b,
                None => r is None,
            },
    {
        let ghost all = self.deep_view().bindings;
        let mut i: usize = 0;
        while i < self.bindings.len()
            invariant
                all == self.deep_view().bindings,
                i <= self.bindings@.len(),
                binding_from(all, device.deep_view(), number.deep_view(), instance, 0)
                    == binding_from(
                    all,
                    device.deep_view(),
                    number.deep_view(),
                    instance,
                    i as int,
                ),
            decreases self.bindings.len() - i,
        {
            let b = &self.bindings[i];
            assert(all[i as int] == b.deep_view());
            let device_fits = match device {
                Some(d) => text::same(d, b.device_id.name.as_str()),
                None => true,
            };
            let number_fits = match number {
                Some(n) => text::same(n, b.line.number.as_str()),
                None => true,
            };
            let instance_fits = match instance {
                Some(x) => x == b.line_instance,
                None => true,
            };
            if device_fits && number_fits && instance_fits {
                return Some(b);
            }
            i += 1;
        }
        None
    }

    /// The first binding of a line.
    pub fn line(&self, number: &str) -> (r: Option<&LineBinding>)
        ensures
            match binding_from(self.deep_view().bindings, None, Some(number@), None, 0) {
                Some(b) => r is Some && r->0.deep_view() == b,
                None => r is None,
            },
    {
        self.find_binding(None, Some(number), None)
    }

    /// The binding of a button.
    pub fn line_for_device(&self, device: &DeviceId, instance: u32) -> (r: Option<&LineBinding>)
        ensures
            match self.deep_view().button(device.name@, instance) {
                Some(b) => r is Some && r->0.deep_view() == b,
                None => r is None,
            },
    {
        self.find_binding(Some(device.name.as_str()), None, Some(instance))
    }

    /// The binding that an address dials: `line` or `device/line`.
    pub fn dial_target(&self, address: &str) -> (r: Option<&LineBinding>)
        ensures
            match self.deep_view().dialed(address@) {
                Some(b) => r is Some && r->0.deep_view() == b,
                None => r is None,
            },
    {
        let parts = text::fields(address, '/');
        let ghost all = parts.deep_view();
        assert(all.len() == parts@.len());
        if parts.len() == 1 {
            assert(all[0] == parts@[0]@);
            self.find_binding(None, Some(parts[0].as_str()), None)
        } else if parts.len() == 2 {
            assert(all[0] == parts@[0]@ && all[1] == parts@[1]@);
            self.find_binding(Some(parts[0].as_str()), Some(parts[1].as_str()), None)
        } else {
            None
        }
    }

    /// The bindings of a line.
    pub fn appearances_for_line(&self, number: &str) -> (r: Vec<LineBinding>)
        ensures
            r.deep_view() == bindings_of_line(
                self.deep_view().bindings,
                number@,
                self.bindings@.len() as int,
            ),
    {
        let ghost all = self.deep_view().bindings;
        let mut r: Vec<LineBinding> = Vec::new();
        let mut i: usize = 0;
        assert(r.deep_view() =~= Seq::empty());
        while i < self.bindings.len()
            invariant
                all == self.deep_view().bindings,
                i <= self.bindings@.len(),
                r.deep_view() == bindings_of_line(all, number@, i as int),
            decreases self.bindings.len() - i,
        {
            assert(all[i as int] == self.bindings@[i as int].deep_view());
            if text::same(self.bindings[i].line.number.as_str(), number) {
                let ghost before = r.deep_view();
                let b = self.bindings[i].clone();
                r.push(b);
                assert(r.deep_view() =~= before.push(b.deep_view()));
            }
            i += 1;
        }
        r
    }

    /// The bindings of a device.
    pub fn appearances_for_device(&self, device: &DeviceId) -> (r: Vec<LineBinding>)
        ensures
            r.deep_view() == bindings_of_device(
                self.deep_view().bindings,
                device.name@,
                self.bindings@.len() as int,
            ),
    {
        let ghost all = self.deep_view().bindings;
        let mut r: Vec<LineBinding> = Vec::new();
        let mut i: usize = 0;
        assert(r.deep_view() =~= Seq::empty());
        while i < self.bindings.len()
            invariant
                all == self.deep_view().bindings,
                i <= self.bindings@.len(),
                r.deep_view() == bindings_of_device(all, device.name@, i as int),
            decreases self.bindings.len() - i,
        {
            assert(all[i as int] == self.bindings@[i as int].deep_view());
            if text::same(self.bindings[i].device_id.name.as_str(), device.name.as_str()) {
                let ghost before = r.deep_view();
                let b = self.bindings[i].clone();
                r.push(b);
                assert(r.deep_view() =~= before.push(b.deep_view()));
            }
            i += 1;
        }
        r
    }

    /// How many buttons a line has.
    pub fn line_appearance_count(&self, number: &str) -> (r: usize)
        ensures
            r == bindings_of_line(
                self.deep_view().bindings,
                number@,
                self.bindings@.len() as int,
            ).len(),
    {
        let list = self.appearances_for_line(number);
        assert(list.deep_view().len() == list@.len());
        list.len()
    }

    /// The do-not-disturb buttons of a device.
    pub fn dnd_buttons_for_device(&self, device: &DeviceId) -> (r: Vec<(u32, DndButtonMode)>)
        ensures
            match self.deep_view().device(device.name@) {
                Some(d) => r@ == dnd_upto(d, d.buttons.len() as int),
                None => r@.len() == 0,
            },
    {
        let mut r: Vec<(u32, DndButtonMode)> = Vec::new();
        let d = match self.find_device(device.name.as_str()) {
            Some(d) => d,
            None => return r,
        };
        let ghost dv = d.deep_view();
        let mut i: usize = 0;
        while i < d.buttons.len()
            invariant
                dv == d.deep_view(),
                i <= d.buttons@.len(),
                r@ == dnd_upto(dv, i as int),
            decreases d.buttons.len() - i,
        {
            assert(dv.buttons[i as int] == d.buttons@[i as int].deep_view());
            match device::feature_instance(&d.buttons[i], ButtonType::DoNotDisturb) {
                Some(instance) => {
                    let mode = match device::find_argument(&d.feature_arguments, instance) {
                        Some(j) => {
                            assert(dv.feature_arguments[j as int]
                                == d.feature_arguments@[j as int].deep_view());
                            let a = d.feature_arguments[j].argument.as_str();
                            if text::same(a, "silent") {
                                DndButtonMode::Silent
                            } else if text::same(a, "reject") {
                                DndButtonMode::Reject
                            } else {
                                DndButtonMode::Cycle
                            }
                        },
                        None => DndButtonMode::Cycle,
                    };
                    r.push((instance, mode));
                },
                None => {},
            }
            i += 1;
        }
        r
    }

    /// What a do-not-disturb button does.
    pub fn dnd_button_mode(&self, device: &DeviceId, feature_instance: u32) -> (r: Option<
        DndButtonMode,
    >)
        ensures
            r == (match self.deep_view().device(device.name@) {
                Some(d) => dnd_in(dnd_upto(d, d.buttons.len() as int), feature_instance),
                None => None,
            }),
    {
        let list = self.dnd_buttons_for_device(device);
        let mut i: usize = 0;
        assert(list@.skip(0) =~= list@);
        while i < list.len()
            invariant
                i <= list@.len(),
                dnd_in(list@, feature_instance) == dnd_in(list@.skip(i as int), feature_instance),
                list@.len() == 0 || match self.deep_view().device(device.name@) {
                    Some(d) => list@ == dnd_upto(d, d.buttons.len() as int),
                    None => false,
                },
            decreases list.len() - i,
        {
            assert(list@.skip(i as int)[0] == list@[i as int]);
            if list[i].0 == feature_instance {
                return Some(list[i].1);
            }
            assert(list@.skip(i as int).skip(1) =~= list@.skip(i + 1));
            i += 1;
        }
        None
    }

    /// The parking settings of a button.
    pub fn parking_lot_for_button(&self, device: &DeviceId, feature_instance: u32) -> (r: Option<
        &ParkingLotButtonConfig,
    >)
        ensures
            match self.deep_view().device(device.name@) {
                Some(d) => match parking_button(d.parking.feature_buttons, feature_instance) {
                    Some(p) => r is Some && r->0.deep_view() == p,
                    None => r is None,
                },
                None => r is None,
            },
    {
        let d = match self.find_device(device.name.as_str()) {
            Some(d) => d,
            None => return None,
        };
        let list = &d.parking.feature_buttons;
        let ghost all = list.deep_view();
        let mut i: usize = list.len();
        assert(all.take(i as int) =~= all);
        while i > 0
            invariant
                all == list.deep_view(),
                i <= list@.len(),
                self.deep_view().device(device.name@) == Some(d.deep_view()),
                all == d.deep_view().parking.feature_buttons,
                parking_button(all, feature_instance) == parking_button(
                    all.take(i as int),
                    feature_instance,
                ),
            decreases i,
        {
            i -= 1;
            assert(all.take(i + 1).drop_last() =~= all.take(i as int));
            assert(all.take(i + 1).last() == list@[i as int].deep_view());
            if list[i].instance == feature_instance {
                return Some(&list[i].button);
            }
        }
        None
    }

    /// The order in which waiting calls are answered.
    pub fn call_answer_order(&self) -> (r: CallAnswerOrder)
        ensures
            r == self.deep_view().general.call_answer_order,
    {
        self.general.call_answer_order
    }

    /// The line of an unknown station, where guests are let in.
    pub fn guest_hotline_binding(&self, device_id: &DeviceId, line_instance: u32) -> (r: Option<
        LineBinding,
    >)
        ensures
            r.deep_view() == (if self.deep_view().device(device_id.name@) is Some
                || !self.general.guest_hotline.enabled || self.general.guest_hotline.extension
                is None || line_instance != 1 {
                None
            } else {
                Some(self.deep_view().guest_binding(device_id.name@))
            }),
    {
        let guest = &self.general.guest_hotline;
        if self.find_device(device_id.name.as_str()).is_some() || !guest.enabled
            || guest.extension.is_none() || line_instance != 1 {
            return None;
        }
        let variables: Vec<policy::ChannelVariable> = Vec::new();
        assert(variables.deep_view() =~= Seq::empty());
        Some(
            LineBinding {
                device_id: DeviceId { name: text::copy(device_id.name.as_str()) },
                line_instance,
                appearance: LineAppearance {
                    instance: line_instance,
                    number: text::copy("hotline"),
                    display_name: text::copy(guest.label.as_str()),
                    label: Some(text::copy(guest.label.as_str())),
                    caller_id: CallerIdentity { name: None, number: None },
                    ring_mode: AppearanceRingMode::Normal,
                    subscription_identity: None,
                    privacy: false,
                    initial_tone: Tone::InsideDial,
                },
                line: LineConfig {
                    number: text::copy("hotline"),
                    label: text::copy(guest.label.as_str()),
                    context: text::copy(guest.context.as_str()),
                    caller_name: text::copy(guest.label.as_str()),
                    caller_number: text::copy("hotline"),
                    mailbox: None,
                    language: text::copy(self.general.language.as_str()),
                    account_code: text::copy_option(&self.general.account_code),
                    channel_variables: variables,
                },
            },
        )
    }

    /// Where a binding dials when it goes off hook.
    pub fn hotline_destination_for_binding(&self, binding: &LineBinding) -> (r: Option<
        &HotlineDestination,
    >)
        ensures
            match self.deep_view().hotline(binding.deep_view()) {
                Some(h) => r is Some && r->0.deep_view() == h,
                None => r is None,
            },
    {
        if self.find_device(binding.device_id.name.as_str()).is_some() {
            return match self.features_for_line(binding.line.number.as_str()) {
                Some(f) => f.hotline.destination.as_ref(),
                None => None,
            };
        }
        let guest = &self.general.guest_hotline;
        if guest.enabled && binding.line_instance == 1 && text::same(
            binding.line.number.as_str(),
            "hotline",
        ) {
            guest.extension.as_ref()
        } else {
            None
        }
    }

    /// The contexts of registered lines.
    pub fn registration_contexts(&self) -> (r: &Vec<String>)
        ensures
            r.deep_view() == self.deep_view().general.registration.contexts,
    {
        &self.general.registration.contexts
    }

    /// The registration targets of a line.
    pub fn registration_targets_for_line(&self, number: &str) -> (r: Option<
        Vec<RegistrationTarget>,
    >)
        ensures
            r.deep_view() == (match self.deep_view().features(number@) {
                Some(f) => Some(
                    registration::targets_of(
                        self.deep_view().general.registration.contexts,
                        f.registration.extensions,
                    ),
                ),
                None => None,
            }),
    {
        match self.features_for_line(number) {
            Some(f) => Some(
                registration::resolve_registration_targets(
                    &self.general.registration.contexts,
                    &f.registration.extensions,
                ),
            ),
            None => None,
        }
    }

    /// The realtime tables.
    pub fn realtime_tables(&self) -> (r: Option<&RealtimeTableConfig>)
        ensures
            match self.deep_view().general.realtime_tables {
                Some(t) => r is Some && r->0.deep_view() == t,
                None => r is None,
            },
    {
        self.general.realtime_tables.as_ref()
    }

    /// The media of a binding.
    pub fn media_for_binding(&self, binding: &LineBinding) -> (r: Option<ResolvedMediaConfig>)
        ensures
            r.deep_view() == self.deep_view().media(binding.deep_view()),
    {
        let device = binding.device_id.name.as_str();
        let number = binding.line.number.as_str();
        let d = match self.find_device(device) {
            Some(d) => d,
            None => return None,
        };
        let l = match self.features_for_line(number) {
            Some(l) => l,
            None => return None,
        };
        let codecs = if text::is_in(number, &self.line_codec_overrides) {
            text::copy_all(&l.media.codecs)
        } else if text::is_in(device, &self.device_codec_overrides) {
            text::copy_all(&d.media.codecs)
        } else {
            text::copy_all(&self.general.codecs)
        };
        let audio_encryption = if text::is_in(number, &self.line_audio_encryption_overrides) {
            l.media.audio_encryption.clone()
        } else if text::is_in(device, &self.device_audio_encryption_overrides) {
            d.media.audio_encryption.clone()
        } else {
            self.general.audio_encryption.clone()
        };
        Some(
            ResolvedMediaConfig {
                codecs,
                audio_encryption,
                dtmf_mode: d.media.dtmf_mode,
                direct_media: d.media.direct_media,
                early_media: d.media.early_media,
                video_mode: l.media.video_mode,
                audio_processing: l.media.audio_processing,
            },
        )
    }

    /// The media of a button.
    pub fn media_for_appearance(&self, device: &DeviceId, line_instance: u32) -> (r: Option<
        ResolvedMediaConfig,
    >)
        ensures
            r.deep_view() == (match self.deep_view().button(device.name@, line_instance) {
                Some(b) => self.deep_view().media(b),
                None => None,
            }),
    {
        match self.line_for_device(device, line_instance) {
            Some(b) => self.media_for_binding(b),
            None => None,
        }
    }

    /// The conference dialing of a binding.
    pub fn conference_dialing_for_binding(&self, binding: &LineBinding) -> (r: Option<
        ResolvedConferenceDialing,
    >)
        ensures
            r.deep_view() == self.deep_view().conference(binding.deep_view()),
    {
        let d = match self.find_device(binding.device_id.name.as_str()) {
            Some(d) => d,
            None => return None,
        };
        let l = match self.features_for_line(binding.line.number.as_str()) {
            Some(l) => l,
            None => return None,
        };
        Some(
            ResolvedConferenceDialing {
                enabled: general::pick(l.conference.enabled, d.conference.dialing.enabled),
                destination: text::copy_option(&l.conference.destination),
                application_options: match &l.conference.application_options {
                    Some(x) => text::copy(x.as_str()),
                    None => text::copy(d.conference.dialing.application_options.as_str()),
                },
            },
        )
    }

    /// The conference dialing of a button.
    pub fn conference_dialing_for_appearance(&self, device: &DeviceId, line_instance: u32) -> (r:
        Option<ResolvedConferenceDialing>)
        ensures
            r.deep_view() == (match self.deep_view().button(device.name@, line_instance) {
                Some(b) => self.deep_view().conference(b),
                None => None,
            }),
    {
        match self.line_for_device(device, line_instance) {
            Some(b) => self.conference_dialing_for_binding(b),
            None => None,
        }
    }

    /// The buttons of a device, with the dial tones of their lines.
    fn toned_buttons(&self, d: &DeviceConfig) -> (r: Vec<ButtonDefinition>)
        ensures
            r.deep_view() == d.deep_view().buttons.map_values(
                |b: station::ButtonDefinitionView| toned(self.deep_view(), b),
            ),
    {
        let ghost whole = d.deep_view().buttons.map_values(
            |b: station::ButtonDefinitionView| toned(self.deep_view(), b),
        );
        let ghost all = d.deep_view().buttons;
        let mut r: Vec<ButtonDefinition> = Vec::new();
        let mut i: usize = 0;
        assert(r.deep_view() =~= whole.take(0));
        while i < d.buttons.len()
            invariant
                all == d.deep_view().buttons,
                whole.len() == all.len(),
                forall|j: int|
                    0 <= j < all.len() ==> #[trigger] whole[j] == toned(self.deep_view(), all[j]),
                i <= d.buttons@.len(),
                r.deep_view() == whole.take(i as int),
            decreases d.buttons.len() - i,
        {
            assert(all[i as int] == d.buttons@[i as int].deep_view());
            let ghost before = r.deep_view();
            let x = match &d.buttons[i] {
                ButtonDefinition::Line(a) => {
                    let mut a = a.clone();
                    match self.features_for_line(a.number.as_str()) {
                        Some(f) => {
                            a.initial_tone = f.dial_tones.initial;
                        },
                        None => {},
                    }
                    ButtonDefinition::Line(a)
                },
                other => other.clone(),
            };
            assert(x.deep_view() == whole[i as int]);
            r.push(x);
            assert(r.deep_view() =~= before.push(x.deep_view()));
            i += 1;
            assert(r.deep_view() =~= whole.take(i as int));
        }
        assert(whole.take(i as int) =~= whole);
        r
    }

    /// What a station is provisioned with.
    fn device_definition(&self, d: &DeviceConfig) -> (r: DeviceDefinition)
        ensures
            r.deep_view() == definition_of(self.deep_view(), d.deep_view()),
    {
        DeviceDefinition {
            id: d.id.clone(),
            description: text::copy(d.description.as_str()),
            transport: match d.network.transport {
                TransportRequirement::Clear => StationTransportRequirement::Clear,
                TransportRequirement::Tls => StationTransportRequirement::Secure,
                TransportRequirement::Either => StationTransportRequirement::Either,
            },
            signaling_qos: Some(
                SignalingQos {
                    dscp: d.network.qos.signaling.dscp.value,
                    cos: d.network.qos.signaling.cos.value,
                },
            ),
            buttons: self.toned_buttons(d),
            soft_keys: device::profile_keys(
                &self.soft_key_profiles,
                d.soft_key_profile.as_str(),
            ),
            ui: StationUiPolicy {
                placed_calls_redial_menu: d.call_ui.redial_mode == RedialMode::PlacedCallsMenu,
                hinted_ringing_notification: d.call_ui.hinted_ringing_notification,
                speed_dial_await_further_digits: self.general.speed_dial_await_further_digits,
                mwi_lamp_mode: d.call_ui.mwi_lamp_mode,
                mwi_on_call: d.call_ui.mwi_on_call,
                legacy_code_page: d.call_ui.legacy_code_page,
            },
        }
    }

    /// What the stations are provisioned with, by ascending name.
    pub fn device_definitions(&self) -> (r: Vec<DeviceDefinition>)
        ensures
            r.deep_view() == definitions_from(
                self.deep_view(),
                assembly::sorted_names(self.deep_view().devices),
                0,
                Seq::empty(),
            ),
    {
        let names = assembly::sort_names(&self.devices);
        let ghost order = names.deep_view();
        let mut list: Vec<DeviceDefinition> = Vec::new();
        let mut i: usize = 0;
        assert(list.deep_view() =~= Seq::empty());
        while i < names.len()
            invariant
                order == names.deep_view(),
                i <= names@.len(),
                definitions_from(self.deep_view(), order, 0, Seq::empty()) == definitions_from(
                    self.deep_view(),
                    order,
                    i as int,
                    list.deep_view(),
                ),
            decreases names.len() - i,
        {
            assert(order[i as int] == names@[i as int]@);
            match self.find_device(names[i].as_str()) {
                Some(d) => {
                    let ghost before = list.deep_view();
                    let x = self.device_definition(d);
                    list.push(x);
                    assert(list.deep_view() =~= before.push(x.deep_view()));
                },
                None => {},
            }
            i += 1;
        }
        list
    }

    /// The initial features of a device.
    pub fn feature_defaults_for_device(&self, device: &DeviceId) -> (r: Option<&DeviceFeatureDefaults>)
        ensures
            match self.deep_view().device(device.name@) {
                Some(d) => r is Some && r->0.deep_view() == d.feature_defaults,
                None => r is None,
            },
    {
        match self.find_device(device.name.as_str()) {
            Some(d) => Some(&d.feature_defaults),
            None => None,
        }
    }

    /// The parking of a device.
    pub fn parking_for_device(&self, device: &DeviceId) -> (r: Option<&DeviceParkingConfig>)
        ensures
            match self.deep_view().device(device.name@) {
                Some(d) => r is Some && r->0.deep_view() == d.parking,
                None => r is None,
            },
    {
        match self.find_device(device.name.as_str()) {
            Some(d) => Some(&d.parking),
            None => None,
        }
    }

    /// The conferences of a device.
    pub fn conference_for_device(&self, device: &DeviceId) -> (r: Option<&DeviceConferenceConfig>)
        ensures
            match self.deep_view().device(device.name@) {
                Some(d) => r is Some && r->0.deep_view() == d.conference,
                None => r is None,
            },
    {
        match self.find_device(device.name.as_str()) {
            Some(d) => Some(&d.conference),
            None => None,
        }
    }

    /// The call presentation of a device.
    pub fn call_ui_for_device(&self, device: &DeviceId) -> (r: Option<&DeviceCallUiConfig>)
        ensures
            match self.deep_view().device(device.name@) {
                Some(d) => r is Some && r->0.deep_view() == d.call_ui,
                None => r is None,
            },
    {
        match self.find_device(device.name.as_str()) {
            Some(d) => Some(&d.call_ui),
            None => None,
        }
    }

    /// The media of a device.
    pub fn media_for_device(&self, device: &DeviceId) -> (r: Option<&DeviceMediaConfig>)
        ensures
            match self.deep_view().device(device.name@) {
                Some(d) => r is Some && r->0.deep_view() == d.media,
                None => r is None,
            },
    {
        match self.find_device(device.name.as_str()) {
            Some(d) => Some(&d.media),
            None => None,
        }
    }

    /// The network policy of a device.
    pub fn network_for_device(&self, device: &DeviceId) -> (r: Option<&DeviceNetworkPolicy>)
        ensures
            match self.deep_view().device(device.name@) {
                Some(d) => r is Some && r->0.deep_view() == d.network,
                None => r is None,
            },
    {
        match self.find_device(device.name.as_str()) {
            Some(d) => Some(&d.network),
            None => None,
        }
    }

    /// The parking of a line.
    pub fn parking_for_line(&self, number: &str) -> (r: Option<&LineParkingConfig>)
        ensures
            match self.deep_view().features(number@) {
                Some(f) => r is Some && r->0.deep_view() == f.parking,
                None => r is None,
            },
    {
        match self.features_for_line(number) {
            Some(f) => Some(&f.parking),
            None => None,
        }
    }

    /// The conference dialing of a line.
    pub fn conference_for_line(&self, number: &str) -> (r: Option<&LineConferenceConfig>)
        ensures
            match self.deep_view().features(number@) {
                Some(f) => r is Some && r->0.deep_view() == f.conference,
                None => r is None,
            },
    {
        match self.features_for_line(number) {
            Some(f) => Some(&f.conference),
            None => None,
        }
    }

    /// The hotline of a line.
    pub fn hotline_for_line(&self, number: &str) -> (r: Option<&LineHotlineConfig>)
        ensures
            match self.deep_view().features(number@) {
                Some(f) => r is Some && r->0.deep_view() == f.hotline,
                None => r is None,
            },
    {
        match self.features_for_line(number) {
            Some(f) => Some(&f.hotline),
            None => None,
        }
    }

    /// The mobility of a line.
    pub fn mobility_for_line(&self, number: &str) -> (r: Option<&LineMobilityConfig>)
        ensures
            match self.deep_view().features(number@) {
                Some(f) => r is Some && r->0.deep_view() == f.mobility,
                None => r is None,
            },
    {
        match self.features_for_line(number) {
            Some(f) => Some(&f.mobility),
            None => None,
        }
    }

    /// The registration of a line.
    pub fn registration_for_line(&self, number: &str) -> (r: Option<&LineRegistrationConfig>)
        ensures
            match self.deep_view().features(number@) {
                Some(f) => r is Some && r->0.deep_view() == f.registration,
                None => r is None,
            },
    {
        match self.features_for_line(number) {
            Some(f) => Some(&f.registration),
            None => None,
        }
    }

    /// The media of a line.
    pub fn media_for_line(&self, number: &str) -> (r: Option<&LineMediaConfig>)
        ensures
            match self.deep_view().features(number@) {
                Some(f) => r is Some && r->0.deep_view() == f.media,
                None => r is None,
            },
    {
        match self.features_for_line(number) {
            Some(f) => Some(&f.media),
            None => None,
        }
    }

    /// How calls are answered without a hand.
    pub fn auto_answer(&self) -> (r: &AutoAnswerConfig)
        ensures
            r.deep_view() == self.deep_view().general.auto_answer,
    {
        &self.general.auto_answer
    }

    /// The hotline of unknown stations.
    pub fn guest_hotline(&self) -> (r: &GuestHotlineConfig)
        ensures
            r.deep_view() == self.deep_view().general.guest_hotline,
    {
        &self.general.guest_hotline
    }

    /// Whether stations may come back from another server.
    pub fn fallback_registration(&self) -> (r: &FallbackRegistrationConfig)
        ensures
            r.deep_view() == self.deep_view().general.fallback_registration,
    {
        &self.general.fallback_registration
    }

    /// The general network policy.
    pub fn network_policy(&self) -> (r: &NetworkPolicy)
        ensures
            r.deep_view() == self.deep_view().general.network,
    {
        &self.general.network
    }

    /// The listeners.
    pub fn listener_policy(&self) -> (r: &ListenerPolicy)
        ensures
            r.deep_view() == self.deep_view().general.listeners,
    {
        &self.general.listeners
    }

    /// The general traffic marks.
    pub fn qos_policy(&self) -> (r: &QosPolicy)
        ensures
            r.deep_view() == self.deep_view().general.qos,
    {
        &self.general.qos
    }
}

} // verus!
