//! What a setting is where nothing sets it.

use vstd::prelude::*;

use crate::address;
use crate::address::SocketAddr;
use crate::config::codec;
use crate::config::network;
use crate::config::policy;
use crate::config::policy::AccessControlList;
use crate::config::policy::AdvertisedAddresses;
use crate::config::policy::AutoAnswerConfig;
use crate::config::policy::CallAnswerOrder;
use crate::config::policy::ConferenceDialingConfig;
use crate::config::policy::Cos;
use crate::config::policy::DeviceCallUiConfig;
use crate::config::policy::DeviceConferenceConfig;
use crate::config::policy::DeviceFeatureDefaults;
use crate::config::policy::DeviceMediaConfig;
use crate::config::policy::DeviceParkingConfig;
use crate::config::policy::DialTerminatorConfig;
use crate::config::policy::DndButtonMode;
use crate::config::policy::DndMode;
use crate::config::policy::Dscp;
use crate::config::policy::FallbackDecision;
use crate::config::policy::FallbackRegistrationConfig;
use crate::config::policy::ForwardingDefaults;
use crate::config::policy::GeneralConfig;
use crate::config::policy::GeneralStationPolicy;
use crate::config::policy::GeneralTimingPolicy;
use crate::config::policy::GuestHotlineConfig;
use crate::config::policy::HotlineDestination;
use crate::config::policy::JitterBufferConfig;
use crate::config::policy::JitterBufferImplementation;
use crate::config::policy::LineConferenceConfig;
use crate::config::policy::LineDialToneConfig;
use crate::config::policy::LineFeatureConfig;
use crate::config::policy::LineHotlineConfig;
use crate::config::policy::LineMediaConfig;
use crate::config::policy::LineMobilityConfig;
use crate::config::policy::LineParkingConfig;
use crate::config::policy::LineRegistrationConfig;
use crate::config::policy::ListenerPolicy;
use crate::config::policy::MediaEncryptionPolicy;
use crate::config::policy::MediaEncryptionRequirement;
use crate::config::policy::NatMode;
use crate::config::policy::NetworkPolicy;
use crate::config::policy::ParkingRetrievalBehavior;
use crate::config::policy::PickupConfig;
use crate::config::policy::QosClass;
use crate::config::policy::QosPolicy;
use crate::config::policy::RedialMode;
use crate::config::policy::RegistrationConfig;
use crate::config::policy::TransportRequirement;
use crate::config::policy::VideoMode;
use crate::config::policy::VoicemailDefaults;
use crate::config::policy::VoicemailDestination;
use crate::station;
use crate::station::AudioProcessingPolicy;
use crate::station::DateTemplate;
use crate::station::DtmfMode;
use crate::station::EchoCancellation;
use crate::station::LampMode;
use crate::station::LegacyCodePage;
use crate::station::RingerMode;
use crate::station::SilenceSuppression;
use crate::station::Tone;
use crate::text;

verus! {

/// A port on every IPv4 address.
#[verifier::allow_in_spec]
pub fn any_socket(port: u16) -> SocketAddr
    returns
        (SocketAddr { ip: address::any_ipv4(), scope: 0, port }),
{
    SocketAddr { ip: address::any_ipv4(), scope: 0, port }
}

impl Default for CallAnswerOrder {
    fn default() -> (r: Self)
        ensures
            r == CallAnswerOrder::OldestFirst,
    {
        CallAnswerOrder::OldestFirst
    }
}

impl Default for NatMode {
    fn default() -> (r: Self)
        ensures
            r == NatMode::Auto,
    {
        NatMode::Auto
    }
}

impl Default for TransportRequirement {
    fn default() -> (r: Self)
        ensures
            r == TransportRequirement::Either,
    {
        TransportRequirement::Either
    }
}

impl Default for DndMode {
    fn default() -> (r: Self)
        ensures
            r == DndMode::Off,
    {
        DndMode::Off
    }
}

impl Default for DndButtonMode {
    fn default() -> (r: Self)
        ensures
            r == DndButtonMode::Cycle,
    {
        DndButtonMode::Cycle
    }
}

impl Default for ParkingRetrievalBehavior {
    fn default() -> (r: Self)
        ensures
            r == ParkingRetrievalBehavior::RetrieveSingle,
    {
        ParkingRetrievalBehavior::RetrieveSingle
    }
}

impl Default for VideoMode {
    fn default() -> (r: Self)
        ensures
            r == VideoMode::Auto,
    {
        VideoMode::Auto
    }
}

impl Default for JitterBufferImplementation {
    fn default() -> (r: Self)
        ensures
            r == JitterBufferImplementation::Fixed,
    {
        JitterBufferImplementation::Fixed
    }
}

impl Default for RedialMode {
    fn default() -> (r: Self)
        ensures
            r == RedialMode::LastNumber,
    {
        RedialMode::LastNumber
    }
}

/// The default of [`DialTerminatorConfig`].
pub open spec fn default_dial_terminator_config() -> DialTerminatorConfig {
    DialTerminatorConfig {
        character: '#',
        record: false,
    }
}

impl Default for DialTerminatorConfig {
    fn default() -> (r: Self)
        ensures
            r == default_dial_terminator_config(),
    {
        let r = DialTerminatorConfig {
            character: '#',
            record: false,
        };
        r
    }
}

/// The default of [`RegistrationConfig`].
pub open spec fn default_registration_config() -> policy::RegistrationConfigView {
    policy::RegistrationConfigView {
        contexts: Seq::empty(),
    }
}

impl Default for RegistrationConfig {
    fn default() -> (r: Self)
        ensures
            r.deep_view() == default_registration_config(),
    {
        let r = RegistrationConfig {
            contexts: Vec::new(),
        };
        assert(r.deep_view().contexts =~= Seq::empty());
        r
    }
}

/// The default of [`FallbackRegistrationConfig`].
pub open spec fn default_fallback_registration_config() -> FallbackRegistrationConfig {
    FallbackRegistrationConfig {
        decision: FallbackDecision::Reject,
        backoff_seconds: 60,
        server_priority: 1,
    }
}

impl Default for FallbackRegistrationConfig {
    fn default() -> (r: Self)
        ensures
            r == default_fallback_registration_config(),
    {
        let r = FallbackRegistrationConfig {
            decision: FallbackDecision::Reject,
            backoff_seconds: 60,
            server_priority: 1,
        };
        r
    }
}

/// The default of [`AccessControlList`].
pub open spec fn default_access_control_list() -> policy::AccessControlListView {
    policy::AccessControlListView {
        rules: Seq::empty(),
    }
}

impl Default for AccessControlList {
    fn default() -> (r: Self)
        ensures
            r.deep_view() == default_access_control_list(),
    {
        let r = AccessControlList {
            rules: Vec::new(),
        };
        assert(r.deep_view().rules =~= Seq::empty());
        r
    }
}

/// The default of [`AdvertisedAddresses`].
pub open spec fn default_advertised_addresses() -> AdvertisedAddresses {
    AdvertisedAddresses {
        ipv4: Some(address::localhost()),
        ipv6: None,
    }
}

impl Default for AdvertisedAddresses {
    fn default() -> (r: Self)
        ensures
            r == default_advertised_addresses(),
    {
        let r = AdvertisedAddresses {
            ipv4: Some(address::localhost()),
            ipv6: None,
        };
        r
    }
}

/// The default of [`NetworkPolicy`].
pub open spec fn default_network_policy() -> policy::NetworkPolicyView {
    policy::NetworkPolicyView {
        acl: default_access_control_list(),
        local_networks: network::internal(),
        external: None,
        advertised: default_advertised_addresses(),
        nat: NatMode::Auto,
    }
}

impl Default for NetworkPolicy {
    fn default() -> (r: Self)
        ensures
            r.deep_view() == default_network_policy(),
    {
        let r = NetworkPolicy {
            acl: AccessControlList::default(),
            local_networks: network::internal_networks(),
            external: None,
            advertised: AdvertisedAddresses::default(),
            nat: NatMode::Auto,
        };
        r
    }
}

/// The default of [`QosPolicy`].
pub open spec fn default_qos_policy() -> QosPolicy {
    QosPolicy {
        signaling: QosClass { dscp: Dscp { value: 26 }, cos: Cos { value: 4 } },
        audio: QosClass { dscp: Dscp { value: 46 }, cos: Cos { value: 6 } },
        video: QosClass { dscp: Dscp { value: 34 }, cos: Cos { value: 5 } },
    }
}

impl Default for QosPolicy {
    fn default() -> (r: Self)
        ensures
            r == default_qos_policy(),
    {
        let r = QosPolicy {
            signaling: QosClass { dscp: Dscp { value: 26 }, cos: Cos { value: 4 } },
            audio: QosClass { dscp: Dscp { value: 46 }, cos: Cos { value: 6 } },
            video: QosClass { dscp: Dscp { value: 34 }, cos: Cos { value: 5 } },
        };
        r
    }
}

/// The default of [`ListenerPolicy`].
pub open spec fn default_listener_policy() -> policy::ListenerPolicyView {
    policy::ListenerPolicyView {
        clear: any_socket(2000),
        tls: None,
    }
}

impl Default for ListenerPolicy {
    fn default() -> (r: Self)
        ensures
            r.deep_view() == default_listener_policy(),
    {
        let r = ListenerPolicy {
            clear: any_socket(2000),
            tls: None,
        };
        r
    }
}

/// The default of [`ForwardingDefaults`].
pub open spec fn default_forwarding_defaults() -> policy::ForwardingDefaultsView {
    policy::ForwardingDefaultsView {
        all_enabled: true,
        busy_enabled: true,
        no_answer_enabled: true,
        no_answer_timeout_seconds: 30,
        all: None,
        busy: None,
        no_answer: None,
    }
}

impl Default for ForwardingDefaults {
    fn default() -> (r: Self)
        ensures
            r.deep_view() == default_forwarding_defaults(),
    {
        let r = ForwardingDefaults {
            all_enabled: true,
            busy_enabled: true,
            no_answer_enabled: true,
            no_answer_timeout_seconds: 30,
            all: None,
            busy: None,
            no_answer: None,
        };
        r
    }
}

/// The default of [`DeviceFeatureDefaults`].
pub open spec fn default_device_feature_defaults() -> policy::DeviceFeatureDefaultsView {
    policy::DeviceFeatureDefaultsView {
        forwarding: default_forwarding_defaults(),
        dnd_enabled: true,
        dnd: DndMode::Off,
        privacy_enabled: true,
        privacy: false,
        buttons: Seq::empty(),
    }
}

impl Default for DeviceFeatureDefaults {
    fn default() -> (r: Self)
        ensures
            r.deep_view() == default_device_feature_defaults(),
    {
        let r = DeviceFeatureDefaults {
            forwarding: ForwardingDefaults::default(),
            dnd_enabled: true,
            dnd: DndMode::Off,
            privacy_enabled: true,
            privacy: false,
            buttons: Vec::new(),
        };
        assert(r.deep_view().buttons =~= Seq::empty());
        r
    }
}

/// The default of [`VoicemailDefaults`].
pub open spec fn default_voicemail_defaults() -> policy::VoicemailDefaultsView {
    policy::VoicemailDefaultsView {
        number: None,
        transfer_destination: None,
    }
}

impl Default for VoicemailDefaults {
    fn default() -> (r: Self)
        ensures
            r.deep_view() == default_voicemail_defaults(),
    {
        let r = VoicemailDefaults {
            number: None,
            transfer_destination: None,
        };
        r
    }
}

/// The default of [`PickupConfig`].
pub open spec fn default_pickup_config() -> policy::PickupConfigView {
    policy::PickupConfigView {
        call_groups: Seq::empty(),
        pickup_groups: Seq::empty(),
        named_call_groups: Seq::empty(),
        named_pickup_groups: Seq::empty(),
        directed: true,
        directed_context: None,
        answer_directed: true,
    }
}

impl Default for PickupConfig {
    fn default() -> (r: Self)
        ensures
            r.deep_view() == default_pickup_config(),
    {
        let r = PickupConfig {
            call_groups: Vec::new(),
            pickup_groups: Vec::new(),
            named_call_groups: Vec::new(),
            named_pickup_groups: Vec::new(),
            directed: true,
            directed_context: None,
            answer_directed: true,
        };
        assert(r.deep_view().call_groups =~= Seq::empty());
        assert(r.deep_view().pickup_groups =~= Seq::empty());
        assert(r.deep_view().named_call_groups =~= Seq::empty());
        assert(r.deep_view().named_pickup_groups =~= Seq::empty());
        r
    }
}

/// The default of [`DeviceParkingConfig`].
pub open spec fn default_device_parking_config() -> policy::DeviceParkingConfigView {
    policy::DeviceParkingConfigView {
        enabled: true,
        feature_buttons: Seq::empty(),
    }
}

impl Default for DeviceParkingConfig {
    fn default() -> (r: Self)
        ensures
            r.deep_view() == default_device_parking_config(),
    {
        let r = DeviceParkingConfig {
            enabled: true,
            feature_buttons: Vec::new(),
        };
        assert(r.deep_view().feature_buttons =~= Seq::empty());
        r
    }
}

/// The default of [`LineParkingConfig`].
pub open spec fn default_line_parking_config() -> policy::LineParkingConfigView {
    policy::LineParkingConfigView {
        lot: None,
    }
}

impl Default for LineParkingConfig {
    fn default() -> (r: Self)
        ensures
            r.deep_view() == default_line_parking_config(),
    {
        let r = LineParkingConfig {
            lot: None,
        };
        r
    }
}

/// The default of [`ConferenceDialingConfig`].
pub open spec fn default_conference_dialing_config() -> policy::ConferenceDialingConfigView {
    policy::ConferenceDialingConfigView {
        enabled: true,
        application_options: "qxd"@,
    }
}

impl Default for ConferenceDialingConfig {
    fn default() -> (r: Self)
        ensures
            r.deep_view() == default_conference_dialing_config(),
    {
        let r = ConferenceDialingConfig {
            enabled: true,
            application_options: text::copy("qxd"),
        };
        r
    }
}

/// The default of [`DeviceConferenceConfig`].
pub open spec fn default_device_conference_config() -> policy::DeviceConferenceConfigView {
    policy::DeviceConferenceConfigView {
        allowed: true,
        music_on_hold_class: Some("default"@),
        play_general_announcements: true,
        play_participant_announcements: true,
        mute_on_entry: false,
        show_conference_list: true,
        dialing: default_conference_dialing_config(),
    }
}

impl Default for DeviceConferenceConfig {
    fn default() -> (r: Self)
        ensures
            r.deep_view() == default_device_conference_config(),
    {
        let r = DeviceConferenceConfig {
            allowed: true,
            music_on_hold_class: Some(text::copy("default")),
            play_general_announcements: true,
            play_participant_announcements: true,
            mute_on_entry: false,
            show_conference_list: true,
            dialing: ConferenceDialingConfig::default(),
        };
        r
    }
}

/// The default of [`LineConferenceConfig`].
pub open spec fn default_line_conference_config() -> policy::LineConferenceConfigView {
    policy::LineConferenceConfigView {
        enabled: None,
        destination: None,
        application_options: None,
    }
}

impl Default for LineConferenceConfig {
    fn default() -> (r: Self)
        ensures
            r.deep_view() == default_line_conference_config(),
    {
        let r = LineConferenceConfig {
            enabled: None,
            destination: None,
            application_options: None,
        };
        r
    }
}

/// The default of [`AutoAnswerConfig`].
pub open spec fn default_auto_answer_config() -> AutoAnswerConfig {
    AutoAnswerConfig {
        ring_time_seconds: 1,
        tone: Tone::Zip,
    }
}

impl Default for AutoAnswerConfig {
    fn default() -> (r: Self)
        ensures
            r == default_auto_answer_config(),
    {
        let r = AutoAnswerConfig {
            ring_time_seconds: 1,
            tone: Tone::Zip,
        };
        r
    }
}

/// The default of [`GuestHotlineConfig`].
pub open spec fn default_guest_hotline_config() -> policy::GuestHotlineConfigView {
    policy::GuestHotlineConfigView {
        enabled: true,
        extension: Some(policy::HotlineDestinationView { destination: "111"@ }),
        context: "default"@,
        label: "hotline"@,
    }
}

impl Default for GuestHotlineConfig {
    fn default() -> (r: Self)
        ensures
            r.deep_view() == default_guest_hotline_config(),
    {
        let r = GuestHotlineConfig {
            enabled: true,
            extension: Some(HotlineDestination { destination: text::copy("111") }),
            context: text::copy("default"),
            label: text::copy("hotline"),
        };
        r
    }
}

/// The default of [`LineHotlineConfig`].
pub open spec fn default_line_hotline_config() -> policy::LineHotlineConfigView {
    policy::LineHotlineConfigView {
        destination: None,
    }
}

impl Default for LineHotlineConfig {
    fn default() -> (r: Self)
        ensures
            r.deep_view() == default_line_hotline_config(),
    {
        let r = LineHotlineConfig {
            destination: None,
        };
        r
    }
}

/// The default of [`LineDialToneConfig`].
pub open spec fn default_line_dial_tone_config() -> policy::LineDialToneConfigView {
    policy::LineDialToneConfigView {
        initial: Tone::InsideDial,
        secondary_prefix: None,
        secondary: Tone::OutsideDial,
    }
}

impl Default for LineDialToneConfig {
    fn default() -> (r: Self)
        ensures
            r.deep_view() == default_line_dial_tone_config(),
    {
        let r = LineDialToneConfig {
            initial: Tone::InsideDial,
            secondary_prefix: None,
            secondary: Tone::OutsideDial,
        };
        r
    }
}

/// The default of [`LineMobilityConfig`].
pub open spec fn default_line_mobility_config() -> policy::LineMobilityConfigView {
    policy::LineMobilityConfigView {
        pin: None,
    }
}

impl Default for LineMobilityConfig {
    fn default() -> (r: Self)
        ensures
            r.deep_view() == default_line_mobility_config(),
    {
        let r = LineMobilityConfig {
            pin: None,
        };
        r
    }
}

/// The default of [`LineRegistrationConfig`].
pub open spec fn default_line_registration_config() -> policy::LineRegistrationConfigView {
    policy::LineRegistrationConfigView {
        extensions: Seq::empty(),
    }
}

impl Default for LineRegistrationConfig {
    fn default() -> (r: Self)
        ensures
            r.deep_view() == default_line_registration_config(),
    {
        let r = LineRegistrationConfig {
            extensions: Vec::new(),
        };
        assert(r.deep_view().extensions =~= Seq::empty());
        r
    }
}

/// The default of [`JitterBufferConfig`].
pub open spec fn default_jitter_buffer_config() -> JitterBufferConfig {
    JitterBufferConfig {
        enabled: false,
        forced: false,
        log_frames: false,
        max_size_ms: 200,
        resync_threshold_ms: 1_000,
        implementation: JitterBufferImplementation::Fixed,
    }
}

impl Default for JitterBufferConfig {
    fn default() -> (r: Self)
        ensures
            r == default_jitter_buffer_config(),
    {
        let r = JitterBufferConfig {
            enabled: false,
            forced: false,
            log_frames: false,
            max_size_ms: 200,
            resync_threshold_ms: 1_000,
            implementation: JitterBufferImplementation::Fixed,
        };
        r
    }
}

/// The default of [`MediaEncryptionPolicy`].
pub open spec fn default_media_encryption_policy() -> policy::MediaEncryptionPolicyView {
    policy::MediaEncryptionPolicyView {
        requirement: MediaEncryptionRequirement::Off,
        profiles: Seq::empty(),
    }
}

impl Default for MediaEncryptionPolicy {
    fn default() -> (r: Self)
        ensures
            r.deep_view() == default_media_encryption_policy(),
    {
        let r = MediaEncryptionPolicy {
            requirement: MediaEncryptionRequirement::Off,
            profiles: Vec::new(),
        };
        assert(r.deep_view().profiles =~= Seq::empty());
        r
    }
}

/// The default of [`AudioProcessingPolicy`].
pub open spec fn default_audio_processing_policy() -> AudioProcessingPolicy {
    AudioProcessingPolicy {
        echo_cancellation: EchoCancellation::On,
        silence_suppression: SilenceSuppression::Off,
    }
}

impl Default for AudioProcessingPolicy {
    fn default() -> (r: Self)
        ensures
            r == default_audio_processing_policy(),
    {
        let r = AudioProcessingPolicy {
            echo_cancellation: EchoCancellation::On,
            silence_suppression: SilenceSuppression::Off,
        };
        r
    }
}

/// The default of [`DeviceMediaConfig`].
pub open spec fn default_device_media_config() -> policy::DeviceMediaConfigView {
    policy::DeviceMediaConfigView {
        codecs: codec::mapped_audio(),
        audio_encryption: default_media_encryption_policy(),
        dtmf_mode: DtmfMode::Auto,
        direct_media: false,
        early_media: true,
    }
}

impl Default for DeviceMediaConfig {
    fn default() -> (r: Self)
        ensures
            r.deep_view() == default_device_media_config(),
    {
        let r = DeviceMediaConfig {
            codecs: codec::mapped_audio_codecs(),
            audio_encryption: MediaEncryptionPolicy::default(),
            dtmf_mode: DtmfMode::Auto,
            direct_media: false,
            early_media: true,
        };
        r
    }
}

/// The default of [`LineMediaConfig`].
pub open spec fn default_line_media_config() -> policy::LineMediaConfigView {
    policy::LineMediaConfigView {
        codecs: codec::mapped_audio(),
        audio_encryption: default_media_encryption_policy(),
        video_mode: VideoMode::Auto,
        audio_processing: default_audio_processing_policy(),
    }
}

impl Default for LineMediaConfig {
    fn default() -> (r: Self)
        ensures
            r.deep_view() == default_line_media_config(),
    {
        let r = LineMediaConfig {
            codecs: codec::mapped_audio_codecs(),
            audio_encryption: MediaEncryptionPolicy::default(),
            video_mode: VideoMode::Auto,
            audio_processing: AudioProcessingPolicy::default(),
        };
        r
    }
}

/// The default of [`DeviceCallUiConfig`].
pub open spec fn default_device_call_ui_config() -> DeviceCallUiConfig {
    DeviceCallUiConfig {
        redial_mode: RedialMode::LastNumber,
        hinted_ringing_notification: false,
        mwi_lamp_mode: LampMode::On,
        mwi_on_call: false,
        legacy_code_page: LegacyCodePage::Iso8859_1,
    }
}

impl Default for DeviceCallUiConfig {
    fn default() -> (r: Self)
        ensures
            r == default_device_call_ui_config(),
    {
        let r = DeviceCallUiConfig {
            redial_mode: RedialMode::LastNumber,
            hinted_ringing_notification: false,
            mwi_lamp_mode: LampMode::On,
            mwi_on_call: false,
            legacy_code_page: LegacyCodePage::Iso8859_1,
        };
        r
    }
}

/// The default of [`LineFeatureConfig`].
pub open spec fn default_line_feature_config() -> policy::LineFeatureConfigView {
    policy::LineFeatureConfigView {
        incoming_limit: 6,
        voicemail: default_voicemail_defaults(),
        pickup: default_pickup_config(),
        parking: default_line_parking_config(),
        conference: default_line_conference_config(),
        hotline: default_line_hotline_config(),
        dial_tones: default_line_dial_tone_config(),
        mobility: default_line_mobility_config(),
        registration: default_line_registration_config(),
        media: default_line_media_config(),
    }
}

impl Default for LineFeatureConfig {
    fn default() -> (r: Self)
        ensures
            r.deep_view() == default_line_feature_config(),
    {
        let r = LineFeatureConfig {
            incoming_limit: 6,
            voicemail: VoicemailDefaults::default(),
            pickup: PickupConfig::default(),
            parking: LineParkingConfig::default(),
            conference: LineConferenceConfig::default(),
            hotline: LineHotlineConfig::default(),
            dial_tones: LineDialToneConfig::default(),
            mobility: LineMobilityConfig::default(),
            registration: LineRegistrationConfig::default(),
            media: LineMediaConfig::default(),
        };
        r
    }
}

/// The default of [`DateTemplate`].
pub open spec fn default_date_template() -> station::DateTemplateView {
    station::DateTemplateView {
        template: "D/M/Y"@,
    }
}

impl Default for DateTemplate {
    fn default() -> (r: Self)
        ensures
            r.deep_view() == default_date_template(),
    {
        let r = DateTemplate {
            template: text::copy("D/M/Y"),
        };
        r
    }
}

/// The default of [`GeneralConfig`].
pub open spec fn default_general_config() -> policy::GeneralConfigView {
    policy::GeneralConfigView {
        bind: any_socket(2000),
        advertised_address: address::localhost(),
        server_name: "Asterisk SCCP"@,
        language: "en"@,
        account_code: None,
        keepalive_seconds: 30,
        secondary_keepalive_seconds: 30,
        signaling_servers: Seq::empty(),
        first_digit_timeout_ms: 10_000,
        interdigit_timeout_ms: 5_000,
        dial_terminator: default_dial_terminator_config(),
        simulate_enbloc: true,
        speed_dial_await_further_digits: false,
        allow_overlap: false,
        transfer_on_hangup: false,
        call_answer_order: CallAnswerOrder::OldestFirst,
        timezone_offset_minutes: 0,
        date_template: default_date_template(),
        ring_type: RingerMode::Outside,
        call_waiting_tone: Some(Tone::CallWaiting),
        call_waiting_interval_seconds: 0,
        codecs: codec::mapped_audio(),
        audio_encryption: default_media_encryption_policy(),
        conference_dialing: default_conference_dialing_config(),
        auto_answer: default_auto_answer_config(),
        remote_hangup_tone: None,
        guest_hotline: default_guest_hotline_config(),
        direct_media: false,
        early_media: true,
        audio_processing: default_audio_processing_policy(),
        jitter_buffer: default_jitter_buffer_config(),
        registration: default_registration_config(),
        fallback_registration: default_fallback_registration_config(),
        network: default_network_policy(),
        qos: default_qos_policy(),
        listeners: default_listener_policy(),
        realtime_tables: None,
    }
}

impl Default for GeneralConfig {
    fn default() -> (r: Self)
        ensures
            r.deep_view() == default_general_config(),
    {
        let r = GeneralConfig {
            bind: any_socket(2000),
            advertised_address: address::localhost(),
            server_name: text::copy("Asterisk SCCP"),
            language: text::copy("en"),
            account_code: None,
            keepalive_seconds: 30,
            secondary_keepalive_seconds: 30,
            signaling_servers: Vec::new(),
            first_digit_timeout_ms: 10_000,
            interdigit_timeout_ms: 5_000,
            dial_terminator: DialTerminatorConfig::default(),
            simulate_enbloc: true,
            speed_dial_await_further_digits: false,
            allow_overlap: false,
            transfer_on_hangup: false,
            call_answer_order: CallAnswerOrder::OldestFirst,
            timezone_offset_minutes: 0,
            date_template: DateTemplate::default(),
            ring_type: RingerMode::Outside,
            call_waiting_tone: Some(Tone::CallWaiting),
            call_waiting_interval_seconds: 0,
            codecs: codec::mapped_audio_codecs(),
            audio_encryption: MediaEncryptionPolicy::default(),
            conference_dialing: ConferenceDialingConfig::default(),
            auto_answer: AutoAnswerConfig::default(),
            remote_hangup_tone: None,
            guest_hotline: GuestHotlineConfig::default(),
            direct_media: false,
            early_media: true,
            audio_processing: AudioProcessingPolicy::default(),
            jitter_buffer: JitterBufferConfig::default(),
            registration: RegistrationConfig::default(),
            fallback_registration: FallbackRegistrationConfig::default(),
            network: NetworkPolicy::default(),
            qos: QosPolicy::default(),
            listeners: ListenerPolicy::default(),
            realtime_tables: None,
        };
        assert(r.deep_view().signaling_servers =~= Seq::empty());
        r
    }
}

// ---------------------------------------------------------------------------
// Derived policy

impl VoicemailDefaults {
    /// Where a call is diverted: the transfer destination, never the number.
    pub fn divert_destination(&self) -> (r: Option<&VoicemailDestination>)
        ensures
            match self.transfer_destination {
                Some(d) => r == Some(&d),
                None => r is None,
            },
    {
        self.transfer_destination.as_ref()
    }
}

impl JitterBufferConfig {
    /// Whether a channel gets a jitter buffer.
    pub fn should_configure_channel(self, direct_media: bool) -> (r: bool)
        ensures
            r == (self.enabled && (self.forced || !direct_media)),
    {
        self.enabled && (self.forced || !direct_media)
    }
}

impl DndButtonMode {
    /// The name of a mode, where it has one.
    pub open spec fn name_of(self) -> Option<text::Text> {
        match self {
            DndButtonMode::Cycle => None,
            DndButtonMode::Silent => Some("silent"@),
            DndButtonMode::Reject => Some("reject"@),
        }
    }

    /// The name of a mode, where it has one.
    pub fn canonical(self) -> (r: Option<&'static str>)
        ensures
            match self.name_of() {
                Some(name) => r is Some && r->0@ == name,
                None => r is None,
            },
    {
        match self {
            DndButtonMode::Cycle => None,
            DndButtonMode::Silent => Some("silent"),
            DndButtonMode::Reject => Some("reject"),
        }
    }
}

/// The timing of a general configuration, in milliseconds.
pub open spec fn timing_of(g: policy::GeneralConfigView) -> GeneralTimingPolicy {
    GeneralTimingPolicy {
        keepalive: (g.keepalive_seconds * 1000) as u64,
        secondary_keepalive: (g.secondary_keepalive_seconds * 1000) as u64,
        first_digit_timeout: g.first_digit_timeout_ms,
        interdigit_timeout: g.interdigit_timeout_ms,
        call_waiting_repeat: (g.call_waiting_interval_seconds * 1000) as u64,
    }
}

impl GeneralConfig {
    /// The timing of the configuration, in milliseconds.
    pub fn timing_policy(&self) -> (r: GeneralTimingPolicy)
        ensures
            r == timing_of(self.deep_view()),
            r.keepalive == self.keepalive_seconds * 1000,
            r.secondary_keepalive == self.secondary_keepalive_seconds * 1000,
            r.call_waiting_repeat == self.call_waiting_interval_seconds * 1000,
    {
        GeneralTimingPolicy {
            keepalive: self.keepalive_seconds as u64 * 1000,
            secondary_keepalive: self.secondary_keepalive_seconds as u64 * 1000,
            first_digit_timeout: self.first_digit_timeout_ms,
            interdigit_timeout: self.interdigit_timeout_ms,
            call_waiting_repeat: self.call_waiting_interval_seconds as u64 * 1000,
        }
    }

    /// What stations are told of the configuration.
    pub fn station_policy(&self) -> (r: GeneralStationPolicy)
        ensures
            r.deep_view() == (policy::GeneralStationPolicyView {
                timezone_offset_minutes: self.timezone_offset_minutes,
                date_template: self.deep_view().date_template,
                ring_type: self.ring_type,
                call_waiting_tone: self.call_waiting_tone,
            }),
    {
        GeneralStationPolicy {
            timezone_offset_minutes: self.timezone_offset_minutes,
            date_template: self.date_template.clone(),
            ring_type: self.ring_type,
            call_waiting_tone: self.call_waiting_tone,
        }
    }
}

} // verus!
