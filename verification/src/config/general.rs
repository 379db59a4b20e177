//! The general section.

use vstd::prelude::*;

use crate::address;
use crate::address::IpAddr;
use crate::address::SocketAddr;
use crate::config::codec;
use crate::config::defaults;
use crate::config::error;
use crate::config::error::ConfigError;
use crate::config::network;
use crate::config::network::QosPolicyPatch;
use crate::config::option;
use crate::config::option::Options;
use crate::config::option::Scope;
use crate::config::option::Setting;
use crate::config::policy;
use crate::config::policy::AccessControlList;
use crate::config::policy::AdvertisedAddresses;
use crate::config::policy::AutoAnswerConfig;
use crate::config::policy::CallAnswerOrder;
use crate::config::policy::ConferenceDialingConfig;
use crate::config::policy::DialTerminatorConfig;
use crate::config::policy::ExternalAddress;
use crate::config::policy::FallbackDecision;
use crate::config::policy::FallbackRegistrationConfig;
use crate::config::policy::GeneralConfig;
use crate::config::policy::GuestHotlineConfig;
use crate::config::policy::JitterBufferConfig;
use crate::config::policy::JitterBufferImplementation;
use crate::config::policy::ListenerPolicy;
use crate::config::policy::MediaEncryptionPolicy;
use crate::config::policy::NatMode;
use crate::config::policy::NetworkPolicy;
use crate::config::policy::QosPolicy;
use crate::config::policy::RealtimeTableConfig;
use crate::config::policy::RegistrationConfig;
use crate::config::policy::TlsCredentials;
use crate::config::policy::TlsListener;
use crate::config::rules;
use crate::config::rules::LayerRules;
use crate::config::section;
use crate::config::section::RawSection;
use crate::config::setting;
use crate::config::value;
use crate::station::AudioProcessingPolicy;
use crate::station::Codec;
use crate::station::DateTemplate;
use crate::station::EchoCancellation;
use crate::station::RingerMode;
use crate::station::SilenceSuppression;
use crate::station::Tone;
use crate::text;

verus! {

// ---------------------------------------------------------------------------
// Choosing among values

/// A value, or what stands in for it.
pub fn pick<T>(a: Option<T>, otherwise: T) -> (r: T)
    ensures
        r == network::over(a, otherwise),
{
    match a {
        Some(x) => x,
        None => otherwise,
    }
}

/// The first of two values.
pub open spec fn either<T>(a: Option<T>, b: Option<T>) -> Option<T> {
    match a {
        Some(x) => Some(x),
        None => b,
    }
}

/// The first of two values.
fn first_of<T>(a: Option<T>, b: Option<T>) -> (r: Option<T>)
    ensures
        r == either(a, b),
{
    match a {
        Some(x) => Some(x),
        None => b,
    }
}

/// Whether a section sets an option.
pub open spec fn sets(o: option::OptionsView, s: Setting) -> bool {
    value::found(o, s) is Some
}

/// Whether a section sets an option.
pub fn has(o: &Options, s: Setting) -> (r: bool)
    requires
        o.deep_view().matched(),
    ensures
        r == sets(o.deep_view(), s),
{
    value::find(o, s).is_some()
}

// ---------------------------------------------------------------------------
// Parts that are read the same way in several sections

/// The traffic marks that a section sets.
pub open spec fn marks_of(o: option::OptionsView) -> QosPolicyPatch {
    QosPolicyPatch {
        signaling_dscp: either(
            value::tos_at(o, Setting::SignalingTos),
            value::dscp_at(o, Setting::SignalingDscp),
        ),
        signaling_cos: value::cos_at(o, Setting::SignalingCos),
        audio_dscp: either(
            value::tos_at(o, Setting::AudioTos),
            value::dscp_at(o, Setting::AudioDscp),
        ),
        audio_cos: value::cos_at(o, Setting::AudioCos),
        video_dscp: either(
            value::tos_at(o, Setting::VideoTos),
            value::dscp_at(o, Setting::VideoDscp),
        ),
        video_cos: value::cos_at(o, Setting::VideoCos),
    }
}

/// The traffic marks that a section sets.
pub fn get_marks(o: &Options) -> (r: QosPolicyPatch)
    requires
        o.deep_view().matched(),
    ensures
        r == marks_of(o.deep_view()),
{
    QosPolicyPatch {
        signaling_dscp: first_of(
            value::get_tos(o, Setting::SignalingTos),
            value::get_dscp(o, Setting::SignalingDscp),
        ),
        signaling_cos: value::get_cos(o, Setting::SignalingCos),
        audio_dscp: first_of(
            value::get_tos(o, Setting::AudioTos),
            value::get_dscp(o, Setting::AudioDscp),
        ),
        audio_cos: value::get_cos(o, Setting::AudioCos),
        video_dscp: first_of(
            value::get_tos(o, Setting::VideoTos),
            value::get_dscp(o, Setting::VideoDscp),
        ),
        video_cos: value::get_cos(o, Setting::VideoCos),
    }
}

/// Station audio processing by two switches.
pub open spec fn processing(echo: bool, silence: bool) -> AudioProcessingPolicy {
    AudioProcessingPolicy {
        echo_cancellation: if echo {
            EchoCancellation::On
        } else {
            EchoCancellation::Off
        },
        silence_suppression: if silence {
            SilenceSuppression::On
        } else {
            SilenceSuppression::Off
        },
    }
}

/// The codecs that a section prefers, or those that it starts from.
pub open spec fn codecs_of(o: option::OptionsView, key: text::Text, base: Seq<Codec>) -> Result<
    Seq<Codec>,
    error::ErrorView,
> {
    let settings = value::codecs_upto(o, o.settings.len() as int);
    if settings.len() == 0 {
        Ok(base)
    } else {
        codec::preferences(key, settings)
    }
}

/// The codecs that a section prefers, or those that it starts from.
pub fn get_preferences(o: &Options, key: &str, base: &Vec<Codec>) -> (r: Result<
    Vec<Codec>,
    ConfigError,
>)
    requires
        o.deep_view().matched(),
    ensures
        error::listed(r) == codecs_of(o.deep_view(), key@, base@),
{
    let settings = value::get_codecs(o);
    assert(settings.deep_view().len() == settings@.len());
    if settings.len() == 0 {
        return Ok(text::copy_all(base));
    }
    codec::apply_codec_settings(&settings, key)
}

// ---------------------------------------------------------------------------
// Guest hotline

/// The guest hotline that a section sets.
pub open spec fn hotline_of(o: option::OptionsView, w: rules::LayerRulesView) -> policy::GuestHotlineConfigView {
    let base = defaults::default_guest_hotline_config();
    policy::GuestHotlineConfigView {
        enabled: network::over(value::flag_at(o, Setting::HotlineEnabled), base.enabled),
        extension: network::over(
            value::hotline_at(o, Setting::HotlineExtension, w),
            base.extension,
        ),
        context: network::over(value::hotline_text_at(o, Setting::HotlineContext, w), base.context),
        label: network::over(value::hotline_text_at(o, Setting::HotlineLabel, w), base.label),
    }
}

/// Whether a guest hotline cannot work.
pub open spec fn hotline_incomplete(h: policy::GuestHotlineConfigView) -> bool {
    h.enabled && (h.extension is None || h.context.len() == 0 || h.label.len() == 0)
}

/// The guest hotline that a section sets.
fn get_hotline(o: &Options, with: &LayerRules) -> (r: GuestHotlineConfig)
    requires
        o.deep_view().matched(),
    ensures
        r.deep_view() == hotline_of(o.deep_view(), with.deep_view()),
{
    let base = GuestHotlineConfig::default();
    GuestHotlineConfig {
        enabled: pick(value::get_flag(o, Setting::HotlineEnabled), base.enabled),
        extension: match value::get_hotline(o, Setting::HotlineExtension, with) {
            Some(x) => x,
            None => base.extension,
        },
        context: match value::get_hotline_text(o, Setting::HotlineContext, with) {
            Some(x) => x,
            None => base.context,
        },
        label: match value::get_hotline_text(o, Setting::HotlineLabel, with) {
            Some(x) => x,
            None => base.label,
        },
    }
}

// ---------------------------------------------------------------------------
// Listeners

/// The socket of the clear listener.
pub open spec fn clear_of(o: option::OptionsView) -> SocketAddr {
    match value::clear_socket_at(o, Setting::Bind) {
        Some(a) => a,
        None => SocketAddr {
            ip: network::over(
                value::clear_ip_at(o, Setting::BindAddress),
                defaults::any_socket(2000).ip,
            ),
            scope: 0,
            port: match value::clear_port_at(o, Setting::Port) {
                Some(p) => p as u16,
                None => 2000,
            },
        },
    }
}

/// The socket of the clear listener.
fn get_clear(o: &Options) -> (r: SocketAddr)
    requires
        o.deep_view().matched(),
    ensures
        r == clear_of(o.deep_view()),
{
    match value::get_clear_socket(o, Setting::Bind) {
        Some(a) => a,
        None => SocketAddr {
            ip: pick(
                value::get_clear_ip(o, Setting::BindAddress),
                defaults::any_socket(2000).ip,
            ),
            scope: 0,
            port: match value::get_clear_port(o, Setting::Port) {
                Some(p) => p as u16,
                None => 2000,
            },
        },
    }
}

/// Whether a section names a certificate, a private key or a trust store.
pub open spec fn splits_credentials(o: option::OptionsView) -> bool {
    sets(o, Setting::TlsCertificate) || sets(o, Setting::TlsPrivateKey) || sets(
        o,
        Setting::TlsTrustStore,
    )
}

/// Whether a section asks for a TLS listener.
pub open spec fn asks_for_tls(o: option::OptionsView) -> bool {
    sets(o, Setting::TlsBind) || sets(o, Setting::TlsBindAddress) || sets(o, Setting::TlsPort)
        || sets(o, Setting::TlsCombinedPem) || splits_credentials(o)
}

/// The refusal of TLS credentials.
pub open spec fn credentials_fault(o: option::OptionsView, expected: text::Text) -> error::ErrorView {
    error::invalid(
        section::section_place(o.section),
        "<redacted TLS credentials>"@,
        expected,
        true,
    )
}

/// The TLS credentials of a section.
pub open spec fn credentials_of(o: option::OptionsView) -> Result<
    policy::TlsCredentialsView,
    error::ErrorView,
> {
    match value::private_path_at(o, Setting::TlsCombinedPem) {
        Some(path) => Ok(policy::TlsCredentialsView::CombinedPem(path)),
        None => match value::public_path_at(o, Setting::TlsCertificate) {
            None => Err(credentials_fault(o, "tls_certificate together with tls_private_key"@)),
            Some(certificate) => match value::private_path_at(o, Setting::TlsPrivateKey) {
                None => Err(
                    credentials_fault(o, "tls_private_key together with tls_certificate"@),
                ),
                Some(private_key) => Ok(
                    policy::TlsCredentialsView::SplitPem {
                        certificate,
                        private_key,
                        trust_store: value::private_path_at(o, Setting::TlsTrustStore),
                    },
                ),
            },
        },
    }
}

/// The socket of the TLS listener.
pub open spec fn secure_of(o: option::OptionsView) -> SocketAddr {
    match value::tls_socket_at(o, Setting::TlsBind) {
        Some(a) => a,
        None => SocketAddr {
            ip: network::over(
                value::tls_ip_at(o, Setting::TlsBindAddress),
                defaults::any_socket(2443).ip,
            ),
            scope: 0,
            port: match value::tls_port_at(o, Setting::TlsPort) {
                Some(p) => p as u16,
                None => 2443,
            },
        },
    }
}

/// The TLS listener of a section, where it asks for one.
pub open spec fn tls_of(o: option::OptionsView) -> Result<
    Option<policy::TlsListenerView>,
    error::ErrorView,
> {
    let at = section::section_place(o.section);
    if sets(o, Setting::TlsBind) && (sets(o, Setting::TlsBindAddress) || sets(
        o,
        Setting::TlsPort,
    )) {
        Err(
            error::invalid(
                at,
                "TLS listener aliases"@,
                "either tls_bind or secbindaddr+secport, not both"@,
                false,
            ),
        )
    } else if sets(o, Setting::TlsCombinedPem) && splits_credentials(o) {
        Err(
            credentials_fault(
                o,
                "either certfile/combined PEM or split certificate+private key+optional trust store"@,
            ),
        )
    } else if !asks_for_tls(o) {
        Ok(None)
    } else {
        match credentials_of(o) {
            Err(e) => Err(e),
            Ok(credentials) => if secure_of(o) == clear_of(o) {
                Err(
                    error::invalid(
                        at,
                        address::socket_text(secure_of(o)),
                        "distinct clear and TLS listener socket addresses"@,
                        false,
                    ),
                )
            } else {
                Ok(Some(policy::TlsListenerView { bind: secure_of(o), credentials }))
            },
        }
    }
}

/// Refuses TLS credentials.
fn refuse_credentials(o: &Options, expected: &str) -> (r: ConfigError)
    ensures
        r@ == credentials_fault(o.deep_view(), expected@),
{
    error::invalid_option(
        o.section.section_location().as_str(),
        "<redacted TLS credentials>",
        expected,
        true,
    )
}

/// The TLS credentials of a section.
fn get_credentials(o: &Options) -> (r: Result<TlsCredentials, ConfigError>)
    requires
        o.deep_view().matched(),
    ensures
        error::outcome(r) == credentials_of(o.deep_view()),
{
    match value::get_private_path(o, Setting::TlsCombinedPem) {
        Some(path) => return Ok(TlsCredentials::CombinedPem(path)),
        None => {},
    }
    let certificate = match value::get_public_path(o, Setting::TlsCertificate) {
        Some(path) => path,
        None => return Err(
            refuse_credentials(o, "tls_certificate together with tls_private_key"),
        ),
    };
    let private_key = match value::get_private_path(o, Setting::TlsPrivateKey) {
        Some(path) => path,
        None => return Err(
            refuse_credentials(o, "tls_private_key together with tls_certificate"),
        ),
    };
    Ok(
        TlsCredentials::SplitPem {
            certificate,
            private_key,
            trust_store: value::get_private_path(o, Setting::TlsTrustStore),
        },
    )
}

/// The socket of the TLS listener.
fn get_secure(o: &Options) -> (r: SocketAddr)
    requires
        o.deep_view().matched(),
    ensures
        r == secure_of(o.deep_view()),
{
    match value::get_tls_socket(o, Setting::TlsBind) {
        Some(a) => a,
        None => SocketAddr {
            ip: pick(
                value::get_tls_ip(o, Setting::TlsBindAddress),
                defaults::any_socket(2443).ip,
            ),
            scope: 0,
            port: match value::get_tls_port(o, Setting::TlsPort) {
                Some(p) => p as u16,
                None => 2443,
            },
        },
    }
}

/// The TLS listener of a section, where it asks for one.
fn get_tls(o: &Options) -> (r: Result<Option<TlsListener>, ConfigError>)
    requires
        o.deep_view().matched(),
    ensures
        error::outcome(r) == tls_of(o.deep_view()),
{
    let split = has(o, Setting::TlsCertificate) || has(o, Setting::TlsPrivateKey) || has(
        o,
        Setting::TlsTrustStore,
    );
    if has(o, Setting::TlsBind) && (has(o, Setting::TlsBindAddress) || has(o, Setting::TlsPort)) {
        return Err(
            error::invalid_option(
                o.section.section_location().as_str(),
                "TLS listener aliases",
                "either tls_bind or secbindaddr+secport, not both",
                false,
            ),
        );
    }
    if has(o, Setting::TlsCombinedPem) && split {
        return Err(
            refuse_credentials(
                o,
                "either certfile/combined PEM or split certificate+private key+optional trust store",
            ),
        );
    }
    if !(has(o, Setting::TlsBind) || has(o, Setting::TlsBindAddress) || has(o, Setting::TlsPort)
        || has(o, Setting::TlsCombinedPem) || split) {
        return Ok(None);
    }
    let credentials = match get_credentials(o) {
        Ok(c) => c,
        Err(e) => return Err(e),
    };
    let bind = get_secure(o);
    if bind == get_clear(o) {
        return Err(
            error::invalid_option(
                o.section.section_location().as_str(),
                address::socket_to_string(bind).as_str(),
                "distinct clear and TLS listener socket addresses",
                false,
            ),
        );
    }
    Ok(Some(TlsListener { bind, credentials }))
}

// ---------------------------------------------------------------------------
// Addresses that are told to stations

/// The advertised addresses of a section.
pub open spec fn advertised_of(o: option::OptionsView) -> AdvertisedAddresses {
    match value::advertised_at(o, Setting::AdvertisedAddress) {
        Some(IpAddr::V4(a)) => AdvertisedAddresses { ipv4: Some(a), ipv6: None },
        Some(IpAddr::V6(a)) => AdvertisedAddresses { ipv4: None, ipv6: Some(a) },
        None => AdvertisedAddresses {
            ipv4: network::over(
                value::advertised4_at(o, Setting::AdvertisedIpv4),
                Some(address::localhost()),
            ),
            ipv6: network::over(value::advertised6_at(o, Setting::AdvertisedIpv6), None),
        },
    }
}

/// The advertised addresses of a section.
fn get_advertised(o: &Options) -> (r: AdvertisedAddresses)
    requires
        o.deep_view().matched(),
    ensures
        r == advertised_of(o.deep_view()),
{
    match value::get_advertised(o, Setting::AdvertisedAddress) {
        Some(IpAddr::V4(a)) => AdvertisedAddresses { ipv4: Some(a), ipv6: None },
        Some(IpAddr::V6(a)) => AdvertisedAddresses { ipv4: None, ipv6: Some(a) },
        None => AdvertisedAddresses {
            ipv4: pick(
                value::get_advertised4(o, Setting::AdvertisedIpv4),
                Some(address::localhost()),
            ),
            ipv6: pick(value::get_advertised6(o, Setting::AdvertisedIpv6), None),
        },
    }
}

/// The external host name of a section.
pub open spec fn host_of(o: option::OptionsView) -> Option<text::Text> {
    network::over(value::external_host_at(o, Setting::ExternalHost), None)
}

/// The external address of a section: an address, or a host name that is
/// looked up again and again.
pub open spec fn external_of(o: option::OptionsView) -> Result<
    Option<policy::ExternalAddressView>,
    error::ErrorView,
> {
    let at = section::section_place(o.section);
    let ip = network::over(value::external_ip_at(o, Setting::ExternalAddress), None);
    if ip is Some && host_of(o) is Some {
        Err(
            error::invalid(
                at,
                "externip + externhost"@,
                "exactly one external address source: externip or externhost"@,
                false,
            ),
        )
    } else if sets(o, Setting::ExternalRefresh) && host_of(o) is None {
        Err(
            error::invalid(
                at,
                "externrefresh without externhost"@,
                "externrefresh only together with externhost"@,
                false,
            ),
        )
    } else {
        match (ip, host_of(o)) {
            (Some(a), _) => Ok(Some(policy::ExternalAddressView::Address(a))),
            (None, Some(name)) => Ok(
                Some(
                    policy::ExternalAddressView::Hostname {
                        name,
                        refresh_seconds: match value::refresh_at(o, Setting::ExternalRefresh) {
                            Some(n) => n as u32,
                            None => 60,
                        },
                    },
                ),
            ),
            (None, None) => Ok(None),
        }
    }
}

/// The external address of a section.
fn get_external(o: &Options) -> (r: Result<Option<ExternalAddress>, ConfigError>)
    requires
        o.deep_view().matched(),
    ensures
        error::outcome(r) == external_of(o.deep_view()),
{
    let ip = pick(value::get_external_ip(o, Setting::ExternalAddress), None);
    let host = match value::get_external_host(o, Setting::ExternalHost) {
        Some(x) => x,
        None => None,
    };
    if ip.is_some() && host.is_some() {
        return Err(
            error::invalid_option(
                o.section.section_location().as_str(),
                "externip + externhost",
                "exactly one external address source: externip or externhost",
                false,
            ),
        );
    }
    if has(o, Setting::ExternalRefresh) && host.is_none() {
        return Err(
            error::invalid_option(
                o.section.section_location().as_str(),
                "externrefresh without externhost",
                "externrefresh only together with externhost",
                false,
            ),
        );
    }
    match ip {
        Some(a) => Ok(Some(ExternalAddress::Address(a))),
        None => match host {
            Some(name) => Ok(
                Some(
                    ExternalAddress::Hostname {
                        name,
                        refresh_seconds: match value::get_refresh(o, Setting::ExternalRefresh) {
                            Some(n) => n as u32,
                            None => 60,
                        },
                    },
                ),
            ),
            None => Ok(None),
        },
    }
}

// ---------------------------------------------------------------------------
// Realtime tables

/// The realtime tables of a section: both, and different, or none.
pub open spec fn tables_of(o: option::OptionsView) -> Result<
    Option<policy::RealtimeTableConfigView>,
    error::ErrorView,
> {
    let s = o.section;
    match (
        value::family_at(o, Setting::DeviceTable),
        value::family_at(o, Setting::LineTable),
    ) {
        (None, None) => Ok(None),
        (Some(device_family), Some(line_family)) => if device_family != line_family {
            Ok(Some(policy::RealtimeTableConfigView { device_family, line_family }))
        } else {
            Err(
                error::invalid(
                    section::section_place(s),
                    device_family,
                    "different devicetable and linetable family names"@,
                    false,
                ),
            )
        },
        (Some(_), None) => Err(
            error::invalid(
                section::key_place(s, "devicetable"@),
                "devicetable without linetable"@,
                "devicetable and linetable together"@,
                false,
            ),
        ),
        (None, Some(_)) => Err(
            error::invalid(
                section::key_place(s, "linetable"@),
                "linetable without devicetable"@,
                "devicetable and linetable together"@,
                false,
            ),
        ),
    }
}

/// The realtime tables of a section.
fn get_tables(o: &Options) -> (r: Result<Option<RealtimeTableConfig>, ConfigError>)
    requires
        o.deep_view().matched(),
    ensures
        error::outcome(r) == tables_of(o.deep_view()),
{
    let device = value::get_family(o, Setting::DeviceTable);
    let line = value::get_family(o, Setting::LineTable);
    match (device, line) {
        (None, None) => Ok(None),
        (Some(device_family), Some(line_family)) => {
            if !text::same(device_family.as_str(), line_family.as_str()) {
                Ok(Some(RealtimeTableConfig { device_family, line_family }))
            } else {
                Err(
                    error::invalid_option(
                        o.section.section_location().as_str(),
                        device_family.as_str(),
                        "different devicetable and linetable family names",
                        false,
                    ),
                )
            }
        },
        (Some(_), None) => Err(
            error::invalid_option(
                o.section.diagnostic_key("devicetable").as_str(),
                "devicetable without linetable",
                "devicetable and linetable together",
                false,
            ),
        ),
        (None, Some(_)) => Err(
            error::invalid_option(
                o.section.diagnostic_key("linetable").as_str(),
                "linetable without devicetable",
                "devicetable and linetable together",
                false,
            ),
        ),
    }
}

// ---------------------------------------------------------------------------
// Parts without conditions of their own

/// The seconds that an option sets, or those of the base.
pub open spec fn seconds_of(o: option::OptionsView, s: Setting, base: u32) -> u32 {
    match value::found(o, s) {
        Some(v) => match setting::number_setting(
            section::place(v),
            v.value,
            v.value,
            0,
            0xffff_ffff,
            "u32"@,
        ) {
            Ok(n) => n as u32,
            Err(_) => base,
        },
        None => base,
    }
}

/// The seconds that an option sets, or those of the base.
fn get_seconds(o: &Options, s: Setting, base: u32) -> (r: u32)
    requires
        o.deep_view().matched(),
    ensures
        r == seconds_of(o.deep_view(), s, base),
{
    match value::find(o, s) {
        Some(i) => {
            let v = &o.section.values[i];
            match setting::parse_number(
                v.diagnostic_key().as_str(),
                v.value.as_str(),
                v.value.as_str(),
                0,
                0xffff_ffff,
                "u32",
            ) {
                Ok(n) => n as u32,
                Err(_) => base,
            }
        },
        None => base,
    }
}

/// The server name of a section.
pub open spec fn server_name_of(o: option::OptionsView) -> text::Text {
    match value::found(o, Setting::ServerName) {
        Some(v) => v.value,
        None => "Asterisk SCCP"@,
    }
}

/// The server name of a section.
fn get_server_name(o: &Options) -> (r: String)
    requires
        o.deep_view().matched(),
    ensures
        r@ == server_name_of(o.deep_view()),
{
    match value::find(o, Setting::ServerName) {
        Some(i) => text::copy(o.section.values[i].value.as_str()),
        None => text::copy("Asterisk SCCP"),
    }
}

/// The jitter buffer of a section.
pub open spec fn jitter_of(o: option::OptionsView) -> JitterBufferConfig {
    JitterBufferConfig {
        enabled: network::over(value::flag_at(o, Setting::JbEnable), false),
        forced: network::over(value::flag_at(o, Setting::JbForce), false),
        log_frames: network::over(value::flag_at(o, Setting::JbLog), false),
        max_size_ms: network::over(value::jitter_at(o, Setting::JbMaxSize), 200) as u32,
        resync_threshold_ms: network::over(
            value::jitter_at(o, Setting::JbResyncThreshold),
            1_000,
        ) as u32,
        implementation: network::over(
            value::jitter_kind_at(o, Setting::JbImplementation),
            JitterBufferImplementation::Fixed,
        ),
    }
}

/// The jitter buffer of a section.
fn get_jitter_buffer(o: &Options) -> (r: JitterBufferConfig)
    requires
        o.deep_view().matched(),
    ensures
        r == jitter_of(o.deep_view()),
{
    JitterBufferConfig {
        enabled: pick(value::get_flag(o, Setting::JbEnable), false),
        forced: pick(value::get_flag(o, Setting::JbForce), false),
        log_frames: pick(value::get_flag(o, Setting::JbLog), false),
        max_size_ms: pick(value::get_jitter(o, Setting::JbMaxSize), 200) as u32,
        resync_threshold_ms: pick(value::get_jitter(o, Setting::JbResyncThreshold), 1_000) as u32,
        implementation: pick(
            value::get_jitter_kind(o, Setting::JbImplementation),
            JitterBufferImplementation::Fixed,
        ),
    }
}

/// The fallback registration of a section.
pub open spec fn fallback_of(o: option::OptionsView) -> FallbackRegistrationConfig {
    FallbackRegistrationConfig {
        decision: network::over(
            value::fallback_at(o, Setting::Fallback),
            FallbackDecision::Reject,
        ),
        backoff_seconds: network::over(value::backoff_at(o, Setting::BackoffTime), 60) as u32,
        server_priority: network::over(value::priority_at(o, Setting::ServerPriority), 1) as u8,
    }
}

/// The fallback registration of a section.
fn get_fallback(o: &Options) -> (r: FallbackRegistrationConfig)
    requires
        o.deep_view().matched(),
    ensures
        r == fallback_of(o.deep_view()),
{
    FallbackRegistrationConfig {
        decision: pick(value::get_fallback(o, Setting::Fallback), FallbackDecision::Reject),
        backoff_seconds: pick(value::get_backoff(o, Setting::BackoffTime), 60) as u32,
        server_priority: pick(value::get_priority(o, Setting::ServerPriority), 1) as u8,
    }
}

/// The conference dialing of a section.
pub open spec fn conference_of(o: option::OptionsView) -> policy::ConferenceDialingConfigView {
    policy::ConferenceDialingConfigView {
        enabled: network::over(value::flag_at(o, Setting::ConferenceEnabled), true),
        application_options: network::over(
            value::app_options_at(o, Setting::ConferenceOptions),
            "qxd"@,
        ),
    }
}

/// The conference dialing of a section.
fn get_conference(o: &Options) -> (r: ConferenceDialingConfig)
    requires
        o.deep_view().matched(),
    ensures
        r.deep_view() == conference_of(o.deep_view()),
{
    ConferenceDialingConfig {
        enabled: pick(value::get_flag(o, Setting::ConferenceEnabled), true),
        application_options: match value::get_app_options(o, Setting::ConferenceOptions) {
            Some(x) => x,
            None => text::copy("qxd"),
        },
    }
}

/// The milliseconds until the first digit.
pub open spec fn first_digit_of(o: option::OptionsView) -> u64 {
    match value::first_digit_at(o, Setting::FirstDigitTimeout) {
        Some(seconds) => (seconds * 1000) as u64,
        None => 10_000,
    }
}

/// The milliseconds between digits.
pub open spec fn interdigit_of(o: option::OptionsView) -> u64 {
    match value::digit_millis_at(o, Setting::InterdigitTimeoutMs) {
        Some(ms) => ms,
        None => match value::digit_seconds_at(o, Setting::DigitTimeout) {
            Some(seconds) => (seconds * 1000) as u64,
            None => 5_000,
        },
    }
}

/// The milliseconds until the first digit.
fn get_first_digit_millis(o: &Options) -> (r: u64)
    requires
        o.deep_view().matched(),
    ensures
        r == first_digit_of(o.deep_view()),
{
    match value::get_first_digit(o, Setting::FirstDigitTimeout) {
        Some(seconds) => {
            assert(seconds <= 86400);
            seconds * 1000
        },
        None => 10_000,
    }
}

/// The milliseconds between digits.
fn get_interdigit_millis(o: &Options) -> (r: u64)
    requires
        o.deep_view().matched(),
    ensures
        r == interdigit_of(o.deep_view()),
{
    match value::get_digit_millis(o, Setting::InterdigitTimeoutMs) {
        Some(ms) => ms,
        None => match value::get_digit_seconds(o, Setting::DigitTimeout) {
            Some(seconds) => {
                assert(seconds <= 86400);
                seconds * 1000
            },
            None => 5_000,
        },
    }
}

// ---------------------------------------------------------------------------
// The whole section

/// What a section says beside its listeners, codecs and tables.
pub open spec fn plain_general(
    o: option::OptionsView,
    w: rules::LayerRulesView,
    codecs: Seq<Codec>,
    external: Option<policy::ExternalAddressView>,
    tls: Option<policy::TlsListenerView>,
    realtime_tables: Option<policy::RealtimeTableConfigView>,
) -> policy::GeneralConfigView {
    let n = o.settings.len() as int;
    let advertised = advertised_of(o);
    policy::GeneralConfigView {
        bind: clear_of(o),
        advertised_address: network::over(advertised.ipv4, address::localhost()),
        server_name: server_name_of(o),
        language: network::over(value::language_at(o, Setting::Language, w), "en"@),
        account_code: network::over(value::account_at(o, Setting::AccountCode, w), None),
        keepalive_seconds: seconds_of(o, Setting::Keepalive, 30),
        secondary_keepalive_seconds: seconds_of(o, Setting::SecondaryKeepalive, 30),
        signaling_servers: value::servers_upto(o, n),
        first_digit_timeout_ms: first_digit_of(o),
        interdigit_timeout_ms: interdigit_of(o),
        dial_terminator: DialTerminatorConfig {
            character: network::over(value::terminator_at(o, Setting::DigitTimeoutChar), '#'),
            record: network::over(value::flag_at(o, Setting::RecordDigitTimeoutChar), false),
        },
        simulate_enbloc: network::over(value::flag_at(o, Setting::SimulateEnbloc), true),
        speed_dial_await_further_digits: network::over(
            value::flag_at(o, Setting::SpeedDialAwaitFurtherDigits),
            false,
        ),
        allow_overlap: network::over(value::flag_at(o, Setting::AllowOverlap), false),
        transfer_on_hangup: network::over(value::flag_at(o, Setting::TransferOnHangup), false),
        call_answer_order: network::over(
            value::order_at(o, Setting::CallAnswerOrder),
            CallAnswerOrder::OldestFirst,
        ),
        timezone_offset_minutes: network::over(value::timezone_at(o, Setting::TimezoneOffset), 0),
        date_template: network::over(
            value::date_at(o, Setting::DateFormat, w),
            defaults::default_date_template(),
        ),
        ring_type: network::over(value::ringer_at(o, Setting::RingType), RingerMode::Outside),
        call_waiting_tone: network::over(
            value::optional_tone_at(o, Setting::CallWaitingTone, w),
            Some(Tone::CallWaiting),
        ),
        call_waiting_interval_seconds: network::over(
            value::waiting_at(o, Setting::CallWaitingInterval),
            0,
        ) as u32,
        codecs,
        audio_encryption: network::over(
            value::encryption_at(o, Setting::AudioEncryption),
            defaults::default_media_encryption_policy(),
        ),
        conference_dialing: conference_of(o),
        auto_answer: AutoAnswerConfig {
            ring_time_seconds: network::over(
                value::whole_at(o, Setting::AutoanswerRingTime),
                1,
            ) as u32,
            tone: network::over(value::tone_at(o, Setting::AutoanswerTone, w), Tone::Zip),
        },
        remote_hangup_tone: network::over(
            value::optional_tone_at(o, Setting::RemoteHangupTone, w),
            None,
        ),
        guest_hotline: hotline_of(o, w),
        direct_media: network::over(value::flag_at(o, Setting::DirectMedia), false),
        early_media: network::over(value::early_at(o, Setting::EarlyMedia), true),
        audio_processing: processing(
            network::over(value::flag_at(o, Setting::EchoCancel), true),
            network::over(value::flag_at(o, Setting::SilenceSuppression), false),
        ),
        jitter_buffer: jitter_of(o),
        registration: policy::RegistrationConfigView {
            contexts: network::over(
                value::contexts_at(o, Setting::RegistrationContext),
                Seq::empty(),
            ),
        },
        fallback_registration: fallback_of(o),
        network: policy::NetworkPolicyView {
            acl: policy::AccessControlListView {
                rules: network::over(value::acl_upto(o, n), Seq::empty()),
            },
            local_networks: network::over(value::local_upto(o, n), network::internal()),
            external,
            advertised,
            nat: network::over(value::nat_at(o, Setting::Nat), NatMode::Auto),
        },
        qos: marks_of(o).resolved(defaults::default_qos_policy()),
        listeners: policy::ListenerPolicyView { clear: clear_of(o), tls },
        realtime_tables,
    }
}

/// What the options of a general section say, once each of them is in order.
pub open spec fn general_of(o: option::OptionsView, w: rules::LayerRulesView) -> Result<
    policy::GeneralConfigView,
    error::ErrorView,
> {
    let at = section::section_place(o.section);
    let advertised = advertised_of(o);
    match codecs_of(o, "general.codecs"@, codec::mapped_audio()) {
        Err(e) => Err(e),
        Ok(codecs) => if hotline_incomplete(hotline_of(o, w)) {
            Err(
                error::refused(
                    "general.hotline_enabled"@,
                    "enabled guest hotline requires extension, context, and label"@,
                ),
            )
        } else if sets(o, Setting::Bind) && (sets(o, Setting::BindAddress) || sets(
            o,
            Setting::Port,
        )) {
            Err(
                error::invalid(
                    at,
                    "clear listener aliases"@,
                    "either bind/clear_bind or bindaddr+port, not both"@,
                    false,
                ),
            )
        } else if advertised.ipv4 is None && advertised.ipv6 is None {
            Err(
                error::invalid(
                    at,
                    "none"@,
                    "at least one advertised IPv4 or IPv6 address"@,
                    false,
                ),
            )
        } else {
            match (external_of(o), tls_of(o), tables_of(o)) {
                (Err(e), _, _) => Err(e),
                (_, Err(e), _) => Err(e),
                (_, _, Err(e)) => Err(e),
                (Ok(external), Ok(tls), Ok(tables)) => Ok(
                    plain_general(o, w, codecs, external, tls, tables),
                ),
            }
        },
    }
}

/// What a general section says.
pub open spec fn general_setting(s: section::RawSectionView, w: rules::LayerRulesView) -> Result<
    policy::GeneralConfigView,
    error::ErrorView,
> {
    match option::decoded(Scope::General, s) {
        Err(e) => Err(e),
        Ok(o) => match value::first_fault(o, 0, w) {
            Some(e) => Err(e),
            None => general_of(o, w),
        },
    }
}

/// The network policy of a section.
fn get_network(o: &Options, external: Option<ExternalAddress>, advertised: AdvertisedAddresses) -> (r:
    NetworkPolicy)
    requires
        o.deep_view().matched(),
    ensures
        r.deep_view() == (policy::NetworkPolicyView {
            acl: policy::AccessControlListView {
                rules: network::over(
                    value::acl_upto(o.deep_view(), o.settings@.len() as int),
                    Seq::empty(),
                ),
            },
            local_networks: network::over(
                value::local_upto(o.deep_view(), o.settings@.len() as int),
                network::internal(),
            ),
            external: external.deep_view(),
            advertised,
            nat: network::over(value::nat_at(o.deep_view(), Setting::Nat), NatMode::Auto),
        }),
{
    NetworkPolicy {
        acl: AccessControlList {
            rules: match value::get_acl(o) {
                Some(rules) => rules,
                None => Vec::new(),
            },
        },
        local_networks: match value::get_local_networks(o) {
            Some(list) => list,
            None => network::internal_networks(),
        },
        external,
        advertised,
        nat: pick(value::get_nat(o, Setting::Nat), NatMode::Auto),
    }
}

/// Builds the configuration of a section from its parts.
fn build_general(
    o: &Options,
    with: &LayerRules,
    codecs: Vec<Codec>,
    external: Option<ExternalAddress>,
    tls: Option<TlsListener>,
    realtime_tables: Option<RealtimeTableConfig>,
) -> (r: GeneralConfig)
    requires
        o.deep_view().matched(),
    ensures
        r.deep_view() == plain_general(
            o.deep_view(),
            with.deep_view(),
            codecs@,
            external.deep_view(),
            tls.deep_view(),
            realtime_tables.deep_view(),
        ),
{
    let clear = get_clear(o);
    let advertised = get_advertised(o);
    let contexts: Vec<String> = match value::get_contexts(o, Setting::RegistrationContext) {
        Some(x) => x,
        None => Vec::new(),
    };
    assert(contexts.deep_view() =~= network::over(
        value::contexts_at(o.deep_view(), Setting::RegistrationContext),
        Seq::empty(),
    ));
    GeneralConfig {
        bind: clear,
        advertised_address: pick(advertised.ipv4, address::localhost()),
        server_name: get_server_name(o),
        language: match value::get_language(o, Setting::Language, with) {
            Some(x) => x,
            None => text::copy("en"),
        },
        account_code: match value::get_account(o, Setting::AccountCode, with) {
            Some(x) => x,
            None => None,
        },
        keepalive_seconds: get_seconds(o, Setting::Keepalive, 30),
        secondary_keepalive_seconds: get_seconds(o, Setting::SecondaryKeepalive, 30),
        signaling_servers: value::get_servers(o),
        first_digit_timeout_ms: get_first_digit_millis(o),
        interdigit_timeout_ms: get_interdigit_millis(o),
        dial_terminator: DialTerminatorConfig {
            character: pick(value::get_terminator(o, Setting::DigitTimeoutChar), '#'),
            record: pick(value::get_flag(o, Setting::RecordDigitTimeoutChar), false),
        },
        simulate_enbloc: pick(value::get_flag(o, Setting::SimulateEnbloc), true),
        speed_dial_await_further_digits: pick(
            value::get_flag(o, Setting::SpeedDialAwaitFurtherDigits),
            false,
        ),
        allow_overlap: pick(value::get_flag(o, Setting::AllowOverlap), false),
        transfer_on_hangup: pick(value::get_flag(o, Setting::TransferOnHangup), false),
        call_answer_order: pick(
            value::get_order(o, Setting::CallAnswerOrder),
            CallAnswerOrder::OldestFirst,
        ),
        timezone_offset_minutes: pick(value::get_timezone(o, Setting::TimezoneOffset), 0),
        date_template: match value::get_date(o, Setting::DateFormat, with) {
            Some(x) => x,
            None => DateTemplate::default(),
        },
        ring_type: pick(value::get_ringer(o, Setting::RingType), RingerMode::Outside),
        call_waiting_tone: pick(
            value::get_optional_tone(o, Setting::CallWaitingTone, with),
            Some(Tone::CallWaiting),
        ),
        call_waiting_interval_seconds: pick(
            value::get_waiting(o, Setting::CallWaitingInterval),
            0,
        ) as u32,
        codecs,
        audio_encryption: match value::get_encryption(o, Setting::AudioEncryption) {
            Some(x) => x,
            None => MediaEncryptionPolicy::default(),
        },
        conference_dialing: get_conference(o),
        auto_answer: AutoAnswerConfig {
            ring_time_seconds: pick(value::get_whole(o, Setting::AutoanswerRingTime), 1) as u32,
            tone: pick(value::get_tone(o, Setting::AutoanswerTone, with), Tone::Zip),
        },
        remote_hangup_tone: pick(value::get_optional_tone(o, Setting::RemoteHangupTone, with), None),
        guest_hotline: get_hotline(o, with),
        direct_media: pick(value::get_flag(o, Setting::DirectMedia), false),
        early_media: pick(value::get_early(o, Setting::EarlyMedia), true),
        audio_processing: AudioProcessingPolicy {
            echo_cancellation: if pick(value::get_flag(o, Setting::EchoCancel), true) {
                EchoCancellation::On
            } else {
                EchoCancellation::Off
            },
            silence_suppression: if pick(
                value::get_flag(o, Setting::SilenceSuppression),
                false,
            ) {
                SilenceSuppression::On
            } else {
                SilenceSuppression::Off
            },
        },
        jitter_buffer: get_jitter_buffer(o),
        registration: RegistrationConfig { contexts },
        fallback_registration: get_fallback(o),
        network: get_network(o, external, advertised),
        qos: get_marks(o).resolve(QosPolicy::default()),
        listeners: ListenerPolicy { clear, tls },
        realtime_tables,
    }
}

/// Reads a general section.
pub fn parse_general(s: &RawSection, with: &LayerRules) -> (r: Result<GeneralConfig, ConfigError>)
    ensures
        error::outcome(r) == general_setting(s.deep_view(), with.deep_view()),
{
    let o = match option::deserialize_entries(Scope::General, s) {
        Ok(o) => o,
        Err(e) => return Err(e),
    };
    match value::check_entries(&o, with) {
        Some(e) => return Err(e),
        None => {},
    }
    let base = codec::mapped_audio_codecs();
    let codecs = match get_preferences(&o, "general.codecs", &base) {
        Ok(x) => x,
        Err(e) => return Err(e),
    };
    let hotline = get_hotline(&o, with);
    if hotline.enabled && (hotline.extension.is_none() || hotline.context.as_str().is_empty()
        || hotline.label.as_str().is_empty()) {
        return Err(
            error::invalid_value(
                "general.hotline_enabled",
                "enabled guest hotline requires extension, context, and label",
            ),
        );
    }
    if has(&o, Setting::Bind) && (has(&o, Setting::BindAddress) || has(&o, Setting::Port)) {
        return Err(
            error::invalid_option(
                o.section.section_location().as_str(),
                "clear listener aliases",
                "either bind/clear_bind or bindaddr+port, not both",
                false,
            ),
        );
    }
    let advertised = get_advertised(&o);
    if advertised.ipv4.is_none() && advertised.ipv6.is_none() {
        return Err(
            error::invalid_option(
                o.section.section_location().as_str(),
                "none",
                "at least one advertised IPv4 or IPv6 address",
                false,
            ),
        );
    }
    let external = match get_external(&o) {
        Ok(x) => x,
        Err(e) => return Err(e),
    };
    let tls = match get_tls(&o) {
        Ok(x) => x,
        Err(e) => return Err(e),
    };
    let tables = match get_tables(&o) {
        Ok(x) => x,
        Err(e) => return Err(e),
    };
    Ok(build_general(&o, with, codecs, external, tls, tables))
}

// ---------------------------------------------------------------------------
// Laws

/// An accepted general section always leaves a listener on a real port, a TLS
/// listener apart from it, and an address to advertise, and its timeouts stay
/// within their bounds.
pub proof fn law_general_policy_is_usable(s: section::RawSectionView, w: rules::LayerRulesView)
    ensures
        general_setting(s, w) matches Ok(g) ==> {
            &&& g.bind.port != 0
            &&& g.listeners.clear == g.bind
            &&& g.listeners.tls matches Some(t) ==> t.bind.port != 0 && t.bind != g.bind
            &&& g.network.advertised.ipv4 is Some || g.network.advertised.ipv6 is Some
            &&& 1_000 <= g.first_digit_timeout_ms <= 86_400_000
            &&& 250 <= g.interdigit_timeout_ms <= 86_400_000
            &&& g.call_waiting_interval_seconds <= 86_400
            &&& g.jitter_buffer.max_size_ms > 0
            &&& g.jitter_buffer.resync_threshold_ms > 0
            &&& g.fallback_registration.server_priority > 0
        },
{
}

/// A general section without settings says what no general section says.
pub proof fn law_empty_general_section_is_default(
    s: section::RawSectionView,
    w: rules::LayerRulesView,
)
    requires
        s.values.len() == 0,
    ensures
        general_setting(s, w) == Ok::<policy::GeneralConfigView, error::ErrorView>(
            defaults::default_general_config(),
        ),
{
    let o = option::OptionsView { section: s, settings: Seq::empty() };
    assert(option::decoded(Scope::General, s) == Ok::<option::OptionsView, error::ErrorView>(o));
    assert forall|x: Setting| value::found(o, x) is None by {}
    reveal_strlit("default");
    reveal_strlit("hotline");
    let g = general_setting(s, w);
    let d = defaults::default_general_config();
    assert(g is Ok);
    assert(g->Ok_0.qos == d.qos);
    assert(g->Ok_0.listeners == d.listeners);
    assert(g->Ok_0.network == d.network);
    assert(g->Ok_0.guest_hotline == d.guest_hotline);
    assert(g->Ok_0 == d);
}

} // verus!
