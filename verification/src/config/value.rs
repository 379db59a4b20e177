//! The values of options: what each option takes, which options exclude each
//! other, and what a section says.

use vstd::prelude::*;

use crate::address;
use crate::address::IpAddr;
use crate::address::Ipv4Addr;
use crate::address::Ipv6Addr;
use crate::address::SocketAddr;
use crate::config::codec;
use crate::config::codec::CodecSetting;
use crate::config::error;
use crate::config::error::ConfigError;
use crate::config::group;
use crate::config::network;
use crate::config::option;
use crate::config::option::Options;
use crate::config::option::Setting;
use crate::config::policy;
use crate::config::policy::AclAction;
use crate::config::policy::AclRule;
use crate::config::policy::CallAnswerOrder;
use crate::config::policy::ChannelVariable;
use crate::config::policy::Cos;
use crate::config::policy::DndMode;
use crate::config::policy::Dscp;
use crate::config::policy::FallbackDecision;
use crate::config::policy::ForwardingDestination;
use crate::config::policy::HotlineDestination;
use crate::config::policy::IpNetwork;
use crate::config::policy::JitterBufferImplementation;
use crate::config::policy::MediaEncryptionPolicy;
use crate::config::policy::MobilityPin;
use crate::config::policy::NatMode;
use crate::config::policy::RegistrationExtension;
use crate::config::policy::TransportRequirement;
use crate::config::policy::VideoMode;
use crate::config::policy::VoicemailDestination;
use crate::config::registration;
use crate::config::rules;
use crate::config::rules::LayerRules;
use crate::config::section;
use crate::config::section::RawValue;
use crate::config::setting;
use crate::config::tone;
use crate::config::variable;
use crate::station;
use crate::station::DateTemplate;
use crate::station::DtmfMode;
use crate::station::LampMode;
use crate::station::LegacyCodePage;
use crate::station::RingerMode;
use crate::station::SignalingServerRoute;
use crate::station::Tone;
use crate::text;

verus! {

// ---------------------------------------------------------------------------
// Outcomes

/// The refusal in an outcome.
pub open spec fn refusal_of<T>(r: Result<T, error::ErrorView>) -> Option<error::ErrorView> {
    match r {
        Ok(_) => None,
        Err(e) => Some(e),
    }
}

/// The value in an outcome.
pub open spec fn value_in<T>(r: Result<T, error::ErrorView>) -> Option<T> {
    match r {
        Ok(x) => Some(x),
        Err(_) => None,
    }
}

/// The refusal in an outcome.
fn refusal_in<T>(r: Result<T, ConfigError>) -> (o: Option<ConfigError>)
    ensures
        match r {
            Ok(_) => o is None,
            Err(e) => o == Some(e),
        },
{
    match r {
        Ok(_) => None,
        Err(e) => Some(e),
    }
}

// ---------------------------------------------------------------------------
// Values of single options

/// Whether a value is empty or the word `none`.
pub open spec fn is_none_word(value: text::Text) -> bool {
    value.len() == 0 || text::same_fold(value, "none"@)
}

/// Whether a value is empty or the word `none`.
fn none_word(value: &str) -> (r: bool)
    ensures
        r == is_none_word(value@),
{
    value.is_empty() || text::eq_ignore_ascii_case(value, "none")
}

/// An advertised address of either family.
pub open spec fn advertised_setting(k: text::Text, r: text::Text) -> Result<
    IpAddr,
    error::ErrorView,
> {
    let fault = error::invalid(k, r, "a non-unspecified IPv4 or IPv6 address"@, false);
    match address::ip_of(r) {
        Some(a) => if a.unspecified() {
            Err(fault)
        } else {
            Ok(a)
        },
        None => Err(fault),
    }
}

/// Reads an advertised address of either family.
pub fn parse_advertised(key: &str, raw: &str) -> (r: Result<IpAddr, ConfigError>)
    ensures
        error::outcome(r) == advertised_setting(key@, raw@),
{
    match address::read_ip(raw) {
        Some(a) => if !a.is_unspecified() {
            return Ok(a);
        },
        None => {},
    }
    Err(error::invalid_option(key, raw, "a non-unspecified IPv4 or IPv6 address", false))
}

/// An advertised IPv4 address, or none.
pub open spec fn advertised4_setting(k: text::Text, r: text::Text) -> Result<
    Option<Ipv4Addr>,
    error::ErrorView,
> {
    let value = text::trimmed(r);
    if is_none_word(value) {
        Ok(None)
    } else {
        match address::ipv4_of(value) {
            Some(a) => if IpAddr::V4(a).unspecified() {
                Err(error::invalid(k, r, "a non-unspecified IPv4 address or none"@, false))
            } else {
                Ok(Some(a))
            },
            None => Err(error::invalid(k, r, "an IPv4 address or none"@, false)),
        }
    }
}

/// Reads an advertised IPv4 address, or none.
pub fn parse_advertised4(key: &str, raw: &str) -> (r: Result<Option<Ipv4Addr>, ConfigError>)
    ensures
        error::outcome(r) == advertised4_setting(key@, raw@),
{
    let value = text::trim(raw);
    if none_word(value.as_str()) {
        return Ok(None);
    }
    match address::read_ipv4(value.as_str()) {
        Some(a) => if IpAddr::V4(a).is_unspecified() {
            Err(error::invalid_option(key, raw, "a non-unspecified IPv4 address or none", false))
        } else {
            Ok(Some(a))
        },
        None => Err(error::invalid_option(key, raw, "an IPv4 address or none", false)),
    }
}

/// An advertised IPv6 address, or none.
pub open spec fn advertised6_setting(k: text::Text, r: text::Text) -> Result<
    Option<Ipv6Addr>,
    error::ErrorView,
> {
    let value = text::trimmed(r);
    if is_none_word(value) {
        Ok(None)
    } else {
        match address::ipv6_of(value) {
            Some(a) => if IpAddr::V6(a).unspecified() {
                Err(error::invalid(k, r, "a non-unspecified IPv6 address or none"@, false))
            } else {
                Ok(Some(a))
            },
            None => Err(error::invalid(k, r, "an IPv6 address or none"@, false)),
        }
    }
}

/// Reads an advertised IPv6 address, or none.
pub fn parse_advertised6(key: &str, raw: &str) -> (r: Result<Option<Ipv6Addr>, ConfigError>)
    ensures
        error::outcome(r) == advertised6_setting(key@, raw@),
{
    let value = text::trim(raw);
    if none_word(value.as_str()) {
        return Ok(None);
    }
    match address::read_ipv6(value.as_str()) {
        Some(a) => if IpAddr::V6(a).is_unspecified() {
            Err(error::invalid_option(key, raw, "a non-unspecified IPv6 address or none", false))
        } else {
            Ok(Some(a))
        },
        None => Err(error::invalid_option(key, raw, "an IPv6 address or none", false)),
    }
}

/// An external address of either family, or none.
pub open spec fn external_ip_setting(k: text::Text, r: text::Text) -> Result<
    Option<IpAddr>,
    error::ErrorView,
> {
    let value = text::trimmed(r);
    if is_none_word(value) {
        Ok(None)
    } else {
        match address::ip_of(value) {
            Some(a) => if a.unspecified() {
                Err(error::invalid(k, r, "a non-unspecified IPv4/IPv6 address or none"@, false))
            } else {
                Ok(Some(a))
            },
            None => Err(error::invalid(k, r, "an IPv4/IPv6 address or none"@, false)),
        }
    }
}

/// Reads an external address of either family, or none.
pub fn parse_external_ip(key: &str, raw: &str) -> (r: Result<Option<IpAddr>, ConfigError>)
    ensures
        error::outcome(r) == external_ip_setting(key@, raw@),
{
    let value = text::trim(raw);
    if none_word(value.as_str()) {
        return Ok(None);
    }
    match address::read_ip(value.as_str()) {
        Some(a) => if a.is_unspecified() {
            Err(
                error::invalid_option(
                    key,
                    raw,
                    "a non-unspecified IPv4/IPv6 address or none",
                    false,
                ),
            )
        } else {
            Ok(Some(a))
        },
        None => Err(error::invalid_option(key, raw, "an IPv4/IPv6 address or none", false)),
    }
}

/// An external host name, or none.
pub open spec fn external_host_setting(k: text::Text, r: text::Text) -> Result<
    Option<text::Text>,
    error::ErrorView,
> {
    let value = text::trimmed(r);
    if is_none_word(value) {
        Ok(None)
    } else {
        match setting::hostname_setting(k, value) {
            Ok(name) => Ok(Some(name)),
            Err(e) => Err(e),
        }
    }
}

/// Reads an external host name, or none.
pub fn parse_external_host(key: &str, raw: &str) -> (r: Result<Option<String>, ConfigError>)
    ensures
        error::outcome(r) == external_host_setting(key@, raw@),
{
    let value = text::trim(raw);
    if none_word(value.as_str()) {
        return Ok(None);
    }
    match setting::parse_hostname(key, value.as_str()) {
        Ok(name) => Ok(Some(name)),
        Err(e) => Err(e),
    }
}

/// A date template that the station protocol takes.
pub open spec fn date_setting(k: text::Text, r: text::Text, w: rules::LayerRulesView) -> Result<
    station::DateTemplateView,
    error::ErrorView,
> {
    match rules::reason_for(w.refused_dates, text::trimmed(r)) {
        Some(reason) => Err(error::invalid(k, r, reason, false)),
        None => Ok(station::DateTemplateView { template: text::trimmed(r) }),
    }
}

/// Reads a date template.
pub fn parse_date(key: &str, raw: &str, with: &LayerRules) -> (r: Result<DateTemplate, ConfigError>)
    ensures
        error::outcome(r) == date_setting(key@, raw@, with.deep_view()),
{
    let template = text::trim(raw);
    match rules::find_reason(&with.refused_dates, template.as_str()) {
        Some(reason) => Err(error::invalid_option(key, raw, reason.as_str(), false)),
        None => Ok(DateTemplate { template }),
    }
}

/// The seconds until a call is forwarded without an answer.
pub open spec fn answer_timeout_setting(k: text::Text, r: text::Text) -> Result<
    u64,
    error::ErrorView,
> {
    match setting::number_setting(k, r, r, 0, 0xffff_ffff, "u32"@) {
        Err(e) => Err(e),
        Ok(n) => if 1 <= n <= 86400 {
            Ok(n)
        } else {
            Err(error::invalid(k, r, "timeout seconds 1..86400"@, false))
        },
    }
}

/// Reads the seconds until a call is forwarded without an answer.
pub fn parse_answer_timeout(key: &str, raw: &str) -> (r: Result<u64, ConfigError>)
    ensures
        error::outcome(r) == answer_timeout_setting(key@, raw@),
{
    match setting::parse_number(key, raw, raw, 0, 0xffff_ffff, "u32") {
        Err(e) => Err(e),
        Ok(n) => if 1 <= n && n <= 86400 {
            Ok(n)
        } else {
            Err(error::invalid_option(key, raw, "timeout seconds 1..86400", false))
        },
    }
}

/// A hotline destination.
pub open spec fn hotline_destination_setting(
    k: text::Text,
    r: text::Text,
    w: rules::LayerRulesView,
) -> Result<Option<policy::HotlineDestinationView>, error::ErrorView> {
    match setting::hotline_setting(k, r, w.limits.hotline_bytes) {
        Ok(v) => Ok(setting::hotline_view(v)),
        Err(e) => Err(e),
    }
}

/// A voicemail destination.
pub open spec fn voicemail_setting(k: text::Text, r: text::Text, w: rules::LayerRulesView) -> Result<
    Option<policy::VoicemailDestinationView>,
    error::ErrorView,
> {
    match setting::switchable_destination(k, r, w.limits.destination_bytes) {
        Ok(v) => Ok(setting::voicemail_view(v)),
        Err(e) => Err(e),
    }
}

/// A forwarding destination.
pub open spec fn forwarding_setting(
    k: text::Text,
    r: text::Text,
    w: rules::LayerRulesView,
) -> Result<Option<policy::ForwardingDestinationView>, error::ErrorView> {
    match setting::switchable_destination(k, r, w.limits.destination_bytes) {
        Ok(v) => Ok(setting::forwarding_view(v)),
        Err(e) => Err(e),
    }
}

/// Why networks are refused; empty text clears them.
pub open spec fn networks_fault(k: text::Text, r: text::Text) -> Option<error::ErrorView> {
    if text::trimmed(r).len() == 0 {
        None
    } else {
        refusal_of(network::networks_setting(k, r))
    }
}

/// Judges networks.
fn check_networks(key: &str, raw: &str) -> (r: Option<ConfigError>)
    ensures
        error::refusal(r) == networks_fault(key@, raw@),
{
    if text::trim(raw).as_str().is_empty() {
        return None;
    }
    refusal_in(network::parse_ip_networks(key, raw))
}

// ---------------------------------------------------------------------------
// The value of each option

/// Why the value of an option is refused.
pub open spec fn value_fault(
    s: Setting,
    k: text::Text,
    r: text::Text,
    w: rules::LayerRulesView,
) -> Option<error::ErrorView> {
    match s {
        Setting::DateFormat => refusal_of(date_setting(k, r, w)),
        Setting::TimezoneOffset => refusal_of(setting::timezone_setting(k, r)),
        Setting::Bind => refusal_of(network::socket_setting(k, r, "an IPv4/IPv6 socket address with port"@, "clear listener port 1..65535"@)),
        Setting::BindAddress => refusal_of(network::ip_setting(k, r, r, "an IPv4 or IPv6 address"@)),
        Setting::Port => refusal_of(setting::number_setting(k, r, r, 1, 65535, "TCP port 1..65535"@)),
        Setting::AdvertisedAddress => refusal_of(advertised_setting(k, r)),
        Setting::AdvertisedIpv4 => refusal_of(advertised4_setting(k, r)),
        Setting::AdvertisedIpv6 => refusal_of(advertised6_setting(k, r)),
        Setting::TlsBind => refusal_of(network::socket_setting(k, r, "an IPv4/IPv6 TLS socket address with port"@, "TLS listener port 1..65535"@)),
        Setting::TlsBindAddress => refusal_of(network::ip_setting(k, r, r, "an IPv4 or IPv6 TLS bind address"@)),
        Setting::TlsPort => refusal_of(setting::number_setting(k, r, r, 1, 65535, "TLS port 1..65535"@)),
        Setting::TlsCombinedPem | Setting::TlsPrivateKey | Setting::TlsTrustStore => refusal_of(setting::path_setting(k, r, true)),
        Setting::TlsCertificate => refusal_of(setting::path_setting(k, r, false)),
        Setting::Deny | Setting::Permit => networks_fault(k, r),
        Setting::LocalNetwork => networks_fault(k, r),
        Setting::ExternalAddress => refusal_of(external_ip_setting(k, r)),
        Setting::ExternalHost => refusal_of(external_host_setting(k, r)),
        Setting::ExternalRefresh => refusal_of(setting::number_setting(k, r, r, 1, 86400, "external DNS refresh interval 1..86400 seconds"@)),
        Setting::Nat => refusal_of(setting::nat_setting(k, r)),
        Setting::SignalingTos | Setting::AudioTos | Setting::VideoTos => refusal_of(network::tos_setting(k, r)),
        Setting::SignalingDscp | Setting::AudioDscp | Setting::VideoDscp => refusal_of(network::dscp_setting(k, r)),
        Setting::SignalingCos | Setting::AudioCos | Setting::VideoCos => refusal_of(network::cos_setting(k, r)),
        Setting::TrustPhoneIp => Some(error::invalid(k, r, "remove obsolete trustphoneip; peer addresses are always authoritative"@, false)),
        Setting::ServerName | Setting::Allow | Setting::Disallow | Setting::Type | Setting::Label | Setting::Context | Setting::CallerId | Setting::SetVariable | Setting::Description | Setting::SoftkeyProfile | Setting::PermitHost | Setting::Line | Setting::Button => None,
        Setting::Language => refusal_of(setting::metadata_setting(k, r, w.limits.language_bytes, false)),
        Setting::AccountCode => refusal_of(setting::optional_metadata_setting(k, r, w.limits.account_code_bytes, true)),
        Setting::Keepalive | Setting::SecondaryKeepalive | Setting::AutoanswerRingTime => refusal_of(setting::number_setting(k, r, r, 0, 0xffff_ffff, "u32"@)),
        Setting::SignalingServer => refusal_of(network::server_setting(k, r)),
        Setting::FirstDigitTimeout => refusal_of(setting::number_setting(k, r, r, 1, 86400, "first-digit timeout 1..86400 seconds"@)),
        Setting::InterdigitTimeoutMs => refusal_of(setting::number_setting(k, r, r, 250, 86_400_000, "subsequent-digit timeout 250..86400000 milliseconds"@)),
        Setting::DigitTimeout => refusal_of(setting::number_setting(k, r, r, 1, 86400, "subsequent-digit timeout 1..86400 seconds"@)),
        Setting::DigitTimeoutChar => refusal_of(setting::terminator_setting(k, r)),
        Setting::RecordDigitTimeoutChar | Setting::SimulateEnbloc | Setting::SpeedDialAwaitFurtherDigits | Setting::AllowOverlap | Setting::TransferOnHangup | Setting::ConferenceEnabled | Setting::HotlineEnabled | Setting::DirectMedia | Setting::EchoCancel | Setting::SilenceSuppression | Setting::JbEnable | Setting::JbForce | Setting::JbLog | Setting::DirectedPickup | Setting::PickupModeAnswer | Setting::ForwardAllEnabled | Setting::ForwardBusyEnabled | Setting::ForwardNoAnswerEnabled | Setting::DndFeature | Setting::PrivacyFeature | Setting::Privacy | Setting::Park | Setting::ConferenceAllow | Setting::ConferencePlayGeneralAnnounce | Setting::ConferencePlayParticipantAnnounce | Setting::ConferenceMuteOnEntry | Setting::ConferenceShowList | Setting::ConferenceDialingEnabled | Setting::UseRedialMenu | Setting::AllowRinginNotification | Setting::MwiOnCall => refusal_of(setting::bool_setting(k, r)),
        Setting::CallAnswerOrder => refusal_of(setting::answer_order_setting(k, r)),
        Setting::RingType => refusal_of(setting::ringer_setting(k, r)),
        Setting::CallWaitingTone | Setting::RemoteHangupTone => refusal_of(tone::optional_tone_setting(k, r, w)),
        Setting::CallWaitingInterval => refusal_of(setting::number_setting(k, text::trimmed(r), r, 0, 86400, "call-waiting interval 0..86400 seconds"@)),
        Setting::Fallback => refusal_of(setting::fallback_setting(k, r)),
        Setting::BackoffTime => refusal_of(setting::number_setting(k, r, r, 30, 0xffff_ffff, "registration-token backoff of at least 30 seconds"@)),
        Setting::ServerPriority => refusal_of(setting::number_setting(k, r, r, 1, 255, "positive fallback-server priority"@)),
        Setting::ConferenceOptions => refusal_of(setting::options_setting(k, r)),
        Setting::AutoanswerTone | Setting::InitialDialtoneTone | Setting::SecondaryDialtoneTone => refusal_of(tone::tone_setting(k, r, w)),
        Setting::HotlineExtension | Setting::AdhocNumber => refusal_of(hotline_destination_setting(k, r, w)),
        Setting::HotlineContext | Setting::HotlineLabel => refusal_of(setting::bounded_setting(k, r, w.limits.hotline_bytes)),
        Setting::EarlyMedia => refusal_of(setting::early_media_setting(k, r)),
        Setting::AudioEncryption => refusal_of(codec::encryption_setting(k, r)),
        Setting::JbMaxSize | Setting::JbResyncThreshold => refusal_of(setting::jitter_setting(k, r)),
        Setting::JbImplementation => refusal_of(setting::jitter_kind_setting(k, r)),
        Setting::RegistrationContext => refusal_of(registration::contexts_setting(k, r)),
        Setting::DeviceTable | Setting::LineTable => refusal_of(setting::family_setting(k, r)),
        Setting::IncomingLimit => refusal_of(setting::number_setting(k, text::trimmed(r), r, 0, 255, "incoming call limit 0..255"@)),
        Setting::Mailbox => refusal_of(setting::mailbox_setting(k, r)),
        Setting::VoicemailNumber | Setting::VoicemailTransfer => refusal_of(voicemail_setting(k, r, w)),
        Setting::CallGroup | Setting::PickupGroup => refusal_of(group::numeric_setting(k, r)),
        Setting::NamedCallGroup | Setting::NamedPickupGroup => refusal_of(group::named_setting(k, r)),
        Setting::DirectedPickupContext => refusal_of(setting::optional_setting(k, r)),
        Setting::ParkingLot | Setting::ConferenceNumber | Setting::ConferenceMusicOnHoldClass => refusal_of(setting::empty_optional_setting(k, r)),
        Setting::SecondaryDialtoneDigits => refusal_of(setting::prefix_setting(k, r)),
        Setting::Pin => refusal_of(setting::pin_setting(k, r)),
        Setting::RegistrationExtension => refusal_of(registration::extensions_setting(k, r)),
        Setting::VideoMode => refusal_of(setting::video_mode_setting(k, r)),
        Setting::ForwardNoAnswerTimeout => refusal_of(answer_timeout_setting(k, r)),
        Setting::ForwardAll | Setting::ForwardBusy | Setting::ForwardNoAnswer => refusal_of(forwarding_setting(k, r, w)),
        Setting::Dnd => refusal_of(setting::dnd_setting(k, r)),
        Setting::FeatureDefault => refusal_of(group::feature_default_setting(k, r)),
        Setting::MwiLamp => refusal_of(setting::lamp_setting(k, r)),
        Setting::PhoneCodePage => refusal_of(setting::code_page_setting(k, r)),
        Setting::ForceDtmfMode => refusal_of(setting::dtmf_setting(k, r)),
        Setting::Transport => refusal_of(setting::transport_setting(k, r)),
        Setting::ObsoleteDtmfMode => Some(error::invalid(k, r, "remove obsolete dtmfmode and use force_dtmfmode"@, false)),
    }
}

/// Judges the value of an option.
pub fn check_value(s: Setting, key: &str, raw: &str, with: &LayerRules) -> (r: Option<ConfigError>)
    ensures
        error::refusal(r) == value_fault(s, key@, raw@, with.deep_view()),
{
    match s {
        Setting::DateFormat => refusal_in(parse_date(key, raw, with)),
        Setting::TimezoneOffset => refusal_in(setting::parse_timezone(key, raw)),
        Setting::Bind => refusal_in(network::parse_socket(key, raw, "an IPv4/IPv6 socket address with port", "clear listener port 1..65535")),
        Setting::BindAddress => refusal_in(network::parse_ip(key, raw, raw, "an IPv4 or IPv6 address")),
        Setting::Port => refusal_in(setting::parse_number(key, raw, raw, 1, 65535, "TCP port 1..65535")),
        Setting::AdvertisedAddress => refusal_in(parse_advertised(key, raw)),
        Setting::AdvertisedIpv4 => refusal_in(parse_advertised4(key, raw)),
        Setting::AdvertisedIpv6 => refusal_in(parse_advertised6(key, raw)),
        Setting::TlsBind => refusal_in(network::parse_socket(key, raw, "an IPv4/IPv6 TLS socket address with port", "TLS listener port 1..65535")),
        Setting::TlsBindAddress => refusal_in(network::parse_ip(key, raw, raw, "an IPv4 or IPv6 TLS bind address")),
        Setting::TlsPort => refusal_in(setting::parse_number(key, raw, raw, 1, 65535, "TLS port 1..65535")),
        Setting::TlsCombinedPem | Setting::TlsPrivateKey | Setting::TlsTrustStore => refusal_in(setting::parse_path(key, raw, true)),
        Setting::TlsCertificate => refusal_in(setting::parse_path(key, raw, false)),
        Setting::Deny | Setting::Permit => check_networks(key, raw),
        Setting::LocalNetwork => check_networks(key, raw),
        Setting::ExternalAddress => refusal_in(parse_external_ip(key, raw)),
        Setting::ExternalHost => refusal_in(parse_external_host(key, raw)),
        Setting::ExternalRefresh => refusal_in(setting::parse_number(key, raw, raw, 1, 86400, "external DNS refresh interval 1..86400 seconds")),
        Setting::Nat => refusal_in(setting::parse_nat_mode(key, raw)),
        Setting::SignalingTos | Setting::AudioTos | Setting::VideoTos => refusal_in(network::parse_tos_as_dscp(key, raw)),
        Setting::SignalingDscp | Setting::AudioDscp | Setting::VideoDscp => refusal_in(network::parse_dscp(key, raw)),
        Setting::SignalingCos | Setting::AudioCos | Setting::VideoCos => refusal_in(network::parse_cos(key, raw)),
        Setting::TrustPhoneIp => Some(error::invalid_option(key, raw, "remove obsolete trustphoneip; peer addresses are always authoritative", false)),
        Setting::ServerName | Setting::Allow | Setting::Disallow | Setting::Type | Setting::Label | Setting::Context | Setting::CallerId | Setting::SetVariable | Setting::Description | Setting::SoftkeyProfile | Setting::PermitHost | Setting::Line | Setting::Button => None,
        Setting::Language => refusal_in(setting::parse_metadata_required(key, raw, with.limits.language_bytes, false)),
        Setting::AccountCode => refusal_in(setting::parse_metadata_optional(key, raw, with.limits.account_code_bytes, true)),
        Setting::Keepalive | Setting::SecondaryKeepalive | Setting::AutoanswerRingTime => refusal_in(setting::parse_number(key, raw, raw, 0, 0xffff_ffff, "u32")),
        Setting::SignalingServer => refusal_in(network::parse_signaling_server(key, raw)),
        Setting::FirstDigitTimeout => refusal_in(setting::parse_number(key, raw, raw, 1, 86400, "first-digit timeout 1..86400 seconds")),
        Setting::InterdigitTimeoutMs => refusal_in(setting::parse_number(key, raw, raw, 250, 86_400_000, "subsequent-digit timeout 250..86400000 milliseconds")),
        Setting::DigitTimeout => refusal_in(setting::parse_number(key, raw, raw, 1, 86400, "subsequent-digit timeout 1..86400 seconds")),
        Setting::DigitTimeoutChar => refusal_in(setting::parse_dial_terminator(key, raw)),
        Setting::RecordDigitTimeoutChar | Setting::SimulateEnbloc | Setting::SpeedDialAwaitFurtherDigits | Setting::AllowOverlap | Setting::TransferOnHangup | Setting::ConferenceEnabled | Setting::HotlineEnabled | Setting::DirectMedia | Setting::EchoCancel | Setting::SilenceSuppression | Setting::JbEnable | Setting::JbForce | Setting::JbLog | Setting::DirectedPickup | Setting::PickupModeAnswer | Setting::ForwardAllEnabled | Setting::ForwardBusyEnabled | Setting::ForwardNoAnswerEnabled | Setting::DndFeature | Setting::PrivacyFeature | Setting::Privacy | Setting::Park | Setting::ConferenceAllow | Setting::ConferencePlayGeneralAnnounce | Setting::ConferencePlayParticipantAnnounce | Setting::ConferenceMuteOnEntry | Setting::ConferenceShowList | Setting::ConferenceDialingEnabled | Setting::UseRedialMenu | Setting::AllowRinginNotification | Setting::MwiOnCall => refusal_in(setting::parse_bool(key, raw)),
        Setting::CallAnswerOrder => refusal_in(setting::parse_call_answer_order(key, raw)),
        Setting::RingType => refusal_in(setting::parse_ringer_mode(key, raw)),
        Setting::CallWaitingTone | Setting::RemoteHangupTone => refusal_in(tone::parse_optional_tone(key, raw, with)),
        Setting::CallWaitingInterval => refusal_in(setting::parse_number(key, text::trim(raw).as_str(), raw, 0, 86400, "call-waiting interval 0..86400 seconds")),
        Setting::Fallback => refusal_in(setting::parse_fallback_decision(key, raw)),
        Setting::BackoffTime => refusal_in(setting::parse_number(key, raw, raw, 30, 0xffff_ffff, "registration-token backoff of at least 30 seconds")),
        Setting::ServerPriority => refusal_in(setting::parse_number(key, raw, raw, 1, 255, "positive fallback-server priority")),
        Setting::ConferenceOptions => refusal_in(setting::parse_application_options(key, raw)),
        Setting::AutoanswerTone | Setting::InitialDialtoneTone | Setting::SecondaryDialtoneTone => refusal_in(tone::parse_tone(key, raw, with)),
        Setting::HotlineExtension | Setting::AdhocNumber => refusal_in(setting::parse_optional_hotline_destination(key, raw, with.limits.hotline_bytes)),
        Setting::HotlineContext | Setting::HotlineLabel => refusal_in(setting::parse_bounded_setting_allow_empty(key, raw, with.limits.hotline_bytes)),
        Setting::EarlyMedia => refusal_in(setting::parse_early_media(key, raw)),
        Setting::AudioEncryption => refusal_in(codec::parse_media_encryption_policy(key, raw)),
        Setting::JbMaxSize | Setting::JbResyncThreshold => refusal_in(setting::parse_positive_jitter_millis(key, raw)),
        Setting::JbImplementation => refusal_in(setting::parse_jitter_buffer_implementation(key, raw)),
        Setting::RegistrationContext => refusal_in(registration::parse_registration_contexts(key, raw)),
        Setting::DeviceTable | Setting::LineTable => refusal_in(setting::parse_realtime_family(key, raw)),
        Setting::IncomingLimit => refusal_in(setting::parse_number(key, text::trim(raw).as_str(), raw, 0, 255, "incoming call limit 0..255")),
        Setting::Mailbox => refusal_in(setting::parse_mailbox(key, raw)),
        Setting::VoicemailNumber | Setting::VoicemailTransfer => refusal_in(setting::parse_optional_voicemail_destination(key, raw, with.limits.destination_bytes)),
        Setting::CallGroup | Setting::PickupGroup => refusal_in(group::parse_numeric_groups(key, raw)),
        Setting::NamedCallGroup | Setting::NamedPickupGroup => refusal_in(group::parse_named_groups(key, raw)),
        Setting::DirectedPickupContext => refusal_in(setting::parse_optional_setting(key, raw)),
        Setting::ParkingLot | Setting::ConferenceNumber | Setting::ConferenceMusicOnHoldClass => refusal_in(setting::parse_empty_optional_setting(key, raw)),
        Setting::SecondaryDialtoneDigits => refusal_in(setting::parse_secondary_dialtone_digits(key, raw)),
        Setting::Pin => refusal_in(setting::parse_mobility_pin(key, raw)),
        Setting::RegistrationExtension => refusal_in(registration::parse_registration_extensions(key, raw)),
        Setting::VideoMode => refusal_in(setting::parse_video_mode(key, raw)),
        Setting::ForwardNoAnswerTimeout => refusal_in(parse_answer_timeout(key, raw)),
        Setting::ForwardAll | Setting::ForwardBusy | Setting::ForwardNoAnswer => refusal_in(setting::parse_optional_forwarding_destination(key, raw, with.limits.destination_bytes)),
        Setting::Dnd => refusal_in(setting::parse_dnd_mode(key, raw)),
        Setting::FeatureDefault => refusal_in(group::parse_feature_default(key, raw)),
        Setting::MwiLamp => refusal_in(setting::parse_lamp_mode(key, raw)),
        Setting::PhoneCodePage => refusal_in(setting::parse_code_page(key, raw)),
        Setting::ForceDtmfMode => refusal_in(setting::parse_dtmf_mode(key, raw)),
        Setting::Transport => refusal_in(setting::parse_transport_requirement(key, raw)),
        Setting::ObsoleteDtmfMode => Some(error::invalid_option(key, raw, "remove obsolete dtmfmode and use force_dtmfmode", false)),
    }
}

// ---------------------------------------------------------------------------
// Options that exclude each other

/// The option whose place in a section this one takes.
pub open spec fn slot(s: Setting) -> Setting {
    match s {
        Setting::DigitTimeout => Setting::InterdigitTimeoutMs,
        Setting::SignalingTos => Setting::SignalingDscp,
        Setting::AudioTos => Setting::AudioDscp,
        Setting::VideoTos => Setting::VideoDscp,
        other => other,
    }
}

/// Whether an option may occur any number of times.
pub open spec fn repeats(s: Setting) -> bool {
    match s {
        Setting::SignalingServer | Setting::Deny | Setting::Permit | Setting::LocalNetwork | Setting::PermitHost | Setting::Allow | Setting::Disallow | Setting::SetVariable | Setting::FeatureDefault | Setting::Line | Setting::Button | Setting::TrustPhoneIp | Setting::ObsoleteDtmfMode => true,
        _ => false,
    }
}

/// Whether an option is refused beside another before its value is read.
pub open spec fn is_claimed(s: Setting) -> bool {
    match s {
        Setting::SignalingTos | Setting::SignalingDscp | Setting::SignalingCos | Setting::AudioTos | Setting::AudioDscp | Setting::AudioCos | Setting::VideoTos | Setting::VideoDscp | Setting::VideoCos => true,
        Setting::AdvertisedAddress | Setting::AdvertisedIpv4 | Setting::AdvertisedIpv6 => true,
        Setting::SoftkeyProfile => true,
        _ => false,
    }
}

/// Whether the repeated value of an option is never shown.
pub open spec fn is_private(s: Setting) -> bool {
    match s {
        Setting::AccountCode | Setting::VoicemailNumber | Setting::VoicemailTransfer | Setting::AdhocNumber | Setting::Pin | Setting::HotlineExtension | Setting::TlsCombinedPem | Setting::TlsPrivateKey | Setting::TlsTrustStore | Setting::ForwardAll | Setting::ForwardBusy | Setting::ForwardNoAnswer | Setting::SetVariable => true,
        _ => false,
    }
}

/// Whether an option excludes one that stands before it.
pub open spec fn excludes(s: Setting, before: Setting) -> bool {
    ||| slot(s) == slot(before)
    ||| s == Setting::AdvertisedAddress && (before == Setting::AdvertisedIpv4 || before
        == Setting::AdvertisedIpv6)
    ||| (s == Setting::AdvertisedIpv4 || s == Setting::AdvertisedIpv6) && before
        == Setting::AdvertisedAddress
}

/// Whether a setting is excluded by one that stands before it.
pub open spec fn is_excluded(settings: Seq<Setting>, i: int) -> bool {
    exists|j: int| 0 <= j < i && excludes(settings[i], #[trigger] settings[j])
}

/// What is expected where a claimed option comes again.
pub open spec fn claim_text(s: Setting) -> text::Text {
    match s {
        Setting::AdvertisedAddress => "one advertised_address or explicit advertised_ipv4/advertised_ipv6 values"@,
        Setting::AdvertisedIpv4 => "one value for the advertised IPv4 address"@,
        Setting::AdvertisedIpv6 => "one value for the advertised IPv6 address"@,
        Setting::SoftkeyProfile => "one soft-key profile reference"@,
        _ => "one value (aliases may not be combined)"@,
    }
}

/// The refusal of a claimed option that comes again.
pub open spec fn claim_fault(s: Setting, v: section::RawValueView) -> error::ErrorView {
    error::invalid(section::place(v), v.value, claim_text(s), option::sensitive(v.key))
}

/// The refusal of an option that comes again.
pub open spec fn repeat_fault(o: option::OptionsView, i: int) -> error::ErrorView {
    let v = o.section.values[i];
    error::invalid(
        section::key_place(o.section, v.key),
        v.value,
        "one value (duplicates and aliases may not be combined)"@,
        is_private(o.settings[i]) || option::sensitive(v.key),
    )
}

/// Why one setting is refused, by its value and by what stands before it.
pub open spec fn entry_fault(o: option::OptionsView, i: int, w: rules::LayerRulesView) -> Option<
    error::ErrorView,
> {
    let s = o.settings[i];
    let v = o.section.values[i];
    let fault = value_fault(s, section::place(v), v.value, w);
    if is_claimed(s) {
        if is_excluded(o.settings, i) {
            Some(claim_fault(s, v))
        } else {
            fault
        }
    } else if fault is None && !repeats(s) && is_excluded(o.settings, i) {
        Some(repeat_fault(o, i))
    } else {
        fault
    }
}

/// The option whose place in a section this one takes.
fn slot_of(s: Setting) -> (r: Setting)
    ensures
        r == slot(s),
{
    match s {
        Setting::DigitTimeout => Setting::InterdigitTimeoutMs,
        Setting::SignalingTos => Setting::SignalingDscp,
        Setting::AudioTos => Setting::AudioDscp,
        Setting::VideoTos => Setting::VideoDscp,
        other => other,
    }
}

/// Whether an option may occur any number of times.
fn may_repeat(s: Setting) -> (r: bool)
    ensures
        r == repeats(s),
{
    match s {
        Setting::SignalingServer | Setting::Deny | Setting::Permit | Setting::LocalNetwork | Setting::PermitHost | Setting::Allow | Setting::Disallow | Setting::SetVariable | Setting::FeatureDefault | Setting::Line | Setting::Button | Setting::TrustPhoneIp | Setting::ObsoleteDtmfMode => true,
        _ => false,
    }
}

/// Whether an option is refused beside another before its value is read.
fn claims(s: Setting) -> (r: bool)
    ensures
        r == is_claimed(s),
{
    match s {
        Setting::SignalingTos | Setting::SignalingDscp | Setting::SignalingCos | Setting::AudioTos | Setting::AudioDscp | Setting::AudioCos | Setting::VideoTos | Setting::VideoDscp | Setting::VideoCos => true,
        Setting::AdvertisedAddress | Setting::AdvertisedIpv4 | Setting::AdvertisedIpv6 => true,
        Setting::SoftkeyProfile => true,
        _ => false,
    }
}

/// Whether the repeated value of an option is never shown.
fn keeps_private(s: Setting) -> (r: bool)
    ensures
        r == is_private(s),
{
    match s {
        Setting::AccountCode | Setting::VoicemailNumber | Setting::VoicemailTransfer | Setting::AdhocNumber | Setting::Pin | Setting::HotlineExtension | Setting::TlsCombinedPem | Setting::TlsPrivateKey | Setting::TlsTrustStore | Setting::ForwardAll | Setting::ForwardBusy | Setting::ForwardNoAnswer | Setting::SetVariable => true,
        _ => false,
    }
}

/// Whether an option excludes one that stands before it.
fn shuts_out(s: Setting, before: Setting) -> (r: bool)
    ensures
        r == excludes(s, before),
{
    slot_of(s) == slot_of(before) || (s == Setting::AdvertisedAddress && (before
        == Setting::AdvertisedIpv4 || before == Setting::AdvertisedIpv6)) || ((s
        == Setting::AdvertisedIpv4 || s == Setting::AdvertisedIpv6) && before
        == Setting::AdvertisedAddress)
}

/// Whether a setting is excluded by one that stands before it.
fn find_excluding(settings: &Vec<Setting>, i: usize) -> (r: bool)
    requires
        i < settings@.len(),
    ensures
        r == is_excluded(settings@, i as int),
{
    let mut j: usize = 0;
    while j < i
        invariant
            j <= i < settings@.len(),
            forall|k: int| 0 <= k < j ==> !excludes(settings@[i as int], #[trigger] settings@[k]),
        decreases i - j,
    {
        if shuts_out(settings[i], settings[j]) {
            assert(excludes(settings@[i as int], settings@[j as int]));
            return true;
        }
        j += 1;
    }
    false
}

/// What is expected where a claimed option comes again.
fn claim_words(s: Setting) -> (r: &'static str)
    ensures
        r@ == claim_text(s),
{
    match s {
        Setting::AdvertisedAddress => "one advertised_address or explicit advertised_ipv4/advertised_ipv6 values",
        Setting::AdvertisedIpv4 => "one value for the advertised IPv4 address",
        Setting::AdvertisedIpv6 => "one value for the advertised IPv6 address",
        Setting::SoftkeyProfile => "one soft-key profile reference",
        _ => "one value (aliases may not be combined)",
    }
}

/// Refuses a claimed option that comes again.
pub fn claim_alias(s: Setting, v: &RawValue) -> (r: ConfigError)
    ensures
        r@ == claim_fault(s, v.deep_view()),
{
    error::invalid_option(
        v.diagnostic_key().as_str(),
        v.value.as_str(),
        claim_words(s),
        option::sensitive_option_name(v.key.as_str()),
    )
}

/// Judges one setting.
pub fn check_entry(o: &Options, i: usize, with: &LayerRules) -> (r: Option<ConfigError>)
    requires
        o.deep_view().matched(),
        i < o.settings@.len(),
    ensures
        error::refusal(r) == entry_fault(o.deep_view(), i as int, with.deep_view()),
{
    let s = o.settings[i];
    let v = &o.section.values[i];
    assert(o.deep_view().section.values[i as int] == v.deep_view());
    if claims(s) {
        if find_excluding(&o.settings, i) {
            return Some(claim_alias(s, v));
        }
        return check_value(s, v.diagnostic_key().as_str(), v.value.as_str(), with);
    }
    match check_value(s, v.diagnostic_key().as_str(), v.value.as_str(), with) {
        Some(e) => Some(e),
        None => if !may_repeat(s) && find_excluding(&o.settings, i) {
            let hide = keeps_private(s) || option::sensitive_option_name(v.key.as_str());
            Some(
                error::invalid_option(
                    o.section.diagnostic_key(v.key.as_str()).as_str(),
                    v.value.as_str(),
                    "one value (duplicates and aliases may not be combined)",
                    hide,
                ),
            )
        } else {
            None
        },
    }
}

/// The first refusal from one setting on.
pub open spec fn first_fault(o: option::OptionsView, i: int, w: rules::LayerRulesView) -> Option<
    error::ErrorView,
>
    decreases o.settings.len() - i,
{
    if i >= o.settings.len() {
        None
    } else {
        match entry_fault(o, i, w) {
            Some(e) => Some(e),
            None => first_fault(o, i + 1, w),
        }
    }
}

/// Judges every setting of a section, in order.
pub fn check_entries(o: &Options, with: &LayerRules) -> (r: Option<ConfigError>)
    requires
        o.deep_view().matched(),
    ensures
        error::refusal(r) == first_fault(o.deep_view(), 0, with.deep_view()),
{
    let mut i: usize = 0;
    while i < o.settings.len()
        invariant
            o.deep_view().matched(),
            i <= o.settings@.len(),
            first_fault(o.deep_view(), 0, with.deep_view()) == first_fault(
                o.deep_view(),
                i as int,
                with.deep_view(),
            ),
        decreases o.settings.len() - i,
    {
        match check_entry(o, i, with) {
            Some(e) => return Some(e),
            None => {},
        }
        i += 1;
    }
    None
}

// ---------------------------------------------------------------------------
// Finding a value

/// The first setting of an option, from one on.
pub open spec fn found_from(o: option::OptionsView, s: Setting, i: int) -> Option<
    section::RawValueView,
>
    decreases o.settings.len() - i,
{
    if i >= o.settings.len() {
        None
    } else if o.settings[i] == s {
        Some(o.section.values[i])
    } else {
        found_from(o, s, i + 1)
    }
}

/// The setting of an option.
pub open spec fn found(o: option::OptionsView, s: Setting) -> Option<section::RawValueView> {
    found_from(o, s, 0)
}

/// Finds the setting of an option.
pub fn find(o: &Options, s: Setting) -> (r: Option<usize>)
    requires
        o.deep_view().matched(),
    ensures
        match r {
            Some(i) => i < o.section.values@.len() && found(o.deep_view(), s) == Some(
                o.section.values@[i as int].deep_view(),
            ),
            None => found(o.deep_view(), s) is None,
        },
{
    let mut i: usize = 0;
    while i < o.settings.len()
        invariant
            o.deep_view().matched(),
            i <= o.settings@.len(),
            found(o.deep_view(), s) == found_from(o.deep_view(), s, i as int),
        decreases o.settings.len() - i,
    {
        assert(o.deep_view().section.values[i as int] == o.section.values@[i as int].deep_view());
        if o.settings[i] == s {
            return Some(i);
        }
        i += 1;
    }
    None
}

// ---------------------------------------------------------------------------
// Values by option

/// What an option says, read as `flag`.
pub open spec fn flag_at(o: option::OptionsView, s: Setting) -> Option<bool> {
    match found(o, s) {
        Some(v) => value_in(setting::bool_setting(section::place(v), v.value)),
        None => None,
    }
}

/// Finds what an option says, read as `flag`.
pub fn get_flag(o: &Options, s: Setting) -> (r: Option<bool>)
    requires
        o.deep_view().matched(),
    ensures
        r == flag_at(o.deep_view(), s),
{
    match find(o, s) {
        Some(i) => {
            let at = o.section.values[i].diagnostic_key();
            let key = at.as_str();
            let raw = o.section.values[i].value.as_str();
            match setting::parse_bool(key, raw) {
                Ok(x) => Some(x),
                Err(_) => None,
            }
        },
        None => None,
    }
}

/// What an option says, read as `early`.
pub open spec fn early_at(o: option::OptionsView, s: Setting) -> Option<bool> {
    match found(o, s) {
        Some(v) => value_in(setting::early_media_setting(section::place(v), v.value)),
        None => None,
    }
}

/// Finds what an option says, read as `early`.
pub fn get_early(o: &Options, s: Setting) -> (r: Option<bool>)
    requires
        o.deep_view().matched(),
    ensures
        r == early_at(o.deep_view(), s),
{
    match find(o, s) {
        Some(i) => {
            let at = o.section.values[i].diagnostic_key();
            let key = at.as_str();
            let raw = o.section.values[i].value.as_str();
            match setting::parse_early_media(key, raw) {
                Ok(x) => Some(x),
                Err(_) => None,
            }
        },
        None => None,
    }
}

/// What an option says, read as `dtmf`.
pub open spec fn dtmf_at(o: option::OptionsView, s: Setting) -> Option<DtmfMode> {
    match found(o, s) {
        Some(v) => value_in(setting::dtmf_setting(section::place(v), v.value)),
        None => None,
    }
}

/// Finds what an option says, read as `dtmf`.
pub fn get_dtmf(o: &Options, s: Setting) -> (r: Option<DtmfMode>)
    requires
        o.deep_view().matched(),
    ensures
        r == dtmf_at(o.deep_view(), s),
{
    match find(o, s) {
        Some(i) => {
            let at = o.section.values[i].diagnostic_key();
            let key = at.as_str();
            let raw = o.section.values[i].value.as_str();
            match setting::parse_dtmf_mode(key, raw) {
                Ok(x) => Some(x),
                Err(_) => None,
            }
        },
        None => None,
    }
}

/// What an option says, read as `order`.
pub open spec fn order_at(o: option::OptionsView, s: Setting) -> Option<CallAnswerOrder> {
    match found(o, s) {
        Some(v) => value_in(setting::answer_order_setting(section::place(v), v.value)),
        None => None,
    }
}

/// Finds what an option says, read as `order`.
pub fn get_order(o: &Options, s: Setting) -> (r: Option<CallAnswerOrder>)
    requires
        o.deep_view().matched(),
    ensures
        r == order_at(o.deep_view(), s),
{
    match find(o, s) {
        Some(i) => {
            let at = o.section.values[i].diagnostic_key();
            let key = at.as_str();
            let raw = o.section.values[i].value.as_str();
            match setting::parse_call_answer_order(key, raw) {
                Ok(x) => Some(x),
                Err(_) => None,
            }
        },
        None => None,
    }
}

/// What an option says, read as `nat`.
pub open spec fn nat_at(o: option::OptionsView, s: Setting) -> Option<NatMode> {
    match found(o, s) {
        Some(v) => value_in(setting::nat_setting(section::place(v), v.value)),
        None => None,
    }
}

/// Finds what an option says, read as `nat`.
pub fn get_nat(o: &Options, s: Setting) -> (r: Option<NatMode>)
    requires
        o.deep_view().matched(),
    ensures
        r == nat_at(o.deep_view(), s),
{
    match find(o, s) {
        Some(i) => {
            let at = o.section.values[i].diagnostic_key();
            let key = at.as_str();
            let raw = o.section.values[i].value.as_str();
            match setting::parse_nat_mode(key, raw) {
                Ok(x) => Some(x),
                Err(_) => None,
            }
        },
        None => None,
    }
}

/// What an option says, read as `transport`.
pub open spec fn transport_at(o: option::OptionsView, s: Setting) -> Option<TransportRequirement> {
    match found(o, s) {
        Some(v) => value_in(setting::transport_setting(section::place(v), v.value)),
        None => None,
    }
}

/// Finds what an option says, read as `transport`.
pub fn get_transport(o: &Options, s: Setting) -> (r: Option<TransportRequirement>)
    requires
        o.deep_view().matched(),
    ensures
        r == transport_at(o.deep_view(), s),
{
    match find(o, s) {
        Some(i) => {
            let at = o.section.values[i].diagnostic_key();
            let key = at.as_str();
            let raw = o.section.values[i].value.as_str();
            match setting::parse_transport_requirement(key, raw) {
                Ok(x) => Some(x),
                Err(_) => None,
            }
        },
        None => None,
    }
}

/// What an option says, read as `dnd`.
pub open spec fn dnd_at(o: option::OptionsView, s: Setting) -> Option<DndMode> {
    match found(o, s) {
        Some(v) => value_in(setting::dnd_setting(section::place(v), v.value)),
        None => None,
    }
}

/// Finds what an option says, read as `dnd`.
pub fn get_dnd(o: &Options, s: Setting) -> (r: Option<DndMode>)
    requires
        o.deep_view().matched(),
    ensures
        r == dnd_at(o.deep_view(), s),
{
    match find(o, s) {
        Some(i) => {
            let at = o.section.values[i].diagnostic_key();
            let key = at.as_str();
            let raw = o.section.values[i].value.as_str();
            match setting::parse_dnd_mode(key, raw) {
                Ok(x) => Some(x),
                Err(_) => None,
            }
        },
        None => None,
    }
}

/// What an option says, read as `ringer`.
pub open spec fn ringer_at(o: option::OptionsView, s: Setting) -> Option<RingerMode> {
    match found(o, s) {
        Some(v) => value_in(setting::ringer_setting(section::place(v), v.value)),
        None => None,
    }
}

/// Finds what an option says, read as `ringer`.
pub fn get_ringer(o: &Options, s: Setting) -> (r: Option<RingerMode>)
    requires
        o.deep_view().matched(),
    ensures
        r == ringer_at(o.deep_view(), s),
{
    match find(o, s) {
        Some(i) => {
            let at = o.section.values[i].diagnostic_key();
            let key = at.as_str();
            let raw = o.section.values[i].value.as_str();
            match setting::parse_ringer_mode(key, raw) {
                Ok(x) => Some(x),
                Err(_) => None,
            }
        },
        None => None,
    }
}

/// What an option says, read as `lamp`.
pub open spec fn lamp_at(o: option::OptionsView, s: Setting) -> Option<LampMode> {
    match found(o, s) {
        Some(v) => value_in(setting::lamp_setting(section::place(v), v.value)),
        None => None,
    }
}

/// Finds what an option says, read as `lamp`.
pub fn get_lamp(o: &Options, s: Setting) -> (r: Option<LampMode>)
    requires
        o.deep_view().matched(),
    ensures
        r == lamp_at(o.deep_view(), s),
{
    match find(o, s) {
        Some(i) => {
            let at = o.section.values[i].diagnostic_key();
            let key = at.as_str();
            let raw = o.section.values[i].value.as_str();
            match setting::parse_lamp_mode(key, raw) {
                Ok(x) => Some(x),
                Err(_) => None,
            }
        },
        None => None,
    }
}

/// What an option says, read as `code_page`.
pub open spec fn code_page_at(o: option::OptionsView, s: Setting) -> Option<LegacyCodePage> {
    match found(o, s) {
        Some(v) => value_in(setting::code_page_setting(section::place(v), v.value)),
        None => None,
    }
}

/// Finds what an option says, read as `code_page`.
pub fn get_code_page(o: &Options, s: Setting) -> (r: Option<LegacyCodePage>)
    requires
        o.deep_view().matched(),
    ensures
        r == code_page_at(o.deep_view(), s),
{
    match find(o, s) {
        Some(i) => {
            let at = o.section.values[i].diagnostic_key();
            let key = at.as_str();
            let raw = o.section.values[i].value.as_str();
            match setting::parse_code_page(key, raw) {
                Ok(x) => Some(x),
                Err(_) => None,
            }
        },
        None => None,
    }
}

/// What an option says, read as `fallback`.
pub open spec fn fallback_at(o: option::OptionsView, s: Setting) -> Option<FallbackDecision> {
    match found(o, s) {
        Some(v) => value_in(setting::fallback_setting(section::place(v), v.value)),
        None => None,
    }
}

/// Finds what an option says, read as `fallback`.
pub fn get_fallback(o: &Options, s: Setting) -> (r: Option<FallbackDecision>)
    requires
        o.deep_view().matched(),
    ensures
        r == fallback_at(o.deep_view(), s),
{
    match find(o, s) {
        Some(i) => {
            let at = o.section.values[i].diagnostic_key();
            let key = at.as_str();
            let raw = o.section.values[i].value.as_str();
            match setting::parse_fallback_decision(key, raw) {
                Ok(x) => Some(x),
                Err(_) => None,
            }
        },
        None => None,
    }
}

/// What an option says, read as `tone`.
pub open spec fn tone_at(o: option::OptionsView, s: Setting, w: rules::LayerRulesView) -> Option<Tone> {
    match found(o, s) {
        Some(v) => value_in(tone::tone_setting(section::place(v), v.value, w)),
        None => None,
    }
}

/// Finds what an option says, read as `tone`.
pub fn get_tone(o: &Options, s: Setting, with: &LayerRules) -> (r: Option<Tone>)
    requires
        o.deep_view().matched(),
    ensures
        r == tone_at(o.deep_view(), s, with.deep_view()),
{
    match find(o, s) {
        Some(i) => {
            let at = o.section.values[i].diagnostic_key();
            let key = at.as_str();
            let raw = o.section.values[i].value.as_str();
            match tone::parse_tone(key, raw, with) {
                Ok(x) => Some(x),
                Err(_) => None,
            }
        },
        None => None,
    }
}

/// What an option says, read as `optional_tone`.
pub open spec fn optional_tone_at(o: option::OptionsView, s: Setting, w: rules::LayerRulesView) -> Option<Option<Tone>> {
    match found(o, s) {
        Some(v) => value_in(tone::optional_tone_setting(section::place(v), v.value, w)),
        None => None,
    }
}

/// Finds what an option says, read as `optional_tone`.
pub fn get_optional_tone(o: &Options, s: Setting, with: &LayerRules) -> (r: Option<Option<Tone>>)
    requires
        o.deep_view().matched(),
    ensures
        r == optional_tone_at(o.deep_view(), s, with.deep_view()),
{
    match find(o, s) {
        Some(i) => {
            let at = o.section.values[i].diagnostic_key();
            let key = at.as_str();
            let raw = o.section.values[i].value.as_str();
            match tone::parse_optional_tone(key, raw, with) {
                Ok(x) => Some(x),
                Err(_) => None,
            }
        },
        None => None,
    }
}

/// What an option says, read as `video_mode`.
pub open spec fn video_mode_at(o: option::OptionsView, s: Setting) -> Option<VideoMode> {
    match found(o, s) {
        Some(v) => value_in(setting::video_mode_setting(section::place(v), v.value)),
        None => None,
    }
}

/// Finds what an option says, read as `video_mode`.
pub fn get_video_mode(o: &Options, s: Setting) -> (r: Option<VideoMode>)
    requires
        o.deep_view().matched(),
    ensures
        r == video_mode_at(o.deep_view(), s),
{
    match find(o, s) {
        Some(i) => {
            let at = o.section.values[i].diagnostic_key();
            let key = at.as_str();
            let raw = o.section.values[i].value.as_str();
            match setting::parse_video_mode(key, raw) {
                Ok(x) => Some(x),
                Err(_) => None,
            }
        },
        None => None,
    }
}

/// What an option says, read as `jitter_kind`.
pub open spec fn jitter_kind_at(o: option::OptionsView, s: Setting) -> Option<JitterBufferImplementation> {
    match found(o, s) {
        Some(v) => value_in(setting::jitter_kind_setting(section::place(v), v.value)),
        None => None,
    }
}

/// Finds what an option says, read as `jitter_kind`.
pub fn get_jitter_kind(o: &Options, s: Setting) -> (r: Option<JitterBufferImplementation>)
    requires
        o.deep_view().matched(),
    ensures
        r == jitter_kind_at(o.deep_view(), s),
{
    match find(o, s) {
        Some(i) => {
            let at = o.section.values[i].diagnostic_key();
            let key = at.as_str();
            let raw = o.section.values[i].value.as_str();
            match setting::parse_jitter_buffer_implementation(key, raw) {
                Ok(x) => Some(x),
                Err(_) => None,
            }
        },
        None => None,
    }
}

/// What an option says, read as `jitter`.
pub open spec fn jitter_at(o: option::OptionsView, s: Setting) -> Option<u64> {
    match found(o, s) {
        Some(v) => value_in(setting::jitter_setting(section::place(v), v.value)),
        None => None,
    }
}

/// Finds what an option says, read as `jitter`.
pub fn get_jitter(o: &Options, s: Setting) -> (r: Option<u64>)
    requires
        o.deep_view().matched(),
    ensures
        r == jitter_at(o.deep_view(), s),
{
    match find(o, s) {
        Some(i) => {
            let at = o.section.values[i].diagnostic_key();
            let key = at.as_str();
            let raw = o.section.values[i].value.as_str();
            match setting::parse_positive_jitter_millis(key, raw) {
                Ok(x) => Some(x),
                Err(_) => None,
            }
        },
        None => None,
    }
}

/// What an option says, read as `timezone`.
pub open spec fn timezone_at(o: option::OptionsView, s: Setting) -> Option<i16> {
    match found(o, s) {
        Some(v) => value_in(setting::timezone_setting(section::place(v), v.value)),
        None => None,
    }
}

/// Finds what an option says, read as `timezone`.
pub fn get_timezone(o: &Options, s: Setting) -> (r: Option<i16>)
    requires
        o.deep_view().matched(),
    ensures
        r == timezone_at(o.deep_view(), s),
{
    match find(o, s) {
        Some(i) => {
            let at = o.section.values[i].diagnostic_key();
            let key = at.as_str();
            let raw = o.section.values[i].value.as_str();
            match setting::parse_timezone(key, raw) {
                Ok(x) => Some(x),
                Err(_) => None,
            }
        },
        None => None,
    }
}

/// What an option says, read as `clear_socket`.
pub open spec fn clear_socket_at(o: option::OptionsView, s: Setting) -> Option<SocketAddr> {
    match found(o, s) {
        Some(v) => value_in(network::socket_setting(section::place(v), v.value, "an IPv4/IPv6 socket address with port"@, "clear listener port 1..65535"@)),
        None => None,
    }
}

/// Finds what an option says, read as `clear_socket`.
pub fn get_clear_socket(o: &Options, s: Setting) -> (r: Option<SocketAddr>)
    requires
        o.deep_view().matched(),
    ensures
        r == clear_socket_at(o.deep_view(), s),
{
    match find(o, s) {
        Some(i) => {
            let at = o.section.values[i].diagnostic_key();
            let key = at.as_str();
            let raw = o.section.values[i].value.as_str();
            match network::parse_socket(key, raw, "an IPv4/IPv6 socket address with port", "clear listener port 1..65535") {
                Ok(x) => Some(x),
                Err(_) => None,
            }
        },
        None => None,
    }
}

/// What an option says, read as `tls_socket`.
pub open spec fn tls_socket_at(o: option::OptionsView, s: Setting) -> Option<SocketAddr> {
    match found(o, s) {
        Some(v) => value_in(network::socket_setting(section::place(v), v.value, "an IPv4/IPv6 TLS socket address with port"@, "TLS listener port 1..65535"@)),
        None => None,
    }
}

/// Finds what an option says, read as `tls_socket`.
pub fn get_tls_socket(o: &Options, s: Setting) -> (r: Option<SocketAddr>)
    requires
        o.deep_view().matched(),
    ensures
        r == tls_socket_at(o.deep_view(), s),
{
    match find(o, s) {
        Some(i) => {
            let at = o.section.values[i].diagnostic_key();
            let key = at.as_str();
            let raw = o.section.values[i].value.as_str();
            match network::parse_socket(key, raw, "an IPv4/IPv6 TLS socket address with port", "TLS listener port 1..65535") {
                Ok(x) => Some(x),
                Err(_) => None,
            }
        },
        None => None,
    }
}

/// What an option says, read as `clear_ip`.
pub open spec fn clear_ip_at(o: option::OptionsView, s: Setting) -> Option<IpAddr> {
    match found(o, s) {
        Some(v) => value_in(network::ip_setting(section::place(v), v.value, v.value, "an IPv4 or IPv6 address"@)),
        None => None,
    }
}

/// Finds what an option says, read as `clear_ip`.
pub fn get_clear_ip(o: &Options, s: Setting) -> (r: Option<IpAddr>)
    requires
        o.deep_view().matched(),
    ensures
        r == clear_ip_at(o.deep_view(), s),
{
    match find(o, s) {
        Some(i) => {
            let at = o.section.values[i].diagnostic_key();
            let key = at.as_str();
            let raw = o.section.values[i].value.as_str();
            match network::parse_ip(key, raw, raw, "an IPv4 or IPv6 address") {
                Ok(x) => Some(x),
                Err(_) => None,
            }
        },
        None => None,
    }
}

/// What an option says, read as `tls_ip`.
pub open spec fn tls_ip_at(o: option::OptionsView, s: Setting) -> Option<IpAddr> {
    match found(o, s) {
        Some(v) => value_in(network::ip_setting(section::place(v), v.value, v.value, "an IPv4 or IPv6 TLS bind address"@)),
        None => None,
    }
}

/// Finds what an option says, read as `tls_ip`.
pub fn get_tls_ip(o: &Options, s: Setting) -> (r: Option<IpAddr>)
    requires
        o.deep_view().matched(),
    ensures
        r == tls_ip_at(o.deep_view(), s),
{
    match find(o, s) {
        Some(i) => {
            let at = o.section.values[i].diagnostic_key();
            let key = at.as_str();
            let raw = o.section.values[i].value.as_str();
            match network::parse_ip(key, raw, raw, "an IPv4 or IPv6 TLS bind address") {
                Ok(x) => Some(x),
                Err(_) => None,
            }
        },
        None => None,
    }
}

/// What an option says, read as `clear_port`.
pub open spec fn clear_port_at(o: option::OptionsView, s: Setting) -> Option<u64> {
    match found(o, s) {
        Some(v) => value_in(setting::number_setting(section::place(v), v.value, v.value, 1, 65535, "TCP port 1..65535"@)),
        None => None,
    }
}

/// Finds what an option says, read as `clear_port`.
pub fn get_clear_port(o: &Options, s: Setting) -> (r: Option<u64>)
    requires
        o.deep_view().matched(),
    ensures
        r == clear_port_at(o.deep_view(), s),
{
    match find(o, s) {
        Some(i) => {
            let at = o.section.values[i].diagnostic_key();
            let key = at.as_str();
            let raw = o.section.values[i].value.as_str();
            match setting::parse_number(key, raw, raw, 1, 65535, "TCP port 1..65535") {
                Ok(x) => Some(x),
                Err(_) => None,
            }
        },
        None => None,
    }
}

/// What an option says, read as `tls_port`.
pub open spec fn tls_port_at(o: option::OptionsView, s: Setting) -> Option<u64> {
    match found(o, s) {
        Some(v) => value_in(setting::number_setting(section::place(v), v.value, v.value, 1, 65535, "TLS port 1..65535"@)),
        None => None,
    }
}

/// Finds what an option says, read as `tls_port`.
pub fn get_tls_port(o: &Options, s: Setting) -> (r: Option<u64>)
    requires
        o.deep_view().matched(),
    ensures
        r == tls_port_at(o.deep_view(), s),
{
    match find(o, s) {
        Some(i) => {
            let at = o.section.values[i].diagnostic_key();
            let key = at.as_str();
            let raw = o.section.values[i].value.as_str();
            match setting::parse_number(key, raw, raw, 1, 65535, "TLS port 1..65535") {
                Ok(x) => Some(x),
                Err(_) => None,
            }
        },
        None => None,
    }
}

/// What an option says, read as `advertised`.
pub open spec fn advertised_at(o: option::OptionsView, s: Setting) -> Option<IpAddr> {
    match found(o, s) {
        Some(v) => value_in(advertised_setting(section::place(v), v.value)),
        None => None,
    }
}

/// Finds what an option says, read as `advertised`.
pub fn get_advertised(o: &Options, s: Setting) -> (r: Option<IpAddr>)
    requires
        o.deep_view().matched(),
    ensures
        r == advertised_at(o.deep_view(), s),
{
    match find(o, s) {
        Some(i) => {
            let at = o.section.values[i].diagnostic_key();
            let key = at.as_str();
            let raw = o.section.values[i].value.as_str();
            match parse_advertised(key, raw) {
                Ok(x) => Some(x),
                Err(_) => None,
            }
        },
        None => None,
    }
}

/// What an option says, read as `advertised4`.
pub open spec fn advertised4_at(o: option::OptionsView, s: Setting) -> Option<Option<Ipv4Addr>> {
    match found(o, s) {
        Some(v) => value_in(advertised4_setting(section::place(v), v.value)),
        None => None,
    }
}

/// Finds what an option says, read as `advertised4`.
pub fn get_advertised4(o: &Options, s: Setting) -> (r: Option<Option<Ipv4Addr>>)
    requires
        o.deep_view().matched(),
    ensures
        r == advertised4_at(o.deep_view(), s),
{
    match find(o, s) {
        Some(i) => {
            let at = o.section.values[i].diagnostic_key();
            let key = at.as_str();
            let raw = o.section.values[i].value.as_str();
            match parse_advertised4(key, raw) {
                Ok(x) => Some(x),
                Err(_) => None,
            }
        },
        None => None,
    }
}

/// What an option says, read as `advertised6`.
pub open spec fn advertised6_at(o: option::OptionsView, s: Setting) -> Option<Option<Ipv6Addr>> {
    match found(o, s) {
        Some(v) => value_in(advertised6_setting(section::place(v), v.value)),
        None => None,
    }
}

/// Finds what an option says, read as `advertised6`.
pub fn get_advertised6(o: &Options, s: Setting) -> (r: Option<Option<Ipv6Addr>>)
    requires
        o.deep_view().matched(),
    ensures
        r == advertised6_at(o.deep_view(), s),
{
    match find(o, s) {
        Some(i) => {
            let at = o.section.values[i].diagnostic_key();
            let key = at.as_str();
            let raw = o.section.values[i].value.as_str();
            match parse_advertised6(key, raw) {
                Ok(x) => Some(x),
                Err(_) => None,
            }
        },
        None => None,
    }
}

/// What an option says, read as `private_path`.
pub open spec fn private_path_at(o: option::OptionsView, s: Setting) -> Option<text::Text> {
    match found(o, s) {
        Some(v) => value_in(setting::path_setting(section::place(v), v.value, true)),
        None => None,
    }
}

/// Finds what an option says, read as `private_path`.
pub fn get_private_path(o: &Options, s: Setting) -> (r: Option<String>)
    requires
        o.deep_view().matched(),
    ensures
        r.deep_view() == private_path_at(o.deep_view(), s),
{
    match find(o, s) {
        Some(i) => {
            let at = o.section.values[i].diagnostic_key();
            let key = at.as_str();
            let raw = o.section.values[i].value.as_str();
            match setting::parse_path(key, raw, true) {
                Ok(x) => Some(x),
                Err(_) => None,
            }
        },
        None => None,
    }
}

/// What an option says, read as `public_path`.
pub open spec fn public_path_at(o: option::OptionsView, s: Setting) -> Option<text::Text> {
    match found(o, s) {
        Some(v) => value_in(setting::path_setting(section::place(v), v.value, false)),
        None => None,
    }
}

/// Finds what an option says, read as `public_path`.
pub fn get_public_path(o: &Options, s: Setting) -> (r: Option<String>)
    requires
        o.deep_view().matched(),
    ensures
        r.deep_view() == public_path_at(o.deep_view(), s),
{
    match find(o, s) {
        Some(i) => {
            let at = o.section.values[i].diagnostic_key();
            let key = at.as_str();
            let raw = o.section.values[i].value.as_str();
            match setting::parse_path(key, raw, false) {
                Ok(x) => Some(x),
                Err(_) => None,
            }
        },
        None => None,
    }
}

/// What an option says, read as `external_ip`.
pub open spec fn external_ip_at(o: option::OptionsView, s: Setting) -> Option<Option<IpAddr>> {
    match found(o, s) {
        Some(v) => value_in(external_ip_setting(section::place(v), v.value)),
        None => None,
    }
}

/// Finds what an option says, read as `external_ip`.
pub fn get_external_ip(o: &Options, s: Setting) -> (r: Option<Option<IpAddr>>)
    requires
        o.deep_view().matched(),
    ensures
        r == external_ip_at(o.deep_view(), s),
{
    match find(o, s) {
        Some(i) => {
            let at = o.section.values[i].diagnostic_key();
            let key = at.as_str();
            let raw = o.section.values[i].value.as_str();
            match parse_external_ip(key, raw) {
                Ok(x) => Some(x),
                Err(_) => None,
            }
        },
        None => None,
    }
}

/// What an option says, read as `external_host`.
pub open spec fn external_host_at(o: option::OptionsView, s: Setting) -> Option<Option<text::Text>> {
    match found(o, s) {
        Some(v) => value_in(external_host_setting(section::place(v), v.value)),
        None => None,
    }
}

/// Finds what an option says, read as `external_host`.
pub fn get_external_host(o: &Options, s: Setting) -> (r: Option<Option<String>>)
    requires
        o.deep_view().matched(),
    ensures
        r.deep_view() == external_host_at(o.deep_view(), s),
{
    match find(o, s) {
        Some(i) => {
            let at = o.section.values[i].diagnostic_key();
            let key = at.as_str();
            let raw = o.section.values[i].value.as_str();
            match parse_external_host(key, raw) {
                Ok(x) => Some(x),
                Err(_) => None,
            }
        },
        None => None,
    }
}

/// What an option says, read as `refresh`.
pub open spec fn refresh_at(o: option::OptionsView, s: Setting) -> Option<u64> {
    match found(o, s) {
        Some(v) => value_in(setting::number_setting(section::place(v), v.value, v.value, 1, 86400, "external DNS refresh interval 1..86400 seconds"@)),
        None => None,
    }
}

/// Finds what an option says, read as `refresh`.
pub fn get_refresh(o: &Options, s: Setting) -> (r: Option<u64>)
    requires
        o.deep_view().matched(),
    ensures
        r == refresh_at(o.deep_view(), s),
{
    match find(o, s) {
        Some(i) => {
            let at = o.section.values[i].diagnostic_key();
            let key = at.as_str();
            let raw = o.section.values[i].value.as_str();
            match setting::parse_number(key, raw, raw, 1, 86400, "external DNS refresh interval 1..86400 seconds") {
                Ok(x) => Some(x),
                Err(_) => None,
            }
        },
        None => None,
    }
}

/// What an option says, read as `tos`.
pub open spec fn tos_at(o: option::OptionsView, s: Setting) -> Option<Dscp> {
    match found(o, s) {
        Some(v) => value_in(network::tos_setting(section::place(v), v.value)),
        None => None,
    }
}

/// Finds what an option says, read as `tos`.
pub fn get_tos(o: &Options, s: Setting) -> (r: Option<Dscp>)
    requires
        o.deep_view().matched(),
    ensures
        r == tos_at(o.deep_view(), s),
{
    match find(o, s) {
        Some(i) => {
            let at = o.section.values[i].diagnostic_key();
            let key = at.as_str();
            let raw = o.section.values[i].value.as_str();
            match network::parse_tos_as_dscp(key, raw) {
                Ok(x) => Some(x),
                Err(_) => None,
            }
        },
        None => None,
    }
}

/// What an option says, read as `dscp`.
pub open spec fn dscp_at(o: option::OptionsView, s: Setting) -> Option<Dscp> {
    match found(o, s) {
        Some(v) => value_in(network::dscp_setting(section::place(v), v.value)),
        None => None,
    }
}

/// Finds what an option says, read as `dscp`.
pub fn get_dscp(o: &Options, s: Setting) -> (r: Option<Dscp>)
    requires
        o.deep_view().matched(),
    ensures
        r == dscp_at(o.deep_view(), s),
{
    match find(o, s) {
        Some(i) => {
            let at = o.section.values[i].diagnostic_key();
            let key = at.as_str();
            let raw = o.section.values[i].value.as_str();
            match network::parse_dscp(key, raw) {
                Ok(x) => Some(x),
                Err(_) => None,
            }
        },
        None => None,
    }
}

/// What an option says, read as `cos`.
pub open spec fn cos_at(o: option::OptionsView, s: Setting) -> Option<Cos> {
    match found(o, s) {
        Some(v) => value_in(network::cos_setting(section::place(v), v.value)),
        None => None,
    }
}

/// Finds what an option says, read as `cos`.
pub fn get_cos(o: &Options, s: Setting) -> (r: Option<Cos>)
    requires
        o.deep_view().matched(),
    ensures
        r == cos_at(o.deep_view(), s),
{
    match find(o, s) {
        Some(i) => {
            let at = o.section.values[i].diagnostic_key();
            let key = at.as_str();
            let raw = o.section.values[i].value.as_str();
            match network::parse_cos(key, raw) {
                Ok(x) => Some(x),
                Err(_) => None,
            }
        },
        None => None,
    }
}

/// What an option says, read as `language`.
pub open spec fn language_at(o: option::OptionsView, s: Setting, w: rules::LayerRulesView) -> Option<text::Text> {
    match found(o, s) {
        Some(v) => value_in(setting::metadata_setting(section::place(v), v.value, w.limits.language_bytes, false)),
        None => None,
    }
}

/// Finds what an option says, read as `language`.
pub fn get_language(o: &Options, s: Setting, with: &LayerRules) -> (r: Option<String>)
    requires
        o.deep_view().matched(),
    ensures
        r.deep_view() == language_at(o.deep_view(), s, with.deep_view()),
{
    match find(o, s) {
        Some(i) => {
            let at = o.section.values[i].diagnostic_key();
            let key = at.as_str();
            let raw = o.section.values[i].value.as_str();
            match setting::parse_metadata_required(key, raw, with.limits.language_bytes, false) {
                Ok(x) => Some(x),
                Err(_) => None,
            }
        },
        None => None,
    }
}

/// What an option says, read as `account`.
pub open spec fn account_at(o: option::OptionsView, s: Setting, w: rules::LayerRulesView) -> Option<Option<text::Text>> {
    match found(o, s) {
        Some(v) => value_in(setting::optional_metadata_setting(section::place(v), v.value, w.limits.account_code_bytes, true)),
        None => None,
    }
}

/// Finds what an option says, read as `account`.
pub fn get_account(o: &Options, s: Setting, with: &LayerRules) -> (r: Option<Option<String>>)
    requires
        o.deep_view().matched(),
    ensures
        r.deep_view() == account_at(o.deep_view(), s, with.deep_view()),
{
    match find(o, s) {
        Some(i) => {
            let at = o.section.values[i].diagnostic_key();
            let key = at.as_str();
            let raw = o.section.values[i].value.as_str();
            match setting::parse_metadata_optional(key, raw, with.limits.account_code_bytes, true) {
                Ok(x) => Some(x),
                Err(_) => None,
            }
        },
        None => None,
    }
}

/// What an option says, read as `whole`.
pub open spec fn whole_at(o: option::OptionsView, s: Setting) -> Option<u64> {
    match found(o, s) {
        Some(v) => value_in(setting::number_setting(section::place(v), v.value, v.value, 0, 0xffff_ffff, "u32"@)),
        None => None,
    }
}

/// Finds what an option says, read as `whole`.
pub fn get_whole(o: &Options, s: Setting) -> (r: Option<u64>)
    requires
        o.deep_view().matched(),
    ensures
        r == whole_at(o.deep_view(), s),
{
    match find(o, s) {
        Some(i) => {
            let at = o.section.values[i].diagnostic_key();
            let key = at.as_str();
            let raw = o.section.values[i].value.as_str();
            match setting::parse_number(key, raw, raw, 0, 0xffff_ffff, "u32") {
                Ok(x) => Some(x),
                Err(_) => None,
            }
        },
        None => None,
    }
}

/// What an option says, read as `first_digit`.
pub open spec fn first_digit_at(o: option::OptionsView, s: Setting) -> Option<u64> {
    match found(o, s) {
        Some(v) => value_in(setting::number_setting(section::place(v), v.value, v.value, 1, 86400, "first-digit timeout 1..86400 seconds"@)),
        None => None,
    }
}

/// Finds what an option says, read as `first_digit`.
pub fn get_first_digit(o: &Options, s: Setting) -> (r: Option<u64>)
    requires
        o.deep_view().matched(),
    ensures
        r == first_digit_at(o.deep_view(), s),
{
    match find(o, s) {
        Some(i) => {
            let at = o.section.values[i].diagnostic_key();
            let key = at.as_str();
            let raw = o.section.values[i].value.as_str();
            match setting::parse_number(key, raw, raw, 1, 86400, "first-digit timeout 1..86400 seconds") {
                Ok(x) => Some(x),
                Err(_) => None,
            }
        },
        None => None,
    }
}

/// What an option says, read as `digit_millis`.
pub open spec fn digit_millis_at(o: option::OptionsView, s: Setting) -> Option<u64> {
    match found(o, s) {
        Some(v) => value_in(setting::number_setting(section::place(v), v.value, v.value, 250, 86_400_000, "subsequent-digit timeout 250..86400000 milliseconds"@)),
        None => None,
    }
}

/// Finds what an option says, read as `digit_millis`.
pub fn get_digit_millis(o: &Options, s: Setting) -> (r: Option<u64>)
    requires
        o.deep_view().matched(),
    ensures
        r == digit_millis_at(o.deep_view(), s),
{
    match find(o, s) {
        Some(i) => {
            let at = o.section.values[i].diagnostic_key();
            let key = at.as_str();
            let raw = o.section.values[i].value.as_str();
            match setting::parse_number(key, raw, raw, 250, 86_400_000, "subsequent-digit timeout 250..86400000 milliseconds") {
                Ok(x) => Some(x),
                Err(_) => None,
            }
        },
        None => None,
    }
}

/// What an option says, read as `digit_seconds`.
pub open spec fn digit_seconds_at(o: option::OptionsView, s: Setting) -> Option<u64> {
    match found(o, s) {
        Some(v) => value_in(setting::number_setting(section::place(v), v.value, v.value, 1, 86400, "subsequent-digit timeout 1..86400 seconds"@)),
        None => None,
    }
}

/// Finds what an option says, read as `digit_seconds`.
pub fn get_digit_seconds(o: &Options, s: Setting) -> (r: Option<u64>)
    requires
        o.deep_view().matched(),
    ensures
        r == digit_seconds_at(o.deep_view(), s),
{
    match find(o, s) {
        Some(i) => {
            let at = o.section.values[i].diagnostic_key();
            let key = at.as_str();
            let raw = o.section.values[i].value.as_str();
            match setting::parse_number(key, raw, raw, 1, 86400, "subsequent-digit timeout 1..86400 seconds") {
                Ok(x) => Some(x),
                Err(_) => None,
            }
        },
        None => None,
    }
}

/// What an option says, read as `terminator`.
pub open spec fn terminator_at(o: option::OptionsView, s: Setting) -> Option<char> {
    match found(o, s) {
        Some(v) => value_in(setting::terminator_setting(section::place(v), v.value)),
        None => None,
    }
}

/// Finds what an option says, read as `terminator`.
pub fn get_terminator(o: &Options, s: Setting) -> (r: Option<char>)
    requires
        o.deep_view().matched(),
    ensures
        r == terminator_at(o.deep_view(), s),
{
    match find(o, s) {
        Some(i) => {
            let at = o.section.values[i].diagnostic_key();
            let key = at.as_str();
            let raw = o.section.values[i].value.as_str();
            match setting::parse_dial_terminator(key, raw) {
                Ok(x) => Some(x),
                Err(_) => None,
            }
        },
        None => None,
    }
}

/// What an option says, read as `waiting`.
pub open spec fn waiting_at(o: option::OptionsView, s: Setting) -> Option<u64> {
    match found(o, s) {
        Some(v) => value_in(setting::number_setting(section::place(v), text::trimmed(v.value), v.value, 0, 86400, "call-waiting interval 0..86400 seconds"@)),
        None => None,
    }
}

/// Finds what an option says, read as `waiting`.
pub fn get_waiting(o: &Options, s: Setting) -> (r: Option<u64>)
    requires
        o.deep_view().matched(),
    ensures
        r == waiting_at(o.deep_view(), s),
{
    match find(o, s) {
        Some(i) => {
            let at = o.section.values[i].diagnostic_key();
            let key = at.as_str();
            let raw = o.section.values[i].value.as_str();
            match setting::parse_number(key, text::trim(raw).as_str(), raw, 0, 86400, "call-waiting interval 0..86400 seconds") {
                Ok(x) => Some(x),
                Err(_) => None,
            }
        },
        None => None,
    }
}

/// What an option says, read as `backoff`.
pub open spec fn backoff_at(o: option::OptionsView, s: Setting) -> Option<u64> {
    match found(o, s) {
        Some(v) => value_in(setting::number_setting(section::place(v), v.value, v.value, 30, 0xffff_ffff, "registration-token backoff of at least 30 seconds"@)),
        None => None,
    }
}

/// Finds what an option says, read as `backoff`.
pub fn get_backoff(o: &Options, s: Setting) -> (r: Option<u64>)
    requires
        o.deep_view().matched(),
    ensures
        r == backoff_at(o.deep_view(), s),
{
    match find(o, s) {
        Some(i) => {
            let at = o.section.values[i].diagnostic_key();
            let key = at.as_str();
            let raw = o.section.values[i].value.as_str();
            match setting::parse_number(key, raw, raw, 30, 0xffff_ffff, "registration-token backoff of at least 30 seconds") {
                Ok(x) => Some(x),
                Err(_) => None,
            }
        },
        None => None,
    }
}

/// What an option says, read as `priority`.
pub open spec fn priority_at(o: option::OptionsView, s: Setting) -> Option<u64> {
    match found(o, s) {
        Some(v) => value_in(setting::number_setting(section::place(v), v.value, v.value, 1, 255, "positive fallback-server priority"@)),
        None => None,
    }
}

/// Finds what an option says, read as `priority`.
pub fn get_priority(o: &Options, s: Setting) -> (r: Option<u64>)
    requires
        o.deep_view().matched(),
    ensures
        r == priority_at(o.deep_view(), s),
{
    match find(o, s) {
        Some(i) => {
            let at = o.section.values[i].diagnostic_key();
            let key = at.as_str();
            let raw = o.section.values[i].value.as_str();
            match setting::parse_number(key, raw, raw, 1, 255, "positive fallback-server priority") {
                Ok(x) => Some(x),
                Err(_) => None,
            }
        },
        None => None,
    }
}

/// What an option says, read as `app_options`.
pub open spec fn app_options_at(o: option::OptionsView, s: Setting) -> Option<text::Text> {
    match found(o, s) {
        Some(v) => value_in(setting::options_setting(section::place(v), v.value)),
        None => None,
    }
}

/// Finds what an option says, read as `app_options`.
pub fn get_app_options(o: &Options, s: Setting) -> (r: Option<String>)
    requires
        o.deep_view().matched(),
    ensures
        r.deep_view() == app_options_at(o.deep_view(), s),
{
    match find(o, s) {
        Some(i) => {
            let at = o.section.values[i].diagnostic_key();
            let key = at.as_str();
            let raw = o.section.values[i].value.as_str();
            match setting::parse_application_options(key, raw) {
                Ok(x) => Some(x),
                Err(_) => None,
            }
        },
        None => None,
    }
}

/// What an option says, read as `hotline`.
pub open spec fn hotline_at(o: option::OptionsView, s: Setting, w: rules::LayerRulesView) -> Option<Option<policy::HotlineDestinationView>> {
    match found(o, s) {
        Some(v) => value_in(hotline_destination_setting(section::place(v), v.value, w)),
        None => None,
    }
}

/// Finds what an option says, read as `hotline`.
pub fn get_hotline(o: &Options, s: Setting, with: &LayerRules) -> (r: Option<Option<HotlineDestination>>)
    requires
        o.deep_view().matched(),
    ensures
        r.deep_view() == hotline_at(o.deep_view(), s, with.deep_view()),
{
    match find(o, s) {
        Some(i) => {
            let at = o.section.values[i].diagnostic_key();
            let key = at.as_str();
            let raw = o.section.values[i].value.as_str();
            match setting::parse_optional_hotline_destination(key, raw, with.limits.hotline_bytes) {
                Ok(x) => Some(x),
                Err(_) => None,
            }
        },
        None => None,
    }
}

/// What an option says, read as `hotline_text`.
pub open spec fn hotline_text_at(o: option::OptionsView, s: Setting, w: rules::LayerRulesView) -> Option<text::Text> {
    match found(o, s) {
        Some(v) => value_in(setting::bounded_setting(section::place(v), v.value, w.limits.hotline_bytes)),
        None => None,
    }
}

/// Finds what an option says, read as `hotline_text`.
pub fn get_hotline_text(o: &Options, s: Setting, with: &LayerRules) -> (r: Option<String>)
    requires
        o.deep_view().matched(),
    ensures
        r.deep_view() == hotline_text_at(o.deep_view(), s, with.deep_view()),
{
    match find(o, s) {
        Some(i) => {
            let at = o.section.values[i].diagnostic_key();
            let key = at.as_str();
            let raw = o.section.values[i].value.as_str();
            match setting::parse_bounded_setting_allow_empty(key, raw, with.limits.hotline_bytes) {
                Ok(x) => Some(x),
                Err(_) => None,
            }
        },
        None => None,
    }
}

/// What an option says, read as `encryption`.
pub open spec fn encryption_at(o: option::OptionsView, s: Setting) -> Option<policy::MediaEncryptionPolicyView> {
    match found(o, s) {
        Some(v) => value_in(codec::encryption_setting(section::place(v), v.value)),
        None => None,
    }
}

/// Finds what an option says, read as `encryption`.
pub fn get_encryption(o: &Options, s: Setting) -> (r: Option<MediaEncryptionPolicy>)
    requires
        o.deep_view().matched(),
    ensures
        r.deep_view() == encryption_at(o.deep_view(), s),
{
    match find(o, s) {
        Some(i) => {
            let at = o.section.values[i].diagnostic_key();
            let key = at.as_str();
            let raw = o.section.values[i].value.as_str();
            match codec::parse_media_encryption_policy(key, raw) {
                Ok(x) => Some(x),
                Err(_) => None,
            }
        },
        None => None,
    }
}

/// What an option says, read as `contexts`.
pub open spec fn contexts_at(o: option::OptionsView, s: Setting) -> Option<Seq<text::Text>> {
    match found(o, s) {
        Some(v) => value_in(registration::contexts_setting(section::place(v), v.value)),
        None => None,
    }
}

/// Finds what an option says, read as `contexts`.
pub fn get_contexts(o: &Options, s: Setting) -> (r: Option<Vec<String>>)
    requires
        o.deep_view().matched(),
    ensures
        r.deep_view() == contexts_at(o.deep_view(), s),
{
    match find(o, s) {
        Some(i) => {
            let at = o.section.values[i].diagnostic_key();
            let key = at.as_str();
            let raw = o.section.values[i].value.as_str();
            match registration::parse_registration_contexts(key, raw) {
                Ok(x) => Some(x),
                Err(_) => None,
            }
        },
        None => None,
    }
}

/// What an option says, read as `family`.
pub open spec fn family_at(o: option::OptionsView, s: Setting) -> Option<text::Text> {
    match found(o, s) {
        Some(v) => value_in(setting::family_setting(section::place(v), v.value)),
        None => None,
    }
}

/// Finds what an option says, read as `family`.
pub fn get_family(o: &Options, s: Setting) -> (r: Option<String>)
    requires
        o.deep_view().matched(),
    ensures
        r.deep_view() == family_at(o.deep_view(), s),
{
    match find(o, s) {
        Some(i) => {
            let at = o.section.values[i].diagnostic_key();
            let key = at.as_str();
            let raw = o.section.values[i].value.as_str();
            match setting::parse_realtime_family(key, raw) {
                Ok(x) => Some(x),
                Err(_) => None,
            }
        },
        None => None,
    }
}

/// What an option says, read as `incoming`.
pub open spec fn incoming_at(o: option::OptionsView, s: Setting) -> Option<u64> {
    match found(o, s) {
        Some(v) => value_in(setting::number_setting(section::place(v), text::trimmed(v.value), v.value, 0, 255, "incoming call limit 0..255"@)),
        None => None,
    }
}

/// Finds what an option says, read as `incoming`.
pub fn get_incoming(o: &Options, s: Setting) -> (r: Option<u64>)
    requires
        o.deep_view().matched(),
    ensures
        r == incoming_at(o.deep_view(), s),
{
    match find(o, s) {
        Some(i) => {
            let at = o.section.values[i].diagnostic_key();
            let key = at.as_str();
            let raw = o.section.values[i].value.as_str();
            match setting::parse_number(key, text::trim(raw).as_str(), raw, 0, 255, "incoming call limit 0..255") {
                Ok(x) => Some(x),
                Err(_) => None,
            }
        },
        None => None,
    }
}

/// What an option says, read as `mailbox`.
pub open spec fn mailbox_at(o: option::OptionsView, s: Setting) -> Option<Option<text::Text>> {
    match found(o, s) {
        Some(v) => value_in(setting::mailbox_setting(section::place(v), v.value)),
        None => None,
    }
}

/// Finds what an option says, read as `mailbox`.
pub fn get_mailbox(o: &Options, s: Setting) -> (r: Option<Option<String>>)
    requires
        o.deep_view().matched(),
    ensures
        r.deep_view() == mailbox_at(o.deep_view(), s),
{
    match find(o, s) {
        Some(i) => {
            let at = o.section.values[i].diagnostic_key();
            let key = at.as_str();
            let raw = o.section.values[i].value.as_str();
            match setting::parse_mailbox(key, raw) {
                Ok(x) => Some(x),
                Err(_) => None,
            }
        },
        None => None,
    }
}

/// What an option says, read as `voicemail`.
pub open spec fn voicemail_at(o: option::OptionsView, s: Setting, w: rules::LayerRulesView) -> Option<Option<policy::VoicemailDestinationView>> {
    match found(o, s) {
        Some(v) => value_in(voicemail_setting(section::place(v), v.value, w)),
        None => None,
    }
}

/// Finds what an option says, read as `voicemail`.
pub fn get_voicemail(o: &Options, s: Setting, with: &LayerRules) -> (r: Option<Option<VoicemailDestination>>)
    requires
        o.deep_view().matched(),
    ensures
        r.deep_view() == voicemail_at(o.deep_view(), s, with.deep_view()),
{
    match find(o, s) {
        Some(i) => {
            let at = o.section.values[i].diagnostic_key();
            let key = at.as_str();
            let raw = o.section.values[i].value.as_str();
            match setting::parse_optional_voicemail_destination(key, raw, with.limits.destination_bytes) {
                Ok(x) => Some(x),
                Err(_) => None,
            }
        },
        None => None,
    }
}

/// What an option says, read as `forwarding`.
pub open spec fn forwarding_at(o: option::OptionsView, s: Setting, w: rules::LayerRulesView) -> Option<Option<policy::ForwardingDestinationView>> {
    match found(o, s) {
        Some(v) => value_in(forwarding_setting(section::place(v), v.value, w)),
        None => None,
    }
}

/// Finds what an option says, read as `forwarding`.
pub fn get_forwarding(o: &Options, s: Setting, with: &LayerRules) -> (r: Option<Option<ForwardingDestination>>)
    requires
        o.deep_view().matched(),
    ensures
        r.deep_view() == forwarding_at(o.deep_view(), s, with.deep_view()),
{
    match find(o, s) {
        Some(i) => {
            let at = o.section.values[i].diagnostic_key();
            let key = at.as_str();
            let raw = o.section.values[i].value.as_str();
            match setting::parse_optional_forwarding_destination(key, raw, with.limits.destination_bytes) {
                Ok(x) => Some(x),
                Err(_) => None,
            }
        },
        None => None,
    }
}

/// What an option says, read as `groups`.
pub open spec fn groups_at(o: option::OptionsView, s: Setting) -> Option<Seq<u8>> {
    match found(o, s) {
        Some(v) => value_in(group::numeric_setting(section::place(v), v.value)),
        None => None,
    }
}

/// Finds what an option says, read as `groups`.
pub fn get_groups(o: &Options, s: Setting) -> (r: Option<Vec<u8>>)
    requires
        o.deep_view().matched(),
    ensures
        match groups_at(o.deep_view(), s) {
            Some(list) => r is Some && r->0@ == list,
            None => r is None,
        },
{
    match find(o, s) {
        Some(i) => {
            let at = o.section.values[i].diagnostic_key();
            let key = at.as_str();
            let raw = o.section.values[i].value.as_str();
            match group::parse_numeric_groups(key, raw) {
                Ok(x) => Some(x),
                Err(_) => None,
            }
        },
        None => None,
    }
}

/// What an option says, read as `names`.
pub open spec fn names_at(o: option::OptionsView, s: Setting) -> Option<Seq<text::Text>> {
    match found(o, s) {
        Some(v) => value_in(group::named_setting(section::place(v), v.value)),
        None => None,
    }
}

/// Finds what an option says, read as `names`.
pub fn get_names(o: &Options, s: Setting) -> (r: Option<Vec<String>>)
    requires
        o.deep_view().matched(),
    ensures
        r.deep_view() == names_at(o.deep_view(), s),
{
    match find(o, s) {
        Some(i) => {
            let at = o.section.values[i].diagnostic_key();
            let key = at.as_str();
            let raw = o.section.values[i].value.as_str();
            match group::parse_named_groups(key, raw) {
                Ok(x) => Some(x),
                Err(_) => None,
            }
        },
        None => None,
    }
}

/// What an option says, read as `optional`.
pub open spec fn optional_at(o: option::OptionsView, s: Setting) -> Option<Option<text::Text>> {
    match found(o, s) {
        Some(v) => value_in(setting::optional_setting(section::place(v), v.value)),
        None => None,
    }
}

/// Finds what an option says, read as `optional`.
pub fn get_optional(o: &Options, s: Setting) -> (r: Option<Option<String>>)
    requires
        o.deep_view().matched(),
    ensures
        r.deep_view() == optional_at(o.deep_view(), s),
{
    match find(o, s) {
        Some(i) => {
            let at = o.section.values[i].diagnostic_key();
            let key = at.as_str();
            let raw = o.section.values[i].value.as_str();
            match setting::parse_optional_setting(key, raw) {
                Ok(x) => Some(x),
                Err(_) => None,
            }
        },
        None => None,
    }
}

/// What an option says, read as `empty_optional`.
pub open spec fn empty_optional_at(o: option::OptionsView, s: Setting) -> Option<Option<text::Text>> {
    match found(o, s) {
        Some(v) => value_in(setting::empty_optional_setting(section::place(v), v.value)),
        None => None,
    }
}

/// Finds what an option says, read as `empty_optional`.
pub fn get_empty_optional(o: &Options, s: Setting) -> (r: Option<Option<String>>)
    requires
        o.deep_view().matched(),
    ensures
        r.deep_view() == empty_optional_at(o.deep_view(), s),
{
    match find(o, s) {
        Some(i) => {
            let at = o.section.values[i].diagnostic_key();
            let key = at.as_str();
            let raw = o.section.values[i].value.as_str();
            match setting::parse_empty_optional_setting(key, raw) {
                Ok(x) => Some(x),
                Err(_) => None,
            }
        },
        None => None,
    }
}

/// What an option says, read as `prefix`.
pub open spec fn prefix_at(o: option::OptionsView, s: Setting) -> Option<Option<text::Text>> {
    match found(o, s) {
        Some(v) => value_in(setting::prefix_setting(section::place(v), v.value)),
        None => None,
    }
}

/// Finds what an option says, read as `prefix`.
pub fn get_prefix(o: &Options, s: Setting) -> (r: Option<Option<String>>)
    requires
        o.deep_view().matched(),
    ensures
        r.deep_view() == prefix_at(o.deep_view(), s),
{
    match find(o, s) {
        Some(i) => {
            let at = o.section.values[i].diagnostic_key();
            let key = at.as_str();
            let raw = o.section.values[i].value.as_str();
            match setting::parse_secondary_dialtone_digits(key, raw) {
                Ok(x) => Some(x),
                Err(_) => None,
            }
        },
        None => None,
    }
}

/// What an option says, read as `pin`.
pub open spec fn pin_at(o: option::OptionsView, s: Setting) -> Option<Option<policy::MobilityPinView>> {
    match found(o, s) {
        Some(v) => value_in(setting::pin_setting(section::place(v), v.value)),
        None => None,
    }
}

/// Finds what an option says, read as `pin`.
pub fn get_pin(o: &Options, s: Setting) -> (r: Option<Option<MobilityPin>>)
    requires
        o.deep_view().matched(),
    ensures
        r.deep_view() == pin_at(o.deep_view(), s),
{
    match find(o, s) {
        Some(i) => {
            let at = o.section.values[i].diagnostic_key();
            let key = at.as_str();
            let raw = o.section.values[i].value.as_str();
            match setting::parse_mobility_pin(key, raw) {
                Ok(x) => Some(x),
                Err(_) => None,
            }
        },
        None => None,
    }
}

/// What an option says, read as `extensions`.
pub open spec fn extensions_at(o: option::OptionsView, s: Setting) -> Option<Option<Seq<policy::RegistrationExtensionView>>> {
    match found(o, s) {
        Some(v) => value_in(registration::extensions_setting(section::place(v), v.value)),
        None => None,
    }
}

/// Finds what an option says, read as `extensions`.
pub fn get_extensions(o: &Options, s: Setting) -> (r: Option<Option<Vec<RegistrationExtension>>>)
    requires
        o.deep_view().matched(),
    ensures
        r.deep_view() == extensions_at(o.deep_view(), s),
{
    match find(o, s) {
        Some(i) => {
            let at = o.section.values[i].diagnostic_key();
            let key = at.as_str();
            let raw = o.section.values[i].value.as_str();
            match registration::parse_registration_extensions(key, raw) {
                Ok(x) => Some(x),
                Err(_) => None,
            }
        },
        None => None,
    }
}

/// What an option says, read as `answer_timeout`.
pub open spec fn answer_timeout_at(o: option::OptionsView, s: Setting) -> Option<u64> {
    match found(o, s) {
        Some(v) => value_in(answer_timeout_setting(section::place(v), v.value)),
        None => None,
    }
}

/// Finds what an option says, read as `answer_timeout`.
pub fn get_answer_timeout(o: &Options, s: Setting) -> (r: Option<u64>)
    requires
        o.deep_view().matched(),
    ensures
        r == answer_timeout_at(o.deep_view(), s),
{
    match find(o, s) {
        Some(i) => {
            let at = o.section.values[i].diagnostic_key();
            let key = at.as_str();
            let raw = o.section.values[i].value.as_str();
            match parse_answer_timeout(key, raw) {
                Ok(x) => Some(x),
                Err(_) => None,
            }
        },
        None => None,
    }
}

/// What an option says, read as `date`.
pub open spec fn date_at(o: option::OptionsView, s: Setting, w: rules::LayerRulesView) -> Option<station::DateTemplateView> {
    match found(o, s) {
        Some(v) => value_in(date_setting(section::place(v), v.value, w)),
        None => None,
    }
}

/// Finds what an option says, read as `date`.
pub fn get_date(o: &Options, s: Setting, with: &LayerRules) -> (r: Option<DateTemplate>)
    requires
        o.deep_view().matched(),
    ensures
        r.deep_view() == date_at(o.deep_view(), s, with.deep_view()),
{
    match find(o, s) {
        Some(i) => {
            let at = o.section.values[i].diagnostic_key();
            let key = at.as_str();
            let raw = o.section.values[i].value.as_str();
            match parse_date(key, raw, with) {
                Ok(x) => Some(x),
                Err(_) => None,
            }
        },
        None => None,
    }
}

// ---------------------------------------------------------------------------
// Options that add up

/// The rules that the access settings among the first `n` give, if there is any.
pub open spec fn acl_upto(o: option::OptionsView, n: int) -> Option<Seq<AclRule>>
    decreases n,
{
    if n <= 0 {
        None
    } else {
        let before = acl_upto(o, n - 1);
        let s = o.settings[n - 1];
        let v = o.section.values[n - 1];
        if s == Setting::Permit || s == Setting::Deny {
            let action = if s == Setting::Permit {
                AclAction::Permit
            } else {
                AclAction::Deny
            };
            let base = network::over(before, Seq::empty());
            match network::acl_after(base, action, section::place(v), v.value) {
                Ok(next) => Some(next),
                Err(_) => Some(base),
            }
        } else {
            before
        }
    }
}

/// The networks that the local-network settings among the first `n` give.
pub open spec fn local_upto(o: option::OptionsView, n: int) -> Option<Seq<IpNetwork>>
    decreases n,
{
    if n <= 0 {
        None
    } else {
        let before = local_upto(o, n - 1);
        let v = o.section.values[n - 1];
        if o.settings[n - 1] == Setting::LocalNetwork {
            let base = network::over(before, Seq::empty());
            match network::local_after(base, section::place(v), v.value) {
                Ok(next) => Some(next),
                Err(_) => Some(base),
            }
        } else {
            before
        }
    }
}

/// The codec settings among the first `n`.
pub open spec fn codecs_upto(o: option::OptionsView, n: int) -> Seq<codec::CodecSettingView>
    decreases n,
{
    if n <= 0 {
        Seq::empty()
    } else {
        let before = codecs_upto(o, n - 1);
        let s = o.settings[n - 1];
        if s == Setting::Allow || s == Setting::Disallow {
            before.push(
                codec::CodecSettingView {
                    allow: s == Setting::Allow,
                    raw: o.section.values[n - 1].value,
                },
            )
        } else {
            before
        }
    }
}

/// The signaling servers among the first `n` settings.
pub open spec fn servers_upto(o: option::OptionsView, n: int) -> Seq<
    station::SignalingServerRouteView,
>
    decreases n,
{
    if n <= 0 {
        Seq::empty()
    } else {
        let before = servers_upto(o, n - 1);
        let v = o.section.values[n - 1];
        if o.settings[n - 1] == Setting::SignalingServer {
            match network::server_setting(section::place(v), v.value) {
                Ok(server) => before.push(server),
                Err(_) => before,
            }
        } else {
            before
        }
    }
}

/// The channel variables among the first `n` settings.
pub open spec fn variables_upto(o: option::OptionsView, n: int, w: rules::LayerRulesView) -> Seq<
    policy::ChannelVariableView,
>
    decreases n,
{
    if n <= 0 {
        Seq::empty()
    } else {
        let before = variables_upto(o, n - 1, w);
        let v = o.section.values[n - 1];
        if o.settings[n - 1] == Setting::SetVariable {
            match variable::variables_after(before, section::place(v), v.value, w) {
                Ok(next) => next,
                Err(_) => before,
            }
        } else {
            before
        }
    }
}

/// The access rules of a section.
pub fn get_acl(o: &Options) -> (r: Option<Vec<AclRule>>)
    requires
        o.deep_view().matched(),
    ensures
        match acl_upto(o.deep_view(), o.settings@.len() as int) {
            Some(list) => r is Some && r->0@ == list,
            None => r is None,
        },
{
    let mut rules: Vec<AclRule> = Vec::new();
    let mut any = false;
    let mut i: usize = 0;
    while i < o.settings.len()
        invariant
            o.deep_view().matched(),
            i <= o.settings@.len(),
            match acl_upto(o.deep_view(), i as int) {
                Some(list) => any && rules@ == list,
                None => !any && rules@ == Seq::<AclRule>::empty(),
            },
        decreases o.settings.len() - i,
    {
        let v = &o.section.values[i];
        assert(o.deep_view().section.values[i as int] == v.deep_view());
        if o.settings[i] == Setting::Permit || o.settings[i] == Setting::Deny {
            let action = if o.settings[i] == Setting::Permit {
                AclAction::Permit
            } else {
                AclAction::Deny
            };
            any = true;
            let _ = network::apply_acl_entry(
                &mut rules,
                action,
                v.diagnostic_key().as_str(),
                v.value.as_str(),
            );
        }
        i += 1;
    }
    if any {
        Some(rules)
    } else {
        None
    }
}

/// The local networks of a section.
pub fn get_local_networks(o: &Options) -> (r: Option<Vec<IpNetwork>>)
    requires
        o.deep_view().matched(),
    ensures
        match local_upto(o.deep_view(), o.settings@.len() as int) {
            Some(list) => r is Some && r->0@ == list,
            None => r is None,
        },
{
    let mut list: Vec<IpNetwork> = Vec::new();
    let mut any = false;
    let mut i: usize = 0;
    while i < o.settings.len()
        invariant
            o.deep_view().matched(),
            i <= o.settings@.len(),
            match local_upto(o.deep_view(), i as int) {
                Some(networks) => any && list@ == networks,
                None => !any && list@ == Seq::<IpNetwork>::empty(),
            },
        decreases o.settings.len() - i,
    {
        let v = &o.section.values[i];
        assert(o.deep_view().section.values[i as int] == v.deep_view());
        if o.settings[i] == Setting::LocalNetwork {
            any = true;
            let _ = network::apply_local_network(
                &mut list,
                v.diagnostic_key().as_str(),
                v.value.as_str(),
            );
        }
        i += 1;
    }
    if any {
        Some(list)
    } else {
        None
    }
}

/// The codec settings of a section.
pub fn get_codecs(o: &Options) -> (r: Vec<CodecSetting>)
    requires
        o.deep_view().matched(),
    ensures
        r.deep_view() == codecs_upto(o.deep_view(), o.settings@.len() as int),
{
    let mut list: Vec<CodecSetting> = Vec::new();
    let mut i: usize = 0;
    assert(list.deep_view() =~= Seq::empty());
    while i < o.settings.len()
        invariant
            o.deep_view().matched(),
            i <= o.settings@.len(),
            list.deep_view() == codecs_upto(o.deep_view(), i as int),
        decreases o.settings.len() - i,
    {
        let v = &o.section.values[i];
        assert(o.deep_view().section.values[i as int] == v.deep_view());
        if o.settings[i] == Setting::Allow || o.settings[i] == Setting::Disallow {
            let ghost before = list.deep_view();
            let x = CodecSetting {
                allow: o.settings[i] == Setting::Allow,
                raw: text::copy(v.value.as_str()),
            };
            list.push(x);
            assert(list.deep_view() =~= before.push(x.deep_view()));
        }
        i += 1;
    }
    list
}

/// The signaling servers of a section.
pub fn get_servers(o: &Options) -> (r: Vec<SignalingServerRoute>)
    requires
        o.deep_view().matched(),
    ensures
        r.deep_view() == servers_upto(o.deep_view(), o.settings@.len() as int),
{
    let mut list: Vec<SignalingServerRoute> = Vec::new();
    let mut i: usize = 0;
    assert(list.deep_view() =~= Seq::empty());
    while i < o.settings.len()
        invariant
            o.deep_view().matched(),
            i <= o.settings@.len(),
            list.deep_view() == servers_upto(o.deep_view(), i as int),
        decreases o.settings.len() - i,
    {
        let v = &o.section.values[i];
        assert(o.deep_view().section.values[i as int] == v.deep_view());
        if o.settings[i] == Setting::SignalingServer {
            match network::parse_signaling_server(v.diagnostic_key().as_str(), v.value.as_str()) {
                Ok(x) => {
                    let ghost before = list.deep_view();
                    list.push(x);
                    assert(list.deep_view() =~= before.push(x.deep_view()));
                },
                Err(_) => {},
            }
        }
        i += 1;
    }
    list
}

/// The channel variables of a section.
pub fn get_variables(o: &Options, with: &LayerRules) -> (r: Vec<ChannelVariable>)
    requires
        o.deep_view().matched(),
    ensures
        r.deep_view() == variables_upto(
            o.deep_view(),
            o.settings@.len() as int,
            with.deep_view(),
        ),
{
    let mut list: Vec<ChannelVariable> = Vec::new();
    let mut i: usize = 0;
    assert(list.deep_view() =~= Seq::empty());
    while i < o.settings.len()
        invariant
            o.deep_view().matched(),
            i <= o.settings@.len(),
            list.deep_view() == variables_upto(o.deep_view(), i as int, with.deep_view()),
        decreases o.settings.len() - i,
    {
        let v = &o.section.values[i];
        assert(o.deep_view().section.values[i as int] == v.deep_view());
        if o.settings[i] == Setting::SetVariable {
            let _ = variable::push_channel_variable(
                &mut list,
                v.diagnostic_key().as_str(),
                v.value.as_str(),
                with,
            );
        }
        i += 1;
    }
    list
}

} // verus!
