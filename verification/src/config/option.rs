//! The options that sections may hold, and their spellings.

use vstd::prelude::*;

use crate::config::error;
use crate::config::error::ConfigError;
use crate::config::section;
use crate::config::section::RawSection;
use crate::config::section::RawValue;
use crate::text;

verus! {

/// An option of a section.
#[derive(Clone, Copy, Debug, PartialEq, Eq, Structural)]
pub enum Setting {
    DateFormat,
    TimezoneOffset,
    Bind,
    BindAddress,
    Port,
    AdvertisedAddress,
    AdvertisedIpv4,
    AdvertisedIpv6,
    TlsBind,
    TlsBindAddress,
    TlsPort,
    TlsCombinedPem,
    TlsCertificate,
    TlsPrivateKey,
    TlsTrustStore,
    Deny,
    Permit,
    LocalNetwork,
    ExternalAddress,
    ExternalHost,
    ExternalRefresh,
    Nat,
    SignalingTos,
    SignalingDscp,
    SignalingCos,
    AudioTos,
    AudioDscp,
    AudioCos,
    VideoTos,
    VideoDscp,
    VideoCos,
    TrustPhoneIp,
    ServerName,
    Language,
    AccountCode,
    Keepalive,
    SecondaryKeepalive,
    SignalingServer,
    FirstDigitTimeout,
    InterdigitTimeoutMs,
    DigitTimeout,
    DigitTimeoutChar,
    RecordDigitTimeoutChar,
    SimulateEnbloc,
    SpeedDialAwaitFurtherDigits,
    AllowOverlap,
    TransferOnHangup,
    CallAnswerOrder,
    RingType,
    CallWaitingTone,
    CallWaitingInterval,
    Fallback,
    BackoffTime,
    ServerPriority,
    Allow,
    Disallow,
    ConferenceEnabled,
    ConferenceOptions,
    AutoanswerRingTime,
    AutoanswerTone,
    RemoteHangupTone,
    HotlineEnabled,
    HotlineExtension,
    HotlineContext,
    HotlineLabel,
    DirectMedia,
    EarlyMedia,
    AudioEncryption,
    EchoCancel,
    SilenceSuppression,
    JbEnable,
    JbForce,
    JbLog,
    JbMaxSize,
    JbResyncThreshold,
    JbImplementation,
    RegistrationContext,
    DeviceTable,
    LineTable,
    Type,
    Label,
    Context,
    CallerId,
    IncomingLimit,
    SetVariable,
    Mailbox,
    VoicemailNumber,
    VoicemailTransfer,
    CallGroup,
    PickupGroup,
    NamedCallGroup,
    NamedPickupGroup,
    DirectedPickup,
    DirectedPickupContext,
    PickupModeAnswer,
    ParkingLot,
    ConferenceNumber,
    AdhocNumber,
    InitialDialtoneTone,
    SecondaryDialtoneDigits,
    SecondaryDialtoneTone,
    Pin,
    RegistrationExtension,
    VideoMode,
    Description,
    SoftkeyProfile,
    ForwardAllEnabled,
    ForwardBusyEnabled,
    ForwardNoAnswerEnabled,
    ForwardNoAnswerTimeout,
    ForwardAll,
    ForwardBusy,
    ForwardNoAnswer,
    DndFeature,
    Dnd,
    PrivacyFeature,
    Privacy,
    FeatureDefault,
    Park,
    ConferenceAllow,
    ConferenceMusicOnHoldClass,
    ConferencePlayGeneralAnnounce,
    ConferencePlayParticipantAnnounce,
    ConferenceMuteOnEntry,
    ConferenceShowList,
    ConferenceDialingEnabled,
    UseRedialMenu,
    AllowRinginNotification,
    MwiLamp,
    MwiOnCall,
    PhoneCodePage,
    ForceDtmfMode,
    PermitHost,
    Transport,
    ObsoleteDtmfMode,
    Line,
    Button,
}

/// The sections that hold options.
#[derive(Clone, Copy, Debug, PartialEq, Eq, Structural)]
pub enum Scope {
    General,
    Line,
    Device,
}

// ---------------------------------------------------------------------------
// Spellings

/// The option that a lower-case name stands for in the general section.
pub open spec fn general_named(name: text::Text) -> Option<Setting> {
    if name == "dateformat"@ {
        Some(Setting::DateFormat)
    } else if name == "tzoffset"@ {
        Some(Setting::TimezoneOffset)
    } else if name == "bind"@ || name == "clearbind"@ {
        Some(Setting::Bind)
    } else if name == "bind_address"@ || name == "bindaddr"@ || name == "clearbindaddr"@ {
        Some(Setting::BindAddress)
    } else if name == "clearport"@ || name == "port"@ {
        Some(Setting::Port)
    } else if name == "advertised_address"@ {
        Some(Setting::AdvertisedAddress)
    } else if name == "advertised_ipv4"@ || name == "advertisedaddressipv4"@ {
        Some(Setting::AdvertisedIpv4)
    } else if name == "advertised_ipv6"@ || name == "advertisedaddressipv6"@ {
        Some(Setting::AdvertisedIpv6)
    } else if name == "securebind"@ || name == "tls_bind"@ {
        Some(Setting::TlsBind)
    } else if name == "secbindaddr"@ || name == "tls_bind_address"@ || name == "tlsbindaddr"@ {
        Some(Setting::TlsBindAddress)
    } else if name == "secport"@ || name == "tls_port"@ || name == "tlsport"@ {
        Some(Setting::TlsPort)
    } else if name == "certfile"@ || name == "tls_combined_pem"@ || name == "tlscombinedpem"@ {
        Some(Setting::TlsCombinedPem)
    } else if name == "tls_certificate"@ || name == "tlscertificatefile"@ {
        Some(Setting::TlsCertificate)
    } else if name == "tls_private_key"@ || name == "tlsprivatekeyfile"@ {
        Some(Setting::TlsPrivateKey)
    } else if name == "tls_trust_store"@ || name == "tlscafile"@ {
        Some(Setting::TlsTrustStore)
    } else if name == "deny"@ {
        Some(Setting::Deny)
    } else if name == "permit"@ {
        Some(Setting::Permit)
    } else if name == "localnet"@ {
        Some(Setting::LocalNetwork)
    } else if name == "externaladdress"@ || name == "externip"@ {
        Some(Setting::ExternalAddress)
    } else if name == "externalhost"@ || name == "externhost"@ {
        Some(Setting::ExternalHost)
    } else if name == "externalrefresh"@ || name == "externrefresh"@ {
        Some(Setting::ExternalRefresh)
    } else if name == "nat"@ {
        Some(Setting::Nat)
    } else if name == "sccp_tos"@ || name == "signalingtos"@ {
        Some(Setting::SignalingTos)
    } else if name == "sccp_dscp"@ || name == "sccpdscp"@ || name == "signaling_dscp"@ || name == "signalingdscp"@ {
        Some(Setting::SignalingDscp)
    } else if name == "sccp_cos"@ || name == "signaling_cos"@ || name == "signalingcos"@ {
        Some(Setting::SignalingCos)
    } else if name == "audio_tos"@ || name == "audiotos"@ {
        Some(Setting::AudioTos)
    } else if name == "audio_dscp"@ || name == "audiodscp"@ {
        Some(Setting::AudioDscp)
    } else if name == "audio_cos"@ || name == "audiocos"@ {
        Some(Setting::AudioCos)
    } else if name == "video_tos"@ || name == "videotos"@ {
        Some(Setting::VideoTos)
    } else if name == "video_dscp"@ || name == "videodscp"@ {
        Some(Setting::VideoDscp)
    } else if name == "video_cos"@ || name == "videocos"@ {
        Some(Setting::VideoCos)
    } else if name == "trust_phone_ip"@ || name == "trustphoneip"@ {
        Some(Setting::TrustPhoneIp)
    } else if name == "server_name"@ || name == "servername"@ {
        Some(Setting::ServerName)
    } else if name == "language"@ {
        Some(Setting::Language)
    } else if name == "accountcode"@ {
        Some(Setting::AccountCode)
    } else if name == "keepalive"@ {
        Some(Setting::Keepalive)
    } else if name == "secondary_keepalive"@ {
        Some(Setting::SecondaryKeepalive)
    } else if name == "signaling_server"@ {
        Some(Setting::SignalingServer)
    } else if name == "first_digit_timeout"@ || name == "firstdigittimeout"@ {
        Some(Setting::FirstDigitTimeout)
    } else if name == "interdigit_timeout_ms"@ {
        Some(Setting::InterdigitTimeoutMs)
    } else if name == "digit_timeout"@ || name == "digittimeout"@ {
        Some(Setting::DigitTimeout)
    } else if name == "digit_timeout_char"@ || name == "digittimeoutchar"@ {
        Some(Setting::DigitTimeoutChar)
    } else if name == "record_digit_timeout_char"@ || name == "recorddigittimeoutchar"@ {
        Some(Setting::RecordDigitTimeoutChar)
    } else if name == "simulate_enbloc"@ {
        Some(Setting::SimulateEnbloc)
    } else if name == "speed_dial_await_further_digits"@ || name == "speeddialawaitfurtherdigits"@ {
        Some(Setting::SpeedDialAwaitFurtherDigits)
    } else if name == "allow_overlap"@ || name == "allowoverlap"@ {
        Some(Setting::AllowOverlap)
    } else if name == "transfer_on_hangup"@ {
        Some(Setting::TransferOnHangup)
    } else if name == "call_answer_order"@ || name == "callanswerorder"@ {
        Some(Setting::CallAnswerOrder)
    } else if name == "ring_type"@ || name == "ringtype"@ {
        Some(Setting::RingType)
    } else if name == "call_waiting_tone"@ || name == "callwaitingtone"@ {
        Some(Setting::CallWaitingTone)
    } else if name == "call_waiting_interval"@ || name == "callwaitinginterval"@ {
        Some(Setting::CallWaitingInterval)
    } else if name == "fallback"@ {
        Some(Setting::Fallback)
    } else if name == "backoff_time"@ {
        Some(Setting::BackoffTime)
    } else if name == "server_priority"@ {
        Some(Setting::ServerPriority)
    } else if name == "allow"@ {
        Some(Setting::Allow)
    } else if name == "disallow"@ {
        Some(Setting::Disallow)
    } else if name == "meetme"@ {
        Some(Setting::ConferenceEnabled)
    } else if name == "meetmeopts"@ {
        Some(Setting::ConferenceOptions)
    } else if name == "autoanswer_ring_time"@ || name == "autoanswerringtime"@ {
        Some(Setting::AutoanswerRingTime)
    } else if name == "autoanswer_tone"@ || name == "autoanswertone"@ {
        Some(Setting::AutoanswerTone)
    } else if name == "remote_hangup_tone"@ || name == "remotehangup_tone"@ {
        Some(Setting::RemoteHangupTone)
    } else if name == "hotline_enabled"@ || name == "hotlineenabled"@ {
        Some(Setting::HotlineEnabled)
    } else if name == "hotline_extension"@ || name == "hotlineextension"@ {
        Some(Setting::HotlineExtension)
    } else if name == "hotline_context"@ || name == "hotlinecontext"@ {
        Some(Setting::HotlineContext)
    } else if name == "hotline_label"@ || name == "hotlinelabel"@ {
        Some(Setting::HotlineLabel)
    } else if name == "direct_media"@ || name == "directrtp"@ {
        Some(Setting::DirectMedia)
    } else if name == "early_media"@ || name == "earlyrtp"@ {
        Some(Setting::EarlyMedia)
    } else if name == "audio_encryption"@ || name == "audioencryption"@ {
        Some(Setting::AudioEncryption)
    } else if name == "echocancel"@ {
        Some(Setting::EchoCancel)
    } else if name == "silencesuppression"@ {
        Some(Setting::SilenceSuppression)
    } else if name == "jb_enable"@ || name == "jbenable"@ {
        Some(Setting::JbEnable)
    } else if name == "jb_force"@ || name == "jbforce"@ {
        Some(Setting::JbForce)
    } else if name == "jb_log"@ || name == "jblog"@ {
        Some(Setting::JbLog)
    } else if name == "jb_max_size"@ || name == "jbmaxsize"@ {
        Some(Setting::JbMaxSize)
    } else if name == "jb_resync_threshold"@ || name == "jbresyncthreshold"@ {
        Some(Setting::JbResyncThreshold)
    } else if name == "jb_implementation"@ || name == "jbimpl"@ {
        Some(Setting::JbImplementation)
    } else if name == "regcontext"@ {
        Some(Setting::RegistrationContext)
    } else if name == "device_table"@ || name == "devicetable"@ {
        Some(Setting::DeviceTable)
    } else if name == "line_table"@ || name == "linetable"@ {
        Some(Setting::LineTable)
    } else {
        None
    }
}

/// The option that a lower-case name stands for in the general section.
fn read_general(n: &str) -> (r: Option<Setting>)
    ensures
        r == general_named(n@),
{
    if text::same(n, "dateformat") {
        Some(Setting::DateFormat)
    } else if text::same(n, "tzoffset") {
        Some(Setting::TimezoneOffset)
    } else if text::same(n, "bind") || text::same(n, "clearbind") {
        Some(Setting::Bind)
    } else if text::same(n, "bind_address") || text::same(n, "bindaddr") || text::same(n, "clearbindaddr") {
        Some(Setting::BindAddress)
    } else if text::same(n, "clearport") || text::same(n, "port") {
        Some(Setting::Port)
    } else if text::same(n, "advertised_address") {
        Some(Setting::AdvertisedAddress)
    } else if text::same(n, "advertised_ipv4") || text::same(n, "advertisedaddressipv4") {
        Some(Setting::AdvertisedIpv4)
    } else if text::same(n, "advertised_ipv6") || text::same(n, "advertisedaddressipv6") {
        Some(Setting::AdvertisedIpv6)
    } else if text::same(n, "securebind") || text::same(n, "tls_bind") {
        Some(Setting::TlsBind)
    } else if text::same(n, "secbindaddr") || text::same(n, "tls_bind_address") || text::same(n, "tlsbindaddr") {
        Some(Setting::TlsBindAddress)
    } else if text::same(n, "secport") || text::same(n, "tls_port") || text::same(n, "tlsport") {
        Some(Setting::TlsPort)
    } else if text::same(n, "certfile") || text::same(n, "tls_combined_pem") || text::same(n, "tlscombinedpem") {
        Some(Setting::TlsCombinedPem)
    } else if text::same(n, "tls_certificate") || text::same(n, "tlscertificatefile") {
        Some(Setting::TlsCertificate)
    } else if text::same(n, "tls_private_key") || text::same(n, "tlsprivatekeyfile") {
        Some(Setting::TlsPrivateKey)
    } else if text::same(n, "tls_trust_store") || text::same(n, "tlscafile") {
        Some(Setting::TlsTrustStore)
    } else if text::same(n, "deny") {
        Some(Setting::Deny)
    } else if text::same(n, "permit") {
        Some(Setting::Permit)
    } else if text::same(n, "localnet") {
        Some(Setting::LocalNetwork)
    } else if text::same(n, "externaladdress") || text::same(n, "externip") {
        Some(Setting::ExternalAddress)
    } else if text::same(n, "externalhost") || text::same(n, "externhost") {
        Some(Setting::ExternalHost)
    } else if text::same(n, "externalrefresh") || text::same(n, "externrefresh") {
        Some(Setting::ExternalRefresh)
    } else if text::same(n, "nat") {
        Some(Setting::Nat)
    } else if text::same(n, "sccp_tos") || text::same(n, "signalingtos") {
        Some(Setting::SignalingTos)
    } else if text::same(n, "sccp_dscp") || text::same(n, "sccpdscp") || text::same(n, "signaling_dscp") || text::same(n, "signalingdscp") {
        Some(Setting::SignalingDscp)
    } else if text::same(n, "sccp_cos") || text::same(n, "signaling_cos") || text::same(n, "signalingcos") {
        Some(Setting::SignalingCos)
    } else if text::same(n, "audio_tos") || text::same(n, "audiotos") {
        Some(Setting::AudioTos)
    } else if text::same(n, "audio_dscp") || text::same(n, "audiodscp") {
        Some(Setting::AudioDscp)
    } else if text::same(n, "audio_cos") || text::same(n, "audiocos") {
        Some(Setting::AudioCos)
    } else if text::same(n, "video_tos") || text::same(n, "videotos") {
        Some(Setting::VideoTos)
    } else if text::same(n, "video_dscp") || text::same(n, "videodscp") {
        Some(Setting::VideoDscp)
    } else if text::same(n, "video_cos") || text::same(n, "videocos") {
        Some(Setting::VideoCos)
    } else if text::same(n, "trust_phone_ip") || text::same(n, "trustphoneip") {
        Some(Setting::TrustPhoneIp)
    } else if text::same(n, "server_name") || text::same(n, "servername") {
        Some(Setting::ServerName)
    } else if text::same(n, "language") {
        Some(Setting::Language)
    } else if text::same(n, "accountcode") {
        Some(Setting::AccountCode)
    } else if text::same(n, "keepalive") {
        Some(Setting::Keepalive)
    } else if text::same(n, "secondary_keepalive") {
        Some(Setting::SecondaryKeepalive)
    } else if text::same(n, "signaling_server") {
        Some(Setting::SignalingServer)
    } else if text::same(n, "first_digit_timeout") || text::same(n, "firstdigittimeout") {
        Some(Setting::FirstDigitTimeout)
    } else if text::same(n, "interdigit_timeout_ms") {
        Some(Setting::InterdigitTimeoutMs)
    } else if text::same(n, "digit_timeout") || text::same(n, "digittimeout") {
        Some(Setting::DigitTimeout)
    } else if text::same(n, "digit_timeout_char") || text::same(n, "digittimeoutchar") {
        Some(Setting::DigitTimeoutChar)
    } else if text::same(n, "record_digit_timeout_char") || text::same(n, "recorddigittimeoutchar") {
        Some(Setting::RecordDigitTimeoutChar)
    } else if text::same(n, "simulate_enbloc") {
        Some(Setting::SimulateEnbloc)
    } else if text::same(n, "speed_dial_await_further_digits") || text::same(n, "speeddialawaitfurtherdigits") {
        Some(Setting::SpeedDialAwaitFurtherDigits)
    } else if text::same(n, "allow_overlap") || text::same(n, "allowoverlap") {
        Some(Setting::AllowOverlap)
    } else if text::same(n, "transfer_on_hangup") {
        Some(Setting::TransferOnHangup)
    } else if text::same(n, "call_answer_order") || text::same(n, "callanswerorder") {
        Some(Setting::CallAnswerOrder)
    } else if text::same(n, "ring_type") || text::same(n, "ringtype") {
        Some(Setting::RingType)
    } else if text::same(n, "call_waiting_tone") || text::same(n, "callwaitingtone") {
        Some(Setting::CallWaitingTone)
    } else if text::same(n, "call_waiting_interval") || text::same(n, "callwaitinginterval") {
        Some(Setting::CallWaitingInterval)
    } else if text::same(n, "fallback") {
        Some(Setting::Fallback)
    } else if text::same(n, "backoff_time") {
        Some(Setting::BackoffTime)
    } else if text::same(n, "server_priority") {
        Some(Setting::ServerPriority)
    } else if text::same(n, "allow") {
        Some(Setting::Allow)
    } else if text::same(n, "disallow") {
        Some(Setting::Disallow)
    } else if text::same(n, "meetme") {
        Some(Setting::ConferenceEnabled)
    } else if text::same(n, "meetmeopts") {
        Some(Setting::ConferenceOptions)
    } else if text::same(n, "autoanswer_ring_time") || text::same(n, "autoanswerringtime") {
        Some(Setting::AutoanswerRingTime)
    } else if text::same(n, "autoanswer_tone") || text::same(n, "autoanswertone") {
        Some(Setting::AutoanswerTone)
    } else if text::same(n, "remote_hangup_tone") || text::same(n, "remotehangup_tone") {
        Some(Setting::RemoteHangupTone)
    } else if text::same(n, "hotline_enabled") || text::same(n, "hotlineenabled") {
        Some(Setting::HotlineEnabled)
    } else if text::same(n, "hotline_extension") || text::same(n, "hotlineextension") {
        Some(Setting::HotlineExtension)
    } else if text::same(n, "hotline_context") || text::same(n, "hotlinecontext") {
        Some(Setting::HotlineContext)
    } else if text::same(n, "hotline_label") || text::same(n, "hotlinelabel") {
        Some(Setting::HotlineLabel)
    } else if text::same(n, "direct_media") || text::same(n, "directrtp") {
        Some(Setting::DirectMedia)
    } else if text::same(n, "early_media") || text::same(n, "earlyrtp") {
        Some(Setting::EarlyMedia)
    } else if text::same(n, "audio_encryption") || text::same(n, "audioencryption") {
        Some(Setting::AudioEncryption)
    } else if text::same(n, "echocancel") {
        Some(Setting::EchoCancel)
    } else if text::same(n, "silencesuppression") {
        Some(Setting::SilenceSuppression)
    } else if text::same(n, "jb_enable") || text::same(n, "jbenable") {
        Some(Setting::JbEnable)
    } else if text::same(n, "jb_force") || text::same(n, "jbforce") {
        Some(Setting::JbForce)
    } else if text::same(n, "jb_log") || text::same(n, "jblog") {
        Some(Setting::JbLog)
    } else if text::same(n, "jb_max_size") || text::same(n, "jbmaxsize") {
        Some(Setting::JbMaxSize)
    } else if text::same(n, "jb_resync_threshold") || text::same(n, "jbresyncthreshold") {
        Some(Setting::JbResyncThreshold)
    } else if text::same(n, "jb_implementation") || text::same(n, "jbimpl") {
        Some(Setting::JbImplementation)
    } else if text::same(n, "regcontext") {
        Some(Setting::RegistrationContext)
    } else if text::same(n, "device_table") || text::same(n, "devicetable") {
        Some(Setting::DeviceTable)
    } else if text::same(n, "line_table") || text::same(n, "linetable") {
        Some(Setting::LineTable)
    } else {
        None
    }
}

/// The option that a lower-case name stands for in a line section.
pub open spec fn line_named(name: text::Text) -> Option<Setting> {
    if name == "type"@ {
        Some(Setting::Type)
    } else if name == "label"@ {
        Some(Setting::Label)
    } else if name == "context"@ {
        Some(Setting::Context)
    } else if name == "callerid"@ {
        Some(Setting::CallerId)
    } else if name == "incoming_limit"@ || name == "incominglimit"@ {
        Some(Setting::IncomingLimit)
    } else if name == "language"@ {
        Some(Setting::Language)
    } else if name == "accountcode"@ {
        Some(Setting::AccountCode)
    } else if name == "setvar"@ {
        Some(Setting::SetVariable)
    } else if name == "mailbox"@ {
        Some(Setting::Mailbox)
    } else if name == "vmnum"@ || name == "voicemail_number"@ || name == "voicemailnumber"@ {
        Some(Setting::VoicemailNumber)
    } else if name == "transfertovoicemail"@ || name == "trnsfvm"@ || name == "voicemail_transfer"@ || name == "voicemailtransfer"@ {
        Some(Setting::VoicemailTransfer)
    } else if name == "call_group"@ || name == "callgroup"@ {
        Some(Setting::CallGroup)
    } else if name == "pickup_group"@ || name == "pickupgroup"@ {
        Some(Setting::PickupGroup)
    } else if name == "named_call_group"@ || name == "namedcallgroup"@ {
        Some(Setting::NamedCallGroup)
    } else if name == "named_pickup_group"@ || name == "namedpickupgroup"@ {
        Some(Setting::NamedPickupGroup)
    } else if name == "directed_pickup"@ || name == "directedpickup"@ {
        Some(Setting::DirectedPickup)
    } else if name == "directed_pickup_context"@ || name == "directedpickupcontext"@ {
        Some(Setting::DirectedPickupContext)
    } else if name == "directedpickupmodeanswer"@ || name == "pickup_mode_answer"@ || name == "pickupmodeanswer"@ {
        Some(Setting::PickupModeAnswer)
    } else if name == "parkinglot"@ {
        Some(Setting::ParkingLot)
    } else if name == "meetme"@ {
        Some(Setting::ConferenceEnabled)
    } else if name == "meetmenum"@ {
        Some(Setting::ConferenceNumber)
    } else if name == "meetmeopts"@ {
        Some(Setting::ConferenceOptions)
    } else if name == "adhoc_number"@ || name == "adhocnumber"@ {
        Some(Setting::AdhocNumber)
    } else if name == "initial_dialtone_tone"@ {
        Some(Setting::InitialDialtoneTone)
    } else if name == "secondary_dialtone_digits"@ {
        Some(Setting::SecondaryDialtoneDigits)
    } else if name == "secondary_dialtone_tone"@ {
        Some(Setting::SecondaryDialtoneTone)
    } else if name == "pin"@ {
        Some(Setting::Pin)
    } else if name == "regexten"@ {
        Some(Setting::RegistrationExtension)
    } else if name == "allow"@ {
        Some(Setting::Allow)
    } else if name == "disallow"@ {
        Some(Setting::Disallow)
    } else if name == "video_mode"@ || name == "videomode"@ {
        Some(Setting::VideoMode)
    } else if name == "audio_encryption"@ || name == "audioencryption"@ {
        Some(Setting::AudioEncryption)
    } else if name == "echocancel"@ {
        Some(Setting::EchoCancel)
    } else if name == "silencesuppression"@ {
        Some(Setting::SilenceSuppression)
    } else {
        None
    }
}

/// The option that a lower-case name stands for in a line section.
fn read_line(n: &str) -> (r: Option<Setting>)
    ensures
        r == line_named(n@),
{
    if text::same(n, "type") {
        Some(Setting::Type)
    } else if text::same(n, "label") {
        Some(Setting::Label)
    } else if text::same(n, "context") {
        Some(Setting::Context)
    } else if text::same(n, "callerid") {
        Some(Setting::CallerId)
    } else if text::same(n, "incoming_limit") || text::same(n, "incominglimit") {
        Some(Setting::IncomingLimit)
    } else if text::same(n, "language") {
        Some(Setting::Language)
    } else if text::same(n, "accountcode") {
        Some(Setting::AccountCode)
    } else if text::same(n, "setvar") {
        Some(Setting::SetVariable)
    } else if text::same(n, "mailbox") {
        Some(Setting::Mailbox)
    } else if text::same(n, "vmnum") || text::same(n, "voicemail_number") || text::same(n, "voicemailnumber") {
        Some(Setting::VoicemailNumber)
    } else if text::same(n, "transfertovoicemail") || text::same(n, "trnsfvm") || text::same(n, "voicemail_transfer") || text::same(n, "voicemailtransfer") {
        Some(Setting::VoicemailTransfer)
    } else if text::same(n, "call_group") || text::same(n, "callgroup") {
        Some(Setting::CallGroup)
    } else if text::same(n, "pickup_group") || text::same(n, "pickupgroup") {
        Some(Setting::PickupGroup)
    } else if text::same(n, "named_call_group") || text::same(n, "namedcallgroup") {
        Some(Setting::NamedCallGroup)
    } else if text::same(n, "named_pickup_group") || text::same(n, "namedpickupgroup") {
        Some(Setting::NamedPickupGroup)
    } else if text::same(n, "directed_pickup") || text::same(n, "directedpickup") {
        Some(Setting::DirectedPickup)
    } else if text::same(n, "directed_pickup_context") || text::same(n, "directedpickupcontext") {
        Some(Setting::DirectedPickupContext)
    } else if text::same(n, "directedpickupmodeanswer") || text::same(n, "pickup_mode_answer") || text::same(n, "pickupmodeanswer") {
        Some(Setting::PickupModeAnswer)
    } else if text::same(n, "parkinglot") {
        Some(Setting::ParkingLot)
    } else if text::same(n, "meetme") {
        Some(Setting::ConferenceEnabled)
    } else if text::same(n, "meetmenum") {
        Some(Setting::ConferenceNumber)
    } else if text::same(n, "meetmeopts") {
        Some(Setting::ConferenceOptions)
    } else if text::same(n, "adhoc_number") || text::same(n, "adhocnumber") {
        Some(Setting::AdhocNumber)
    } else if text::same(n, "initial_dialtone_tone") {
        Some(Setting::InitialDialtoneTone)
    } else if text::same(n, "secondary_dialtone_digits") {
        Some(Setting::SecondaryDialtoneDigits)
    } else if text::same(n, "secondary_dialtone_tone") {
        Some(Setting::SecondaryDialtoneTone)
    } else if text::same(n, "pin") {
        Some(Setting::Pin)
    } else if text::same(n, "regexten") {
        Some(Setting::RegistrationExtension)
    } else if text::same(n, "allow") {
        Some(Setting::Allow)
    } else if text::same(n, "disallow") {
        Some(Setting::Disallow)
    } else if text::same(n, "video_mode") || text::same(n, "videomode") {
        Some(Setting::VideoMode)
    } else if text::same(n, "audio_encryption") || text::same(n, "audioencryption") {
        Some(Setting::AudioEncryption)
    } else if text::same(n, "echocancel") {
        Some(Setting::EchoCancel)
    } else if text::same(n, "silencesuppression") {
        Some(Setting::SilenceSuppression)
    } else {
        None
    }
}

/// The option that a lower-case name stands for in a device section.
pub open spec fn device_named(name: text::Text) -> Option<Setting> {
    if name == "type"@ {
        Some(Setting::Type)
    } else if name == "description"@ {
        Some(Setting::Description)
    } else if name == "softkey_profile"@ || name == "softkeyprofile"@ {
        Some(Setting::SoftkeyProfile)
    } else if name == "cfwdall"@ || name == "forward_all_enabled"@ || name == "forwardallenabled"@ {
        Some(Setting::ForwardAllEnabled)
    } else if name == "cfwdbusy"@ || name == "forward_busy_enabled"@ || name == "forwardbusyenabled"@ {
        Some(Setting::ForwardBusyEnabled)
    } else if name == "cfwdnoanswer"@ || name == "forward_no_answer_enabled"@ || name == "forwardnoanswerenabled"@ {
        Some(Setting::ForwardNoAnswerEnabled)
    } else if name == "cfwdnoanswertimeout"@ || name == "forward_no_answer_timeout"@ || name == "forwardnoanswertimeout"@ {
        Some(Setting::ForwardNoAnswerTimeout)
    } else if name == "forward_all"@ {
        Some(Setting::ForwardAll)
    } else if name == "forward_busy"@ {
        Some(Setting::ForwardBusy)
    } else if name == "forward_no_answer"@ {
        Some(Setting::ForwardNoAnswer)
    } else if name == "dnd_feature"@ || name == "dndfeature"@ {
        Some(Setting::DndFeature)
    } else if name == "dnd"@ {
        Some(Setting::Dnd)
    } else if name == "privacy_feature"@ || name == "privacyfeature"@ || name == "private"@ {
        Some(Setting::PrivacyFeature)
    } else if name == "privacy"@ {
        Some(Setting::Privacy)
    } else if name == "feature_default"@ || name == "featuredefault"@ {
        Some(Setting::FeatureDefault)
    } else if name == "setvar"@ {
        Some(Setting::SetVariable)
    } else if name == "park"@ {
        Some(Setting::Park)
    } else if name == "conf_allow"@ || name == "confallow"@ || name == "conference_allow"@ {
        Some(Setting::ConferenceAllow)
    } else if name == "conf_music_on_hold_class"@ || name == "conference_music_on_hold_class"@ || name == "confmusiconholdclass"@ {
        Some(Setting::ConferenceMusicOnHoldClass)
    } else if name == "conf_play_general_announce"@ || name == "conference_play_general_announce"@ || name == "confplaygeneralannounce"@ {
        Some(Setting::ConferencePlayGeneralAnnounce)
    } else if name == "conf_play_part_announce"@ || name == "conference_play_participant_announce"@ || name == "confplaypartannounce"@ {
        Some(Setting::ConferencePlayParticipantAnnounce)
    } else if name == "conf_mute_on_entry"@ || name == "conference_mute_on_entry"@ || name == "confmuteonentry"@ {
        Some(Setting::ConferenceMuteOnEntry)
    } else if name == "conf_show_conflist"@ || name == "conference_show_list"@ || name == "confshowconflist"@ {
        Some(Setting::ConferenceShowList)
    } else if name == "meetme"@ {
        Some(Setting::ConferenceDialingEnabled)
    } else if name == "meetmeopts"@ {
        Some(Setting::ConferenceOptions)
    } else if name == "use_redial_menu"@ || name == "useredialmenu"@ {
        Some(Setting::UseRedialMenu)
    } else if name == "allow_ringin_notification"@ || name == "allowringinnotification"@ {
        Some(Setting::AllowRinginNotification)
    } else if name == "mwi_lamp"@ || name == "mwilamp"@ {
        Some(Setting::MwiLamp)
    } else if name == "mwi_on_call"@ || name == "mwioncall"@ {
        Some(Setting::MwiOnCall)
    } else if name == "phone_code_page"@ || name == "phonecodepage"@ {
        Some(Setting::PhoneCodePage)
    } else if name == "allow_overlap"@ || name == "allowoverlap"@ {
        Some(Setting::AllowOverlap)
    } else if name == "force_dtmf_mode"@ || name == "force_dtmfmode"@ || name == "forcedtmfmode"@ {
        Some(Setting::ForceDtmfMode)
    } else if name == "direct_media"@ || name == "directrtp"@ {
        Some(Setting::DirectMedia)
    } else if name == "early_media"@ || name == "earlyrtp"@ {
        Some(Setting::EarlyMedia)
    } else if name == "audio_encryption"@ || name == "audioencryption"@ {
        Some(Setting::AudioEncryption)
    } else if name == "deny"@ {
        Some(Setting::Deny)
    } else if name == "permit"@ {
        Some(Setting::Permit)
    } else if name == "permit_host"@ || name == "permithost"@ {
        Some(Setting::PermitHost)
    } else if name == "nat"@ {
        Some(Setting::Nat)
    } else if name == "transport"@ || name == "transport_requirement"@ || name == "transportrequirement"@ {
        Some(Setting::Transport)
    } else if name == "sccp_tos"@ || name == "signalingtos"@ {
        Some(Setting::SignalingTos)
    } else if name == "sccp_dscp"@ || name == "sccpdscp"@ || name == "signaling_dscp"@ || name == "signalingdscp"@ {
        Some(Setting::SignalingDscp)
    } else if name == "sccp_cos"@ || name == "signaling_cos"@ || name == "signalingcos"@ {
        Some(Setting::SignalingCos)
    } else if name == "audio_tos"@ || name == "audiotos"@ {
        Some(Setting::AudioTos)
    } else if name == "audio_dscp"@ || name == "audiodscp"@ {
        Some(Setting::AudioDscp)
    } else if name == "audio_cos"@ || name == "audiocos"@ {
        Some(Setting::AudioCos)
    } else if name == "video_tos"@ || name == "videotos"@ {
        Some(Setting::VideoTos)
    } else if name == "video_dscp"@ || name == "videodscp"@ {
        Some(Setting::VideoDscp)
    } else if name == "video_cos"@ || name == "videocos"@ {
        Some(Setting::VideoCos)
    } else if name == "trust_phone_ip"@ || name == "trustphoneip"@ {
        Some(Setting::TrustPhoneIp)
    } else if name == "dtmfmode"@ || name == "obsolete_dtmf_mode"@ {
        Some(Setting::ObsoleteDtmfMode)
    } else if name == "allow"@ {
        Some(Setting::Allow)
    } else if name == "disallow"@ {
        Some(Setting::Disallow)
    } else if name == "line"@ {
        Some(Setting::Line)
    } else if name == "button"@ {
        Some(Setting::Button)
    } else {
        None
    }
}

/// The option that a lower-case name stands for in a device section.
fn read_device(n: &str) -> (r: Option<Setting>)
    ensures
        r == device_named(n@),
{
    if text::same(n, "type") {
        Some(Setting::Type)
    } else if text::same(n, "description") {
        Some(Setting::Description)
    } else if text::same(n, "softkey_profile") || text::same(n, "softkeyprofile") {
        Some(Setting::SoftkeyProfile)
    } else if text::same(n, "cfwdall") || text::same(n, "forward_all_enabled") || text::same(n, "forwardallenabled") {
        Some(Setting::ForwardAllEnabled)
    } else if text::same(n, "cfwdbusy") || text::same(n, "forward_busy_enabled") || text::same(n, "forwardbusyenabled") {
        Some(Setting::ForwardBusyEnabled)
    } else if text::same(n, "cfwdnoanswer") || text::same(n, "forward_no_answer_enabled") || text::same(n, "forwardnoanswerenabled") {
        Some(Setting::ForwardNoAnswerEnabled)
    } else if text::same(n, "cfwdnoanswertimeout") || text::same(n, "forward_no_answer_timeout") || text::same(n, "forwardnoanswertimeout") {
        Some(Setting::ForwardNoAnswerTimeout)
    } else if text::same(n, "forward_all") {
        Some(Setting::ForwardAll)
    } else if text::same(n, "forward_busy") {
        Some(Setting::ForwardBusy)
    } else if text::same(n, "forward_no_answer") {
        Some(Setting::ForwardNoAnswer)
    } else if text::same(n, "dnd_feature") || text::same(n, "dndfeature") {
        Some(Setting::DndFeature)
    } else if text::same(n, "dnd") {
        Some(Setting::Dnd)
    } else if text::same(n, "privacy_feature") || text::same(n, "privacyfeature") || text::same(n, "private") {
        Some(Setting::PrivacyFeature)
    } else if text::same(n, "privacy") {
        Some(Setting::Privacy)
    } else if text::same(n, "feature_default") || text::same(n, "featuredefault") {
        Some(Setting::FeatureDefault)
    } else if text::same(n, "setvar") {
        Some(Setting::SetVariable)
    } else if text::same(n, "park") {
        Some(Setting::Park)
    } else if text::same(n, "conf_allow") || text::same(n, "confallow") || text::same(n, "conference_allow") {
        Some(Setting::ConferenceAllow)
    } else if text::same(n, "conf_music_on_hold_class") || text::same(n, "conference_music_on_hold_class") || text::same(n, "confmusiconholdclass") {
        Some(Setting::ConferenceMusicOnHoldClass)
    } else if text::same(n, "conf_play_general_announce") || text::same(n, "conference_play_general_announce") || text::same(n, "confplaygeneralannounce") {
        Some(Setting::ConferencePlayGeneralAnnounce)
    } else if text::same(n, "conf_play_part_announce") || text::same(n, "conference_play_participant_announce") || text::same(n, "confplaypartannounce") {
        Some(Setting::ConferencePlayParticipantAnnounce)
    } else if text::same(n, "conf_mute_on_entry") || text::same(n, "conference_mute_on_entry") || text::same(n, "confmuteonentry") {
        Some(Setting::ConferenceMuteOnEntry)
    } else if text::same(n, "conf_show_conflist") || text::same(n, "conference_show_list") || text::same(n, "confshowconflist") {
        Some(Setting::ConferenceShowList)
    } else if text::same(n, "meetme") {
        Some(Setting::ConferenceDialingEnabled)
    } else if text::same(n, "meetmeopts") {
        Some(Setting::ConferenceOptions)
    } else if text::same(n, "use_redial_menu") || text::same(n, "useredialmenu") {
        Some(Setting::UseRedialMenu)
    } else if text::same(n, "allow_ringin_notification") || text::same(n, "allowringinnotification") {
        Some(Setting::AllowRinginNotification)
    } else if text::same(n, "mwi_lamp") || text::same(n, "mwilamp") {
        Some(Setting::MwiLamp)
    } else if text::same(n, "mwi_on_call") || text::same(n, "mwioncall") {
        Some(Setting::MwiOnCall)
    } else if text::same(n, "phone_code_page") || text::same(n, "phonecodepage") {
        Some(Setting::PhoneCodePage)
    } else if text::same(n, "allow_overlap") || text::same(n, "allowoverlap") {
        Some(Setting::AllowOverlap)
    } else if text::same(n, "force_dtmf_mode") || text::same(n, "force_dtmfmode") || text::same(n, "forcedtmfmode") {
        Some(Setting::ForceDtmfMode)
    } else if text::same(n, "direct_media") || text::same(n, "directrtp") {
        Some(Setting::DirectMedia)
    } else if text::same(n, "early_media") || text::same(n, "earlyrtp") {
        Some(Setting::EarlyMedia)
    } else if text::same(n, "audio_encryption") || text::same(n, "audioencryption") {
        Some(Setting::AudioEncryption)
    } else if text::same(n, "deny") {
        Some(Setting::Deny)
    } else if text::same(n, "permit") {
        Some(Setting::Permit)
    } else if text::same(n, "permit_host") || text::same(n, "permithost") {
        Some(Setting::PermitHost)
    } else if text::same(n, "nat") {
        Some(Setting::Nat)
    } else if text::same(n, "transport") || text::same(n, "transport_requirement") || text::same(n, "transportrequirement") {
        Some(Setting::Transport)
    } else if text::same(n, "sccp_tos") || text::same(n, "signalingtos") {
        Some(Setting::SignalingTos)
    } else if text::same(n, "sccp_dscp") || text::same(n, "sccpdscp") || text::same(n, "signaling_dscp") || text::same(n, "signalingdscp") {
        Some(Setting::SignalingDscp)
    } else if text::same(n, "sccp_cos") || text::same(n, "signaling_cos") || text::same(n, "signalingcos") {
        Some(Setting::SignalingCos)
    } else if text::same(n, "audio_tos") || text::same(n, "audiotos") {
        Some(Setting::AudioTos)
    } else if text::same(n, "audio_dscp") || text::same(n, "audiodscp") {
        Some(Setting::AudioDscp)
    } else if text::same(n, "audio_cos") || text::same(n, "audiocos") {
        Some(Setting::AudioCos)
    } else if text::same(n, "video_tos") || text::same(n, "videotos") {
        Some(Setting::VideoTos)
    } else if text::same(n, "video_dscp") || text::same(n, "videodscp") {
        Some(Setting::VideoDscp)
    } else if text::same(n, "video_cos") || text::same(n, "videocos") {
        Some(Setting::VideoCos)
    } else if text::same(n, "trust_phone_ip") || text::same(n, "trustphoneip") {
        Some(Setting::TrustPhoneIp)
    } else if text::same(n, "dtmfmode") || text::same(n, "obsolete_dtmf_mode") {
        Some(Setting::ObsoleteDtmfMode)
    } else if text::same(n, "allow") {
        Some(Setting::Allow)
    } else if text::same(n, "disallow") {
        Some(Setting::Disallow)
    } else if text::same(n, "line") {
        Some(Setting::Line)
    } else if text::same(n, "button") {
        Some(Setting::Button)
    } else {
        None
    }
}

/// The option that a lower-case name stands for.
pub open spec fn named(scope: Scope, name: text::Text) -> Option<Setting> {
    match scope {
        Scope::General => general_named(name),
        Scope::Line => line_named(name),
        Scope::Device => device_named(name),
    }
}

/// The option that a lower-case name stands for.
pub fn read_named(scope: Scope, name: &str) -> (r: Option<Setting>)
    ensures
        r == named(scope, name@),
{
    match scope {
        Scope::General => read_general(name),
        Scope::Line => read_line(name),
        Scope::Device => read_device(name),
    }
}

/// The spellings of a scope, as diagnostics list them.
pub open spec fn spellings(scope: Scope) -> text::Text {
    match scope {
        Scope::General => "expected one of `dateformat`, `tzoffset`, `bind`, `clearbind`, `bind_address`, `bindaddr`, `clearbindaddr`, `clearport`, `port`, `advertised_address`, `advertised_ipv4`, `advertisedaddressipv4`, `advertised_ipv6`, `advertisedaddressipv6`, `securebind`, `tls_bind`, `secbindaddr`, `tls_bind_address`, `tlsbindaddr`, `secport`, `tls_port`, `tlsport`, `certfile`, `tls_combined_pem`, `tlscombinedpem`, `tls_certificate`, `tlscertificatefile`, `tls_private_key`, `tlsprivatekeyfile`, `tls_trust_store`, `tlscafile`, `deny`, `permit`, `localnet`, `externaladdress`, `externip`, `externalhost`, `externhost`, `externalrefresh`, `externrefresh`, `nat`, `sccp_tos`, `signalingtos`, `sccp_dscp`, `sccpdscp`, `signaling_dscp`, `signalingdscp`, `sccp_cos`, `signaling_cos`, `signalingcos`, `audio_tos`, `audiotos`, `audio_dscp`, `audiodscp`, `audio_cos`, `audiocos`, `video_tos`, `videotos`, `video_dscp`, `videodscp`, `video_cos`, `videocos`, `trust_phone_ip`, `trustphoneip`, `server_name`, `servername`, `language`, `accountcode`, `keepalive`, `secondary_keepalive`, `signaling_server`, `first_digit_timeout`, `firstdigittimeout`, `interdigit_timeout_ms`, `digit_timeout`, `digittimeout`, `digit_timeout_char`, `digittimeoutchar`, `record_digit_timeout_char`, `recorddigittimeoutchar`, `simulate_enbloc`, `speed_dial_await_further_digits`, `speeddialawaitfurtherdigits`, `allow_overlap`, `allowoverlap`, `transfer_on_hangup`, `call_answer_order`, `callanswerorder`, `ring_type`, `ringtype`, `call_waiting_tone`, `callwaitingtone`, `call_waiting_interval`, `callwaitinginterval`, `fallback`, `backoff_time`, `server_priority`, `allow`, `disallow`, `meetme`, `meetmeopts`, `autoanswer_ring_time`, `autoanswerringtime`, `autoanswer_tone`, `autoanswertone`, `remote_hangup_tone`, `remotehangup_tone`, `hotline_enabled`, `hotlineenabled`, `hotline_extension`, `hotlineextension`, `hotline_context`, `hotlinecontext`, `hotline_label`, `hotlinelabel`, `direct_media`, `directrtp`, `early_media`, `earlyrtp`, `audio_encryption`, `audioencryption`, `echocancel`, `silencesuppression`, `jb_enable`, `jbenable`, `jb_force`, `jbforce`, `jb_log`, `jblog`, `jb_max_size`, `jbmaxsize`, `jb_resync_threshold`, `jbresyncthreshold`, `jb_implementation`, `jbimpl`, `regcontext`, `device_table`, `devicetable`, `line_table`, `linetable`"@,
        Scope::Line => "expected one of `type`, `label`, `context`, `callerid`, `incoming_limit`, `incominglimit`, `language`, `accountcode`, `setvar`, `mailbox`, `vmnum`, `voicemail_number`, `voicemailnumber`, `transfertovoicemail`, `trnsfvm`, `voicemail_transfer`, `voicemailtransfer`, `call_group`, `callgroup`, `pickup_group`, `pickupgroup`, `named_call_group`, `namedcallgroup`, `named_pickup_group`, `namedpickupgroup`, `directed_pickup`, `directedpickup`, `directed_pickup_context`, `directedpickupcontext`, `directedpickupmodeanswer`, `pickup_mode_answer`, `pickupmodeanswer`, `parkinglot`, `meetme`, `meetmenum`, `meetmeopts`, `adhoc_number`, `adhocnumber`, `initial_dialtone_tone`, `secondary_dialtone_digits`, `secondary_dialtone_tone`, `pin`, `regexten`, `allow`, `disallow`, `video_mode`, `videomode`, `audio_encryption`, `audioencryption`, `echocancel`, `silencesuppression`"@,
        Scope::Device => "expected one of `type`, `description`, `softkey_profile`, `softkeyprofile`, `cfwdall`, `forward_all_enabled`, `forwardallenabled`, `cfwdbusy`, `forward_busy_enabled`, `forwardbusyenabled`, `cfwdnoanswer`, `forward_no_answer_enabled`, `forwardnoanswerenabled`, `cfwdnoanswertimeout`, `forward_no_answer_timeout`, `forwardnoanswertimeout`, `forward_all`, `forward_busy`, `forward_no_answer`, `dnd_feature`, `dndfeature`, `dnd`, `privacy_feature`, `privacyfeature`, `private`, `privacy`, `feature_default`, `featuredefault`, `setvar`, `park`, `conf_allow`, `confallow`, `conference_allow`, `conf_music_on_hold_class`, `conference_music_on_hold_class`, `confmusiconholdclass`, `conf_play_general_announce`, `conference_play_general_announce`, `confplaygeneralannounce`, `conf_play_part_announce`, `conference_play_participant_announce`, `confplaypartannounce`, `conf_mute_on_entry`, `conference_mute_on_entry`, `confmuteonentry`, `conf_show_conflist`, `conference_show_list`, `confshowconflist`, `meetme`, `meetmeopts`, `use_redial_menu`, `useredialmenu`, `allow_ringin_notification`, `allowringinnotification`, `mwi_lamp`, `mwilamp`, `mwi_on_call`, `mwioncall`, `phone_code_page`, `phonecodepage`, `allow_overlap`, `allowoverlap`, `force_dtmf_mode`, `force_dtmfmode`, `forcedtmfmode`, `direct_media`, `directrtp`, `early_media`, `earlyrtp`, `audio_encryption`, `audioencryption`, `deny`, `permit`, `permit_host`, `permithost`, `nat`, `transport`, `transport_requirement`, `transportrequirement`, `sccp_tos`, `signalingtos`, `sccp_dscp`, `sccpdscp`, `signaling_dscp`, `signalingdscp`, `sccp_cos`, `signaling_cos`, `signalingcos`, `audio_tos`, `audiotos`, `audio_dscp`, `audiodscp`, `audio_cos`, `audiocos`, `video_tos`, `videotos`, `video_dscp`, `videodscp`, `video_cos`, `videocos`, `trust_phone_ip`, `trustphoneip`, `dtmfmode`, `obsolete_dtmf_mode`, `allow`, `disallow`, `line`, `button`"@,
    }
}

/// The spellings of a scope, as diagnostics list them.
fn expected_spellings(scope: Scope) -> (r: &'static str)
    ensures
        r@ == spellings(scope),
{
    match scope {
        Scope::General => "expected one of `dateformat`, `tzoffset`, `bind`, `clearbind`, `bind_address`, `bindaddr`, `clearbindaddr`, `clearport`, `port`, `advertised_address`, `advertised_ipv4`, `advertisedaddressipv4`, `advertised_ipv6`, `advertisedaddressipv6`, `securebind`, `tls_bind`, `secbindaddr`, `tls_bind_address`, `tlsbindaddr`, `secport`, `tls_port`, `tlsport`, `certfile`, `tls_combined_pem`, `tlscombinedpem`, `tls_certificate`, `tlscertificatefile`, `tls_private_key`, `tlsprivatekeyfile`, `tls_trust_store`, `tlscafile`, `deny`, `permit`, `localnet`, `externaladdress`, `externip`, `externalhost`, `externhost`, `externalrefresh`, `externrefresh`, `nat`, `sccp_tos`, `signalingtos`, `sccp_dscp`, `sccpdscp`, `signaling_dscp`, `signalingdscp`, `sccp_cos`, `signaling_cos`, `signalingcos`, `audio_tos`, `audiotos`, `audio_dscp`, `audiodscp`, `audio_cos`, `audiocos`, `video_tos`, `videotos`, `video_dscp`, `videodscp`, `video_cos`, `videocos`, `trust_phone_ip`, `trustphoneip`, `server_name`, `servername`, `language`, `accountcode`, `keepalive`, `secondary_keepalive`, `signaling_server`, `first_digit_timeout`, `firstdigittimeout`, `interdigit_timeout_ms`, `digit_timeout`, `digittimeout`, `digit_timeout_char`, `digittimeoutchar`, `record_digit_timeout_char`, `recorddigittimeoutchar`, `simulate_enbloc`, `speed_dial_await_further_digits`, `speeddialawaitfurtherdigits`, `allow_overlap`, `allowoverlap`, `transfer_on_hangup`, `call_answer_order`, `callanswerorder`, `ring_type`, `ringtype`, `call_waiting_tone`, `callwaitingtone`, `call_waiting_interval`, `callwaitinginterval`, `fallback`, `backoff_time`, `server_priority`, `allow`, `disallow`, `meetme`, `meetmeopts`, `autoanswer_ring_time`, `autoanswerringtime`, `autoanswer_tone`, `autoanswertone`, `remote_hangup_tone`, `remotehangup_tone`, `hotline_enabled`, `hotlineenabled`, `hotline_extension`, `hotlineextension`, `hotline_context`, `hotlinecontext`, `hotline_label`, `hotlinelabel`, `direct_media`, `directrtp`, `early_media`, `earlyrtp`, `audio_encryption`, `audioencryption`, `echocancel`, `silencesuppression`, `jb_enable`, `jbenable`, `jb_force`, `jbforce`, `jb_log`, `jblog`, `jb_max_size`, `jbmaxsize`, `jb_resync_threshold`, `jbresyncthreshold`, `jb_implementation`, `jbimpl`, `regcontext`, `device_table`, `devicetable`, `line_table`, `linetable`",
        Scope::Line => "expected one of `type`, `label`, `context`, `callerid`, `incoming_limit`, `incominglimit`, `language`, `accountcode`, `setvar`, `mailbox`, `vmnum`, `voicemail_number`, `voicemailnumber`, `transfertovoicemail`, `trnsfvm`, `voicemail_transfer`, `voicemailtransfer`, `call_group`, `callgroup`, `pickup_group`, `pickupgroup`, `named_call_group`, `namedcallgroup`, `named_pickup_group`, `namedpickupgroup`, `directed_pickup`, `directedpickup`, `directed_pickup_context`, `directedpickupcontext`, `directedpickupmodeanswer`, `pickup_mode_answer`, `pickupmodeanswer`, `parkinglot`, `meetme`, `meetmenum`, `meetmeopts`, `adhoc_number`, `adhocnumber`, `initial_dialtone_tone`, `secondary_dialtone_digits`, `secondary_dialtone_tone`, `pin`, `regexten`, `allow`, `disallow`, `video_mode`, `videomode`, `audio_encryption`, `audioencryption`, `echocancel`, `silencesuppression`",
        Scope::Device => "expected one of `type`, `description`, `softkey_profile`, `softkeyprofile`, `cfwdall`, `forward_all_enabled`, `forwardallenabled`, `cfwdbusy`, `forward_busy_enabled`, `forwardbusyenabled`, `cfwdnoanswer`, `forward_no_answer_enabled`, `forwardnoanswerenabled`, `cfwdnoanswertimeout`, `forward_no_answer_timeout`, `forwardnoanswertimeout`, `forward_all`, `forward_busy`, `forward_no_answer`, `dnd_feature`, `dndfeature`, `dnd`, `privacy_feature`, `privacyfeature`, `private`, `privacy`, `feature_default`, `featuredefault`, `setvar`, `park`, `conf_allow`, `confallow`, `conference_allow`, `conf_music_on_hold_class`, `conference_music_on_hold_class`, `confmusiconholdclass`, `conf_play_general_announce`, `conference_play_general_announce`, `confplaygeneralannounce`, `conf_play_part_announce`, `conference_play_participant_announce`, `confplaypartannounce`, `conf_mute_on_entry`, `conference_mute_on_entry`, `confmuteonentry`, `conf_show_conflist`, `conference_show_list`, `confshowconflist`, `meetme`, `meetmeopts`, `use_redial_menu`, `useredialmenu`, `allow_ringin_notification`, `allowringinnotification`, `mwi_lamp`, `mwilamp`, `mwi_on_call`, `mwioncall`, `phone_code_page`, `phonecodepage`, `allow_overlap`, `allowoverlap`, `force_dtmf_mode`, `force_dtmfmode`, `forcedtmfmode`, `direct_media`, `directrtp`, `early_media`, `earlyrtp`, `audio_encryption`, `audioencryption`, `deny`, `permit`, `permit_host`, `permithost`, `nat`, `transport`, `transport_requirement`, `transportrequirement`, `sccp_tos`, `signalingtos`, `sccp_dscp`, `sccpdscp`, `signaling_dscp`, `signalingdscp`, `sccp_cos`, `signaling_cos`, `signalingcos`, `audio_tos`, `audiotos`, `audio_dscp`, `audiodscp`, `audio_cos`, `audiocos`, `video_tos`, `videotos`, `video_dscp`, `videodscp`, `video_cos`, `videocos`, `trust_phone_ip`, `trustphoneip`, `dtmfmode`, `obsolete_dtmf_mode`, `allow`, `disallow`, `line`, `button`",
    }
}

/// The canonical spelling of an option.
pub open spec fn canonical_name(s: Setting) -> text::Text {
    match s {
        Setting::DateFormat => "dateformat"@,
        Setting::TimezoneOffset => "tzoffset"@,
        Setting::Bind => "bind"@,
        Setting::BindAddress => "bind_address"@,
        Setting::Port => "port"@,
        Setting::AdvertisedAddress => "advertised_address"@,
        Setting::AdvertisedIpv4 => "advertised_ipv4"@,
        Setting::AdvertisedIpv6 => "advertised_ipv6"@,
        Setting::TlsBind => "tls_bind"@,
        Setting::TlsBindAddress => "tls_bind_address"@,
        Setting::TlsPort => "tls_port"@,
        Setting::TlsCombinedPem => "tls_combined_pem"@,
        Setting::TlsCertificate => "tls_certificate"@,
        Setting::TlsPrivateKey => "tls_private_key"@,
        Setting::TlsTrustStore => "tls_trust_store"@,
        Setting::Deny => "deny"@,
        Setting::Permit => "permit"@,
        Setting::LocalNetwork => "localnet"@,
        Setting::ExternalAddress => "externip"@,
        Setting::ExternalHost => "externhost"@,
        Setting::ExternalRefresh => "externrefresh"@,
        Setting::Nat => "nat"@,
        Setting::SignalingTos => "sccp_tos"@,
        Setting::SignalingDscp => "sccp_dscp"@,
        Setting::SignalingCos => "sccp_cos"@,
        Setting::AudioTos => "audio_tos"@,
        Setting::AudioDscp => "audio_dscp"@,
        Setting::AudioCos => "audio_cos"@,
        Setting::VideoTos => "video_tos"@,
        Setting::VideoDscp => "video_dscp"@,
        Setting::VideoCos => "video_cos"@,
        Setting::TrustPhoneIp => "trust_phone_ip"@,
        Setting::ServerName => "server_name"@,
        Setting::Language => "language"@,
        Setting::AccountCode => "accountcode"@,
        Setting::Keepalive => "keepalive"@,
        Setting::SecondaryKeepalive => "secondary_keepalive"@,
        Setting::SignalingServer => "signaling_server"@,
        Setting::FirstDigitTimeout => "first_digit_timeout"@,
        Setting::InterdigitTimeoutMs => "interdigit_timeout_ms"@,
        Setting::DigitTimeout => "digit_timeout"@,
        Setting::DigitTimeoutChar => "digit_timeout_char"@,
        Setting::RecordDigitTimeoutChar => "record_digit_timeout_char"@,
        Setting::SimulateEnbloc => "simulate_enbloc"@,
        Setting::SpeedDialAwaitFurtherDigits => "speed_dial_await_further_digits"@,
        Setting::AllowOverlap => "allow_overlap"@,
        Setting::TransferOnHangup => "transfer_on_hangup"@,
        Setting::CallAnswerOrder => "call_answer_order"@,
        Setting::RingType => "ring_type"@,
        Setting::CallWaitingTone => "call_waiting_tone"@,
        Setting::CallWaitingInterval => "call_waiting_interval"@,
        Setting::Fallback => "fallback"@,
        Setting::BackoffTime => "backoff_time"@,
        Setting::ServerPriority => "server_priority"@,
        Setting::Allow => "allow"@,
        Setting::Disallow => "disallow"@,
        Setting::ConferenceEnabled => "meetme"@,
        Setting::ConferenceOptions => "meetmeopts"@,
        Setting::AutoanswerRingTime => "autoanswer_ring_time"@,
        Setting::AutoanswerTone => "autoanswer_tone"@,
        Setting::RemoteHangupTone => "remote_hangup_tone"@,
        Setting::HotlineEnabled => "hotline_enabled"@,
        Setting::HotlineExtension => "hotline_extension"@,
        Setting::HotlineContext => "hotline_context"@,
        Setting::HotlineLabel => "hotline_label"@,
        Setting::DirectMedia => "direct_media"@,
        Setting::EarlyMedia => "early_media"@,
        Setting::AudioEncryption => "audio_encryption"@,
        Setting::EchoCancel => "echocancel"@,
        Setting::SilenceSuppression => "silencesuppression"@,
        Setting::JbEnable => "jb_enable"@,
        Setting::JbForce => "jb_force"@,
        Setting::JbLog => "jb_log"@,
        Setting::JbMaxSize => "jb_max_size"@,
        Setting::JbResyncThreshold => "jb_resync_threshold"@,
        Setting::JbImplementation => "jb_implementation"@,
        Setting::RegistrationContext => "regcontext"@,
        Setting::DeviceTable => "device_table"@,
        Setting::LineTable => "line_table"@,
        Setting::Type => "type"@,
        Setting::Label => "label"@,
        Setting::Context => "context"@,
        Setting::CallerId => "callerid"@,
        Setting::IncomingLimit => "incoming_limit"@,
        Setting::SetVariable => "setvar"@,
        Setting::Mailbox => "mailbox"@,
        Setting::VoicemailNumber => "voicemail_number"@,
        Setting::VoicemailTransfer => "voicemail_transfer"@,
        Setting::CallGroup => "call_group"@,
        Setting::PickupGroup => "pickup_group"@,
        Setting::NamedCallGroup => "named_call_group"@,
        Setting::NamedPickupGroup => "named_pickup_group"@,
        Setting::DirectedPickup => "directed_pickup"@,
        Setting::DirectedPickupContext => "directed_pickup_context"@,
        Setting::PickupModeAnswer => "pickup_mode_answer"@,
        Setting::ParkingLot => "parkinglot"@,
        Setting::ConferenceNumber => "meetmenum"@,
        Setting::AdhocNumber => "adhoc_number"@,
        Setting::InitialDialtoneTone => "initial_dialtone_tone"@,
        Setting::SecondaryDialtoneDigits => "secondary_dialtone_digits"@,
        Setting::SecondaryDialtoneTone => "secondary_dialtone_tone"@,
        Setting::Pin => "pin"@,
        Setting::RegistrationExtension => "regexten"@,
        Setting::VideoMode => "video_mode"@,
        Setting::Description => "description"@,
        Setting::SoftkeyProfile => "softkey_profile"@,
        Setting::ForwardAllEnabled => "cfwdall"@,
        Setting::ForwardBusyEnabled => "cfwdbusy"@,
        Setting::ForwardNoAnswerEnabled => "cfwdnoanswer"@,
        Setting::ForwardNoAnswerTimeout => "forward_no_answer_timeout"@,
        Setting::ForwardAll => "forward_all"@,
        Setting::ForwardBusy => "forward_busy"@,
        Setting::ForwardNoAnswer => "forward_no_answer"@,
        Setting::DndFeature => "dnd_feature"@,
        Setting::Dnd => "dnd"@,
        Setting::PrivacyFeature => "privacy_feature"@,
        Setting::Privacy => "privacy"@,
        Setting::FeatureDefault => "feature_default"@,
        Setting::Park => "park"@,
        Setting::ConferenceAllow => "conf_allow"@,
        Setting::ConferenceMusicOnHoldClass => "conf_music_on_hold_class"@,
        Setting::ConferencePlayGeneralAnnounce => "conf_play_general_announce"@,
        Setting::ConferencePlayParticipantAnnounce => "conf_play_part_announce"@,
        Setting::ConferenceMuteOnEntry => "conf_mute_on_entry"@,
        Setting::ConferenceShowList => "conf_show_conflist"@,
        Setting::ConferenceDialingEnabled => "meetme"@,
        Setting::UseRedialMenu => "use_redial_menu"@,
        Setting::AllowRinginNotification => "allow_ringin_notification"@,
        Setting::MwiLamp => "mwi_lamp"@,
        Setting::MwiOnCall => "mwi_on_call"@,
        Setting::PhoneCodePage => "phone_code_page"@,
        Setting::ForceDtmfMode => "force_dtmf_mode"@,
        Setting::PermitHost => "permit_host"@,
        Setting::Transport => "transport"@,
        Setting::ObsoleteDtmfMode => "obsolete_dtmf_mode"@,
        Setting::Line => "line"@,
        Setting::Button => "button"@,
    }
}

/// The canonical spelling of an option.
pub fn serialized_key(s: Setting) -> (r: &'static str)
    ensures
        r@ == canonical_name(s),
{
    match s {
        Setting::DateFormat => "dateformat",
        Setting::TimezoneOffset => "tzoffset",
        Setting::Bind => "bind",
        Setting::BindAddress => "bind_address",
        Setting::Port => "port",
        Setting::AdvertisedAddress => "advertised_address",
        Setting::AdvertisedIpv4 => "advertised_ipv4",
        Setting::AdvertisedIpv6 => "advertised_ipv6",
        Setting::TlsBind => "tls_bind",
        Setting::TlsBindAddress => "tls_bind_address",
        Setting::TlsPort => "tls_port",
        Setting::TlsCombinedPem => "tls_combined_pem",
        Setting::TlsCertificate => "tls_certificate",
        Setting::TlsPrivateKey => "tls_private_key",
        Setting::TlsTrustStore => "tls_trust_store",
        Setting::Deny => "deny",
        Setting::Permit => "permit",
        Setting::LocalNetwork => "localnet",
        Setting::ExternalAddress => "externip",
        Setting::ExternalHost => "externhost",
        Setting::ExternalRefresh => "externrefresh",
        Setting::Nat => "nat",
        Setting::SignalingTos => "sccp_tos",
        Setting::SignalingDscp => "sccp_dscp",
        Setting::SignalingCos => "sccp_cos",
        Setting::AudioTos => "audio_tos",
        Setting::AudioDscp => "audio_dscp",
        Setting::AudioCos => "audio_cos",
        Setting::VideoTos => "video_tos",
        Setting::VideoDscp => "video_dscp",
        Setting::VideoCos => "video_cos",
        Setting::TrustPhoneIp => "trust_phone_ip",
        Setting::ServerName => "server_name",
        Setting::Language => "language",
        Setting::AccountCode => "accountcode",
        Setting::Keepalive => "keepalive",
        Setting::SecondaryKeepalive => "secondary_keepalive",
        Setting::SignalingServer => "signaling_server",
        Setting::FirstDigitTimeout => "first_digit_timeout",
        Setting::InterdigitTimeoutMs => "interdigit_timeout_ms",
        Setting::DigitTimeout => "digit_timeout",
        Setting::DigitTimeoutChar => "digit_timeout_char",
        Setting::RecordDigitTimeoutChar => "record_digit_timeout_char",
        Setting::SimulateEnbloc => "simulate_enbloc",
        Setting::SpeedDialAwaitFurtherDigits => "speed_dial_await_further_digits",
        Setting::AllowOverlap => "allow_overlap",
        Setting::TransferOnHangup => "transfer_on_hangup",
        Setting::CallAnswerOrder => "call_answer_order",
        Setting::RingType => "ring_type",
        Setting::CallWaitingTone => "call_waiting_tone",
        Setting::CallWaitingInterval => "call_waiting_interval",
        Setting::Fallback => "fallback",
        Setting::BackoffTime => "backoff_time",
        Setting::ServerPriority => "server_priority",
        Setting::Allow => "allow",
        Setting::Disallow => "disallow",
        Setting::ConferenceEnabled => "meetme",
        Setting::ConferenceOptions => "meetmeopts",
        Setting::AutoanswerRingTime => "autoanswer_ring_time",
        Setting::AutoanswerTone => "autoanswer_tone",
        Setting::RemoteHangupTone => "remote_hangup_tone",
        Setting::HotlineEnabled => "hotline_enabled",
        Setting::HotlineExtension => "hotline_extension",
        Setting::HotlineContext => "hotline_context",
        Setting::HotlineLabel => "hotline_label",
        Setting::DirectMedia => "direct_media",
        Setting::EarlyMedia => "early_media",
        Setting::AudioEncryption => "audio_encryption",
        Setting::EchoCancel => "echocancel",
        Setting::SilenceSuppression => "silencesuppression",
        Setting::JbEnable => "jb_enable",
        Setting::JbForce => "jb_force",
        Setting::JbLog => "jb_log",
        Setting::JbMaxSize => "jb_max_size",
        Setting::JbResyncThreshold => "jb_resync_threshold",
        Setting::JbImplementation => "jb_implementation",
        Setting::RegistrationContext => "regcontext",
        Setting::DeviceTable => "device_table",
        Setting::LineTable => "line_table",
        Setting::Type => "type",
        Setting::Label => "label",
        Setting::Context => "context",
        Setting::CallerId => "callerid",
        Setting::IncomingLimit => "incoming_limit",
        Setting::SetVariable => "setvar",
        Setting::Mailbox => "mailbox",
        Setting::VoicemailNumber => "voicemail_number",
        Setting::VoicemailTransfer => "voicemail_transfer",
        Setting::CallGroup => "call_group",
        Setting::PickupGroup => "pickup_group",
        Setting::NamedCallGroup => "named_call_group",
        Setting::NamedPickupGroup => "named_pickup_group",
        Setting::DirectedPickup => "directed_pickup",
        Setting::DirectedPickupContext => "directed_pickup_context",
        Setting::PickupModeAnswer => "pickup_mode_answer",
        Setting::ParkingLot => "parkinglot",
        Setting::ConferenceNumber => "meetmenum",
        Setting::AdhocNumber => "adhoc_number",
        Setting::InitialDialtoneTone => "initial_dialtone_tone",
        Setting::SecondaryDialtoneDigits => "secondary_dialtone_digits",
        Setting::SecondaryDialtoneTone => "secondary_dialtone_tone",
        Setting::Pin => "pin",
        Setting::RegistrationExtension => "regexten",
        Setting::VideoMode => "video_mode",
        Setting::Description => "description",
        Setting::SoftkeyProfile => "softkey_profile",
        Setting::ForwardAllEnabled => "cfwdall",
        Setting::ForwardBusyEnabled => "cfwdbusy",
        Setting::ForwardNoAnswerEnabled => "cfwdnoanswer",
        Setting::ForwardNoAnswerTimeout => "forward_no_answer_timeout",
        Setting::ForwardAll => "forward_all",
        Setting::ForwardBusy => "forward_busy",
        Setting::ForwardNoAnswer => "forward_no_answer",
        Setting::DndFeature => "dnd_feature",
        Setting::Dnd => "dnd",
        Setting::PrivacyFeature => "privacy_feature",
        Setting::Privacy => "privacy",
        Setting::FeatureDefault => "feature_default",
        Setting::Park => "park",
        Setting::ConferenceAllow => "conf_allow",
        Setting::ConferenceMusicOnHoldClass => "conf_music_on_hold_class",
        Setting::ConferencePlayGeneralAnnounce => "conf_play_general_announce",
        Setting::ConferencePlayParticipantAnnounce => "conf_play_part_announce",
        Setting::ConferenceMuteOnEntry => "conf_mute_on_entry",
        Setting::ConferenceShowList => "conf_show_conflist",
        Setting::ConferenceDialingEnabled => "meetme",
        Setting::UseRedialMenu => "use_redial_menu",
        Setting::AllowRinginNotification => "allow_ringin_notification",
        Setting::MwiLamp => "mwi_lamp",
        Setting::MwiOnCall => "mwi_on_call",
        Setting::PhoneCodePage => "phone_code_page",
        Setting::ForceDtmfMode => "force_dtmf_mode",
        Setting::PermitHost => "permit_host",
        Setting::Transport => "transport",
        Setting::ObsoleteDtmfMode => "obsolete_dtmf_mode",
        Setting::Line => "line",
        Setting::Button => "button",
    }
}

// ---------------------------------------------------------------------------
// Names whose values are not shown

/// Whether the value of an option of this reduced name is not shown.
pub open spec fn is_sensitive(name: text::Text) -> bool {
    name == "secret"@
        || name == "password"@
        || name == "authorization"@
        || name == "authtoken"@
        || name == "token"@
        || name == "key"@
        || name == "accountcode"@
        || name == "mobilitypin"@
        || name == "pin"@
        || name == "setvar"@
        || name == "forwardall"@
        || name == "forwardbusy"@
        || name == "forwardnoanswer"@
        || name == "hotlineextension"@
        || name == "vmnum"@
        || name == "voicemailnumber"@
        || name == "trnsfvm"@
        || name == "voicemailtransfer"@
        || name == "transfertovoicemail"@
        || name == "certfile"@
        || name == "tlscombinedpem"@
        || name == "tlsprivatekey"@
        || name == "tlsprivatekeyfile"@
        || name == "tlstruststore"@
        || name == "tlscafile"@
}

/// Whether the value of an option of this name is not shown.
pub open spec fn sensitive(key: text::Text) -> bool {
    is_sensitive(text::name_of(key))
}

/// Whether the value of an option of this name is not shown.
pub fn sensitive_option_name(key: &str) -> (r: bool)
    ensures
        r == sensitive(key@),
{
    let name = text::normalize_name(key);
    let n = name.as_str();
    text::same(n, "secret")
        || text::same(n, "password")
        || text::same(n, "authorization")
        || text::same(n, "authtoken")
        || text::same(n, "token")
        || text::same(n, "key")
        || text::same(n, "accountcode")
        || text::same(n, "mobilitypin")
        || text::same(n, "pin")
        || text::same(n, "setvar")
        || text::same(n, "forwardall")
        || text::same(n, "forwardbusy")
        || text::same(n, "forwardnoanswer")
        || text::same(n, "hotlineextension")
        || text::same(n, "vmnum")
        || text::same(n, "voicemailnumber")
        || text::same(n, "trnsfvm")
        || text::same(n, "voicemailtransfer")
        || text::same(n, "transfertovoicemail")
        || text::same(n, "certfile")
        || text::same(n, "tlscombinedpem")
        || text::same(n, "tlsprivatekey")
        || text::same(n, "tlsprivatekeyfile")
        || text::same(n, "tlstruststore")
        || text::same(n, "tlscafile")
}

/// Two spellings that differ in case or punctuation are equally sensitive.
pub proof fn law_sensitivity_ignores_spelling(a: text::Text, b: text::Text)
    requires
        text::name_of(a) == text::name_of(b),
    ensures
        sensitive(a) == sensitive(b),
{
}

// ---------------------------------------------------------------------------
// Decoding a section

/// A value as a diagnostic shows it.
pub open spec fn shown(v: section::RawValueView) -> text::Text {
    if sensitive(v.key) {
        "<redacted>"@
    } else {
        text::quoted(v.value)
    }
}

/// The refusal of a name that stands for nothing.
pub open spec fn unknown(scope: Scope, v: section::RawValueView) -> error::ErrorView {
    error::refused(
        section::place(v),
        shown(v) + "; unknown variant `"@ + text::lower(v.key) + "`, "@ + spellings(scope),
    )
}

/// The options of the settings from one on, after those already read.
pub open spec fn settings_from(
    scope: Scope,
    values: Seq<section::RawValueView>,
    i: int,
    list: Seq<Setting>,
) -> Result<Seq<Setting>, error::ErrorView>
    decreases values.len() - i,
{
    if i >= values.len() {
        Ok(list)
    } else {
        match named(scope, text::lower(values[i].key)) {
            Some(s) => settings_from(scope, values, i + 1, list.push(s)),
            None => Err(unknown(scope, values[i])),
        }
    }
}

/// A section with the option of each of its settings.
pub struct Options {
    pub section: RawSection,
    pub settings: Vec<Setting>,
}

pub struct OptionsView {
    pub section: section::RawSectionView,
    pub settings: Seq<Setting>,
}

impl DeepView for Options {
    type V = OptionsView;

    open spec fn deep_view(&self) -> OptionsView {
        OptionsView { section: self.section.deep_view(), settings: self.settings@ }
    }
}

/// One setting with its option.
pub struct TypedEntry<'a> {
    pub key: Setting,
    pub source: &'a RawValue,
}

pub struct TypedEntryView {
    pub key: Setting,
    pub source: section::RawValueView,
}

impl<'a> DeepView for TypedEntry<'a> {
    type V = TypedEntryView;

    open spec fn deep_view(&self) -> TypedEntryView {
        TypedEntryView { key: self.key, source: self.source.deep_view() }
    }
}

impl<'a> TypedEntry<'a> {
    pub fn value(&self) -> (r: &'a str)
        ensures
            r@ == self.deep_view().source.value,
    {
        self.source.value.as_str()
    }
}

impl Options {
    /// The setting of an index.
    pub fn entry(&self, i: usize) -> (r: TypedEntry<'_>)
        requires
            self.deep_view().matched(),
            i < self.settings@.len(),
        ensures
            r.deep_view().key == self.deep_view().settings[i as int],
            r.deep_view().source == self.deep_view().section.values[i as int],
    {
        assert(self.deep_view().section.values[i as int]
            == self.section.values@[i as int].deep_view());
        TypedEntry { key: self.settings[i], source: &self.section.values[i] }
    }
}

/// The options of a section.
pub open spec fn decoded(scope: Scope, s: section::RawSectionView) -> Result<
    OptionsView,
    error::ErrorView,
> {
    match settings_from(scope, s.values, 0, Seq::empty()) {
        Ok(settings) => Ok(OptionsView { section: s, settings }),
        Err(e) => Err(e),
    }
}

impl OptionsView {
    /// Every setting has an option.
    pub open spec fn matched(self) -> bool {
        self.settings.len() == self.section.values.len()
    }
}

/// Refuses a name that stands for nothing.
pub fn unknown_option(scope: Scope, v: &RawValue) -> (r: ConfigError)
    ensures
        r@ == unknown(scope, v.deep_view()),
{
    let mut value = if sensitive_option_name(v.key.as_str()) {
        text::copy("<redacted>")
    } else {
        text::quote(v.value.as_str())
    };
    value.append("; unknown variant `");
    value.append(text::to_ascii_lowercase(v.key.as_str()).as_str());
    value.append("`, ");
    value.append(expected_spellings(scope));
    ConfigError::InvalidValue { key: v.diagnostic_key(), value }
}

/// Decodes the options of a section, in order.
pub fn deserialize_entries(scope: Scope, s: &RawSection) -> (r: Result<Options, ConfigError>)
    ensures
        error::outcome(r) == decoded(scope, s.deep_view()),
        r matches Ok(o) ==> o.deep_view().matched(),
{
    let ghost all = s.values.deep_view();
    let mut settings: Vec<Setting> = Vec::new();
    let mut i: usize = 0;
    while i < s.values.len()
        invariant
            all == s.values.deep_view(),
            i <= s.values@.len(),
            settings@.len() == i,
            settings_from(scope, all, 0, Seq::empty()) == settings_from(
                scope,
                all,
                i as int,
                settings@,
            ),
        decreases s.values.len() - i,
    {
        assert(all[i as int] == s.values@[i as int].deep_view());
        let name = text::to_ascii_lowercase(s.values[i].key.as_str());
        match read_named(scope, name.as_str()) {
            Some(x) => {
                settings.push(x);
            },
            None => return Err(unknown_option(scope, &s.values[i])),
        }
        i += 1;
    }
    Ok(Options { section: s.clone(), settings })
}

} // verus!
