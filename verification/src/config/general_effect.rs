//! What the options of the general section do, option by option: which field a
//! setting sets, and what stands where an option is not set.

use vstd::prelude::*;

use crate::address;
use crate::address::{IpAddr, Ipv4Addr};
use crate::config::codec;
use crate::config::defaults;
use crate::config::error;
use crate::config::effect;
use crate::config::effect::{says, unset};
use crate::config::general;
use crate::config::network;
use crate::config::option;
use crate::config::option::{Scope, Setting};
use crate::config::policy;
use crate::config::policy::{
    CallAnswerOrder, FallbackDecision, JitterBufferImplementation, NatMode,
};
use crate::config::registration;
use crate::config::rules;
use crate::config::section;
use crate::config::setting;
use crate::config::spelling;
use crate::config::tone;
use crate::config::value;
use crate::number;
use crate::station::{RingerMode, Tone};
use crate::text;

verus! {

/// The option that a name in lower case stands for.
#[verifier::opaque]
spec fn meaning_of(n: text::Text) -> Option<Setting> {
    option::general_named(n)
}

/// The options of an accepted section.
#[verifier::opaque]
spec fn is_accepted(s: section::RawSectionView, w: rules::LayerRulesView, o: option::OptionsView) -> bool {
    &&& option::decoded(Scope::General, s) == Ok::<option::OptionsView, error::ErrorView>(o)
    &&& o.matched()
    &&& o.section == s
    &&& value::first_fault(o, 0, w) is None
    &&& general::general_of(o, w) is Ok
    &&& general::general_of(o, w) == general::general_setting(s, w)
}

/// What the options of an accepted section say.
#[verifier::opaque]
spec fn said(o: option::OptionsView, w: rules::LayerRulesView) -> policy::GeneralConfigView {
    general::general_of(o, w)->Ok_0
}

/// A setting that its option is found by, and that is not refused.
#[verifier::opaque]
spec fn is_set(o: option::OptionsView, w: rules::LayerRulesView, k: Setting, x: section::RawValueView) -> bool {
    &&& general::general_of(o, w) is Ok
    &&& !value::repeats(k) ==> {
        &&& value::found(o, k) == Some(x)
        &&& value::value_fault(k, section::place(x), x.value, w) is None
    }
}

/// An option that is not set.
#[verifier::opaque]
spec fn is_absent(o: option::OptionsView, w: rules::LayerRulesView, k: Setting) -> bool {
    general::general_of(o, w) is Ok && value::found(o, k) is None
}

/// The names of the options.
proof fn lemma_forth(n: text::Text)
    ensures
        n == "dateformat"@ ==> meaning_of(n) == Some(Setting::DateFormat),
        n == "tzoffset"@ ==> meaning_of(n) == Some(Setting::TimezoneOffset),
        n == "bind"@ || n == "clearbind"@ ==> meaning_of(n) == Some(Setting::Bind),
        n == "bind_address"@ || n == "bindaddr"@ || n == "clearbindaddr"@ ==> meaning_of(n) == Some(Setting::BindAddress),
        n == "clearport"@ || n == "port"@ ==> meaning_of(n) == Some(Setting::Port),
        n == "advertised_address"@ ==> meaning_of(n) == Some(Setting::AdvertisedAddress),
        n == "advertised_ipv4"@ || n == "advertisedaddressipv4"@ ==> meaning_of(n) == Some(Setting::AdvertisedIpv4),
        n == "advertised_ipv6"@ || n == "advertisedaddressipv6"@ ==> meaning_of(n) == Some(Setting::AdvertisedIpv6),
        n == "securebind"@ || n == "tls_bind"@ ==> meaning_of(n) == Some(Setting::TlsBind),
        n == "secbindaddr"@ || n == "tls_bind_address"@ || n == "tlsbindaddr"@ ==> meaning_of(n) == Some(Setting::TlsBindAddress),
        n == "secport"@ || n == "tls_port"@ || n == "tlsport"@ ==> meaning_of(n) == Some(Setting::TlsPort),
        n == "certfile"@ || n == "tls_combined_pem"@ || n == "tlscombinedpem"@ ==> meaning_of(n) == Some(Setting::TlsCombinedPem),
        n == "tls_certificate"@ || n == "tlscertificatefile"@ ==> meaning_of(n) == Some(Setting::TlsCertificate),
        n == "tls_private_key"@ || n == "tlsprivatekeyfile"@ ==> meaning_of(n) == Some(Setting::TlsPrivateKey),
        n == "tls_trust_store"@ || n == "tlscafile"@ ==> meaning_of(n) == Some(Setting::TlsTrustStore),
        n == "deny"@ ==> meaning_of(n) == Some(Setting::Deny),
        n == "permit"@ ==> meaning_of(n) == Some(Setting::Permit),
        n == "localnet"@ ==> meaning_of(n) == Some(Setting::LocalNetwork),
        n == "externaladdress"@ || n == "externip"@ ==> meaning_of(n) == Some(Setting::ExternalAddress),
        n == "externalhost"@ || n == "externhost"@ ==> meaning_of(n) == Some(Setting::ExternalHost),
        n == "externalrefresh"@ || n == "externrefresh"@ ==> meaning_of(n) == Some(Setting::ExternalRefresh),
        n == "nat"@ ==> meaning_of(n) == Some(Setting::Nat),
        n == "sccp_tos"@ || n == "signalingtos"@ ==> meaning_of(n) == Some(Setting::SignalingTos),
        n == "sccp_dscp"@ || n == "sccpdscp"@ || n == "signaling_dscp"@ || n == "signalingdscp"@ ==> meaning_of(n) == Some(Setting::SignalingDscp),
        n == "sccp_cos"@ || n == "signaling_cos"@ || n == "signalingcos"@ ==> meaning_of(n) == Some(Setting::SignalingCos),
        n == "audio_tos"@ || n == "audiotos"@ ==> meaning_of(n) == Some(Setting::AudioTos),
        n == "audio_dscp"@ || n == "audiodscp"@ ==> meaning_of(n) == Some(Setting::AudioDscp),
        n == "audio_cos"@ || n == "audiocos"@ ==> meaning_of(n) == Some(Setting::AudioCos),
        n == "video_tos"@ || n == "videotos"@ ==> meaning_of(n) == Some(Setting::VideoTos),
        n == "video_dscp"@ || n == "videodscp"@ ==> meaning_of(n) == Some(Setting::VideoDscp),
        n == "video_cos"@ || n == "videocos"@ ==> meaning_of(n) == Some(Setting::VideoCos),
        n == "trust_phone_ip"@ || n == "trustphoneip"@ ==> meaning_of(n) == Some(Setting::TrustPhoneIp),
        n == "server_name"@ || n == "servername"@ ==> meaning_of(n) == Some(Setting::ServerName),
        n == "language"@ ==> meaning_of(n) == Some(Setting::Language),
        n == "accountcode"@ ==> meaning_of(n) == Some(Setting::AccountCode),
        n == "keepalive"@ ==> meaning_of(n) == Some(Setting::Keepalive),
        n == "secondary_keepalive"@ ==> meaning_of(n) == Some(Setting::SecondaryKeepalive),
        n == "signaling_server"@ ==> meaning_of(n) == Some(Setting::SignalingServer),
        n == "first_digit_timeout"@ || n == "firstdigittimeout"@ ==> meaning_of(n) == Some(Setting::FirstDigitTimeout),
        n == "interdigit_timeout_ms"@ ==> meaning_of(n) == Some(Setting::InterdigitTimeoutMs),
        n == "digit_timeout"@ || n == "digittimeout"@ ==> meaning_of(n) == Some(Setting::DigitTimeout),
        n == "digit_timeout_char"@ || n == "digittimeoutchar"@ ==> meaning_of(n) == Some(Setting::DigitTimeoutChar),
        n == "record_digit_timeout_char"@ || n == "recorddigittimeoutchar"@ ==> meaning_of(n) == Some(Setting::RecordDigitTimeoutChar),
        n == "simulate_enbloc"@ ==> meaning_of(n) == Some(Setting::SimulateEnbloc),
        n == "speed_dial_await_further_digits"@ || n == "speeddialawaitfurtherdigits"@ ==> meaning_of(n) == Some(Setting::SpeedDialAwaitFurtherDigits),
        n == "allow_overlap"@ || n == "allowoverlap"@ ==> meaning_of(n) == Some(Setting::AllowOverlap),
        n == "transfer_on_hangup"@ ==> meaning_of(n) == Some(Setting::TransferOnHangup),
        n == "call_answer_order"@ || n == "callanswerorder"@ ==> meaning_of(n) == Some(Setting::CallAnswerOrder),
        n == "ring_type"@ || n == "ringtype"@ ==> meaning_of(n) == Some(Setting::RingType),
        n == "call_waiting_tone"@ || n == "callwaitingtone"@ ==> meaning_of(n) == Some(Setting::CallWaitingTone),
        n == "call_waiting_interval"@ || n == "callwaitinginterval"@ ==> meaning_of(n) == Some(Setting::CallWaitingInterval),
        n == "fallback"@ ==> meaning_of(n) == Some(Setting::Fallback),
        n == "backoff_time"@ ==> meaning_of(n) == Some(Setting::BackoffTime),
        n == "server_priority"@ ==> meaning_of(n) == Some(Setting::ServerPriority),
        n == "allow"@ ==> meaning_of(n) == Some(Setting::Allow),
        n == "disallow"@ ==> meaning_of(n) == Some(Setting::Disallow),
        n == "meetme"@ ==> meaning_of(n) == Some(Setting::ConferenceEnabled),
        n == "meetmeopts"@ ==> meaning_of(n) == Some(Setting::ConferenceOptions),
        n == "autoanswer_ring_time"@ || n == "autoanswerringtime"@ ==> meaning_of(n) == Some(Setting::AutoanswerRingTime),
        n == "autoanswer_tone"@ || n == "autoanswertone"@ ==> meaning_of(n) == Some(Setting::AutoanswerTone),
        n == "remote_hangup_tone"@ || n == "remotehangup_tone"@ ==> meaning_of(n) == Some(Setting::RemoteHangupTone),
        n == "hotline_enabled"@ || n == "hotlineenabled"@ ==> meaning_of(n) == Some(Setting::HotlineEnabled),
        n == "hotline_extension"@ || n == "hotlineextension"@ ==> meaning_of(n) == Some(Setting::HotlineExtension),
        n == "hotline_context"@ || n == "hotlinecontext"@ ==> meaning_of(n) == Some(Setting::HotlineContext),
        n == "hotline_label"@ || n == "hotlinelabel"@ ==> meaning_of(n) == Some(Setting::HotlineLabel),
        n == "direct_media"@ || n == "directrtp"@ ==> meaning_of(n) == Some(Setting::DirectMedia),
        n == "early_media"@ || n == "earlyrtp"@ ==> meaning_of(n) == Some(Setting::EarlyMedia),
        n == "audio_encryption"@ || n == "audioencryption"@ ==> meaning_of(n) == Some(Setting::AudioEncryption),
        n == "echocancel"@ ==> meaning_of(n) == Some(Setting::EchoCancel),
        n == "silencesuppression"@ ==> meaning_of(n) == Some(Setting::SilenceSuppression),
        n == "jb_enable"@ || n == "jbenable"@ ==> meaning_of(n) == Some(Setting::JbEnable),
        n == "jb_force"@ || n == "jbforce"@ ==> meaning_of(n) == Some(Setting::JbForce),
        n == "jb_log"@ || n == "jblog"@ ==> meaning_of(n) == Some(Setting::JbLog),
        n == "jb_max_size"@ || n == "jbmaxsize"@ ==> meaning_of(n) == Some(Setting::JbMaxSize),
        n == "jb_resync_threshold"@ || n == "jbresyncthreshold"@ ==> meaning_of(n) == Some(Setting::JbResyncThreshold),
        n == "jb_implementation"@ || n == "jbimpl"@ ==> meaning_of(n) == Some(Setting::JbImplementation),
        n == "regcontext"@ ==> meaning_of(n) == Some(Setting::RegistrationContext),
        n == "device_table"@ || n == "devicetable"@ ==> meaning_of(n) == Some(Setting::DeviceTable),
        n == "line_table"@ || n == "linetable"@ ==> meaning_of(n) == Some(Setting::LineTable),
{
    reveal(meaning_of);
    spelling::lemma_general_spellings();
}

/// The options go by no other names.
proof fn lemma_back(n: text::Text)
    ensures
        meaning_of(n) == Some(Setting::DateFormat) ==> n == "dateformat"@,
        meaning_of(n) == Some(Setting::TimezoneOffset) ==> n == "tzoffset"@,
        meaning_of(n) == Some(Setting::Bind) ==> n == "bind"@ || n == "clearbind"@,
        meaning_of(n) == Some(Setting::BindAddress) ==> n == "bind_address"@ || n == "bindaddr"@ || n == "clearbindaddr"@,
        meaning_of(n) == Some(Setting::Port) ==> n == "clearport"@ || n == "port"@,
        meaning_of(n) == Some(Setting::AdvertisedAddress) ==> n == "advertised_address"@,
        meaning_of(n) == Some(Setting::AdvertisedIpv4) ==> n == "advertised_ipv4"@ || n == "advertisedaddressipv4"@,
        meaning_of(n) == Some(Setting::AdvertisedIpv6) ==> n == "advertised_ipv6"@ || n == "advertisedaddressipv6"@,
        meaning_of(n) == Some(Setting::TlsBind) ==> n == "securebind"@ || n == "tls_bind"@,
        meaning_of(n) == Some(Setting::TlsBindAddress) ==> n == "secbindaddr"@ || n == "tls_bind_address"@ || n == "tlsbindaddr"@,
        meaning_of(n) == Some(Setting::TlsPort) ==> n == "secport"@ || n == "tls_port"@ || n == "tlsport"@,
        meaning_of(n) == Some(Setting::TlsCombinedPem) ==> n == "certfile"@ || n == "tls_combined_pem"@ || n == "tlscombinedpem"@,
        meaning_of(n) == Some(Setting::TlsCertificate) ==> n == "tls_certificate"@ || n == "tlscertificatefile"@,
        meaning_of(n) == Some(Setting::TlsPrivateKey) ==> n == "tls_private_key"@ || n == "tlsprivatekeyfile"@,
        meaning_of(n) == Some(Setting::TlsTrustStore) ==> n == "tls_trust_store"@ || n == "tlscafile"@,
        meaning_of(n) == Some(Setting::Deny) ==> n == "deny"@,
        meaning_of(n) == Some(Setting::Permit) ==> n == "permit"@,
        meaning_of(n) == Some(Setting::LocalNetwork) ==> n == "localnet"@,
        meaning_of(n) == Some(Setting::ExternalAddress) ==> n == "externaladdress"@ || n == "externip"@,
        meaning_of(n) == Some(Setting::ExternalHost) ==> n == "externalhost"@ || n == "externhost"@,
        meaning_of(n) == Some(Setting::ExternalRefresh) ==> n == "externalrefresh"@ || n == "externrefresh"@,
        meaning_of(n) == Some(Setting::Nat) ==> n == "nat"@,
        meaning_of(n) == Some(Setting::SignalingTos) ==> n == "sccp_tos"@ || n == "signalingtos"@,
        meaning_of(n) == Some(Setting::SignalingDscp) ==> n == "sccp_dscp"@ || n == "sccpdscp"@ || n == "signaling_dscp"@ || n == "signalingdscp"@,
        meaning_of(n) == Some(Setting::SignalingCos) ==> n == "sccp_cos"@ || n == "signaling_cos"@ || n == "signalingcos"@,
        meaning_of(n) == Some(Setting::AudioTos) ==> n == "audio_tos"@ || n == "audiotos"@,
        meaning_of(n) == Some(Setting::AudioDscp) ==> n == "audio_dscp"@ || n == "audiodscp"@,
        meaning_of(n) == Some(Setting::AudioCos) ==> n == "audio_cos"@ || n == "audiocos"@,
        meaning_of(n) == Some(Setting::VideoTos) ==> n == "video_tos"@ || n == "videotos"@,
        meaning_of(n) == Some(Setting::VideoDscp) ==> n == "video_dscp"@ || n == "videodscp"@,
        meaning_of(n) == Some(Setting::VideoCos) ==> n == "video_cos"@ || n == "videocos"@,
        meaning_of(n) == Some(Setting::TrustPhoneIp) ==> n == "trust_phone_ip"@ || n == "trustphoneip"@,
        meaning_of(n) == Some(Setting::ServerName) ==> n == "server_name"@ || n == "servername"@,
        meaning_of(n) == Some(Setting::Language) ==> n == "language"@,
        meaning_of(n) == Some(Setting::AccountCode) ==> n == "accountcode"@,
        meaning_of(n) == Some(Setting::Keepalive) ==> n == "keepalive"@,
        meaning_of(n) == Some(Setting::SecondaryKeepalive) ==> n == "secondary_keepalive"@,
        meaning_of(n) == Some(Setting::SignalingServer) ==> n == "signaling_server"@,
        meaning_of(n) == Some(Setting::FirstDigitTimeout) ==> n == "first_digit_timeout"@ || n == "firstdigittimeout"@,
        meaning_of(n) == Some(Setting::InterdigitTimeoutMs) ==> n == "interdigit_timeout_ms"@,
        meaning_of(n) == Some(Setting::DigitTimeout) ==> n == "digit_timeout"@ || n == "digittimeout"@,
        meaning_of(n) == Some(Setting::DigitTimeoutChar) ==> n == "digit_timeout_char"@ || n == "digittimeoutchar"@,
        meaning_of(n) == Some(Setting::RecordDigitTimeoutChar) ==> n == "record_digit_timeout_char"@ || n == "recorddigittimeoutchar"@,
        meaning_of(n) == Some(Setting::SimulateEnbloc) ==> n == "simulate_enbloc"@,
        meaning_of(n) == Some(Setting::SpeedDialAwaitFurtherDigits) ==> n == "speed_dial_await_further_digits"@ || n == "speeddialawaitfurtherdigits"@,
        meaning_of(n) == Some(Setting::AllowOverlap) ==> n == "allow_overlap"@ || n == "allowoverlap"@,
        meaning_of(n) == Some(Setting::TransferOnHangup) ==> n == "transfer_on_hangup"@,
        meaning_of(n) == Some(Setting::CallAnswerOrder) ==> n == "call_answer_order"@ || n == "callanswerorder"@,
        meaning_of(n) == Some(Setting::RingType) ==> n == "ring_type"@ || n == "ringtype"@,
        meaning_of(n) == Some(Setting::CallWaitingTone) ==> n == "call_waiting_tone"@ || n == "callwaitingtone"@,
        meaning_of(n) == Some(Setting::CallWaitingInterval) ==> n == "call_waiting_interval"@ || n == "callwaitinginterval"@,
        meaning_of(n) == Some(Setting::Fallback) ==> n == "fallback"@,
        meaning_of(n) == Some(Setting::BackoffTime) ==> n == "backoff_time"@,
        meaning_of(n) == Some(Setting::ServerPriority) ==> n == "server_priority"@,
        meaning_of(n) == Some(Setting::Allow) ==> n == "allow"@,
        meaning_of(n) == Some(Setting::Disallow) ==> n == "disallow"@,
        meaning_of(n) == Some(Setting::ConferenceEnabled) ==> n == "meetme"@,
        meaning_of(n) == Some(Setting::ConferenceOptions) ==> n == "meetmeopts"@,
        meaning_of(n) == Some(Setting::AutoanswerRingTime) ==> n == "autoanswer_ring_time"@ || n == "autoanswerringtime"@,
        meaning_of(n) == Some(Setting::AutoanswerTone) ==> n == "autoanswer_tone"@ || n == "autoanswertone"@,
        meaning_of(n) == Some(Setting::RemoteHangupTone) ==> n == "remote_hangup_tone"@ || n == "remotehangup_tone"@,
        meaning_of(n) == Some(Setting::HotlineEnabled) ==> n == "hotline_enabled"@ || n == "hotlineenabled"@,
        meaning_of(n) == Some(Setting::HotlineExtension) ==> n == "hotline_extension"@ || n == "hotlineextension"@,
        meaning_of(n) == Some(Setting::HotlineContext) ==> n == "hotline_context"@ || n == "hotlinecontext"@,
        meaning_of(n) == Some(Setting::HotlineLabel) ==> n == "hotline_label"@ || n == "hotlinelabel"@,
        meaning_of(n) == Some(Setting::DirectMedia) ==> n == "direct_media"@ || n == "directrtp"@,
        meaning_of(n) == Some(Setting::EarlyMedia) ==> n == "early_media"@ || n == "earlyrtp"@,
        meaning_of(n) == Some(Setting::AudioEncryption) ==> n == "audio_encryption"@ || n == "audioencryption"@,
        meaning_of(n) == Some(Setting::EchoCancel) ==> n == "echocancel"@,
        meaning_of(n) == Some(Setting::SilenceSuppression) ==> n == "silencesuppression"@,
        meaning_of(n) == Some(Setting::JbEnable) ==> n == "jb_enable"@ || n == "jbenable"@,
        meaning_of(n) == Some(Setting::JbForce) ==> n == "jb_force"@ || n == "jbforce"@,
        meaning_of(n) == Some(Setting::JbLog) ==> n == "jb_log"@ || n == "jblog"@,
        meaning_of(n) == Some(Setting::JbMaxSize) ==> n == "jb_max_size"@ || n == "jbmaxsize"@,
        meaning_of(n) == Some(Setting::JbResyncThreshold) ==> n == "jb_resync_threshold"@ || n == "jbresyncthreshold"@,
        meaning_of(n) == Some(Setting::JbImplementation) ==> n == "jb_implementation"@ || n == "jbimpl"@,
        meaning_of(n) == Some(Setting::RegistrationContext) ==> n == "regcontext"@,
        meaning_of(n) == Some(Setting::DeviceTable) ==> n == "device_table"@ || n == "devicetable"@,
        meaning_of(n) == Some(Setting::LineTable) ==> n == "line_table"@ || n == "linetable"@,
{
    reveal(meaning_of);
}

/// What an accepted section is made of.
proof fn lemma_accepted(s: section::RawSectionView, w: rules::LayerRulesView) -> (o: option::OptionsView)
    requires
        general::general_setting(s, w) is Ok,
    ensures
        is_accepted(s, w, o),
        said(o, w) == general::general_setting(s, w)->Ok_0,
        forall|i: int|
            0 <= i < s.values.len() ==> meaning_of(text::lower((#[trigger] s.values[i]).key))
                == Some(o.settings[i]),
        forall|i: int|
            0 <= i < s.values.len() ==> is_set(o, w, #[trigger] o.settings[i], s.values[i]),
{
    reveal(is_accepted);
    reveal(said);
    reveal(meaning_of);
    reveal(is_set);
    effect::lemma_decoded(Scope::General, s);
    let o = option::decoded(Scope::General, s)->Ok_0;
    assert forall|i: int| 0 <= i < s.values.len() implies is_set(
        o,
        w,
        #[trigger] o.settings[i],
        s.values[i],
    ) by {
        if !value::repeats(o.settings[i]) {
            effect::lemma_none_refused(o, w, i, 0);
            effect::lemma_found_is(o, w, i);
        }
    }
    o
}

/// An option that excludes the option of a setting is not set beside it.
proof fn lemma_no_twin(
    s: section::RawSectionView,
    w: rules::LayerRulesView,
    o: option::OptionsView,
    i: int,
    x: Setting,
)
    requires
        is_accepted(s, w, o),
        0 <= i < s.values.len(),
        !value::repeats(o.settings[i]),
        !value::repeats(x),
        value::excludes(o.settings[i], x),
        value::excludes(x, o.settings[i]),
        x != o.settings[i],
        x != Setting::SetVariable,
    ensures
        is_absent(o, w, x),
{
    reveal(is_accepted);
    reveal(is_absent);
    assert forall|j: int| 0 <= j < o.settings.len() implies #[trigger] o.settings[j] != x by {
        if o.settings[j] == x {
            effect::lemma_none_refused(o, w, i, 0);
            effect::lemma_none_refused(o, w, j, 0);
            if j < i {
                assert(value::is_excluded(o.settings, i));
            } else {
                assert(value::excludes(o.settings[j], o.settings[i]));
                assert(value::is_excluded(o.settings, j));
            }
        }
    }
    effect::lemma_not_found(o, x);
}

/// An option whose names no setting has is not set.
proof fn lemma_absent(s: section::RawSectionView, w: rules::LayerRulesView, o: option::OptionsView, x: Setting)
    requires
        is_accepted(s, w, o),
        forall|i: int|
            0 <= i < s.values.len() ==> meaning_of(text::lower((#[trigger] s.values[i]).key))
                != Some(x),
    ensures
        is_absent(o, w, x),
{
    reveal(is_accepted);
    reveal(is_absent);
    reveal(meaning_of);
    effect::lemma_decoded(Scope::General, s);
    assert forall|i: int| 0 <= i < o.settings.len() implies #[trigger] o.settings[i] != x by {
        assert(option::general_named(text::lower(s.values[i].key)) == Some(o.settings[i]));
    }
    effect::lemma_not_found(o, x);
}

// ---------------------------------------------------------------------------
// Dates, names and languages

/// Dates, names and languages: a setting sets its own field, under each name of its option.
pub proof fn law_general_dates_and_names_are_set(
    s: section::RawSectionView,
    w: rules::LayerRulesView,
    i: int,
)
    requires
        general::general_setting(s, w) is Ok,
        0 <= i < s.values.len(),
    ensures
        ({
            let g = general::general_setting(s, w)->Ok_0;
            let k = text::lower(s.values[i].key);
            let v = s.values[i].value;
            let p = section::place(s.values[i]);
            &&& k == "dateformat"@ ==> {
                &&& g.date_template.template == text::trimmed(v)
                &&& rules::reason_for(w.refused_dates, text::trimmed(v)) is None
            }
            &&& k == "tzoffset"@ ==> {
                &&& number::i16_of(text::trimmed(v)) is Some
                &&& -14 <= number::i16_of(text::trimmed(v))->0 <= 14
                &&& g.timezone_offset_minutes == number::i16_of(text::trimmed(v))->0 * 60
            }
            &&& k == "server_name"@ || k == "servername"@ ==> {
                &&& g.server_name == v
            }
            &&& k == "language"@ ==> {
                &&& g.language == text::trimmed(v)
            }
            &&& k == "accountcode"@ ==> {
                &&& g.account_code == if text::trimmed(v).len() == 0 { None::<text::Text> } else { Some(text::trimmed(v)) }
            }
            &&& k == "regcontext"@ ==> {
                &&& value::value_in(registration::contexts_setting(p, v)) == Some(g.registration.contexts)
            }
        }),
{
    let o = lemma_accepted(s, w);
    lemma_dates_and_names_of(s, w, o, i);
}

proof fn lemma_dates_and_names_of(
    s: section::RawSectionView,
    w: rules::LayerRulesView,
    o: option::OptionsView,
    i: int,
)
    requires
        is_accepted(s, w, o),
        0 <= i < s.values.len(),
        meaning_of(text::lower(s.values[i].key)) == Some(o.settings[i]),
        is_set(o, w, o.settings[i], s.values[i]),
    ensures
        ({
            let g = said(o, w);
            let k = text::lower(s.values[i].key);
            let v = s.values[i].value;
            let p = section::place(s.values[i]);
            &&& k == "dateformat"@ ==> {
                &&& g.date_template.template == text::trimmed(v)
                &&& rules::reason_for(w.refused_dates, text::trimmed(v)) is None
            }
            &&& k == "tzoffset"@ ==> {
                &&& number::i16_of(text::trimmed(v)) is Some
                &&& -14 <= number::i16_of(text::trimmed(v))->0 <= 14
                &&& g.timezone_offset_minutes == number::i16_of(text::trimmed(v))->0 * 60
            }
            &&& k == "server_name"@ || k == "servername"@ ==> {
                &&& g.server_name == v
            }
            &&& k == "language"@ ==> {
                &&& g.language == text::trimmed(v)
            }
            &&& k == "accountcode"@ ==> {
                &&& g.account_code == if text::trimmed(v).len() == 0 { None::<text::Text> } else { Some(text::trimmed(v)) }
            }
            &&& k == "regcontext"@ ==> {
                &&& value::value_in(registration::contexts_setting(p, v)) == Some(g.registration.contexts)
            }
        }),
{
    let k = text::lower(s.values[i].key);
    lemma_dates_and_names_forth(k);
    lemma_dates_and_names_said(s, w, o);
    if k == "dateformat"@ {
        lemma_date_format(o, w, s.values[i]);
    }
    if k == "tzoffset"@ {
        lemma_timezone_offset(o, w, s.values[i]);
    }
    if k == "server_name"@ || k == "servername"@ {
        lemma_server_name(o, w, s.values[i]);
    }
    if k == "language"@ {
        lemma_language(o, w, s.values[i]);
    }
    if k == "accountcode"@ {
        lemma_account_code(o, w, s.values[i]);
    }
    if k == "regcontext"@ {
        lemma_registration_context(o, w, s.values[i]);
    }
}

proof fn lemma_dates_and_names_forth(n: text::Text)
    ensures
        n == "dateformat"@ ==> meaning_of(n) == Some(Setting::DateFormat),
        n == "tzoffset"@ ==> meaning_of(n) == Some(Setting::TimezoneOffset),
        n == "server_name"@ || n == "servername"@ ==> meaning_of(n) == Some(Setting::ServerName),
        n == "language"@ ==> meaning_of(n) == Some(Setting::Language),
        n == "accountcode"@ ==> meaning_of(n) == Some(Setting::AccountCode),
        n == "regcontext"@ ==> meaning_of(n) == Some(Setting::RegistrationContext),
{
    lemma_forth(n);
}

/// Where these fields come from.
proof fn lemma_dates_and_names_said(s: section::RawSectionView, w: rules::LayerRulesView, o: option::OptionsView)
    requires
        is_accepted(s, w, o),
    ensures
        said(o, w).date_template == network::over(value::date_at(o, Setting::DateFormat, w), defaults::default_date_template()),
        said(o, w).timezone_offset_minutes == network::over(value::timezone_at(o, Setting::TimezoneOffset), 0),
        said(o, w).server_name == general::server_name_of(o),
        said(o, w).language == network::over(value::language_at(o, Setting::Language, w), "en"@),
        said(o, w).account_code == network::over(value::account_at(o, Setting::AccountCode, w), None),
        said(o, w).registration.contexts == network::over(value::contexts_at(o, Setting::RegistrationContext), Seq::empty()),
{
    reveal(is_accepted);
    reveal(said);
}

proof fn lemma_date_format(o: option::OptionsView, w: rules::LayerRulesView, x: section::RawValueView)
    requires
        is_set(o, w, Setting::DateFormat, x),
        said(o, w).date_template == network::over(value::date_at(o, Setting::DateFormat, w), defaults::default_date_template()),
    ensures
        ({
            let g = said(o, w);
            let v = x.value;
            let p = section::place(x);
            &&& g.date_template.template == text::trimmed(v)
            &&& rules::reason_for(w.refused_dates, text::trimmed(v)) is None
        }),
{
    reveal(is_set);
}

proof fn lemma_timezone_offset(o: option::OptionsView, w: rules::LayerRulesView, x: section::RawValueView)
    requires
        is_set(o, w, Setting::TimezoneOffset, x),
        said(o, w).timezone_offset_minutes == network::over(value::timezone_at(o, Setting::TimezoneOffset), 0),
    ensures
        ({
            let g = said(o, w);
            let v = x.value;
            let p = section::place(x);
            &&& number::i16_of(text::trimmed(v)) is Some
            &&& -14 <= number::i16_of(text::trimmed(v))->0 <= 14
            &&& g.timezone_offset_minutes == number::i16_of(text::trimmed(v))->0 * 60
        }),
{
    reveal(is_set);
}

proof fn lemma_server_name(o: option::OptionsView, w: rules::LayerRulesView, x: section::RawValueView)
    requires
        is_set(o, w, Setting::ServerName, x),
        said(o, w).server_name == general::server_name_of(o),
    ensures
        ({
            let g = said(o, w);
            let v = x.value;
            let p = section::place(x);
            &&& g.server_name == v
        }),
{
    reveal(is_set);
}

proof fn lemma_language(o: option::OptionsView, w: rules::LayerRulesView, x: section::RawValueView)
    requires
        is_set(o, w, Setting::Language, x),
        said(o, w).language == network::over(value::language_at(o, Setting::Language, w), "en"@),
    ensures
        ({
            let g = said(o, w);
            let v = x.value;
            let p = section::place(x);
            &&& g.language == text::trimmed(v)
        }),
{
    reveal(is_set);
}

proof fn lemma_account_code(o: option::OptionsView, w: rules::LayerRulesView, x: section::RawValueView)
    requires
        is_set(o, w, Setting::AccountCode, x),
        said(o, w).account_code == network::over(value::account_at(o, Setting::AccountCode, w), None),
    ensures
        ({
            let g = said(o, w);
            let v = x.value;
            let p = section::place(x);
            &&& g.account_code == if text::trimmed(v).len() == 0 { None::<text::Text> } else { Some(text::trimmed(v)) }
        }),
{
    reveal(is_set);
}

proof fn lemma_registration_context(o: option::OptionsView, w: rules::LayerRulesView, x: section::RawValueView)
    requires
        is_set(o, w, Setting::RegistrationContext, x),
        said(o, w).registration.contexts == network::over(value::contexts_at(o, Setting::RegistrationContext), Seq::empty()),
    ensures
        ({
            let g = said(o, w);
            let v = x.value;
            let p = section::place(x);
            &&& value::value_in(registration::contexts_setting(p, v)) == Some(g.registration.contexts)
        }),
{
    reveal(is_set);
}

/// Dates, names and languages: what stands where an option is not set.
pub proof fn law_general_dates_and_names_have_defaults(s: section::RawSectionView, w: rules::LayerRulesView)
    requires
        general::general_setting(s, w) is Ok,
    ensures
        ({
            let g = general::general_setting(s, w)->Ok_0;
            &&& unset(s, "dateformat"@) ==> (g.date_template.template == "D/M/Y"@)
            &&& unset(s, "tzoffset"@) ==> (g.timezone_offset_minutes == 0)
            &&& unset(s, "server_name"@) && unset(s, "servername"@) ==> (g.server_name == "Asterisk SCCP"@)
            &&& unset(s, "language"@) ==> (g.language == "en"@)
            &&& unset(s, "accountcode"@) ==> (g.account_code is None)
            &&& unset(s, "regcontext"@) ==> (g.registration.contexts.len() == 0)
        }),
{
    let o = lemma_accepted(s, w);
    lemma_dates_and_names_without(s, w, o);
}

proof fn lemma_dates_and_names_without(s: section::RawSectionView, w: rules::LayerRulesView, o: option::OptionsView)
    requires
        is_accepted(s, w, o),
    ensures
        ({
            let g = said(o, w);
            &&& unset(s, "dateformat"@) ==> (g.date_template.template == "D/M/Y"@)
            &&& unset(s, "tzoffset"@) ==> (g.timezone_offset_minutes == 0)
            &&& unset(s, "server_name"@) && unset(s, "servername"@) ==> (g.server_name == "Asterisk SCCP"@)
            &&& unset(s, "language"@) ==> (g.language == "en"@)
            &&& unset(s, "accountcode"@) ==> (g.account_code is None)
            &&& unset(s, "regcontext"@) ==> (g.registration.contexts.len() == 0)
        }),
{
    lemma_dates_and_names_said(s, w, o);
    if unset(s, "dateformat"@) {
        lemma_without_date_format(s, w, o);
    }
    if unset(s, "tzoffset"@) {
        lemma_without_timezone_offset(s, w, o);
    }
    if unset(s, "server_name"@) && unset(s, "servername"@) {
        lemma_without_server_name(s, w, o);
    }
    if unset(s, "language"@) {
        lemma_without_language(s, w, o);
    }
    if unset(s, "accountcode"@) {
        lemma_without_account_code(s, w, o);
    }
    if unset(s, "regcontext"@) {
        lemma_without_registration_context(s, w, o);
    }
}

proof fn lemma_without_date_format(s: section::RawSectionView, w: rules::LayerRulesView, o: option::OptionsView)
    requires
        is_accepted(s, w, o),
        unset(s, "dateformat"@),
        said(o, w).date_template == network::over(value::date_at(o, Setting::DateFormat, w), defaults::default_date_template()),
    ensures
        ({
            let g = said(o, w);
            g.date_template.template == "D/M/Y"@
        }),
{
    assert forall|i: int| 0 <= i < s.values.len() implies meaning_of(
        text::lower((#[trigger] s.values[i]).key),
    ) != Some(Setting::DateFormat) by {
        lemma_back(text::lower(s.values[i].key));
    }
    lemma_absent(s, w, o, Setting::DateFormat);
    reveal(is_absent);
}

proof fn lemma_without_timezone_offset(s: section::RawSectionView, w: rules::LayerRulesView, o: option::OptionsView)
    requires
        is_accepted(s, w, o),
        unset(s, "tzoffset"@),
        said(o, w).timezone_offset_minutes == network::over(value::timezone_at(o, Setting::TimezoneOffset), 0),
    ensures
        ({
            let g = said(o, w);
            g.timezone_offset_minutes == 0
        }),
{
    assert forall|i: int| 0 <= i < s.values.len() implies meaning_of(
        text::lower((#[trigger] s.values[i]).key),
    ) != Some(Setting::TimezoneOffset) by {
        lemma_back(text::lower(s.values[i].key));
    }
    lemma_absent(s, w, o, Setting::TimezoneOffset);
    reveal(is_absent);
}

proof fn lemma_without_server_name(s: section::RawSectionView, w: rules::LayerRulesView, o: option::OptionsView)
    requires
        is_accepted(s, w, o),
        unset(s, "server_name"@),
        unset(s, "servername"@),
        said(o, w).server_name == general::server_name_of(o),
    ensures
        ({
            let g = said(o, w);
            g.server_name == "Asterisk SCCP"@
        }),
{
    assert forall|i: int| 0 <= i < s.values.len() implies meaning_of(
        text::lower((#[trigger] s.values[i]).key),
    ) != Some(Setting::ServerName) by {
        lemma_back(text::lower(s.values[i].key));
    }
    lemma_absent(s, w, o, Setting::ServerName);
    reveal(is_absent);
}

proof fn lemma_without_language(s: section::RawSectionView, w: rules::LayerRulesView, o: option::OptionsView)
    requires
        is_accepted(s, w, o),
        unset(s, "language"@),
        said(o, w).language == network::over(value::language_at(o, Setting::Language, w), "en"@),
    ensures
        ({
            let g = said(o, w);
            g.language == "en"@
        }),
{
    assert forall|i: int| 0 <= i < s.values.len() implies meaning_of(
        text::lower((#[trigger] s.values[i]).key),
    ) != Some(Setting::Language) by {
        lemma_back(text::lower(s.values[i].key));
    }
    lemma_absent(s, w, o, Setting::Language);
    reveal(is_absent);
}

proof fn lemma_without_account_code(s: section::RawSectionView, w: rules::LayerRulesView, o: option::OptionsView)
    requires
        is_accepted(s, w, o),
        unset(s, "accountcode"@),
        said(o, w).account_code == network::over(value::account_at(o, Setting::AccountCode, w), None),
    ensures
        ({
            let g = said(o, w);
            g.account_code is None
        }),
{
    assert forall|i: int| 0 <= i < s.values.len() implies meaning_of(
        text::lower((#[trigger] s.values[i]).key),
    ) != Some(Setting::AccountCode) by {
        lemma_back(text::lower(s.values[i].key));
    }
    lemma_absent(s, w, o, Setting::AccountCode);
    reveal(is_absent);
}

proof fn lemma_without_registration_context(s: section::RawSectionView, w: rules::LayerRulesView, o: option::OptionsView)
    requires
        is_accepted(s, w, o),
        unset(s, "regcontext"@),
        said(o, w).registration.contexts == network::over(value::contexts_at(o, Setting::RegistrationContext), Seq::empty()),
    ensures
        ({
            let g = said(o, w);
            g.registration.contexts.len() == 0
        }),
{
    assert forall|i: int| 0 <= i < s.values.len() implies meaning_of(
        text::lower((#[trigger] s.values[i]).key),
    ) != Some(Setting::RegistrationContext) by {
        lemma_back(text::lower(s.values[i].key));
    }
    lemma_absent(s, w, o, Setting::RegistrationContext);
    reveal(is_absent);
}

// ---------------------------------------------------------------------------
// Timers

/// Timers: a setting sets its own field, under each name of its option.
pub proof fn law_general_timers_are_set(
    s: section::RawSectionView,
    w: rules::LayerRulesView,
    i: int,
)
    requires
        general::general_setting(s, w) is Ok,
        0 <= i < s.values.len(),
    ensures
        ({
            let g = general::general_setting(s, w)->Ok_0;
            let k = text::lower(s.values[i].key);
            let v = s.values[i].value;
            let p = section::place(s.values[i]);
            &&& k == "keepalive"@ ==> {
                &&& number::unsigned(v, 10) == Some(g.keepalive_seconds as nat)
            }
            &&& k == "secondary_keepalive"@ ==> {
                &&& number::unsigned(v, 10) == Some(g.secondary_keepalive_seconds as nat)
            }
            &&& k == "first_digit_timeout"@ || k == "firstdigittimeout"@ ==> {
                &&& number::unsigned(v, 10) is Some
                &&& 1 <= number::unsigned(v, 10)->0 <= 86400
                &&& g.first_digit_timeout_ms == number::unsigned(v, 10)->0 * 1000
            }
            &&& k == "interdigit_timeout_ms"@ ==> {
                &&& number::unsigned(v, 10) == Some(g.interdigit_timeout_ms as nat)
                &&& 250 <= g.interdigit_timeout_ms <= 86400000
            }
            &&& k == "digit_timeout"@ || k == "digittimeout"@ ==> {
                &&& number::unsigned(v, 10) is Some
                &&& 1 <= number::unsigned(v, 10)->0 <= 86400
                &&& g.interdigit_timeout_ms == number::unsigned(v, 10)->0 * 1000
            }
            &&& k == "call_waiting_interval"@ || k == "callwaitinginterval"@ ==> {
                &&& number::unsigned(text::trimmed(v), 10) == Some(g.call_waiting_interval_seconds as nat)
                &&& 0 <= g.call_waiting_interval_seconds <= 86400
            }
            &&& k == "backoff_time"@ ==> {
                &&& number::unsigned(v, 10) == Some(g.fallback_registration.backoff_seconds as nat)
                &&& 30 <= g.fallback_registration.backoff_seconds <= 4294967295
            }
            &&& k == "server_priority"@ ==> {
                &&& number::unsigned(v, 10) == Some(g.fallback_registration.server_priority as nat)
                &&& 1 <= g.fallback_registration.server_priority <= 255
            }
            &&& k == "autoanswer_ring_time"@ || k == "autoanswerringtime"@ ==> {
                &&& number::unsigned(v, 10) == Some(g.auto_answer.ring_time_seconds as nat)
            }
            &&& k == "jb_max_size"@ || k == "jbmaxsize"@ ==> {
                &&& number::unsigned(text::trimmed(v), 10) == Some(g.jitter_buffer.max_size_ms as nat)
                &&& 1 <= g.jitter_buffer.max_size_ms <= 2147483647
            }
            &&& k == "jb_resync_threshold"@ || k == "jbresyncthreshold"@ ==> {
                &&& number::unsigned(text::trimmed(v), 10) == Some(g.jitter_buffer.resync_threshold_ms as nat)
                &&& 1 <= g.jitter_buffer.resync_threshold_ms <= 2147483647
            }
        }),
{
    let o = lemma_accepted(s, w);
    lemma_timers_of(s, w, o, i);
}

proof fn lemma_timers_of(
    s: section::RawSectionView,
    w: rules::LayerRulesView,
    o: option::OptionsView,
    i: int,
)
    requires
        is_accepted(s, w, o),
        0 <= i < s.values.len(),
        meaning_of(text::lower(s.values[i].key)) == Some(o.settings[i]),
        is_set(o, w, o.settings[i], s.values[i]),
    ensures
        ({
            let g = said(o, w);
            let k = text::lower(s.values[i].key);
            let v = s.values[i].value;
            let p = section::place(s.values[i]);
            &&& k == "keepalive"@ ==> {
                &&& number::unsigned(v, 10) == Some(g.keepalive_seconds as nat)
            }
            &&& k == "secondary_keepalive"@ ==> {
                &&& number::unsigned(v, 10) == Some(g.secondary_keepalive_seconds as nat)
            }
            &&& k == "first_digit_timeout"@ || k == "firstdigittimeout"@ ==> {
                &&& number::unsigned(v, 10) is Some
                &&& 1 <= number::unsigned(v, 10)->0 <= 86400
                &&& g.first_digit_timeout_ms == number::unsigned(v, 10)->0 * 1000
            }
            &&& k == "interdigit_timeout_ms"@ ==> {
                &&& number::unsigned(v, 10) == Some(g.interdigit_timeout_ms as nat)
                &&& 250 <= g.interdigit_timeout_ms <= 86400000
            }
            &&& k == "digit_timeout"@ || k == "digittimeout"@ ==> {
                &&& number::unsigned(v, 10) is Some
                &&& 1 <= number::unsigned(v, 10)->0 <= 86400
                &&& g.interdigit_timeout_ms == number::unsigned(v, 10)->0 * 1000
            }
            &&& k == "call_waiting_interval"@ || k == "callwaitinginterval"@ ==> {
                &&& number::unsigned(text::trimmed(v), 10) == Some(g.call_waiting_interval_seconds as nat)
                &&& 0 <= g.call_waiting_interval_seconds <= 86400
            }
            &&& k == "backoff_time"@ ==> {
                &&& number::unsigned(v, 10) == Some(g.fallback_registration.backoff_seconds as nat)
                &&& 30 <= g.fallback_registration.backoff_seconds <= 4294967295
            }
            &&& k == "server_priority"@ ==> {
                &&& number::unsigned(v, 10) == Some(g.fallback_registration.server_priority as nat)
                &&& 1 <= g.fallback_registration.server_priority <= 255
            }
            &&& k == "autoanswer_ring_time"@ || k == "autoanswerringtime"@ ==> {
                &&& number::unsigned(v, 10) == Some(g.auto_answer.ring_time_seconds as nat)
            }
            &&& k == "jb_max_size"@ || k == "jbmaxsize"@ ==> {
                &&& number::unsigned(text::trimmed(v), 10) == Some(g.jitter_buffer.max_size_ms as nat)
                &&& 1 <= g.jitter_buffer.max_size_ms <= 2147483647
            }
            &&& k == "jb_resync_threshold"@ || k == "jbresyncthreshold"@ ==> {
                &&& number::unsigned(text::trimmed(v), 10) == Some(g.jitter_buffer.resync_threshold_ms as nat)
                &&& 1 <= g.jitter_buffer.resync_threshold_ms <= 2147483647
            }
        }),
{
    let k = text::lower(s.values[i].key);
    lemma_timers_forth(k);
    lemma_timers_said(s, w, o);
    if k == "keepalive"@ {
        lemma_keepalive(o, w, s.values[i]);
    }
    if k == "secondary_keepalive"@ {
        lemma_secondary_keepalive(o, w, s.values[i]);
    }
    if k == "first_digit_timeout"@ || k == "firstdigittimeout"@ {
        lemma_first_digit_timeout(o, w, s.values[i]);
    }
    if k == "interdigit_timeout_ms"@ {
        lemma_interdigit_timeout_ms(o, w, s.values[i]);
    }
    if k == "digit_timeout"@ || k == "digittimeout"@ {
        lemma_no_twin(s, w, o, i, Setting::InterdigitTimeoutMs);
        lemma_digit_timeout(o, w, s.values[i]);
    }
    if k == "call_waiting_interval"@ || k == "callwaitinginterval"@ {
        lemma_call_waiting_interval(o, w, s.values[i]);
    }
    if k == "backoff_time"@ {
        lemma_backoff_time(o, w, s.values[i]);
    }
    if k == "server_priority"@ {
        lemma_server_priority(o, w, s.values[i]);
    }
    if k == "autoanswer_ring_time"@ || k == "autoanswerringtime"@ {
        lemma_autoanswer_ring_time(o, w, s.values[i]);
    }
    if k == "jb_max_size"@ || k == "jbmaxsize"@ {
        lemma_jb_max_size(o, w, s.values[i]);
    }
    if k == "jb_resync_threshold"@ || k == "jbresyncthreshold"@ {
        lemma_jb_resync_threshold(o, w, s.values[i]);
    }
}

proof fn lemma_timers_forth(n: text::Text)
    ensures
        n == "keepalive"@ ==> meaning_of(n) == Some(Setting::Keepalive),
        n == "secondary_keepalive"@ ==> meaning_of(n) == Some(Setting::SecondaryKeepalive),
        n == "first_digit_timeout"@ || n == "firstdigittimeout"@ ==> meaning_of(n) == Some(Setting::FirstDigitTimeout),
        n == "interdigit_timeout_ms"@ ==> meaning_of(n) == Some(Setting::InterdigitTimeoutMs),
        n == "digit_timeout"@ || n == "digittimeout"@ ==> meaning_of(n) == Some(Setting::DigitTimeout),
        n == "call_waiting_interval"@ || n == "callwaitinginterval"@ ==> meaning_of(n) == Some(Setting::CallWaitingInterval),
        n == "backoff_time"@ ==> meaning_of(n) == Some(Setting::BackoffTime),
        n == "server_priority"@ ==> meaning_of(n) == Some(Setting::ServerPriority),
        n == "autoanswer_ring_time"@ || n == "autoanswerringtime"@ ==> meaning_of(n) == Some(Setting::AutoanswerRingTime),
        n == "jb_max_size"@ || n == "jbmaxsize"@ ==> meaning_of(n) == Some(Setting::JbMaxSize),
        n == "jb_resync_threshold"@ || n == "jbresyncthreshold"@ ==> meaning_of(n) == Some(Setting::JbResyncThreshold),
{
    lemma_forth(n);
}

/// Where these fields come from.
proof fn lemma_timers_said(s: section::RawSectionView, w: rules::LayerRulesView, o: option::OptionsView)
    requires
        is_accepted(s, w, o),
    ensures
        said(o, w).keepalive_seconds == general::seconds_of(o, Setting::Keepalive, 30),
        said(o, w).secondary_keepalive_seconds == general::seconds_of(o, Setting::SecondaryKeepalive, 30),
        said(o, w).first_digit_timeout_ms == general::first_digit_of(o),
        said(o, w).interdigit_timeout_ms == general::interdigit_of(o),
        said(o, w).call_waiting_interval_seconds == network::over(value::waiting_at(o, Setting::CallWaitingInterval), 0) as u32,
        said(o, w).fallback_registration.backoff_seconds == network::over(value::backoff_at(o, Setting::BackoffTime), 60) as u32,
        said(o, w).fallback_registration.server_priority == network::over(value::priority_at(o, Setting::ServerPriority), 1) as u8,
        said(o, w).auto_answer.ring_time_seconds == network::over(value::whole_at(o, Setting::AutoanswerRingTime), 1) as u32,
        said(o, w).jitter_buffer.max_size_ms == network::over(value::jitter_at(o, Setting::JbMaxSize), 200) as u32,
        said(o, w).jitter_buffer.resync_threshold_ms == network::over(value::jitter_at(o, Setting::JbResyncThreshold), 1_000) as u32,
{
    reveal(is_accepted);
    reveal(said);
}

proof fn lemma_keepalive(o: option::OptionsView, w: rules::LayerRulesView, x: section::RawValueView)
    requires
        is_set(o, w, Setting::Keepalive, x),
        said(o, w).keepalive_seconds == general::seconds_of(o, Setting::Keepalive, 30),
    ensures
        ({
            let g = said(o, w);
            let v = x.value;
            let p = section::place(x);
            &&& number::unsigned(v, 10) == Some(g.keepalive_seconds as nat)
        }),
{
    reveal(is_set);
}

proof fn lemma_secondary_keepalive(o: option::OptionsView, w: rules::LayerRulesView, x: section::RawValueView)
    requires
        is_set(o, w, Setting::SecondaryKeepalive, x),
        said(o, w).secondary_keepalive_seconds == general::seconds_of(o, Setting::SecondaryKeepalive, 30),
    ensures
        ({
            let g = said(o, w);
            let v = x.value;
            let p = section::place(x);
            &&& number::unsigned(v, 10) == Some(g.secondary_keepalive_seconds as nat)
        }),
{
    reveal(is_set);
}

proof fn lemma_first_digit_timeout(o: option::OptionsView, w: rules::LayerRulesView, x: section::RawValueView)
    requires
        is_set(o, w, Setting::FirstDigitTimeout, x),
        said(o, w).first_digit_timeout_ms == general::first_digit_of(o),
    ensures
        ({
            let g = said(o, w);
            let v = x.value;
            let p = section::place(x);
            &&& number::unsigned(v, 10) is Some
            &&& 1 <= number::unsigned(v, 10)->0 <= 86400
            &&& g.first_digit_timeout_ms == number::unsigned(v, 10)->0 * 1000
        }),
{
    reveal(is_set);
}

proof fn lemma_interdigit_timeout_ms(o: option::OptionsView, w: rules::LayerRulesView, x: section::RawValueView)
    requires
        is_set(o, w, Setting::InterdigitTimeoutMs, x),
        said(o, w).interdigit_timeout_ms == general::interdigit_of(o),
    ensures
        ({
            let g = said(o, w);
            let v = x.value;
            let p = section::place(x);
            &&& number::unsigned(v, 10) == Some(g.interdigit_timeout_ms as nat)
            &&& 250 <= g.interdigit_timeout_ms <= 86400000
        }),
{
    reveal(is_set);
}

proof fn lemma_digit_timeout(o: option::OptionsView, w: rules::LayerRulesView, x: section::RawValueView)
    requires
        is_set(o, w, Setting::DigitTimeout, x),
        is_absent(o, w, Setting::InterdigitTimeoutMs),
        said(o, w).interdigit_timeout_ms == general::interdigit_of(o),
    ensures
        ({
            let g = said(o, w);
            let v = x.value;
            let p = section::place(x);
            &&& number::unsigned(v, 10) is Some
            &&& 1 <= number::unsigned(v, 10)->0 <= 86400
            &&& g.interdigit_timeout_ms == number::unsigned(v, 10)->0 * 1000
        }),
{
    reveal(is_set);
    reveal(is_absent);
}

proof fn lemma_call_waiting_interval(o: option::OptionsView, w: rules::LayerRulesView, x: section::RawValueView)
    requires
        is_set(o, w, Setting::CallWaitingInterval, x),
        said(o, w).call_waiting_interval_seconds == network::over(value::waiting_at(o, Setting::CallWaitingInterval), 0) as u32,
    ensures
        ({
            let g = said(o, w);
            let v = x.value;
            let p = section::place(x);
            &&& number::unsigned(text::trimmed(v), 10) == Some(g.call_waiting_interval_seconds as nat)
            &&& 0 <= g.call_waiting_interval_seconds <= 86400
        }),
{
    reveal(is_set);
}

proof fn lemma_backoff_time(o: option::OptionsView, w: rules::LayerRulesView, x: section::RawValueView)
    requires
        is_set(o, w, Setting::BackoffTime, x),
        said(o, w).fallback_registration.backoff_seconds == network::over(value::backoff_at(o, Setting::BackoffTime), 60) as u32,
    ensures
        ({
            let g = said(o, w);
            let v = x.value;
            let p = section::place(x);
            &&& number::unsigned(v, 10) == Some(g.fallback_registration.backoff_seconds as nat)
            &&& 30 <= g.fallback_registration.backoff_seconds <= 4294967295
        }),
{
    reveal(is_set);
}

proof fn lemma_server_priority(o: option::OptionsView, w: rules::LayerRulesView, x: section::RawValueView)
    requires
        is_set(o, w, Setting::ServerPriority, x),
        said(o, w).fallback_registration.server_priority == network::over(value::priority_at(o, Setting::ServerPriority), 1) as u8,
    ensures
        ({
            let g = said(o, w);
            let v = x.value;
            let p = section::place(x);
            &&& number::unsigned(v, 10) == Some(g.fallback_registration.server_priority as nat)
            &&& 1 <= g.fallback_registration.server_priority <= 255
        }),
{
    reveal(is_set);
}

proof fn lemma_autoanswer_ring_time(o: option::OptionsView, w: rules::LayerRulesView, x: section::RawValueView)
    requires
        is_set(o, w, Setting::AutoanswerRingTime, x),
        said(o, w).auto_answer.ring_time_seconds == network::over(value::whole_at(o, Setting::AutoanswerRingTime), 1) as u32,
    ensures
        ({
            let g = said(o, w);
            let v = x.value;
            let p = section::place(x);
            &&& number::unsigned(v, 10) == Some(g.auto_answer.ring_time_seconds as nat)
        }),
{
    reveal(is_set);
}

proof fn lemma_jb_max_size(o: option::OptionsView, w: rules::LayerRulesView, x: section::RawValueView)
    requires
        is_set(o, w, Setting::JbMaxSize, x),
        said(o, w).jitter_buffer.max_size_ms == network::over(value::jitter_at(o, Setting::JbMaxSize), 200) as u32,
    ensures
        ({
            let g = said(o, w);
            let v = x.value;
            let p = section::place(x);
            &&& number::unsigned(text::trimmed(v), 10) == Some(g.jitter_buffer.max_size_ms as nat)
            &&& 1 <= g.jitter_buffer.max_size_ms <= 2147483647
        }),
{
    reveal(is_set);
}

proof fn lemma_jb_resync_threshold(o: option::OptionsView, w: rules::LayerRulesView, x: section::RawValueView)
    requires
        is_set(o, w, Setting::JbResyncThreshold, x),
        said(o, w).jitter_buffer.resync_threshold_ms == network::over(value::jitter_at(o, Setting::JbResyncThreshold), 1_000) as u32,
    ensures
        ({
            let g = said(o, w);
            let v = x.value;
            let p = section::place(x);
            &&& number::unsigned(text::trimmed(v), 10) == Some(g.jitter_buffer.resync_threshold_ms as nat)
            &&& 1 <= g.jitter_buffer.resync_threshold_ms <= 2147483647
        }),
{
    reveal(is_set);
}

/// Timers: what stands where an option is not set.
pub proof fn law_general_timers_have_defaults(s: section::RawSectionView, w: rules::LayerRulesView)
    requires
        general::general_setting(s, w) is Ok,
    ensures
        ({
            let g = general::general_setting(s, w)->Ok_0;
            &&& unset(s, "keepalive"@) ==> (g.keepalive_seconds == 30)
            &&& unset(s, "secondary_keepalive"@) ==> (g.secondary_keepalive_seconds == 30)
            &&& unset(s, "first_digit_timeout"@) && unset(s, "firstdigittimeout"@) ==> (g.first_digit_timeout_ms == 10_000)
            &&& unset(s, "interdigit_timeout_ms"@) && unset(s, "digit_timeout"@) && unset(s, "digittimeout"@) ==> (g.interdigit_timeout_ms == 5_000)
            &&& unset(s, "call_waiting_interval"@) && unset(s, "callwaitinginterval"@) ==> (g.call_waiting_interval_seconds == 0)
            &&& unset(s, "backoff_time"@) ==> (g.fallback_registration.backoff_seconds == 60)
            &&& unset(s, "server_priority"@) ==> (g.fallback_registration.server_priority == 1)
            &&& unset(s, "autoanswer_ring_time"@) && unset(s, "autoanswerringtime"@) ==> (g.auto_answer.ring_time_seconds == 1)
            &&& unset(s, "jb_max_size"@) && unset(s, "jbmaxsize"@) ==> (g.jitter_buffer.max_size_ms == 200)
            &&& unset(s, "jb_resync_threshold"@) && unset(s, "jbresyncthreshold"@) ==> (g.jitter_buffer.resync_threshold_ms == 1_000)
        }),
{
    let o = lemma_accepted(s, w);
    lemma_timers_without(s, w, o);
}

proof fn lemma_timers_without(s: section::RawSectionView, w: rules::LayerRulesView, o: option::OptionsView)
    requires
        is_accepted(s, w, o),
    ensures
        ({
            let g = said(o, w);
            &&& unset(s, "keepalive"@) ==> (g.keepalive_seconds == 30)
            &&& unset(s, "secondary_keepalive"@) ==> (g.secondary_keepalive_seconds == 30)
            &&& unset(s, "first_digit_timeout"@) && unset(s, "firstdigittimeout"@) ==> (g.first_digit_timeout_ms == 10_000)
            &&& unset(s, "interdigit_timeout_ms"@) && unset(s, "digit_timeout"@) && unset(s, "digittimeout"@) ==> (g.interdigit_timeout_ms == 5_000)
            &&& unset(s, "call_waiting_interval"@) && unset(s, "callwaitinginterval"@) ==> (g.call_waiting_interval_seconds == 0)
            &&& unset(s, "backoff_time"@) ==> (g.fallback_registration.backoff_seconds == 60)
            &&& unset(s, "server_priority"@) ==> (g.fallback_registration.server_priority == 1)
            &&& unset(s, "autoanswer_ring_time"@) && unset(s, "autoanswerringtime"@) ==> (g.auto_answer.ring_time_seconds == 1)
            &&& unset(s, "jb_max_size"@) && unset(s, "jbmaxsize"@) ==> (g.jitter_buffer.max_size_ms == 200)
            &&& unset(s, "jb_resync_threshold"@) && unset(s, "jbresyncthreshold"@) ==> (g.jitter_buffer.resync_threshold_ms == 1_000)
        }),
{
    lemma_timers_said(s, w, o);
    if unset(s, "keepalive"@) {
        lemma_without_keepalive(s, w, o);
    }
    if unset(s, "secondary_keepalive"@) {
        lemma_without_secondary_keepalive(s, w, o);
    }
    if unset(s, "first_digit_timeout"@) && unset(s, "firstdigittimeout"@) {
        lemma_without_first_digit_timeout(s, w, o);
    }
    if unset(s, "interdigit_timeout_ms"@) && unset(s, "digit_timeout"@) && unset(s, "digittimeout"@) {
        lemma_without_interdigit_timeout_ms_or_digit_timeout(s, w, o);
    }
    if unset(s, "call_waiting_interval"@) && unset(s, "callwaitinginterval"@) {
        lemma_without_call_waiting_interval(s, w, o);
    }
    if unset(s, "backoff_time"@) {
        lemma_without_backoff_time(s, w, o);
    }
    if unset(s, "server_priority"@) {
        lemma_without_server_priority(s, w, o);
    }
    if unset(s, "autoanswer_ring_time"@) && unset(s, "autoanswerringtime"@) {
        lemma_without_autoanswer_ring_time(s, w, o);
    }
    if unset(s, "jb_max_size"@) && unset(s, "jbmaxsize"@) {
        lemma_without_jb_max_size(s, w, o);
    }
    if unset(s, "jb_resync_threshold"@) && unset(s, "jbresyncthreshold"@) {
        lemma_without_jb_resync_threshold(s, w, o);
    }
}

proof fn lemma_without_keepalive(s: section::RawSectionView, w: rules::LayerRulesView, o: option::OptionsView)
    requires
        is_accepted(s, w, o),
        unset(s, "keepalive"@),
        said(o, w).keepalive_seconds == general::seconds_of(o, Setting::Keepalive, 30),
    ensures
        ({
            let g = said(o, w);
            g.keepalive_seconds == 30
        }),
{
    assert forall|i: int| 0 <= i < s.values.len() implies meaning_of(
        text::lower((#[trigger] s.values[i]).key),
    ) != Some(Setting::Keepalive) by {
        lemma_back(text::lower(s.values[i].key));
    }
    lemma_absent(s, w, o, Setting::Keepalive);
    reveal(is_absent);
}

proof fn lemma_without_secondary_keepalive(s: section::RawSectionView, w: rules::LayerRulesView, o: option::OptionsView)
    requires
        is_accepted(s, w, o),
        unset(s, "secondary_keepalive"@),
        said(o, w).secondary_keepalive_seconds == general::seconds_of(o, Setting::SecondaryKeepalive, 30),
    ensures
        ({
            let g = said(o, w);
            g.secondary_keepalive_seconds == 30
        }),
{
    assert forall|i: int| 0 <= i < s.values.len() implies meaning_of(
        text::lower((#[trigger] s.values[i]).key),
    ) != Some(Setting::SecondaryKeepalive) by {
        lemma_back(text::lower(s.values[i].key));
    }
    lemma_absent(s, w, o, Setting::SecondaryKeepalive);
    reveal(is_absent);
}

proof fn lemma_without_first_digit_timeout(s: section::RawSectionView, w: rules::LayerRulesView, o: option::OptionsView)
    requires
        is_accepted(s, w, o),
        unset(s, "first_digit_timeout"@),
        unset(s, "firstdigittimeout"@),
        said(o, w).first_digit_timeout_ms == general::first_digit_of(o),
    ensures
        ({
            let g = said(o, w);
            g.first_digit_timeout_ms == 10_000
        }),
{
    assert forall|i: int| 0 <= i < s.values.len() implies meaning_of(
        text::lower((#[trigger] s.values[i]).key),
    ) != Some(Setting::FirstDigitTimeout) by {
        lemma_back(text::lower(s.values[i].key));
    }
    lemma_absent(s, w, o, Setting::FirstDigitTimeout);
    reveal(is_absent);
}

proof fn lemma_without_interdigit_timeout_ms_or_digit_timeout(s: section::RawSectionView, w: rules::LayerRulesView, o: option::OptionsView)
    requires
        is_accepted(s, w, o),
        unset(s, "interdigit_timeout_ms"@),
        unset(s, "digit_timeout"@),
        unset(s, "digittimeout"@),
        said(o, w).interdigit_timeout_ms == general::interdigit_of(o),
    ensures
        ({
            let g = said(o, w);
            g.interdigit_timeout_ms == 5_000
        }),
{
    assert forall|i: int| 0 <= i < s.values.len() implies meaning_of(
        text::lower((#[trigger] s.values[i]).key),
    ) != Some(Setting::InterdigitTimeoutMs) by {
        lemma_back(text::lower(s.values[i].key));
    }
    lemma_absent(s, w, o, Setting::InterdigitTimeoutMs);
    assert forall|i: int| 0 <= i < s.values.len() implies meaning_of(
        text::lower((#[trigger] s.values[i]).key),
    ) != Some(Setting::DigitTimeout) by {
        lemma_back(text::lower(s.values[i].key));
    }
    lemma_absent(s, w, o, Setting::DigitTimeout);
    reveal(is_absent);
}

proof fn lemma_without_call_waiting_interval(s: section::RawSectionView, w: rules::LayerRulesView, o: option::OptionsView)
    requires
        is_accepted(s, w, o),
        unset(s, "call_waiting_interval"@),
        unset(s, "callwaitinginterval"@),
        said(o, w).call_waiting_interval_seconds == network::over(value::waiting_at(o, Setting::CallWaitingInterval), 0) as u32,
    ensures
        ({
            let g = said(o, w);
            g.call_waiting_interval_seconds == 0
        }),
{
    assert forall|i: int| 0 <= i < s.values.len() implies meaning_of(
        text::lower((#[trigger] s.values[i]).key),
    ) != Some(Setting::CallWaitingInterval) by {
        lemma_back(text::lower(s.values[i].key));
    }
    lemma_absent(s, w, o, Setting::CallWaitingInterval);
    reveal(is_absent);
}

proof fn lemma_without_backoff_time(s: section::RawSectionView, w: rules::LayerRulesView, o: option::OptionsView)
    requires
        is_accepted(s, w, o),
        unset(s, "backoff_time"@),
        said(o, w).fallback_registration.backoff_seconds == network::over(value::backoff_at(o, Setting::BackoffTime), 60) as u32,
    ensures
        ({
            let g = said(o, w);
            g.fallback_registration.backoff_seconds == 60
        }),
{
    assert forall|i: int| 0 <= i < s.values.len() implies meaning_of(
        text::lower((#[trigger] s.values[i]).key),
    ) != Some(Setting::BackoffTime) by {
        lemma_back(text::lower(s.values[i].key));
    }
    lemma_absent(s, w, o, Setting::BackoffTime);
    reveal(is_absent);
}

proof fn lemma_without_server_priority(s: section::RawSectionView, w: rules::LayerRulesView, o: option::OptionsView)
    requires
        is_accepted(s, w, o),
        unset(s, "server_priority"@),
        said(o, w).fallback_registration.server_priority == network::over(value::priority_at(o, Setting::ServerPriority), 1) as u8,
    ensures
        ({
            let g = said(o, w);
            g.fallback_registration.server_priority == 1
        }),
{
    assert forall|i: int| 0 <= i < s.values.len() implies meaning_of(
        text::lower((#[trigger] s.values[i]).key),
    ) != Some(Setting::ServerPriority) by {
        lemma_back(text::lower(s.values[i].key));
    }
    lemma_absent(s, w, o, Setting::ServerPriority);
    reveal(is_absent);
}

proof fn lemma_without_autoanswer_ring_time(s: section::RawSectionView, w: rules::LayerRulesView, o: option::OptionsView)
    requires
        is_accepted(s, w, o),
        unset(s, "autoanswer_ring_time"@),
        unset(s, "autoanswerringtime"@),
        said(o, w).auto_answer.ring_time_seconds == network::over(value::whole_at(o, Setting::AutoanswerRingTime), 1) as u32,
    ensures
        ({
            let g = said(o, w);
            g.auto_answer.ring_time_seconds == 1
        }),
{
    assert forall|i: int| 0 <= i < s.values.len() implies meaning_of(
        text::lower((#[trigger] s.values[i]).key),
    ) != Some(Setting::AutoanswerRingTime) by {
        lemma_back(text::lower(s.values[i].key));
    }
    lemma_absent(s, w, o, Setting::AutoanswerRingTime);
    reveal(is_absent);
}

proof fn lemma_without_jb_max_size(s: section::RawSectionView, w: rules::LayerRulesView, o: option::OptionsView)
    requires
        is_accepted(s, w, o),
        unset(s, "jb_max_size"@),
        unset(s, "jbmaxsize"@),
        said(o, w).jitter_buffer.max_size_ms == network::over(value::jitter_at(o, Setting::JbMaxSize), 200) as u32,
    ensures
        ({
            let g = said(o, w);
            g.jitter_buffer.max_size_ms == 200
        }),
{
    assert forall|i: int| 0 <= i < s.values.len() implies meaning_of(
        text::lower((#[trigger] s.values[i]).key),
    ) != Some(Setting::JbMaxSize) by {
        lemma_back(text::lower(s.values[i].key));
    }
    lemma_absent(s, w, o, Setting::JbMaxSize);
    reveal(is_absent);
}

proof fn lemma_without_jb_resync_threshold(s: section::RawSectionView, w: rules::LayerRulesView, o: option::OptionsView)
    requires
        is_accepted(s, w, o),
        unset(s, "jb_resync_threshold"@),
        unset(s, "jbresyncthreshold"@),
        said(o, w).jitter_buffer.resync_threshold_ms == network::over(value::jitter_at(o, Setting::JbResyncThreshold), 1_000) as u32,
    ensures
        ({
            let g = said(o, w);
            g.jitter_buffer.resync_threshold_ms == 1_000
        }),
{
    assert forall|i: int| 0 <= i < s.values.len() implies meaning_of(
        text::lower((#[trigger] s.values[i]).key),
    ) != Some(Setting::JbResyncThreshold) by {
        lemma_back(text::lower(s.values[i].key));
    }
    lemma_absent(s, w, o, Setting::JbResyncThreshold);
    reveal(is_absent);
}

// ---------------------------------------------------------------------------
// Switches

/// Switches: a setting sets its own field, under each name of its option.
pub proof fn law_general_switches_are_set(
    s: section::RawSectionView,
    w: rules::LayerRulesView,
    i: int,
)
    requires
        general::general_setting(s, w) is Ok,
        0 <= i < s.values.len(),
    ensures
        ({
            let g = general::general_setting(s, w)->Ok_0;
            let k = text::lower(s.values[i].key);
            let v = s.values[i].value;
            let p = section::place(s.values[i]);
            &&& k == "record_digit_timeout_char"@ || k == "recorddigittimeoutchar"@ ==> {
                &&& says(v, g.dial_terminator.record)
            }
            &&& k == "simulate_enbloc"@ ==> {
                &&& says(v, g.simulate_enbloc)
            }
            &&& k == "speed_dial_await_further_digits"@ || k == "speeddialawaitfurtherdigits"@ ==> {
                &&& says(v, g.speed_dial_await_further_digits)
            }
            &&& k == "allow_overlap"@ || k == "allowoverlap"@ ==> {
                &&& says(v, g.allow_overlap)
            }
            &&& k == "transfer_on_hangup"@ ==> {
                &&& says(v, g.transfer_on_hangup)
            }
            &&& k == "meetme"@ ==> {
                &&& says(v, g.conference_dialing.enabled)
            }
            &&& k == "hotline_enabled"@ || k == "hotlineenabled"@ ==> {
                &&& says(v, g.guest_hotline.enabled)
            }
            &&& k == "direct_media"@ || k == "directrtp"@ ==> {
                &&& says(v, g.direct_media)
            }
            &&& k == "echocancel"@ ==> {
                &&& says(v, g.audio_processing.echo_cancellation is On)
            }
            &&& k == "silencesuppression"@ ==> {
                &&& says(v, g.audio_processing.silence_suppression is On)
            }
            &&& k == "jb_enable"@ || k == "jbenable"@ ==> {
                &&& says(v, g.jitter_buffer.enabled)
            }
            &&& k == "jb_force"@ || k == "jbforce"@ ==> {
                &&& says(v, g.jitter_buffer.forced)
            }
            &&& k == "jb_log"@ || k == "jblog"@ ==> {
                &&& says(v, g.jitter_buffer.log_frames)
            }
        }),
{
    let o = lemma_accepted(s, w);
    lemma_switches_of(s, w, o, i);
}

proof fn lemma_switches_of(
    s: section::RawSectionView,
    w: rules::LayerRulesView,
    o: option::OptionsView,
    i: int,
)
    requires
        is_accepted(s, w, o),
        0 <= i < s.values.len(),
        meaning_of(text::lower(s.values[i].key)) == Some(o.settings[i]),
        is_set(o, w, o.settings[i], s.values[i]),
    ensures
        ({
            let g = said(o, w);
            let k = text::lower(s.values[i].key);
            let v = s.values[i].value;
            let p = section::place(s.values[i]);
            &&& k == "record_digit_timeout_char"@ || k == "recorddigittimeoutchar"@ ==> {
                &&& says(v, g.dial_terminator.record)
            }
            &&& k == "simulate_enbloc"@ ==> {
                &&& says(v, g.simulate_enbloc)
            }
            &&& k == "speed_dial_await_further_digits"@ || k == "speeddialawaitfurtherdigits"@ ==> {
                &&& says(v, g.speed_dial_await_further_digits)
            }
            &&& k == "allow_overlap"@ || k == "allowoverlap"@ ==> {
                &&& says(v, g.allow_overlap)
            }
            &&& k == "transfer_on_hangup"@ ==> {
                &&& says(v, g.transfer_on_hangup)
            }
            &&& k == "meetme"@ ==> {
                &&& says(v, g.conference_dialing.enabled)
            }
            &&& k == "hotline_enabled"@ || k == "hotlineenabled"@ ==> {
                &&& says(v, g.guest_hotline.enabled)
            }
            &&& k == "direct_media"@ || k == "directrtp"@ ==> {
                &&& says(v, g.direct_media)
            }
            &&& k == "echocancel"@ ==> {
                &&& says(v, g.audio_processing.echo_cancellation is On)
            }
            &&& k == "silencesuppression"@ ==> {
                &&& says(v, g.audio_processing.silence_suppression is On)
            }
            &&& k == "jb_enable"@ || k == "jbenable"@ ==> {
                &&& says(v, g.jitter_buffer.enabled)
            }
            &&& k == "jb_force"@ || k == "jbforce"@ ==> {
                &&& says(v, g.jitter_buffer.forced)
            }
            &&& k == "jb_log"@ || k == "jblog"@ ==> {
                &&& says(v, g.jitter_buffer.log_frames)
            }
        }),
{
    let k = text::lower(s.values[i].key);
    lemma_switches_forth(k);
    lemma_switches_said(s, w, o);
    if k == "record_digit_timeout_char"@ || k == "recorddigittimeoutchar"@ {
        lemma_record_digit_timeout_char(o, w, s.values[i]);
    }
    if k == "simulate_enbloc"@ {
        lemma_simulate_enbloc(o, w, s.values[i]);
    }
    if k == "speed_dial_await_further_digits"@ || k == "speeddialawaitfurtherdigits"@ {
        lemma_speed_dial_await_further_digits(o, w, s.values[i]);
    }
    if k == "allow_overlap"@ || k == "allowoverlap"@ {
        lemma_allow_overlap(o, w, s.values[i]);
    }
    if k == "transfer_on_hangup"@ {
        lemma_transfer_on_hangup(o, w, s.values[i]);
    }
    if k == "meetme"@ {
        lemma_conference_enabled(o, w, s.values[i]);
    }
    if k == "hotline_enabled"@ || k == "hotlineenabled"@ {
        lemma_hotline_enabled(o, w, s.values[i]);
    }
    if k == "direct_media"@ || k == "directrtp"@ {
        lemma_direct_media(o, w, s.values[i]);
    }
    if k == "echocancel"@ {
        lemma_echo_cancel(o, w, s.values[i]);
    }
    if k == "silencesuppression"@ {
        lemma_silence_suppression(o, w, s.values[i]);
    }
    if k == "jb_enable"@ || k == "jbenable"@ {
        lemma_jb_enable(o, w, s.values[i]);
    }
    if k == "jb_force"@ || k == "jbforce"@ {
        lemma_jb_force(o, w, s.values[i]);
    }
    if k == "jb_log"@ || k == "jblog"@ {
        lemma_jb_log(o, w, s.values[i]);
    }
}

proof fn lemma_switches_forth(n: text::Text)
    ensures
        n == "record_digit_timeout_char"@ || n == "recorddigittimeoutchar"@ ==> meaning_of(n) == Some(Setting::RecordDigitTimeoutChar),
        n == "simulate_enbloc"@ ==> meaning_of(n) == Some(Setting::SimulateEnbloc),
        n == "speed_dial_await_further_digits"@ || n == "speeddialawaitfurtherdigits"@ ==> meaning_of(n) == Some(Setting::SpeedDialAwaitFurtherDigits),
        n == "allow_overlap"@ || n == "allowoverlap"@ ==> meaning_of(n) == Some(Setting::AllowOverlap),
        n == "transfer_on_hangup"@ ==> meaning_of(n) == Some(Setting::TransferOnHangup),
        n == "meetme"@ ==> meaning_of(n) == Some(Setting::ConferenceEnabled),
        n == "hotline_enabled"@ || n == "hotlineenabled"@ ==> meaning_of(n) == Some(Setting::HotlineEnabled),
        n == "direct_media"@ || n == "directrtp"@ ==> meaning_of(n) == Some(Setting::DirectMedia),
        n == "echocancel"@ ==> meaning_of(n) == Some(Setting::EchoCancel),
        n == "silencesuppression"@ ==> meaning_of(n) == Some(Setting::SilenceSuppression),
        n == "jb_enable"@ || n == "jbenable"@ ==> meaning_of(n) == Some(Setting::JbEnable),
        n == "jb_force"@ || n == "jbforce"@ ==> meaning_of(n) == Some(Setting::JbForce),
        n == "jb_log"@ || n == "jblog"@ ==> meaning_of(n) == Some(Setting::JbLog),
{
    lemma_forth(n);
}

/// Where these fields come from.
proof fn lemma_switches_said(s: section::RawSectionView, w: rules::LayerRulesView, o: option::OptionsView)
    requires
        is_accepted(s, w, o),
    ensures
        said(o, w).dial_terminator.record == network::over(value::flag_at(o, Setting::RecordDigitTimeoutChar), false),
        said(o, w).simulate_enbloc == network::over(value::flag_at(o, Setting::SimulateEnbloc), true),
        said(o, w).speed_dial_await_further_digits == network::over(value::flag_at(o, Setting::SpeedDialAwaitFurtherDigits), false),
        said(o, w).allow_overlap == network::over(value::flag_at(o, Setting::AllowOverlap), false),
        said(o, w).transfer_on_hangup == network::over(value::flag_at(o, Setting::TransferOnHangup), false),
        said(o, w).conference_dialing.enabled == network::over(value::flag_at(o, Setting::ConferenceEnabled), true),
        said(o, w).guest_hotline.enabled == network::over(value::flag_at(o, Setting::HotlineEnabled), true),
        said(o, w).direct_media == network::over(value::flag_at(o, Setting::DirectMedia), false),
        said(o, w).audio_processing == general::processing(network::over(value::flag_at(o, Setting::EchoCancel), true), network::over(value::flag_at(o, Setting::SilenceSuppression), false)),
        said(o, w).jitter_buffer.enabled == network::over(value::flag_at(o, Setting::JbEnable), false),
        said(o, w).jitter_buffer.forced == network::over(value::flag_at(o, Setting::JbForce), false),
        said(o, w).jitter_buffer.log_frames == network::over(value::flag_at(o, Setting::JbLog), false),
{
    reveal(is_accepted);
    reveal(said);
}

proof fn lemma_record_digit_timeout_char(o: option::OptionsView, w: rules::LayerRulesView, x: section::RawValueView)
    requires
        is_set(o, w, Setting::RecordDigitTimeoutChar, x),
        said(o, w).dial_terminator.record == network::over(value::flag_at(o, Setting::RecordDigitTimeoutChar), false),
    ensures
        ({
            let g = said(o, w);
            let v = x.value;
            let p = section::place(x);
            &&& says(v, g.dial_terminator.record)
        }),
{
    reveal(is_set);
}

proof fn lemma_simulate_enbloc(o: option::OptionsView, w: rules::LayerRulesView, x: section::RawValueView)
    requires
        is_set(o, w, Setting::SimulateEnbloc, x),
        said(o, w).simulate_enbloc == network::over(value::flag_at(o, Setting::SimulateEnbloc), true),
    ensures
        ({
            let g = said(o, w);
            let v = x.value;
            let p = section::place(x);
            &&& says(v, g.simulate_enbloc)
        }),
{
    reveal(is_set);
}

proof fn lemma_speed_dial_await_further_digits(o: option::OptionsView, w: rules::LayerRulesView, x: section::RawValueView)
    requires
        is_set(o, w, Setting::SpeedDialAwaitFurtherDigits, x),
        said(o, w).speed_dial_await_further_digits == network::over(value::flag_at(o, Setting::SpeedDialAwaitFurtherDigits), false),
    ensures
        ({
            let g = said(o, w);
            let v = x.value;
            let p = section::place(x);
            &&& says(v, g.speed_dial_await_further_digits)
        }),
{
    reveal(is_set);
}

proof fn lemma_allow_overlap(o: option::OptionsView, w: rules::LayerRulesView, x: section::RawValueView)
    requires
        is_set(o, w, Setting::AllowOverlap, x),
        said(o, w).allow_overlap == network::over(value::flag_at(o, Setting::AllowOverlap), false),
    ensures
        ({
            let g = said(o, w);
            let v = x.value;
            let p = section::place(x);
            &&& says(v, g.allow_overlap)
        }),
{
    reveal(is_set);
}

proof fn lemma_transfer_on_hangup(o: option::OptionsView, w: rules::LayerRulesView, x: section::RawValueView)
    requires
        is_set(o, w, Setting::TransferOnHangup, x),
        said(o, w).transfer_on_hangup == network::over(value::flag_at(o, Setting::TransferOnHangup), false),
    ensures
        ({
            let g = said(o, w);
            let v = x.value;
            let p = section::place(x);
            &&& says(v, g.transfer_on_hangup)
        }),
{
    reveal(is_set);
}

proof fn lemma_conference_enabled(o: option::OptionsView, w: rules::LayerRulesView, x: section::RawValueView)
    requires
        is_set(o, w, Setting::ConferenceEnabled, x),
        said(o, w).conference_dialing.enabled == network::over(value::flag_at(o, Setting::ConferenceEnabled), true),
    ensures
        ({
            let g = said(o, w);
            let v = x.value;
            let p = section::place(x);
            &&& says(v, g.conference_dialing.enabled)
        }),
{
    reveal(is_set);
}

proof fn lemma_hotline_enabled(o: option::OptionsView, w: rules::LayerRulesView, x: section::RawValueView)
    requires
        is_set(o, w, Setting::HotlineEnabled, x),
        said(o, w).guest_hotline.enabled == network::over(value::flag_at(o, Setting::HotlineEnabled), true),
    ensures
        ({
            let g = said(o, w);
            let v = x.value;
            let p = section::place(x);
            &&& says(v, g.guest_hotline.enabled)
        }),
{
    reveal(is_set);
}

proof fn lemma_direct_media(o: option::OptionsView, w: rules::LayerRulesView, x: section::RawValueView)
    requires
        is_set(o, w, Setting::DirectMedia, x),
        said(o, w).direct_media == network::over(value::flag_at(o, Setting::DirectMedia), false),
    ensures
        ({
            let g = said(o, w);
            let v = x.value;
            let p = section::place(x);
            &&& says(v, g.direct_media)
        }),
{
    reveal(is_set);
}

proof fn lemma_echo_cancel(o: option::OptionsView, w: rules::LayerRulesView, x: section::RawValueView)
    requires
        is_set(o, w, Setting::EchoCancel, x),
        said(o, w).audio_processing == general::processing(network::over(value::flag_at(o, Setting::EchoCancel), true), network::over(value::flag_at(o, Setting::SilenceSuppression), false)),
    ensures
        ({
            let g = said(o, w);
            let v = x.value;
            let p = section::place(x);
            &&& says(v, g.audio_processing.echo_cancellation is On)
        }),
{
    reveal(is_set);
}

proof fn lemma_silence_suppression(o: option::OptionsView, w: rules::LayerRulesView, x: section::RawValueView)
    requires
        is_set(o, w, Setting::SilenceSuppression, x),
        said(o, w).audio_processing == general::processing(network::over(value::flag_at(o, Setting::EchoCancel), true), network::over(value::flag_at(o, Setting::SilenceSuppression), false)),
    ensures
        ({
            let g = said(o, w);
            let v = x.value;
            let p = section::place(x);
            &&& says(v, g.audio_processing.silence_suppression is On)
        }),
{
    reveal(is_set);
}

proof fn lemma_jb_enable(o: option::OptionsView, w: rules::LayerRulesView, x: section::RawValueView)
    requires
        is_set(o, w, Setting::JbEnable, x),
        said(o, w).jitter_buffer.enabled == network::over(value::flag_at(o, Setting::JbEnable), false),
    ensures
        ({
            let g = said(o, w);
            let v = x.value;
            let p = section::place(x);
            &&& says(v, g.jitter_buffer.enabled)
        }),
{
    reveal(is_set);
}

proof fn lemma_jb_force(o: option::OptionsView, w: rules::LayerRulesView, x: section::RawValueView)
    requires
        is_set(o, w, Setting::JbForce, x),
        said(o, w).jitter_buffer.forced == network::over(value::flag_at(o, Setting::JbForce), false),
    ensures
        ({
            let g = said(o, w);
            let v = x.value;
            let p = section::place(x);
            &&& says(v, g.jitter_buffer.forced)
        }),
{
    reveal(is_set);
}

proof fn lemma_jb_log(o: option::OptionsView, w: rules::LayerRulesView, x: section::RawValueView)
    requires
        is_set(o, w, Setting::JbLog, x),
        said(o, w).jitter_buffer.log_frames == network::over(value::flag_at(o, Setting::JbLog), false),
    ensures
        ({
            let g = said(o, w);
            let v = x.value;
            let p = section::place(x);
            &&& says(v, g.jitter_buffer.log_frames)
        }),
{
    reveal(is_set);
}

/// Switches: what stands where an option is not set.
pub proof fn law_general_switches_have_defaults(s: section::RawSectionView, w: rules::LayerRulesView)
    requires
        general::general_setting(s, w) is Ok,
    ensures
        ({
            let g = general::general_setting(s, w)->Ok_0;
            &&& unset(s, "record_digit_timeout_char"@) && unset(s, "recorddigittimeoutchar"@) ==> (!g.dial_terminator.record)
            &&& unset(s, "simulate_enbloc"@) ==> (g.simulate_enbloc)
            &&& unset(s, "speed_dial_await_further_digits"@) && unset(s, "speeddialawaitfurtherdigits"@) ==> (!g.speed_dial_await_further_digits)
            &&& unset(s, "allow_overlap"@) && unset(s, "allowoverlap"@) ==> (!g.allow_overlap)
            &&& unset(s, "transfer_on_hangup"@) ==> (!g.transfer_on_hangup)
            &&& unset(s, "meetme"@) ==> (g.conference_dialing.enabled)
            &&& unset(s, "hotline_enabled"@) && unset(s, "hotlineenabled"@) ==> (g.guest_hotline.enabled)
            &&& unset(s, "direct_media"@) && unset(s, "directrtp"@) ==> (!g.direct_media)
            &&& unset(s, "echocancel"@) ==> (g.audio_processing.echo_cancellation is On)
            &&& unset(s, "silencesuppression"@) ==> (g.audio_processing.silence_suppression is Off)
            &&& unset(s, "jb_enable"@) && unset(s, "jbenable"@) ==> (!g.jitter_buffer.enabled)
            &&& unset(s, "jb_force"@) && unset(s, "jbforce"@) ==> (!g.jitter_buffer.forced)
            &&& unset(s, "jb_log"@) && unset(s, "jblog"@) ==> (!g.jitter_buffer.log_frames)
        }),
{
    let o = lemma_accepted(s, w);
    lemma_switches_without(s, w, o);
}

proof fn lemma_switches_without(s: section::RawSectionView, w: rules::LayerRulesView, o: option::OptionsView)
    requires
        is_accepted(s, w, o),
    ensures
        ({
            let g = said(o, w);
            &&& unset(s, "record_digit_timeout_char"@) && unset(s, "recorddigittimeoutchar"@) ==> (!g.dial_terminator.record)
            &&& unset(s, "simulate_enbloc"@) ==> (g.simulate_enbloc)
            &&& unset(s, "speed_dial_await_further_digits"@) && unset(s, "speeddialawaitfurtherdigits"@) ==> (!g.speed_dial_await_further_digits)
            &&& unset(s, "allow_overlap"@) && unset(s, "allowoverlap"@) ==> (!g.allow_overlap)
            &&& unset(s, "transfer_on_hangup"@) ==> (!g.transfer_on_hangup)
            &&& unset(s, "meetme"@) ==> (g.conference_dialing.enabled)
            &&& unset(s, "hotline_enabled"@) && unset(s, "hotlineenabled"@) ==> (g.guest_hotline.enabled)
            &&& unset(s, "direct_media"@) && unset(s, "directrtp"@) ==> (!g.direct_media)
            &&& unset(s, "echocancel"@) ==> (g.audio_processing.echo_cancellation is On)
            &&& unset(s, "silencesuppression"@) ==> (g.audio_processing.silence_suppression is Off)
            &&& unset(s, "jb_enable"@) && unset(s, "jbenable"@) ==> (!g.jitter_buffer.enabled)
            &&& unset(s, "jb_force"@) && unset(s, "jbforce"@) ==> (!g.jitter_buffer.forced)
            &&& unset(s, "jb_log"@) && unset(s, "jblog"@) ==> (!g.jitter_buffer.log_frames)
        }),
{
    lemma_switches_said(s, w, o);
    if unset(s, "record_digit_timeout_char"@) && unset(s, "recorddigittimeoutchar"@) {
        lemma_without_record_digit_timeout_char(s, w, o);
    }
    if unset(s, "simulate_enbloc"@) {
        lemma_without_simulate_enbloc(s, w, o);
    }
    if unset(s, "speed_dial_await_further_digits"@) && unset(s, "speeddialawaitfurtherdigits"@) {
        lemma_without_speed_dial_await_further_digits(s, w, o);
    }
    if unset(s, "allow_overlap"@) && unset(s, "allowoverlap"@) {
        lemma_without_allow_overlap(s, w, o);
    }
    if unset(s, "transfer_on_hangup"@) {
        lemma_without_transfer_on_hangup(s, w, o);
    }
    if unset(s, "meetme"@) {
        lemma_without_conference_enabled(s, w, o);
    }
    if unset(s, "hotline_enabled"@) && unset(s, "hotlineenabled"@) {
        lemma_without_hotline_enabled(s, w, o);
    }
    if unset(s, "direct_media"@) && unset(s, "directrtp"@) {
        lemma_without_direct_media(s, w, o);
    }
    if unset(s, "echocancel"@) {
        lemma_without_echo_cancel(s, w, o);
    }
    if unset(s, "silencesuppression"@) {
        lemma_without_silence_suppression(s, w, o);
    }
    if unset(s, "jb_enable"@) && unset(s, "jbenable"@) {
        lemma_without_jb_enable(s, w, o);
    }
    if unset(s, "jb_force"@) && unset(s, "jbforce"@) {
        lemma_without_jb_force(s, w, o);
    }
    if unset(s, "jb_log"@) && unset(s, "jblog"@) {
        lemma_without_jb_log(s, w, o);
    }
}

proof fn lemma_without_record_digit_timeout_char(s: section::RawSectionView, w: rules::LayerRulesView, o: option::OptionsView)
    requires
        is_accepted(s, w, o),
        unset(s, "record_digit_timeout_char"@),
        unset(s, "recorddigittimeoutchar"@),
        said(o, w).dial_terminator.record == network::over(value::flag_at(o, Setting::RecordDigitTimeoutChar), false),
    ensures
        ({
            let g = said(o, w);
            !g.dial_terminator.record
        }),
{
    assert forall|i: int| 0 <= i < s.values.len() implies meaning_of(
        text::lower((#[trigger] s.values[i]).key),
    ) != Some(Setting::RecordDigitTimeoutChar) by {
        lemma_back(text::lower(s.values[i].key));
    }
    lemma_absent(s, w, o, Setting::RecordDigitTimeoutChar);
    reveal(is_absent);
}

proof fn lemma_without_simulate_enbloc(s: section::RawSectionView, w: rules::LayerRulesView, o: option::OptionsView)
    requires
        is_accepted(s, w, o),
        unset(s, "simulate_enbloc"@),
        said(o, w).simulate_enbloc == network::over(value::flag_at(o, Setting::SimulateEnbloc), true),
    ensures
        ({
            let g = said(o, w);
            g.simulate_enbloc
        }),
{
    assert forall|i: int| 0 <= i < s.values.len() implies meaning_of(
        text::lower((#[trigger] s.values[i]).key),
    ) != Some(Setting::SimulateEnbloc) by {
        lemma_back(text::lower(s.values[i].key));
    }
    lemma_absent(s, w, o, Setting::SimulateEnbloc);
    reveal(is_absent);
}

proof fn lemma_without_speed_dial_await_further_digits(s: section::RawSectionView, w: rules::LayerRulesView, o: option::OptionsView)
    requires
        is_accepted(s, w, o),
        unset(s, "speed_dial_await_further_digits"@),
        unset(s, "speeddialawaitfurtherdigits"@),
        said(o, w).speed_dial_await_further_digits == network::over(value::flag_at(o, Setting::SpeedDialAwaitFurtherDigits), false),
    ensures
        ({
            let g = said(o, w);
            !g.speed_dial_await_further_digits
        }),
{
    assert forall|i: int| 0 <= i < s.values.len() implies meaning_of(
        text::lower((#[trigger] s.values[i]).key),
    ) != Some(Setting::SpeedDialAwaitFurtherDigits) by {
        lemma_back(text::lower(s.values[i].key));
    }
    lemma_absent(s, w, o, Setting::SpeedDialAwaitFurtherDigits);
    reveal(is_absent);
}

proof fn lemma_without_allow_overlap(s: section::RawSectionView, w: rules::LayerRulesView, o: option::OptionsView)
    requires
        is_accepted(s, w, o),
        unset(s, "allow_overlap"@),
        unset(s, "allowoverlap"@),
        said(o, w).allow_overlap == network::over(value::flag_at(o, Setting::AllowOverlap), false),
    ensures
        ({
            let g = said(o, w);
            !g.allow_overlap
        }),
{
    assert forall|i: int| 0 <= i < s.values.len() implies meaning_of(
        text::lower((#[trigger] s.values[i]).key),
    ) != Some(Setting::AllowOverlap) by {
        lemma_back(text::lower(s.values[i].key));
    }
    lemma_absent(s, w, o, Setting::AllowOverlap);
    reveal(is_absent);
}

proof fn lemma_without_transfer_on_hangup(s: section::RawSectionView, w: rules::LayerRulesView, o: option::OptionsView)
    requires
        is_accepted(s, w, o),
        unset(s, "transfer_on_hangup"@),
        said(o, w).transfer_on_hangup == network::over(value::flag_at(o, Setting::TransferOnHangup), false),
    ensures
        ({
            let g = said(o, w);
            !g.transfer_on_hangup
        }),
{
    assert forall|i: int| 0 <= i < s.values.len() implies meaning_of(
        text::lower((#[trigger] s.values[i]).key),
    ) != Some(Setting::TransferOnHangup) by {
        lemma_back(text::lower(s.values[i].key));
    }
    lemma_absent(s, w, o, Setting::TransferOnHangup);
    reveal(is_absent);
}

proof fn lemma_without_conference_enabled(s: section::RawSectionView, w: rules::LayerRulesView, o: option::OptionsView)
    requires
        is_accepted(s, w, o),
        unset(s, "meetme"@),
        said(o, w).conference_dialing.enabled == network::over(value::flag_at(o, Setting::ConferenceEnabled), true),
    ensures
        ({
            let g = said(o, w);
            g.conference_dialing.enabled
        }),
{
    assert forall|i: int| 0 <= i < s.values.len() implies meaning_of(
        text::lower((#[trigger] s.values[i]).key),
    ) != Some(Setting::ConferenceEnabled) by {
        lemma_back(text::lower(s.values[i].key));
    }
    lemma_absent(s, w, o, Setting::ConferenceEnabled);
    reveal(is_absent);
}

proof fn lemma_without_hotline_enabled(s: section::RawSectionView, w: rules::LayerRulesView, o: option::OptionsView)
    requires
        is_accepted(s, w, o),
        unset(s, "hotline_enabled"@),
        unset(s, "hotlineenabled"@),
        said(o, w).guest_hotline.enabled == network::over(value::flag_at(o, Setting::HotlineEnabled), true),
    ensures
        ({
            let g = said(o, w);
            g.guest_hotline.enabled
        }),
{
    assert forall|i: int| 0 <= i < s.values.len() implies meaning_of(
        text::lower((#[trigger] s.values[i]).key),
    ) != Some(Setting::HotlineEnabled) by {
        lemma_back(text::lower(s.values[i].key));
    }
    lemma_absent(s, w, o, Setting::HotlineEnabled);
    reveal(is_absent);
}

proof fn lemma_without_direct_media(s: section::RawSectionView, w: rules::LayerRulesView, o: option::OptionsView)
    requires
        is_accepted(s, w, o),
        unset(s, "direct_media"@),
        unset(s, "directrtp"@),
        said(o, w).direct_media == network::over(value::flag_at(o, Setting::DirectMedia), false),
    ensures
        ({
            let g = said(o, w);
            !g.direct_media
        }),
{
    assert forall|i: int| 0 <= i < s.values.len() implies meaning_of(
        text::lower((#[trigger] s.values[i]).key),
    ) != Some(Setting::DirectMedia) by {
        lemma_back(text::lower(s.values[i].key));
    }
    lemma_absent(s, w, o, Setting::DirectMedia);
    reveal(is_absent);
}

proof fn lemma_without_echo_cancel(s: section::RawSectionView, w: rules::LayerRulesView, o: option::OptionsView)
    requires
        is_accepted(s, w, o),
        unset(s, "echocancel"@),
        said(o, w).audio_processing == general::processing(network::over(value::flag_at(o, Setting::EchoCancel), true), network::over(value::flag_at(o, Setting::SilenceSuppression), false)),
    ensures
        ({
            let g = said(o, w);
            g.audio_processing.echo_cancellation is On
        }),
{
    assert forall|i: int| 0 <= i < s.values.len() implies meaning_of(
        text::lower((#[trigger] s.values[i]).key),
    ) != Some(Setting::EchoCancel) by {
        lemma_back(text::lower(s.values[i].key));
    }
    lemma_absent(s, w, o, Setting::EchoCancel);
    reveal(is_absent);
}

proof fn lemma_without_silence_suppression(s: section::RawSectionView, w: rules::LayerRulesView, o: option::OptionsView)
    requires
        is_accepted(s, w, o),
        unset(s, "silencesuppression"@),
        said(o, w).audio_processing == general::processing(network::over(value::flag_at(o, Setting::EchoCancel), true), network::over(value::flag_at(o, Setting::SilenceSuppression), false)),
    ensures
        ({
            let g = said(o, w);
            g.audio_processing.silence_suppression is Off
        }),
{
    assert forall|i: int| 0 <= i < s.values.len() implies meaning_of(
        text::lower((#[trigger] s.values[i]).key),
    ) != Some(Setting::SilenceSuppression) by {
        lemma_back(text::lower(s.values[i].key));
    }
    lemma_absent(s, w, o, Setting::SilenceSuppression);
    reveal(is_absent);
}

proof fn lemma_without_jb_enable(s: section::RawSectionView, w: rules::LayerRulesView, o: option::OptionsView)
    requires
        is_accepted(s, w, o),
        unset(s, "jb_enable"@),
        unset(s, "jbenable"@),
        said(o, w).jitter_buffer.enabled == network::over(value::flag_at(o, Setting::JbEnable), false),
    ensures
        ({
            let g = said(o, w);
            !g.jitter_buffer.enabled
        }),
{
    assert forall|i: int| 0 <= i < s.values.len() implies meaning_of(
        text::lower((#[trigger] s.values[i]).key),
    ) != Some(Setting::JbEnable) by {
        lemma_back(text::lower(s.values[i].key));
    }
    lemma_absent(s, w, o, Setting::JbEnable);
    reveal(is_absent);
}

proof fn lemma_without_jb_force(s: section::RawSectionView, w: rules::LayerRulesView, o: option::OptionsView)
    requires
        is_accepted(s, w, o),
        unset(s, "jb_force"@),
        unset(s, "jbforce"@),
        said(o, w).jitter_buffer.forced == network::over(value::flag_at(o, Setting::JbForce), false),
    ensures
        ({
            let g = said(o, w);
            !g.jitter_buffer.forced
        }),
{
    assert forall|i: int| 0 <= i < s.values.len() implies meaning_of(
        text::lower((#[trigger] s.values[i]).key),
    ) != Some(Setting::JbForce) by {
        lemma_back(text::lower(s.values[i].key));
    }
    lemma_absent(s, w, o, Setting::JbForce);
    reveal(is_absent);
}

proof fn lemma_without_jb_log(s: section::RawSectionView, w: rules::LayerRulesView, o: option::OptionsView)
    requires
        is_accepted(s, w, o),
        unset(s, "jb_log"@),
        unset(s, "jblog"@),
        said(o, w).jitter_buffer.log_frames == network::over(value::flag_at(o, Setting::JbLog), false),
    ensures
        ({
            let g = said(o, w);
            !g.jitter_buffer.log_frames
        }),
{
    assert forall|i: int| 0 <= i < s.values.len() implies meaning_of(
        text::lower((#[trigger] s.values[i]).key),
    ) != Some(Setting::JbLog) by {
        lemma_back(text::lower(s.values[i].key));
    }
    lemma_absent(s, w, o, Setting::JbLog);
    reveal(is_absent);
}

// ---------------------------------------------------------------------------
// Modes, tones and texts

/// Modes, tones and texts: a setting sets its own field, under each name of its option.
pub proof fn law_general_modes_are_set(
    s: section::RawSectionView,
    w: rules::LayerRulesView,
    i: int,
)
    requires
        general::general_setting(s, w) is Ok,
        0 <= i < s.values.len(),
    ensures
        ({
            let g = general::general_setting(s, w)->Ok_0;
            let k = text::lower(s.values[i].key);
            let v = s.values[i].value;
            let p = section::place(s.values[i]);
            &&& k == "call_answer_order"@ || k == "callanswerorder"@ ==> {
                &&& value::value_in(setting::answer_order_setting(p, v)) == Some(g.call_answer_order)
            }
            &&& k == "ring_type"@ || k == "ringtype"@ ==> {
                &&& value::value_in(setting::ringer_setting(p, v)) == Some(g.ring_type)
            }
            &&& k == "call_waiting_tone"@ || k == "callwaitingtone"@ ==> {
                &&& value::value_in(tone::optional_tone_setting(p, v, w)) == Some(g.call_waiting_tone)
            }
            &&& k == "fallback"@ ==> {
                &&& value::value_in(setting::fallback_setting(p, v)) == Some(g.fallback_registration.decision)
            }
            &&& k == "meetmeopts"@ ==> {
                &&& g.conference_dialing.application_options == text::trimmed(v)
            }
            &&& k == "autoanswer_tone"@ || k == "autoanswertone"@ ==> {
                &&& value::value_in(tone::tone_setting(p, v, w)) == Some(g.auto_answer.tone)
            }
            &&& k == "remote_hangup_tone"@ || k == "remotehangup_tone"@ ==> {
                &&& value::value_in(tone::optional_tone_setting(p, v, w)) == Some(g.remote_hangup_tone)
            }
            &&& k == "hotline_extension"@ || k == "hotlineextension"@ ==> {
                &&& value::value_in(value::hotline_destination_setting(p, v, w)) == Some(g.guest_hotline.extension)
            }
            &&& k == "hotline_context"@ || k == "hotlinecontext"@ ==> {
                &&& g.guest_hotline.context == text::trimmed(v)
            }
            &&& k == "hotline_label"@ || k == "hotlinelabel"@ ==> {
                &&& g.guest_hotline.label == text::trimmed(v)
            }
            &&& k == "early_media"@ || k == "earlyrtp"@ ==> {
                &&& value::value_in(setting::early_media_setting(p, v)) == Some(g.early_media)
            }
            &&& k == "audio_encryption"@ || k == "audioencryption"@ ==> {
                &&& value::value_in(codec::encryption_setting(p, v)) == Some(g.audio_encryption)
            }
            &&& k == "jb_implementation"@ || k == "jbimpl"@ ==> {
                &&& value::value_in(setting::jitter_kind_setting(p, v)) == Some(g.jitter_buffer.implementation)
            }
            &&& k == "digit_timeout_char"@ || k == "digittimeoutchar"@ ==> {
                &&& value::value_in(setting::terminator_setting(p, v)) == Some(g.dial_terminator.character)
            }
            &&& k == "nat"@ ==> {
                &&& value::value_in(setting::nat_setting(p, v)) == Some(g.network.nat)
            }
        }),
{
    let o = lemma_accepted(s, w);
    lemma_modes_of(s, w, o, i);
}

proof fn lemma_modes_of(
    s: section::RawSectionView,
    w: rules::LayerRulesView,
    o: option::OptionsView,
    i: int,
)
    requires
        is_accepted(s, w, o),
        0 <= i < s.values.len(),
        meaning_of(text::lower(s.values[i].key)) == Some(o.settings[i]),
        is_set(o, w, o.settings[i], s.values[i]),
    ensures
        ({
            let g = said(o, w);
            let k = text::lower(s.values[i].key);
            let v = s.values[i].value;
            let p = section::place(s.values[i]);
            &&& k == "call_answer_order"@ || k == "callanswerorder"@ ==> {
                &&& value::value_in(setting::answer_order_setting(p, v)) == Some(g.call_answer_order)
            }
            &&& k == "ring_type"@ || k == "ringtype"@ ==> {
                &&& value::value_in(setting::ringer_setting(p, v)) == Some(g.ring_type)
            }
            &&& k == "call_waiting_tone"@ || k == "callwaitingtone"@ ==> {
                &&& value::value_in(tone::optional_tone_setting(p, v, w)) == Some(g.call_waiting_tone)
            }
            &&& k == "fallback"@ ==> {
                &&& value::value_in(setting::fallback_setting(p, v)) == Some(g.fallback_registration.decision)
            }
            &&& k == "meetmeopts"@ ==> {
                &&& g.conference_dialing.application_options == text::trimmed(v)
            }
            &&& k == "autoanswer_tone"@ || k == "autoanswertone"@ ==> {
                &&& value::value_in(tone::tone_setting(p, v, w)) == Some(g.auto_answer.tone)
            }
            &&& k == "remote_hangup_tone"@ || k == "remotehangup_tone"@ ==> {
                &&& value::value_in(tone::optional_tone_setting(p, v, w)) == Some(g.remote_hangup_tone)
            }
            &&& k == "hotline_extension"@ || k == "hotlineextension"@ ==> {
                &&& value::value_in(value::hotline_destination_setting(p, v, w)) == Some(g.guest_hotline.extension)
            }
            &&& k == "hotline_context"@ || k == "hotlinecontext"@ ==> {
                &&& g.guest_hotline.context == text::trimmed(v)
            }
            &&& k == "hotline_label"@ || k == "hotlinelabel"@ ==> {
                &&& g.guest_hotline.label == text::trimmed(v)
            }
            &&& k == "early_media"@ || k == "earlyrtp"@ ==> {
                &&& value::value_in(setting::early_media_setting(p, v)) == Some(g.early_media)
            }
            &&& k == "audio_encryption"@ || k == "audioencryption"@ ==> {
                &&& value::value_in(codec::encryption_setting(p, v)) == Some(g.audio_encryption)
            }
            &&& k == "jb_implementation"@ || k == "jbimpl"@ ==> {
                &&& value::value_in(setting::jitter_kind_setting(p, v)) == Some(g.jitter_buffer.implementation)
            }
            &&& k == "digit_timeout_char"@ || k == "digittimeoutchar"@ ==> {
                &&& value::value_in(setting::terminator_setting(p, v)) == Some(g.dial_terminator.character)
            }
            &&& k == "nat"@ ==> {
                &&& value::value_in(setting::nat_setting(p, v)) == Some(g.network.nat)
            }
        }),
{
    let k = text::lower(s.values[i].key);
    lemma_modes_forth(k);
    lemma_modes_said(s, w, o);
    if k == "call_answer_order"@ || k == "callanswerorder"@ {
        lemma_call_answer_order(o, w, s.values[i]);
    }
    if k == "ring_type"@ || k == "ringtype"@ {
        lemma_ring_type(o, w, s.values[i]);
    }
    if k == "call_waiting_tone"@ || k == "callwaitingtone"@ {
        lemma_call_waiting_tone(o, w, s.values[i]);
    }
    if k == "fallback"@ {
        lemma_fallback(o, w, s.values[i]);
    }
    if k == "meetmeopts"@ {
        lemma_conference_options(o, w, s.values[i]);
    }
    if k == "autoanswer_tone"@ || k == "autoanswertone"@ {
        lemma_autoanswer_tone(o, w, s.values[i]);
    }
    if k == "remote_hangup_tone"@ || k == "remotehangup_tone"@ {
        lemma_remote_hangup_tone(o, w, s.values[i]);
    }
    if k == "hotline_extension"@ || k == "hotlineextension"@ {
        lemma_hotline_extension(o, w, s.values[i]);
    }
    if k == "hotline_context"@ || k == "hotlinecontext"@ {
        lemma_hotline_context(o, w, s.values[i]);
    }
    if k == "hotline_label"@ || k == "hotlinelabel"@ {
        lemma_hotline_label(o, w, s.values[i]);
    }
    if k == "early_media"@ || k == "earlyrtp"@ {
        lemma_early_media(o, w, s.values[i]);
    }
    if k == "audio_encryption"@ || k == "audioencryption"@ {
        lemma_audio_encryption(o, w, s.values[i]);
    }
    if k == "jb_implementation"@ || k == "jbimpl"@ {
        lemma_jb_implementation(o, w, s.values[i]);
    }
    if k == "digit_timeout_char"@ || k == "digittimeoutchar"@ {
        lemma_digit_timeout_char(o, w, s.values[i]);
    }
    if k == "nat"@ {
        lemma_nat(o, w, s.values[i]);
    }
}

proof fn lemma_modes_forth(n: text::Text)
    ensures
        n == "call_answer_order"@ || n == "callanswerorder"@ ==> meaning_of(n) == Some(Setting::CallAnswerOrder),
        n == "ring_type"@ || n == "ringtype"@ ==> meaning_of(n) == Some(Setting::RingType),
        n == "call_waiting_tone"@ || n == "callwaitingtone"@ ==> meaning_of(n) == Some(Setting::CallWaitingTone),
        n == "fallback"@ ==> meaning_of(n) == Some(Setting::Fallback),
        n == "meetmeopts"@ ==> meaning_of(n) == Some(Setting::ConferenceOptions),
        n == "autoanswer_tone"@ || n == "autoanswertone"@ ==> meaning_of(n) == Some(Setting::AutoanswerTone),
        n == "remote_hangup_tone"@ || n == "remotehangup_tone"@ ==> meaning_of(n) == Some(Setting::RemoteHangupTone),
        n == "hotline_extension"@ || n == "hotlineextension"@ ==> meaning_of(n) == Some(Setting::HotlineExtension),
        n == "hotline_context"@ || n == "hotlinecontext"@ ==> meaning_of(n) == Some(Setting::HotlineContext),
        n == "hotline_label"@ || n == "hotlinelabel"@ ==> meaning_of(n) == Some(Setting::HotlineLabel),
        n == "early_media"@ || n == "earlyrtp"@ ==> meaning_of(n) == Some(Setting::EarlyMedia),
        n == "audio_encryption"@ || n == "audioencryption"@ ==> meaning_of(n) == Some(Setting::AudioEncryption),
        n == "jb_implementation"@ || n == "jbimpl"@ ==> meaning_of(n) == Some(Setting::JbImplementation),
        n == "digit_timeout_char"@ || n == "digittimeoutchar"@ ==> meaning_of(n) == Some(Setting::DigitTimeoutChar),
        n == "nat"@ ==> meaning_of(n) == Some(Setting::Nat),
{
    lemma_forth(n);
}

/// Where these fields come from.
proof fn lemma_modes_said(s: section::RawSectionView, w: rules::LayerRulesView, o: option::OptionsView)
    requires
        is_accepted(s, w, o),
    ensures
        said(o, w).call_answer_order == network::over(value::order_at(o, Setting::CallAnswerOrder), CallAnswerOrder::OldestFirst),
        said(o, w).ring_type == network::over(value::ringer_at(o, Setting::RingType), RingerMode::Outside),
        said(o, w).call_waiting_tone == network::over(value::optional_tone_at(o, Setting::CallWaitingTone, w), Some(Tone::CallWaiting)),
        said(o, w).fallback_registration.decision == network::over(value::fallback_at(o, Setting::Fallback), FallbackDecision::Reject),
        said(o, w).conference_dialing.application_options == network::over(value::app_options_at(o, Setting::ConferenceOptions), "qxd"@),
        said(o, w).auto_answer.tone == network::over(value::tone_at(o, Setting::AutoanswerTone, w), Tone::Zip),
        said(o, w).remote_hangup_tone == network::over(value::optional_tone_at(o, Setting::RemoteHangupTone, w), None),
        said(o, w).guest_hotline.extension == network::over(value::hotline_at(o, Setting::HotlineExtension, w), defaults::default_guest_hotline_config().extension),
        said(o, w).guest_hotline.context == network::over(value::hotline_text_at(o, Setting::HotlineContext, w), defaults::default_guest_hotline_config().context),
        said(o, w).guest_hotline.label == network::over(value::hotline_text_at(o, Setting::HotlineLabel, w), defaults::default_guest_hotline_config().label),
        said(o, w).early_media == network::over(value::early_at(o, Setting::EarlyMedia), true),
        said(o, w).audio_encryption == network::over(value::encryption_at(o, Setting::AudioEncryption), defaults::default_media_encryption_policy()),
        said(o, w).jitter_buffer.implementation == network::over(value::jitter_kind_at(o, Setting::JbImplementation), JitterBufferImplementation::Fixed),
        said(o, w).dial_terminator.character == network::over(value::terminator_at(o, Setting::DigitTimeoutChar), '#'),
        said(o, w).network.nat == network::over(value::nat_at(o, Setting::Nat), NatMode::Auto),
{
    reveal(is_accepted);
    reveal(said);
}

proof fn lemma_call_answer_order(o: option::OptionsView, w: rules::LayerRulesView, x: section::RawValueView)
    requires
        is_set(o, w, Setting::CallAnswerOrder, x),
        said(o, w).call_answer_order == network::over(value::order_at(o, Setting::CallAnswerOrder), CallAnswerOrder::OldestFirst),
    ensures
        ({
            let g = said(o, w);
            let v = x.value;
            let p = section::place(x);
            &&& value::value_in(setting::answer_order_setting(p, v)) == Some(g.call_answer_order)
        }),
{
    reveal(is_set);
}

proof fn lemma_ring_type(o: option::OptionsView, w: rules::LayerRulesView, x: section::RawValueView)
    requires
        is_set(o, w, Setting::RingType, x),
        said(o, w).ring_type == network::over(value::ringer_at(o, Setting::RingType), RingerMode::Outside),
    ensures
        ({
            let g = said(o, w);
            let v = x.value;
            let p = section::place(x);
            &&& value::value_in(setting::ringer_setting(p, v)) == Some(g.ring_type)
        }),
{
    reveal(is_set);
}

proof fn lemma_call_waiting_tone(o: option::OptionsView, w: rules::LayerRulesView, x: section::RawValueView)
    requires
        is_set(o, w, Setting::CallWaitingTone, x),
        said(o, w).call_waiting_tone == network::over(value::optional_tone_at(o, Setting::CallWaitingTone, w), Some(Tone::CallWaiting)),
    ensures
        ({
            let g = said(o, w);
            let v = x.value;
            let p = section::place(x);
            &&& value::value_in(tone::optional_tone_setting(p, v, w)) == Some(g.call_waiting_tone)
        }),
{
    reveal(is_set);
}

proof fn lemma_fallback(o: option::OptionsView, w: rules::LayerRulesView, x: section::RawValueView)
    requires
        is_set(o, w, Setting::Fallback, x),
        said(o, w).fallback_registration.decision == network::over(value::fallback_at(o, Setting::Fallback), FallbackDecision::Reject),
    ensures
        ({
            let g = said(o, w);
            let v = x.value;
            let p = section::place(x);
            &&& value::value_in(setting::fallback_setting(p, v)) == Some(g.fallback_registration.decision)
        }),
{
    reveal(is_set);
}

proof fn lemma_conference_options(o: option::OptionsView, w: rules::LayerRulesView, x: section::RawValueView)
    requires
        is_set(o, w, Setting::ConferenceOptions, x),
        said(o, w).conference_dialing.application_options == network::over(value::app_options_at(o, Setting::ConferenceOptions), "qxd"@),
    ensures
        ({
            let g = said(o, w);
            let v = x.value;
            let p = section::place(x);
            &&& g.conference_dialing.application_options == text::trimmed(v)
        }),
{
    reveal(is_set);
}

proof fn lemma_autoanswer_tone(o: option::OptionsView, w: rules::LayerRulesView, x: section::RawValueView)
    requires
        is_set(o, w, Setting::AutoanswerTone, x),
        said(o, w).auto_answer.tone == network::over(value::tone_at(o, Setting::AutoanswerTone, w), Tone::Zip),
    ensures
        ({
            let g = said(o, w);
            let v = x.value;
            let p = section::place(x);
            &&& value::value_in(tone::tone_setting(p, v, w)) == Some(g.auto_answer.tone)
        }),
{
    reveal(is_set);
}

proof fn lemma_remote_hangup_tone(o: option::OptionsView, w: rules::LayerRulesView, x: section::RawValueView)
    requires
        is_set(o, w, Setting::RemoteHangupTone, x),
        said(o, w).remote_hangup_tone == network::over(value::optional_tone_at(o, Setting::RemoteHangupTone, w), None),
    ensures
        ({
            let g = said(o, w);
            let v = x.value;
            let p = section::place(x);
            &&& value::value_in(tone::optional_tone_setting(p, v, w)) == Some(g.remote_hangup_tone)
        }),
{
    reveal(is_set);
}

proof fn lemma_hotline_extension(o: option::OptionsView, w: rules::LayerRulesView, x: section::RawValueView)
    requires
        is_set(o, w, Setting::HotlineExtension, x),
        said(o, w).guest_hotline.extension == network::over(value::hotline_at(o, Setting::HotlineExtension, w), defaults::default_guest_hotline_config().extension),
    ensures
        ({
            let g = said(o, w);
            let v = x.value;
            let p = section::place(x);
            &&& value::value_in(value::hotline_destination_setting(p, v, w)) == Some(g.guest_hotline.extension)
        }),
{
    reveal(is_set);
}

proof fn lemma_hotline_context(o: option::OptionsView, w: rules::LayerRulesView, x: section::RawValueView)
    requires
        is_set(o, w, Setting::HotlineContext, x),
        said(o, w).guest_hotline.context == network::over(value::hotline_text_at(o, Setting::HotlineContext, w), defaults::default_guest_hotline_config().context),
    ensures
        ({
            let g = said(o, w);
            let v = x.value;
            let p = section::place(x);
            &&& g.guest_hotline.context == text::trimmed(v)
        }),
{
    reveal(is_set);
}

proof fn lemma_hotline_label(o: option::OptionsView, w: rules::LayerRulesView, x: section::RawValueView)
    requires
        is_set(o, w, Setting::HotlineLabel, x),
        said(o, w).guest_hotline.label == network::over(value::hotline_text_at(o, Setting::HotlineLabel, w), defaults::default_guest_hotline_config().label),
    ensures
        ({
            let g = said(o, w);
            let v = x.value;
            let p = section::place(x);
            &&& g.guest_hotline.label == text::trimmed(v)
        }),
{
    reveal(is_set);
}

proof fn lemma_early_media(o: option::OptionsView, w: rules::LayerRulesView, x: section::RawValueView)
    requires
        is_set(o, w, Setting::EarlyMedia, x),
        said(o, w).early_media == network::over(value::early_at(o, Setting::EarlyMedia), true),
    ensures
        ({
            let g = said(o, w);
            let v = x.value;
            let p = section::place(x);
            &&& value::value_in(setting::early_media_setting(p, v)) == Some(g.early_media)
        }),
{
    reveal(is_set);
}

proof fn lemma_audio_encryption(o: option::OptionsView, w: rules::LayerRulesView, x: section::RawValueView)
    requires
        is_set(o, w, Setting::AudioEncryption, x),
        said(o, w).audio_encryption == network::over(value::encryption_at(o, Setting::AudioEncryption), defaults::default_media_encryption_policy()),
    ensures
        ({
            let g = said(o, w);
            let v = x.value;
            let p = section::place(x);
            &&& value::value_in(codec::encryption_setting(p, v)) == Some(g.audio_encryption)
        }),
{
    reveal(is_set);
}

proof fn lemma_jb_implementation(o: option::OptionsView, w: rules::LayerRulesView, x: section::RawValueView)
    requires
        is_set(o, w, Setting::JbImplementation, x),
        said(o, w).jitter_buffer.implementation == network::over(value::jitter_kind_at(o, Setting::JbImplementation), JitterBufferImplementation::Fixed),
    ensures
        ({
            let g = said(o, w);
            let v = x.value;
            let p = section::place(x);
            &&& value::value_in(setting::jitter_kind_setting(p, v)) == Some(g.jitter_buffer.implementation)
        }),
{
    reveal(is_set);
}

proof fn lemma_digit_timeout_char(o: option::OptionsView, w: rules::LayerRulesView, x: section::RawValueView)
    requires
        is_set(o, w, Setting::DigitTimeoutChar, x),
        said(o, w).dial_terminator.character == network::over(value::terminator_at(o, Setting::DigitTimeoutChar), '#'),
    ensures
        ({
            let g = said(o, w);
            let v = x.value;
            let p = section::place(x);
            &&& value::value_in(setting::terminator_setting(p, v)) == Some(g.dial_terminator.character)
        }),
{
    reveal(is_set);
}

proof fn lemma_nat(o: option::OptionsView, w: rules::LayerRulesView, x: section::RawValueView)
    requires
        is_set(o, w, Setting::Nat, x),
        said(o, w).network.nat == network::over(value::nat_at(o, Setting::Nat), NatMode::Auto),
    ensures
        ({
            let g = said(o, w);
            let v = x.value;
            let p = section::place(x);
            &&& value::value_in(setting::nat_setting(p, v)) == Some(g.network.nat)
        }),
{
    reveal(is_set);
}

/// Modes, tones and texts: what stands where an option is not set.
pub proof fn law_general_modes_have_defaults(s: section::RawSectionView, w: rules::LayerRulesView)
    requires
        general::general_setting(s, w) is Ok,
    ensures
        ({
            let g = general::general_setting(s, w)->Ok_0;
            &&& unset(s, "call_answer_order"@) && unset(s, "callanswerorder"@) ==> (g.call_answer_order is OldestFirst)
            &&& unset(s, "ring_type"@) && unset(s, "ringtype"@) ==> (g.ring_type is Outside)
            &&& unset(s, "call_waiting_tone"@) && unset(s, "callwaitingtone"@) ==> (g.call_waiting_tone == Some(Tone::CallWaiting))
            &&& unset(s, "fallback"@) ==> (g.fallback_registration.decision is Reject)
            &&& unset(s, "meetmeopts"@) ==> (g.conference_dialing.application_options == "qxd"@)
            &&& unset(s, "autoanswer_tone"@) && unset(s, "autoanswertone"@) ==> (g.auto_answer.tone == Tone::Zip)
            &&& unset(s, "remote_hangup_tone"@) && unset(s, "remotehangup_tone"@) ==> (g.remote_hangup_tone is None)
            &&& unset(s, "hotline_extension"@) && unset(s, "hotlineextension"@) ==> (g.guest_hotline.extension matches Some(d) && d.destination == "111"@)
            &&& unset(s, "hotline_context"@) && unset(s, "hotlinecontext"@) ==> (g.guest_hotline.context == "default"@)
            &&& unset(s, "hotline_label"@) && unset(s, "hotlinelabel"@) ==> (g.guest_hotline.label == "hotline"@)
            &&& unset(s, "early_media"@) && unset(s, "earlyrtp"@) ==> (g.early_media)
            &&& unset(s, "audio_encryption"@) && unset(s, "audioencryption"@) ==> (g.audio_encryption.requirement is Off && g.audio_encryption.profiles.len() == 0)
            &&& unset(s, "jb_implementation"@) && unset(s, "jbimpl"@) ==> (g.jitter_buffer.implementation is Fixed)
            &&& unset(s, "digit_timeout_char"@) && unset(s, "digittimeoutchar"@) ==> (g.dial_terminator.character == '#')
            &&& unset(s, "nat"@) ==> (g.network.nat is Auto)
        }),
{
    let o = lemma_accepted(s, w);
    lemma_modes_without(s, w, o);
}

proof fn lemma_modes_without(s: section::RawSectionView, w: rules::LayerRulesView, o: option::OptionsView)
    requires
        is_accepted(s, w, o),
    ensures
        ({
            let g = said(o, w);
            &&& unset(s, "call_answer_order"@) && unset(s, "callanswerorder"@) ==> (g.call_answer_order is OldestFirst)
            &&& unset(s, "ring_type"@) && unset(s, "ringtype"@) ==> (g.ring_type is Outside)
            &&& unset(s, "call_waiting_tone"@) && unset(s, "callwaitingtone"@) ==> (g.call_waiting_tone == Some(Tone::CallWaiting))
            &&& unset(s, "fallback"@) ==> (g.fallback_registration.decision is Reject)
            &&& unset(s, "meetmeopts"@) ==> (g.conference_dialing.application_options == "qxd"@)
            &&& unset(s, "autoanswer_tone"@) && unset(s, "autoanswertone"@) ==> (g.auto_answer.tone == Tone::Zip)
            &&& unset(s, "remote_hangup_tone"@) && unset(s, "remotehangup_tone"@) ==> (g.remote_hangup_tone is None)
            &&& unset(s, "hotline_extension"@) && unset(s, "hotlineextension"@) ==> (g.guest_hotline.extension matches Some(d) && d.destination == "111"@)
            &&& unset(s, "hotline_context"@) && unset(s, "hotlinecontext"@) ==> (g.guest_hotline.context == "default"@)
            &&& unset(s, "hotline_label"@) && unset(s, "hotlinelabel"@) ==> (g.guest_hotline.label == "hotline"@)
            &&& unset(s, "early_media"@) && unset(s, "earlyrtp"@) ==> (g.early_media)
            &&& unset(s, "audio_encryption"@) && unset(s, "audioencryption"@) ==> (g.audio_encryption.requirement is Off && g.audio_encryption.profiles.len() == 0)
            &&& unset(s, "jb_implementation"@) && unset(s, "jbimpl"@) ==> (g.jitter_buffer.implementation is Fixed)
            &&& unset(s, "digit_timeout_char"@) && unset(s, "digittimeoutchar"@) ==> (g.dial_terminator.character == '#')
            &&& unset(s, "nat"@) ==> (g.network.nat is Auto)
        }),
{
    lemma_modes_said(s, w, o);
    if unset(s, "call_answer_order"@) && unset(s, "callanswerorder"@) {
        lemma_without_call_answer_order(s, w, o);
    }
    if unset(s, "ring_type"@) && unset(s, "ringtype"@) {
        lemma_without_ring_type(s, w, o);
    }
    if unset(s, "call_waiting_tone"@) && unset(s, "callwaitingtone"@) {
        lemma_without_call_waiting_tone(s, w, o);
    }
    if unset(s, "fallback"@) {
        lemma_without_fallback(s, w, o);
    }
    if unset(s, "meetmeopts"@) {
        lemma_without_conference_options(s, w, o);
    }
    if unset(s, "autoanswer_tone"@) && unset(s, "autoanswertone"@) {
        lemma_without_autoanswer_tone(s, w, o);
    }
    if unset(s, "remote_hangup_tone"@) && unset(s, "remotehangup_tone"@) {
        lemma_without_remote_hangup_tone(s, w, o);
    }
    if unset(s, "hotline_extension"@) && unset(s, "hotlineextension"@) {
        lemma_without_hotline_extension(s, w, o);
    }
    if unset(s, "hotline_context"@) && unset(s, "hotlinecontext"@) {
        lemma_without_hotline_context(s, w, o);
    }
    if unset(s, "hotline_label"@) && unset(s, "hotlinelabel"@) {
        lemma_without_hotline_label(s, w, o);
    }
    if unset(s, "early_media"@) && unset(s, "earlyrtp"@) {
        lemma_without_early_media(s, w, o);
    }
    if unset(s, "audio_encryption"@) && unset(s, "audioencryption"@) {
        lemma_without_audio_encryption(s, w, o);
    }
    if unset(s, "jb_implementation"@) && unset(s, "jbimpl"@) {
        lemma_without_jb_implementation(s, w, o);
    }
    if unset(s, "digit_timeout_char"@) && unset(s, "digittimeoutchar"@) {
        lemma_without_digit_timeout_char(s, w, o);
    }
    if unset(s, "nat"@) {
        lemma_without_nat(s, w, o);
    }
}

proof fn lemma_without_call_answer_order(s: section::RawSectionView, w: rules::LayerRulesView, o: option::OptionsView)
    requires
        is_accepted(s, w, o),
        unset(s, "call_answer_order"@),
        unset(s, "callanswerorder"@),
        said(o, w).call_answer_order == network::over(value::order_at(o, Setting::CallAnswerOrder), CallAnswerOrder::OldestFirst),
    ensures
        ({
            let g = said(o, w);
            g.call_answer_order is OldestFirst
        }),
{
    assert forall|i: int| 0 <= i < s.values.len() implies meaning_of(
        text::lower((#[trigger] s.values[i]).key),
    ) != Some(Setting::CallAnswerOrder) by {
        lemma_back(text::lower(s.values[i].key));
    }
    lemma_absent(s, w, o, Setting::CallAnswerOrder);
    reveal(is_absent);
}

proof fn lemma_without_ring_type(s: section::RawSectionView, w: rules::LayerRulesView, o: option::OptionsView)
    requires
        is_accepted(s, w, o),
        unset(s, "ring_type"@),
        unset(s, "ringtype"@),
        said(o, w).ring_type == network::over(value::ringer_at(o, Setting::RingType), RingerMode::Outside),
    ensures
        ({
            let g = said(o, w);
            g.ring_type is Outside
        }),
{
    assert forall|i: int| 0 <= i < s.values.len() implies meaning_of(
        text::lower((#[trigger] s.values[i]).key),
    ) != Some(Setting::RingType) by {
        lemma_back(text::lower(s.values[i].key));
    }
    lemma_absent(s, w, o, Setting::RingType);
    reveal(is_absent);
}

proof fn lemma_without_call_waiting_tone(s: section::RawSectionView, w: rules::LayerRulesView, o: option::OptionsView)
    requires
        is_accepted(s, w, o),
        unset(s, "call_waiting_tone"@),
        unset(s, "callwaitingtone"@),
        said(o, w).call_waiting_tone == network::over(value::optional_tone_at(o, Setting::CallWaitingTone, w), Some(Tone::CallWaiting)),
    ensures
        ({
            let g = said(o, w);
            g.call_waiting_tone == Some(Tone::CallWaiting)
        }),
{
    assert forall|i: int| 0 <= i < s.values.len() implies meaning_of(
        text::lower((#[trigger] s.values[i]).key),
    ) != Some(Setting::CallWaitingTone) by {
        lemma_back(text::lower(s.values[i].key));
    }
    lemma_absent(s, w, o, Setting::CallWaitingTone);
    reveal(is_absent);
}

proof fn lemma_without_fallback(s: section::RawSectionView, w: rules::LayerRulesView, o: option::OptionsView)
    requires
        is_accepted(s, w, o),
        unset(s, "fallback"@),
        said(o, w).fallback_registration.decision == network::over(value::fallback_at(o, Setting::Fallback), FallbackDecision::Reject),
    ensures
        ({
            let g = said(o, w);
            g.fallback_registration.decision is Reject
        }),
{
    assert forall|i: int| 0 <= i < s.values.len() implies meaning_of(
        text::lower((#[trigger] s.values[i]).key),
    ) != Some(Setting::Fallback) by {
        lemma_back(text::lower(s.values[i].key));
    }
    lemma_absent(s, w, o, Setting::Fallback);
    reveal(is_absent);
}

proof fn lemma_without_conference_options(s: section::RawSectionView, w: rules::LayerRulesView, o: option::OptionsView)
    requires
        is_accepted(s, w, o),
        unset(s, "meetmeopts"@),
        said(o, w).conference_dialing.application_options == network::over(value::app_options_at(o, Setting::ConferenceOptions), "qxd"@),
    ensures
        ({
            let g = said(o, w);
            g.conference_dialing.application_options == "qxd"@
        }),
{
    assert forall|i: int| 0 <= i < s.values.len() implies meaning_of(
        text::lower((#[trigger] s.values[i]).key),
    ) != Some(Setting::ConferenceOptions) by {
        lemma_back(text::lower(s.values[i].key));
    }
    lemma_absent(s, w, o, Setting::ConferenceOptions);
    reveal(is_absent);
}

proof fn lemma_without_autoanswer_tone(s: section::RawSectionView, w: rules::LayerRulesView, o: option::OptionsView)
    requires
        is_accepted(s, w, o),
        unset(s, "autoanswer_tone"@),
        unset(s, "autoanswertone"@),
        said(o, w).auto_answer.tone == network::over(value::tone_at(o, Setting::AutoanswerTone, w), Tone::Zip),
    ensures
        ({
            let g = said(o, w);
            g.auto_answer.tone == Tone::Zip
        }),
{
    assert forall|i: int| 0 <= i < s.values.len() implies meaning_of(
        text::lower((#[trigger] s.values[i]).key),
    ) != Some(Setting::AutoanswerTone) by {
        lemma_back(text::lower(s.values[i].key));
    }
    lemma_absent(s, w, o, Setting::AutoanswerTone);
    reveal(is_absent);
}

proof fn lemma_without_remote_hangup_tone(s: section::RawSectionView, w: rules::LayerRulesView, o: option::OptionsView)
    requires
        is_accepted(s, w, o),
        unset(s, "remote_hangup_tone"@),
        unset(s, "remotehangup_tone"@),
        said(o, w).remote_hangup_tone == network::over(value::optional_tone_at(o, Setting::RemoteHangupTone, w), None),
    ensures
        ({
            let g = said(o, w);
            g.remote_hangup_tone is None
        }),
{
    assert forall|i: int| 0 <= i < s.values.len() implies meaning_of(
        text::lower((#[trigger] s.values[i]).key),
    ) != Some(Setting::RemoteHangupTone) by {
        lemma_back(text::lower(s.values[i].key));
    }
    lemma_absent(s, w, o, Setting::RemoteHangupTone);
    reveal(is_absent);
}

proof fn lemma_without_hotline_extension(s: section::RawSectionView, w: rules::LayerRulesView, o: option::OptionsView)
    requires
        is_accepted(s, w, o),
        unset(s, "hotline_extension"@),
        unset(s, "hotlineextension"@),
        said(o, w).guest_hotline.extension == network::over(value::hotline_at(o, Setting::HotlineExtension, w), defaults::default_guest_hotline_config().extension),
    ensures
        ({
            let g = said(o, w);
            g.guest_hotline.extension matches Some(d) && d.destination == "111"@
        }),
{
    assert forall|i: int| 0 <= i < s.values.len() implies meaning_of(
        text::lower((#[trigger] s.values[i]).key),
    ) != Some(Setting::HotlineExtension) by {
        lemma_back(text::lower(s.values[i].key));
    }
    lemma_absent(s, w, o, Setting::HotlineExtension);
    reveal(is_absent);
}

proof fn lemma_without_hotline_context(s: section::RawSectionView, w: rules::LayerRulesView, o: option::OptionsView)
    requires
        is_accepted(s, w, o),
        unset(s, "hotline_context"@),
        unset(s, "hotlinecontext"@),
        said(o, w).guest_hotline.context == network::over(value::hotline_text_at(o, Setting::HotlineContext, w), defaults::default_guest_hotline_config().context),
    ensures
        ({
            let g = said(o, w);
            g.guest_hotline.context == "default"@
        }),
{
    assert forall|i: int| 0 <= i < s.values.len() implies meaning_of(
        text::lower((#[trigger] s.values[i]).key),
    ) != Some(Setting::HotlineContext) by {
        lemma_back(text::lower(s.values[i].key));
    }
    lemma_absent(s, w, o, Setting::HotlineContext);
    reveal(is_absent);
}

proof fn lemma_without_hotline_label(s: section::RawSectionView, w: rules::LayerRulesView, o: option::OptionsView)
    requires
        is_accepted(s, w, o),
        unset(s, "hotline_label"@),
        unset(s, "hotlinelabel"@),
        said(o, w).guest_hotline.label == network::over(value::hotline_text_at(o, Setting::HotlineLabel, w), defaults::default_guest_hotline_config().label),
    ensures
        ({
            let g = said(o, w);
            g.guest_hotline.label == "hotline"@
        }),
{
    assert forall|i: int| 0 <= i < s.values.len() implies meaning_of(
        text::lower((#[trigger] s.values[i]).key),
    ) != Some(Setting::HotlineLabel) by {
        lemma_back(text::lower(s.values[i].key));
    }
    lemma_absent(s, w, o, Setting::HotlineLabel);
    reveal(is_absent);
}

proof fn lemma_without_early_media(s: section::RawSectionView, w: rules::LayerRulesView, o: option::OptionsView)
    requires
        is_accepted(s, w, o),
        unset(s, "early_media"@),
        unset(s, "earlyrtp"@),
        said(o, w).early_media == network::over(value::early_at(o, Setting::EarlyMedia), true),
    ensures
        ({
            let g = said(o, w);
            g.early_media
        }),
{
    assert forall|i: int| 0 <= i < s.values.len() implies meaning_of(
        text::lower((#[trigger] s.values[i]).key),
    ) != Some(Setting::EarlyMedia) by {
        lemma_back(text::lower(s.values[i].key));
    }
    lemma_absent(s, w, o, Setting::EarlyMedia);
    reveal(is_absent);
}

proof fn lemma_without_audio_encryption(s: section::RawSectionView, w: rules::LayerRulesView, o: option::OptionsView)
    requires
        is_accepted(s, w, o),
        unset(s, "audio_encryption"@),
        unset(s, "audioencryption"@),
        said(o, w).audio_encryption == network::over(value::encryption_at(o, Setting::AudioEncryption), defaults::default_media_encryption_policy()),
    ensures
        ({
            let g = said(o, w);
            g.audio_encryption.requirement is Off && g.audio_encryption.profiles.len() == 0
        }),
{
    assert forall|i: int| 0 <= i < s.values.len() implies meaning_of(
        text::lower((#[trigger] s.values[i]).key),
    ) != Some(Setting::AudioEncryption) by {
        lemma_back(text::lower(s.values[i].key));
    }
    lemma_absent(s, w, o, Setting::AudioEncryption);
    reveal(is_absent);
}

proof fn lemma_without_jb_implementation(s: section::RawSectionView, w: rules::LayerRulesView, o: option::OptionsView)
    requires
        is_accepted(s, w, o),
        unset(s, "jb_implementation"@),
        unset(s, "jbimpl"@),
        said(o, w).jitter_buffer.implementation == network::over(value::jitter_kind_at(o, Setting::JbImplementation), JitterBufferImplementation::Fixed),
    ensures
        ({
            let g = said(o, w);
            g.jitter_buffer.implementation is Fixed
        }),
{
    assert forall|i: int| 0 <= i < s.values.len() implies meaning_of(
        text::lower((#[trigger] s.values[i]).key),
    ) != Some(Setting::JbImplementation) by {
        lemma_back(text::lower(s.values[i].key));
    }
    lemma_absent(s, w, o, Setting::JbImplementation);
    reveal(is_absent);
}

proof fn lemma_without_digit_timeout_char(s: section::RawSectionView, w: rules::LayerRulesView, o: option::OptionsView)
    requires
        is_accepted(s, w, o),
        unset(s, "digit_timeout_char"@),
        unset(s, "digittimeoutchar"@),
        said(o, w).dial_terminator.character == network::over(value::terminator_at(o, Setting::DigitTimeoutChar), '#'),
    ensures
        ({
            let g = said(o, w);
            g.dial_terminator.character == '#'
        }),
{
    assert forall|i: int| 0 <= i < s.values.len() implies meaning_of(
        text::lower((#[trigger] s.values[i]).key),
    ) != Some(Setting::DigitTimeoutChar) by {
        lemma_back(text::lower(s.values[i].key));
    }
    lemma_absent(s, w, o, Setting::DigitTimeoutChar);
    reveal(is_absent);
}

proof fn lemma_without_nat(s: section::RawSectionView, w: rules::LayerRulesView, o: option::OptionsView)
    requires
        is_accepted(s, w, o),
        unset(s, "nat"@),
        said(o, w).network.nat == network::over(value::nat_at(o, Setting::Nat), NatMode::Auto),
    ensures
        ({
            let g = said(o, w);
            g.network.nat is Auto
        }),
{
    assert forall|i: int| 0 <= i < s.values.len() implies meaning_of(
        text::lower((#[trigger] s.values[i]).key),
    ) != Some(Setting::Nat) by {
        lemma_back(text::lower(s.values[i].key));
    }
    lemma_absent(s, w, o, Setting::Nat);
    reveal(is_absent);
}

// ---------------------------------------------------------------------------
// Marks of packets

/// Marks of packets: a setting sets its own field, under each name of its option.
pub proof fn law_general_marks_are_set(
    s: section::RawSectionView,
    w: rules::LayerRulesView,
    i: int,
)
    requires
        general::general_setting(s, w) is Ok,
        0 <= i < s.values.len(),
    ensures
        ({
            let g = general::general_setting(s, w)->Ok_0;
            let k = text::lower(s.values[i].key);
            let v = s.values[i].value;
            let p = section::place(s.values[i]);
            &&& k == "sccp_tos"@ || k == "signalingtos"@ ==> {
                &&& value::value_in(network::tos_setting(p, v)) == Some(g.qos.signaling.dscp)
            }
            &&& k == "sccp_dscp"@ || k == "sccpdscp"@ || k == "signaling_dscp"@ || k == "signalingdscp"@ ==> {
                &&& value::value_in(network::dscp_setting(p, v)) == Some(g.qos.signaling.dscp)
            }
            &&& k == "sccp_cos"@ || k == "signaling_cos"@ || k == "signalingcos"@ ==> {
                &&& value::value_in(network::cos_setting(p, v)) == Some(g.qos.signaling.cos)
            }
            &&& k == "audio_tos"@ || k == "audiotos"@ ==> {
                &&& value::value_in(network::tos_setting(p, v)) == Some(g.qos.audio.dscp)
            }
            &&& k == "audio_dscp"@ || k == "audiodscp"@ ==> {
                &&& value::value_in(network::dscp_setting(p, v)) == Some(g.qos.audio.dscp)
            }
            &&& k == "audio_cos"@ || k == "audiocos"@ ==> {
                &&& value::value_in(network::cos_setting(p, v)) == Some(g.qos.audio.cos)
            }
            &&& k == "video_tos"@ || k == "videotos"@ ==> {
                &&& value::value_in(network::tos_setting(p, v)) == Some(g.qos.video.dscp)
            }
            &&& k == "video_dscp"@ || k == "videodscp"@ ==> {
                &&& value::value_in(network::dscp_setting(p, v)) == Some(g.qos.video.dscp)
            }
            &&& k == "video_cos"@ || k == "videocos"@ ==> {
                &&& value::value_in(network::cos_setting(p, v)) == Some(g.qos.video.cos)
            }
        }),
{
    let o = lemma_accepted(s, w);
    lemma_marks_of(s, w, o, i);
}

proof fn lemma_marks_of(
    s: section::RawSectionView,
    w: rules::LayerRulesView,
    o: option::OptionsView,
    i: int,
)
    requires
        is_accepted(s, w, o),
        0 <= i < s.values.len(),
        meaning_of(text::lower(s.values[i].key)) == Some(o.settings[i]),
        is_set(o, w, o.settings[i], s.values[i]),
    ensures
        ({
            let g = said(o, w);
            let k = text::lower(s.values[i].key);
            let v = s.values[i].value;
            let p = section::place(s.values[i]);
            &&& k == "sccp_tos"@ || k == "signalingtos"@ ==> {
                &&& value::value_in(network::tos_setting(p, v)) == Some(g.qos.signaling.dscp)
            }
            &&& k == "sccp_dscp"@ || k == "sccpdscp"@ || k == "signaling_dscp"@ || k == "signalingdscp"@ ==> {
                &&& value::value_in(network::dscp_setting(p, v)) == Some(g.qos.signaling.dscp)
            }
            &&& k == "sccp_cos"@ || k == "signaling_cos"@ || k == "signalingcos"@ ==> {
                &&& value::value_in(network::cos_setting(p, v)) == Some(g.qos.signaling.cos)
            }
            &&& k == "audio_tos"@ || k == "audiotos"@ ==> {
                &&& value::value_in(network::tos_setting(p, v)) == Some(g.qos.audio.dscp)
            }
            &&& k == "audio_dscp"@ || k == "audiodscp"@ ==> {
                &&& value::value_in(network::dscp_setting(p, v)) == Some(g.qos.audio.dscp)
            }
            &&& k == "audio_cos"@ || k == "audiocos"@ ==> {
                &&& value::value_in(network::cos_setting(p, v)) == Some(g.qos.audio.cos)
            }
            &&& k == "video_tos"@ || k == "videotos"@ ==> {
                &&& value::value_in(network::tos_setting(p, v)) == Some(g.qos.video.dscp)
            }
            &&& k == "video_dscp"@ || k == "videodscp"@ ==> {
                &&& value::value_in(network::dscp_setting(p, v)) == Some(g.qos.video.dscp)
            }
            &&& k == "video_cos"@ || k == "videocos"@ ==> {
                &&& value::value_in(network::cos_setting(p, v)) == Some(g.qos.video.cos)
            }
        }),
{
    let k = text::lower(s.values[i].key);
    lemma_marks_forth(k);
    lemma_marks_said(s, w, o);
    if k == "sccp_tos"@ || k == "signalingtos"@ {
        lemma_signaling_tos(o, w, s.values[i]);
    }
    if k == "sccp_dscp"@ || k == "sccpdscp"@ || k == "signaling_dscp"@ || k == "signalingdscp"@ {
        lemma_no_twin(s, w, o, i, Setting::SignalingTos);
        lemma_signaling_dscp(o, w, s.values[i]);
    }
    if k == "sccp_cos"@ || k == "signaling_cos"@ || k == "signalingcos"@ {
        lemma_signaling_cos(o, w, s.values[i]);
    }
    if k == "audio_tos"@ || k == "audiotos"@ {
        lemma_audio_tos(o, w, s.values[i]);
    }
    if k == "audio_dscp"@ || k == "audiodscp"@ {
        lemma_no_twin(s, w, o, i, Setting::AudioTos);
        lemma_audio_dscp(o, w, s.values[i]);
    }
    if k == "audio_cos"@ || k == "audiocos"@ {
        lemma_audio_cos(o, w, s.values[i]);
    }
    if k == "video_tos"@ || k == "videotos"@ {
        lemma_video_tos(o, w, s.values[i]);
    }
    if k == "video_dscp"@ || k == "videodscp"@ {
        lemma_no_twin(s, w, o, i, Setting::VideoTos);
        lemma_video_dscp(o, w, s.values[i]);
    }
    if k == "video_cos"@ || k == "videocos"@ {
        lemma_video_cos(o, w, s.values[i]);
    }
}

proof fn lemma_marks_forth(n: text::Text)
    ensures
        n == "sccp_tos"@ || n == "signalingtos"@ ==> meaning_of(n) == Some(Setting::SignalingTos),
        n == "sccp_dscp"@ || n == "sccpdscp"@ || n == "signaling_dscp"@ || n == "signalingdscp"@ ==> meaning_of(n) == Some(Setting::SignalingDscp),
        n == "sccp_cos"@ || n == "signaling_cos"@ || n == "signalingcos"@ ==> meaning_of(n) == Some(Setting::SignalingCos),
        n == "audio_tos"@ || n == "audiotos"@ ==> meaning_of(n) == Some(Setting::AudioTos),
        n == "audio_dscp"@ || n == "audiodscp"@ ==> meaning_of(n) == Some(Setting::AudioDscp),
        n == "audio_cos"@ || n == "audiocos"@ ==> meaning_of(n) == Some(Setting::AudioCos),
        n == "video_tos"@ || n == "videotos"@ ==> meaning_of(n) == Some(Setting::VideoTos),
        n == "video_dscp"@ || n == "videodscp"@ ==> meaning_of(n) == Some(Setting::VideoDscp),
        n == "video_cos"@ || n == "videocos"@ ==> meaning_of(n) == Some(Setting::VideoCos),
{
    lemma_forth(n);
}

/// Where these fields come from.
proof fn lemma_marks_said(s: section::RawSectionView, w: rules::LayerRulesView, o: option::OptionsView)
    requires
        is_accepted(s, w, o),
    ensures
        said(o, w).qos.signaling.dscp == network::over(general::either(value::tos_at(o, Setting::SignalingTos), value::dscp_at(o, Setting::SignalingDscp)), defaults::default_qos_policy().signaling.dscp),
        said(o, w).qos.signaling.cos == network::over(value::cos_at(o, Setting::SignalingCos), defaults::default_qos_policy().signaling.cos),
        said(o, w).qos.audio.dscp == network::over(general::either(value::tos_at(o, Setting::AudioTos), value::dscp_at(o, Setting::AudioDscp)), defaults::default_qos_policy().audio.dscp),
        said(o, w).qos.audio.cos == network::over(value::cos_at(o, Setting::AudioCos), defaults::default_qos_policy().audio.cos),
        said(o, w).qos.video.dscp == network::over(general::either(value::tos_at(o, Setting::VideoTos), value::dscp_at(o, Setting::VideoDscp)), defaults::default_qos_policy().video.dscp),
        said(o, w).qos.video.cos == network::over(value::cos_at(o, Setting::VideoCos), defaults::default_qos_policy().video.cos),
{
    reveal(is_accepted);
    reveal(said);
}

proof fn lemma_signaling_tos(o: option::OptionsView, w: rules::LayerRulesView, x: section::RawValueView)
    requires
        is_set(o, w, Setting::SignalingTos, x),
        said(o, w).qos.signaling.dscp == network::over(general::either(value::tos_at(o, Setting::SignalingTos), value::dscp_at(o, Setting::SignalingDscp)), defaults::default_qos_policy().signaling.dscp),
    ensures
        ({
            let g = said(o, w);
            let v = x.value;
            let p = section::place(x);
            &&& value::value_in(network::tos_setting(p, v)) == Some(g.qos.signaling.dscp)
        }),
{
    reveal(is_set);
}

proof fn lemma_signaling_dscp(o: option::OptionsView, w: rules::LayerRulesView, x: section::RawValueView)
    requires
        is_set(o, w, Setting::SignalingDscp, x),
        is_absent(o, w, Setting::SignalingTos),
        said(o, w).qos.signaling.dscp == network::over(general::either(value::tos_at(o, Setting::SignalingTos), value::dscp_at(o, Setting::SignalingDscp)), defaults::default_qos_policy().signaling.dscp),
    ensures
        ({
            let g = said(o, w);
            let v = x.value;
            let p = section::place(x);
            &&& value::value_in(network::dscp_setting(p, v)) == Some(g.qos.signaling.dscp)
        }),
{
    reveal(is_set);
    reveal(is_absent);
}

proof fn lemma_signaling_cos(o: option::OptionsView, w: rules::LayerRulesView, x: section::RawValueView)
    requires
        is_set(o, w, Setting::SignalingCos, x),
        said(o, w).qos.signaling.cos == network::over(value::cos_at(o, Setting::SignalingCos), defaults::default_qos_policy().signaling.cos),
    ensures
        ({
            let g = said(o, w);
            let v = x.value;
            let p = section::place(x);
            &&& value::value_in(network::cos_setting(p, v)) == Some(g.qos.signaling.cos)
        }),
{
    reveal(is_set);
}

proof fn lemma_audio_tos(o: option::OptionsView, w: rules::LayerRulesView, x: section::RawValueView)
    requires
        is_set(o, w, Setting::AudioTos, x),
        said(o, w).qos.audio.dscp == network::over(general::either(value::tos_at(o, Setting::AudioTos), value::dscp_at(o, Setting::AudioDscp)), defaults::default_qos_policy().audio.dscp),
    ensures
        ({
            let g = said(o, w);
            let v = x.value;
            let p = section::place(x);
            &&& value::value_in(network::tos_setting(p, v)) == Some(g.qos.audio.dscp)
        }),
{
    reveal(is_set);
}

proof fn lemma_audio_dscp(o: option::OptionsView, w: rules::LayerRulesView, x: section::RawValueView)
    requires
        is_set(o, w, Setting::AudioDscp, x),
        is_absent(o, w, Setting::AudioTos),
        said(o, w).qos.audio.dscp == network::over(general::either(value::tos_at(o, Setting::AudioTos), value::dscp_at(o, Setting::AudioDscp)), defaults::default_qos_policy().audio.dscp),
    ensures
        ({
            let g = said(o, w);
            let v = x.value;
            let p = section::place(x);
            &&& value::value_in(network::dscp_setting(p, v)) == Some(g.qos.audio.dscp)
        }),
{
    reveal(is_set);
    reveal(is_absent);
}

proof fn lemma_audio_cos(o: option::OptionsView, w: rules::LayerRulesView, x: section::RawValueView)
    requires
        is_set(o, w, Setting::AudioCos, x),
        said(o, w).qos.audio.cos == network::over(value::cos_at(o, Setting::AudioCos), defaults::default_qos_policy().audio.cos),
    ensures
        ({
            let g = said(o, w);
            let v = x.value;
            let p = section::place(x);
            &&& value::value_in(network::cos_setting(p, v)) == Some(g.qos.audio.cos)
        }),
{
    reveal(is_set);
}

proof fn lemma_video_tos(o: option::OptionsView, w: rules::LayerRulesView, x: section::RawValueView)
    requires
        is_set(o, w, Setting::VideoTos, x),
        said(o, w).qos.video.dscp == network::over(general::either(value::tos_at(o, Setting::VideoTos), value::dscp_at(o, Setting::VideoDscp)), defaults::default_qos_policy().video.dscp),
    ensures
        ({
            let g = said(o, w);
            let v = x.value;
            let p = section::place(x);
            &&& value::value_in(network::tos_setting(p, v)) == Some(g.qos.video.dscp)
        }),
{
    reveal(is_set);
}

proof fn lemma_video_dscp(o: option::OptionsView, w: rules::LayerRulesView, x: section::RawValueView)
    requires
        is_set(o, w, Setting::VideoDscp, x),
        is_absent(o, w, Setting::VideoTos),
        said(o, w).qos.video.dscp == network::over(general::either(value::tos_at(o, Setting::VideoTos), value::dscp_at(o, Setting::VideoDscp)), defaults::default_qos_policy().video.dscp),
    ensures
        ({
            let g = said(o, w);
            let v = x.value;
            let p = section::place(x);
            &&& value::value_in(network::dscp_setting(p, v)) == Some(g.qos.video.dscp)
        }),
{
    reveal(is_set);
    reveal(is_absent);
}

proof fn lemma_video_cos(o: option::OptionsView, w: rules::LayerRulesView, x: section::RawValueView)
    requires
        is_set(o, w, Setting::VideoCos, x),
        said(o, w).qos.video.cos == network::over(value::cos_at(o, Setting::VideoCos), defaults::default_qos_policy().video.cos),
    ensures
        ({
            let g = said(o, w);
            let v = x.value;
            let p = section::place(x);
            &&& value::value_in(network::cos_setting(p, v)) == Some(g.qos.video.cos)
        }),
{
    reveal(is_set);
}

/// Marks of packets: what stands where an option is not set.
pub proof fn law_general_marks_have_defaults(s: section::RawSectionView, w: rules::LayerRulesView)
    requires
        general::general_setting(s, w) is Ok,
    ensures
        ({
            let g = general::general_setting(s, w)->Ok_0;
            &&& unset(s, "sccp_tos"@) && unset(s, "signalingtos"@) && unset(s, "sccp_dscp"@) && unset(s, "sccpdscp"@) && unset(s, "signaling_dscp"@) && unset(s, "signalingdscp"@) ==> (g.qos.signaling.dscp.value == 26)
            &&& unset(s, "sccp_cos"@) && unset(s, "signaling_cos"@) && unset(s, "signalingcos"@) ==> (g.qos.signaling.cos.value == 4)
            &&& unset(s, "audio_tos"@) && unset(s, "audiotos"@) && unset(s, "audio_dscp"@) && unset(s, "audiodscp"@) ==> (g.qos.audio.dscp.value == 46)
            &&& unset(s, "audio_cos"@) && unset(s, "audiocos"@) ==> (g.qos.audio.cos.value == 6)
            &&& unset(s, "video_tos"@) && unset(s, "videotos"@) && unset(s, "video_dscp"@) && unset(s, "videodscp"@) ==> (g.qos.video.dscp.value == 34)
            &&& unset(s, "video_cos"@) && unset(s, "videocos"@) ==> (g.qos.video.cos.value == 5)
        }),
{
    let o = lemma_accepted(s, w);
    lemma_marks_without(s, w, o);
}

proof fn lemma_marks_without(s: section::RawSectionView, w: rules::LayerRulesView, o: option::OptionsView)
    requires
        is_accepted(s, w, o),
    ensures
        ({
            let g = said(o, w);
            &&& unset(s, "sccp_tos"@) && unset(s, "signalingtos"@) && unset(s, "sccp_dscp"@) && unset(s, "sccpdscp"@) && unset(s, "signaling_dscp"@) && unset(s, "signalingdscp"@) ==> (g.qos.signaling.dscp.value == 26)
            &&& unset(s, "sccp_cos"@) && unset(s, "signaling_cos"@) && unset(s, "signalingcos"@) ==> (g.qos.signaling.cos.value == 4)
            &&& unset(s, "audio_tos"@) && unset(s, "audiotos"@) && unset(s, "audio_dscp"@) && unset(s, "audiodscp"@) ==> (g.qos.audio.dscp.value == 46)
            &&& unset(s, "audio_cos"@) && unset(s, "audiocos"@) ==> (g.qos.audio.cos.value == 6)
            &&& unset(s, "video_tos"@) && unset(s, "videotos"@) && unset(s, "video_dscp"@) && unset(s, "videodscp"@) ==> (g.qos.video.dscp.value == 34)
            &&& unset(s, "video_cos"@) && unset(s, "videocos"@) ==> (g.qos.video.cos.value == 5)
        }),
{
    lemma_marks_said(s, w, o);
    if unset(s, "sccp_tos"@) && unset(s, "signalingtos"@) && unset(s, "sccp_dscp"@) && unset(s, "sccpdscp"@) && unset(s, "signaling_dscp"@) && unset(s, "signalingdscp"@) {
        lemma_without_signaling_tos_or_signaling_dscp(s, w, o);
    }
    if unset(s, "sccp_cos"@) && unset(s, "signaling_cos"@) && unset(s, "signalingcos"@) {
        lemma_without_signaling_cos(s, w, o);
    }
    if unset(s, "audio_tos"@) && unset(s, "audiotos"@) && unset(s, "audio_dscp"@) && unset(s, "audiodscp"@) {
        lemma_without_audio_tos_or_audio_dscp(s, w, o);
    }
    if unset(s, "audio_cos"@) && unset(s, "audiocos"@) {
        lemma_without_audio_cos(s, w, o);
    }
    if unset(s, "video_tos"@) && unset(s, "videotos"@) && unset(s, "video_dscp"@) && unset(s, "videodscp"@) {
        lemma_without_video_tos_or_video_dscp(s, w, o);
    }
    if unset(s, "video_cos"@) && unset(s, "videocos"@) {
        lemma_without_video_cos(s, w, o);
    }
}

proof fn lemma_without_signaling_tos_or_signaling_dscp(s: section::RawSectionView, w: rules::LayerRulesView, o: option::OptionsView)
    requires
        is_accepted(s, w, o),
        unset(s, "sccp_tos"@),
        unset(s, "signalingtos"@),
        unset(s, "sccp_dscp"@),
        unset(s, "sccpdscp"@),
        unset(s, "signaling_dscp"@),
        unset(s, "signalingdscp"@),
        said(o, w).qos.signaling.dscp == network::over(general::either(value::tos_at(o, Setting::SignalingTos), value::dscp_at(o, Setting::SignalingDscp)), defaults::default_qos_policy().signaling.dscp),
    ensures
        ({
            let g = said(o, w);
            g.qos.signaling.dscp.value == 26
        }),
{
    assert forall|i: int| 0 <= i < s.values.len() implies meaning_of(
        text::lower((#[trigger] s.values[i]).key),
    ) != Some(Setting::SignalingTos) by {
        lemma_back(text::lower(s.values[i].key));
    }
    lemma_absent(s, w, o, Setting::SignalingTos);
    assert forall|i: int| 0 <= i < s.values.len() implies meaning_of(
        text::lower((#[trigger] s.values[i]).key),
    ) != Some(Setting::SignalingDscp) by {
        lemma_back(text::lower(s.values[i].key));
    }
    lemma_absent(s, w, o, Setting::SignalingDscp);
    reveal(is_absent);
}

proof fn lemma_without_signaling_cos(s: section::RawSectionView, w: rules::LayerRulesView, o: option::OptionsView)
    requires
        is_accepted(s, w, o),
        unset(s, "sccp_cos"@),
        unset(s, "signaling_cos"@),
        unset(s, "signalingcos"@),
        said(o, w).qos.signaling.cos == network::over(value::cos_at(o, Setting::SignalingCos), defaults::default_qos_policy().signaling.cos),
    ensures
        ({
            let g = said(o, w);
            g.qos.signaling.cos.value == 4
        }),
{
    assert forall|i: int| 0 <= i < s.values.len() implies meaning_of(
        text::lower((#[trigger] s.values[i]).key),
    ) != Some(Setting::SignalingCos) by {
        lemma_back(text::lower(s.values[i].key));
    }
    lemma_absent(s, w, o, Setting::SignalingCos);
    reveal(is_absent);
}

proof fn lemma_without_audio_tos_or_audio_dscp(s: section::RawSectionView, w: rules::LayerRulesView, o: option::OptionsView)
    requires
        is_accepted(s, w, o),
        unset(s, "audio_tos"@),
        unset(s, "audiotos"@),
        unset(s, "audio_dscp"@),
        unset(s, "audiodscp"@),
        said(o, w).qos.audio.dscp == network::over(general::either(value::tos_at(o, Setting::AudioTos), value::dscp_at(o, Setting::AudioDscp)), defaults::default_qos_policy().audio.dscp),
    ensures
        ({
            let g = said(o, w);
            g.qos.audio.dscp.value == 46
        }),
{
    assert forall|i: int| 0 <= i < s.values.len() implies meaning_of(
        text::lower((#[trigger] s.values[i]).key),
    ) != Some(Setting::AudioTos) by {
        lemma_back(text::lower(s.values[i].key));
    }
    lemma_absent(s, w, o, Setting::AudioTos);
    assert forall|i: int| 0 <= i < s.values.len() implies meaning_of(
        text::lower((#[trigger] s.values[i]).key),
    ) != Some(Setting::AudioDscp) by {
        lemma_back(text::lower(s.values[i].key));
    }
    lemma_absent(s, w, o, Setting::AudioDscp);
    reveal(is_absent);
}

proof fn lemma_without_audio_cos(s: section::RawSectionView, w: rules::LayerRulesView, o: option::OptionsView)
    requires
        is_accepted(s, w, o),
        unset(s, "audio_cos"@),
        unset(s, "audiocos"@),
        said(o, w).qos.audio.cos == network::over(value::cos_at(o, Setting::AudioCos), defaults::default_qos_policy().audio.cos),
    ensures
        ({
            let g = said(o, w);
            g.qos.audio.cos.value == 6
        }),
{
    assert forall|i: int| 0 <= i < s.values.len() implies meaning_of(
        text::lower((#[trigger] s.values[i]).key),
    ) != Some(Setting::AudioCos) by {
        lemma_back(text::lower(s.values[i].key));
    }
    lemma_absent(s, w, o, Setting::AudioCos);
    reveal(is_absent);
}

proof fn lemma_without_video_tos_or_video_dscp(s: section::RawSectionView, w: rules::LayerRulesView, o: option::OptionsView)
    requires
        is_accepted(s, w, o),
        unset(s, "video_tos"@),
        unset(s, "videotos"@),
        unset(s, "video_dscp"@),
        unset(s, "videodscp"@),
        said(o, w).qos.video.dscp == network::over(general::either(value::tos_at(o, Setting::VideoTos), value::dscp_at(o, Setting::VideoDscp)), defaults::default_qos_policy().video.dscp),
    ensures
        ({
            let g = said(o, w);
            g.qos.video.dscp.value == 34
        }),
{
    assert forall|i: int| 0 <= i < s.values.len() implies meaning_of(
        text::lower((#[trigger] s.values[i]).key),
    ) != Some(Setting::VideoTos) by {
        lemma_back(text::lower(s.values[i].key));
    }
    lemma_absent(s, w, o, Setting::VideoTos);
    assert forall|i: int| 0 <= i < s.values.len() implies meaning_of(
        text::lower((#[trigger] s.values[i]).key),
    ) != Some(Setting::VideoDscp) by {
        lemma_back(text::lower(s.values[i].key));
    }
    lemma_absent(s, w, o, Setting::VideoDscp);
    reveal(is_absent);
}

proof fn lemma_without_video_cos(s: section::RawSectionView, w: rules::LayerRulesView, o: option::OptionsView)
    requires
        is_accepted(s, w, o),
        unset(s, "video_cos"@),
        unset(s, "videocos"@),
        said(o, w).qos.video.cos == network::over(value::cos_at(o, Setting::VideoCos), defaults::default_qos_policy().video.cos),
    ensures
        ({
            let g = said(o, w);
            g.qos.video.cos.value == 5
        }),
{
    assert forall|i: int| 0 <= i < s.values.len() implies meaning_of(
        text::lower((#[trigger] s.values[i]).key),
    ) != Some(Setting::VideoCos) by {
        lemma_back(text::lower(s.values[i].key));
    }
    lemma_absent(s, w, o, Setting::VideoCos);
    reveal(is_absent);
}

// ---------------------------------------------------------------------------
// Addresses, listeners and tables

/// Addresses, listeners and tables: a setting sets its own field, under each name of its option.
pub proof fn law_general_addresses_are_set(
    s: section::RawSectionView,
    w: rules::LayerRulesView,
    i: int,
)
    requires
        general::general_setting(s, w) is Ok,
        0 <= i < s.values.len(),
    ensures
        ({
            let g = general::general_setting(s, w)->Ok_0;
            let k = text::lower(s.values[i].key);
            let v = s.values[i].value;
            let p = section::place(s.values[i]);
            &&& k == "bind"@ || k == "clearbind"@ ==> {
                &&& address::socket_of(v) == Some(g.bind)
                &&& g.bind.port != 0
            }
            &&& k == "bind_address"@ || k == "bindaddr"@ || k == "clearbindaddr"@ ==> {
                &&& address::ip_of(v) == Some(g.bind.ip)
            }
            &&& k == "clearport"@ || k == "port"@ ==> {
                &&& number::unsigned(v, 10) == Some(g.bind.port as nat)
                &&& 1 <= g.bind.port <= 65535
            }
            &&& k == "advertised_address"@ ==> {
                &&& match address::ip_of(v) { Some(IpAddr::V4(a)) => g.network.advertised.ipv4 == Some(a) && g.network.advertised.ipv6 is None && g.advertised_address == a, Some(IpAddr::V6(a)) => g.network.advertised.ipv4 is None && g.network.advertised.ipv6 == Some(a), None => false }
            }
            &&& k == "advertised_ipv4"@ || k == "advertisedaddressipv4"@ ==> {
                &&& (text::trimmed(v).len() == 0 || text::same_fold(text::trimmed(v), "none"@)) ==> g.network.advertised.ipv4 is None
                &&& !(text::trimmed(v).len() == 0 || text::same_fold(text::trimmed(v), "none"@)) ==> address::ipv4_of(text::trimmed(v)) == g.network.advertised.ipv4 && g.network.advertised.ipv4 is Some
            }
            &&& k == "advertised_ipv6"@ || k == "advertisedaddressipv6"@ ==> {
                &&& (text::trimmed(v).len() == 0 || text::same_fold(text::trimmed(v), "none"@)) ==> g.network.advertised.ipv6 is None
                &&& !(text::trimmed(v).len() == 0 || text::same_fold(text::trimmed(v), "none"@)) ==> address::ipv6_of(text::trimmed(v)) == g.network.advertised.ipv6 && g.network.advertised.ipv6 is Some
            }
            &&& k == "securebind"@ || k == "tls_bind"@ ==> {
                &&& g.listeners.tls is Some
                &&& address::socket_of(v) == Some(g.listeners.tls->0.bind)
            }
            &&& k == "secbindaddr"@ || k == "tls_bind_address"@ || k == "tlsbindaddr"@ ==> {
                &&& g.listeners.tls is Some
                &&& address::ip_of(v) == Some(g.listeners.tls->0.bind.ip)
            }
            &&& k == "secport"@ || k == "tls_port"@ || k == "tlsport"@ ==> {
                &&& g.listeners.tls is Some
                &&& number::unsigned(v, 10) == Some(g.listeners.tls->0.bind.port as nat)
            }
            &&& k == "certfile"@ || k == "tls_combined_pem"@ || k == "tlscombinedpem"@ ==> {
                &&& g.listeners.tls is Some
                &&& g.listeners.tls->0.credentials == policy::TlsCredentialsView::CombinedPem(text::trimmed(v))
            }
            &&& k == "tls_certificate"@ || k == "tlscertificatefile"@ ==> {
                &&& g.listeners.tls is Some
                &&& g.listeners.tls->0.credentials matches policy::TlsCredentialsView::SplitPem { certificate, private_key, trust_store } && certificate == text::trimmed(v)
            }
            &&& k == "tls_private_key"@ || k == "tlsprivatekeyfile"@ ==> {
                &&& g.listeners.tls is Some
                &&& g.listeners.tls->0.credentials matches policy::TlsCredentialsView::SplitPem { certificate, private_key, trust_store } && private_key == text::trimmed(v)
            }
            &&& k == "tls_trust_store"@ || k == "tlscafile"@ ==> {
                &&& g.listeners.tls is Some
                &&& g.listeners.tls->0.credentials matches policy::TlsCredentialsView::SplitPem { certificate, private_key, trust_store } && trust_store == Some(text::trimmed(v))
            }
            &&& k == "externaladdress"@ || k == "externip"@ ==> {
                &&& !(text::trimmed(v).len() == 0 || text::same_fold(text::trimmed(v), "none"@)) ==> (address::ip_of(text::trimmed(v)) matches Some(a) && g.network.external == Some(policy::ExternalAddressView::Address(a)))
            }
            &&& k == "externalhost"@ || k == "externhost"@ ==> {
                &&& !(text::trimmed(v).len() == 0 || text::same_fold(text::trimmed(v), "none"@)) ==> (g.network.external matches Some(policy::ExternalAddressView::Hostname { name, refresh_seconds }) && value::value_in(setting::hostname_setting(p, text::trimmed(v))) == Some(name))
            }
            &&& k == "externalrefresh"@ || k == "externrefresh"@ ==> {
                &&& g.network.external matches Some(policy::ExternalAddressView::Hostname { name, refresh_seconds }) && number::unsigned(v, 10) == Some(refresh_seconds as nat) && 1 <= refresh_seconds <= 86400
            }
            &&& k == "device_table"@ || k == "devicetable"@ ==> {
                &&& g.realtime_tables matches Some(t) && value::value_in(setting::family_setting(p, v)) == Some(t.device_family)
            }
            &&& k == "line_table"@ || k == "linetable"@ ==> {
                &&& g.realtime_tables matches Some(t) && value::value_in(setting::family_setting(p, v)) == Some(t.line_family)
            }
        }),
{
    let o = lemma_accepted(s, w);
    lemma_addresses_of(s, w, o, i);
}

proof fn lemma_addresses_of(
    s: section::RawSectionView,
    w: rules::LayerRulesView,
    o: option::OptionsView,
    i: int,
)
    requires
        is_accepted(s, w, o),
        0 <= i < s.values.len(),
        meaning_of(text::lower(s.values[i].key)) == Some(o.settings[i]),
        is_set(o, w, o.settings[i], s.values[i]),
    ensures
        ({
            let g = said(o, w);
            let k = text::lower(s.values[i].key);
            let v = s.values[i].value;
            let p = section::place(s.values[i]);
            &&& k == "bind"@ || k == "clearbind"@ ==> {
                &&& address::socket_of(v) == Some(g.bind)
                &&& g.bind.port != 0
            }
            &&& k == "bind_address"@ || k == "bindaddr"@ || k == "clearbindaddr"@ ==> {
                &&& address::ip_of(v) == Some(g.bind.ip)
            }
            &&& k == "clearport"@ || k == "port"@ ==> {
                &&& number::unsigned(v, 10) == Some(g.bind.port as nat)
                &&& 1 <= g.bind.port <= 65535
            }
            &&& k == "advertised_address"@ ==> {
                &&& match address::ip_of(v) { Some(IpAddr::V4(a)) => g.network.advertised.ipv4 == Some(a) && g.network.advertised.ipv6 is None && g.advertised_address == a, Some(IpAddr::V6(a)) => g.network.advertised.ipv4 is None && g.network.advertised.ipv6 == Some(a), None => false }
            }
            &&& k == "advertised_ipv4"@ || k == "advertisedaddressipv4"@ ==> {
                &&& (text::trimmed(v).len() == 0 || text::same_fold(text::trimmed(v), "none"@)) ==> g.network.advertised.ipv4 is None
                &&& !(text::trimmed(v).len() == 0 || text::same_fold(text::trimmed(v), "none"@)) ==> address::ipv4_of(text::trimmed(v)) == g.network.advertised.ipv4 && g.network.advertised.ipv4 is Some
            }
            &&& k == "advertised_ipv6"@ || k == "advertisedaddressipv6"@ ==> {
                &&& (text::trimmed(v).len() == 0 || text::same_fold(text::trimmed(v), "none"@)) ==> g.network.advertised.ipv6 is None
                &&& !(text::trimmed(v).len() == 0 || text::same_fold(text::trimmed(v), "none"@)) ==> address::ipv6_of(text::trimmed(v)) == g.network.advertised.ipv6 && g.network.advertised.ipv6 is Some
            }
            &&& k == "securebind"@ || k == "tls_bind"@ ==> {
                &&& g.listeners.tls is Some
                &&& address::socket_of(v) == Some(g.listeners.tls->0.bind)
            }
            &&& k == "secbindaddr"@ || k == "tls_bind_address"@ || k == "tlsbindaddr"@ ==> {
                &&& g.listeners.tls is Some
                &&& address::ip_of(v) == Some(g.listeners.tls->0.bind.ip)
            }
            &&& k == "secport"@ || k == "tls_port"@ || k == "tlsport"@ ==> {
                &&& g.listeners.tls is Some
                &&& number::unsigned(v, 10) == Some(g.listeners.tls->0.bind.port as nat)
            }
            &&& k == "certfile"@ || k == "tls_combined_pem"@ || k == "tlscombinedpem"@ ==> {
                &&& g.listeners.tls is Some
                &&& g.listeners.tls->0.credentials == policy::TlsCredentialsView::CombinedPem(text::trimmed(v))
            }
            &&& k == "tls_certificate"@ || k == "tlscertificatefile"@ ==> {
                &&& g.listeners.tls is Some
                &&& g.listeners.tls->0.credentials matches policy::TlsCredentialsView::SplitPem { certificate, private_key, trust_store } && certificate == text::trimmed(v)
            }
            &&& k == "tls_private_key"@ || k == "tlsprivatekeyfile"@ ==> {
                &&& g.listeners.tls is Some
                &&& g.listeners.tls->0.credentials matches policy::TlsCredentialsView::SplitPem { certificate, private_key, trust_store } && private_key == text::trimmed(v)
            }
            &&& k == "tls_trust_store"@ || k == "tlscafile"@ ==> {
                &&& g.listeners.tls is Some
                &&& g.listeners.tls->0.credentials matches policy::TlsCredentialsView::SplitPem { certificate, private_key, trust_store } && trust_store == Some(text::trimmed(v))
            }
            &&& k == "externaladdress"@ || k == "externip"@ ==> {
                &&& !(text::trimmed(v).len() == 0 || text::same_fold(text::trimmed(v), "none"@)) ==> (address::ip_of(text::trimmed(v)) matches Some(a) && g.network.external == Some(policy::ExternalAddressView::Address(a)))
            }
            &&& k == "externalhost"@ || k == "externhost"@ ==> {
                &&& !(text::trimmed(v).len() == 0 || text::same_fold(text::trimmed(v), "none"@)) ==> (g.network.external matches Some(policy::ExternalAddressView::Hostname { name, refresh_seconds }) && value::value_in(setting::hostname_setting(p, text::trimmed(v))) == Some(name))
            }
            &&& k == "externalrefresh"@ || k == "externrefresh"@ ==> {
                &&& g.network.external matches Some(policy::ExternalAddressView::Hostname { name, refresh_seconds }) && number::unsigned(v, 10) == Some(refresh_seconds as nat) && 1 <= refresh_seconds <= 86400
            }
            &&& k == "device_table"@ || k == "devicetable"@ ==> {
                &&& g.realtime_tables matches Some(t) && value::value_in(setting::family_setting(p, v)) == Some(t.device_family)
            }
            &&& k == "line_table"@ || k == "linetable"@ ==> {
                &&& g.realtime_tables matches Some(t) && value::value_in(setting::family_setting(p, v)) == Some(t.line_family)
            }
        }),
{
    let k = text::lower(s.values[i].key);
    lemma_addresses_forth(k);
    lemma_addresses_said(s, w, o);
    if k == "bind"@ || k == "clearbind"@ {
        lemma_bind(o, w, s.values[i]);
    }
    if k == "bind_address"@ || k == "bindaddr"@ || k == "clearbindaddr"@ {
        lemma_bind_address(o, w, s.values[i]);
    }
    if k == "clearport"@ || k == "port"@ {
        lemma_port(o, w, s.values[i]);
    }
    if k == "advertised_address"@ {
        lemma_advertised_address(o, w, s.values[i]);
    }
    if k == "advertised_ipv4"@ || k == "advertisedaddressipv4"@ {
        lemma_no_twin(s, w, o, i, Setting::AdvertisedAddress);
        lemma_advertised_ipv4(o, w, s.values[i]);
    }
    if k == "advertised_ipv6"@ || k == "advertisedaddressipv6"@ {
        lemma_no_twin(s, w, o, i, Setting::AdvertisedAddress);
        lemma_advertised_ipv6(o, w, s.values[i]);
    }
    if k == "securebind"@ || k == "tls_bind"@ {
        lemma_tls_bind(o, w, s.values[i]);
    }
    if k == "secbindaddr"@ || k == "tls_bind_address"@ || k == "tlsbindaddr"@ {
        lemma_tls_bind_address(o, w, s.values[i]);
    }
    if k == "secport"@ || k == "tls_port"@ || k == "tlsport"@ {
        lemma_tls_port(o, w, s.values[i]);
    }
    if k == "certfile"@ || k == "tls_combined_pem"@ || k == "tlscombinedpem"@ {
        lemma_tls_combined_pem(o, w, s.values[i]);
    }
    if k == "tls_certificate"@ || k == "tlscertificatefile"@ {
        lemma_tls_certificate(o, w, s.values[i]);
    }
    if k == "tls_private_key"@ || k == "tlsprivatekeyfile"@ {
        lemma_tls_private_key(o, w, s.values[i]);
    }
    if k == "tls_trust_store"@ || k == "tlscafile"@ {
        lemma_tls_trust_store(o, w, s.values[i]);
    }
    if k == "externaladdress"@ || k == "externip"@ {
        lemma_external_address(o, w, s.values[i]);
    }
    if k == "externalhost"@ || k == "externhost"@ {
        lemma_external_host(o, w, s.values[i]);
    }
    if k == "externalrefresh"@ || k == "externrefresh"@ {
        lemma_external_refresh(o, w, s.values[i]);
    }
    if k == "device_table"@ || k == "devicetable"@ {
        lemma_device_table(o, w, s.values[i]);
    }
    if k == "line_table"@ || k == "linetable"@ {
        lemma_line_table(o, w, s.values[i]);
    }
}

proof fn lemma_addresses_forth(n: text::Text)
    ensures
        n == "bind"@ || n == "clearbind"@ ==> meaning_of(n) == Some(Setting::Bind),
        n == "bind_address"@ || n == "bindaddr"@ || n == "clearbindaddr"@ ==> meaning_of(n) == Some(Setting::BindAddress),
        n == "clearport"@ || n == "port"@ ==> meaning_of(n) == Some(Setting::Port),
        n == "advertised_address"@ ==> meaning_of(n) == Some(Setting::AdvertisedAddress),
        n == "advertised_ipv4"@ || n == "advertisedaddressipv4"@ ==> meaning_of(n) == Some(Setting::AdvertisedIpv4),
        n == "advertised_ipv6"@ || n == "advertisedaddressipv6"@ ==> meaning_of(n) == Some(Setting::AdvertisedIpv6),
        n == "securebind"@ || n == "tls_bind"@ ==> meaning_of(n) == Some(Setting::TlsBind),
        n == "secbindaddr"@ || n == "tls_bind_address"@ || n == "tlsbindaddr"@ ==> meaning_of(n) == Some(Setting::TlsBindAddress),
        n == "secport"@ || n == "tls_port"@ || n == "tlsport"@ ==> meaning_of(n) == Some(Setting::TlsPort),
        n == "certfile"@ || n == "tls_combined_pem"@ || n == "tlscombinedpem"@ ==> meaning_of(n) == Some(Setting::TlsCombinedPem),
        n == "tls_certificate"@ || n == "tlscertificatefile"@ ==> meaning_of(n) == Some(Setting::TlsCertificate),
        n == "tls_private_key"@ || n == "tlsprivatekeyfile"@ ==> meaning_of(n) == Some(Setting::TlsPrivateKey),
        n == "tls_trust_store"@ || n == "tlscafile"@ ==> meaning_of(n) == Some(Setting::TlsTrustStore),
        n == "externaladdress"@ || n == "externip"@ ==> meaning_of(n) == Some(Setting::ExternalAddress),
        n == "externalhost"@ || n == "externhost"@ ==> meaning_of(n) == Some(Setting::ExternalHost),
        n == "externalrefresh"@ || n == "externrefresh"@ ==> meaning_of(n) == Some(Setting::ExternalRefresh),
        n == "device_table"@ || n == "devicetable"@ ==> meaning_of(n) == Some(Setting::DeviceTable),
        n == "line_table"@ || n == "linetable"@ ==> meaning_of(n) == Some(Setting::LineTable),
{
    lemma_forth(n);
}

/// Where these fields come from.
proof fn lemma_addresses_said(s: section::RawSectionView, w: rules::LayerRulesView, o: option::OptionsView)
    requires
        is_accepted(s, w, o),
    ensures
        said(o, w).bind == general::clear_of(o),
        said(o, w).network.advertised == general::advertised_of(o),
{
    reveal(is_accepted);
    reveal(said);
}

proof fn lemma_bind(o: option::OptionsView, w: rules::LayerRulesView, x: section::RawValueView)
    requires
        is_set(o, w, Setting::Bind, x),
        said(o, w).bind == general::clear_of(o),
    ensures
        ({
            let g = said(o, w);
            let v = x.value;
            let p = section::place(x);
            &&& address::socket_of(v) == Some(g.bind)
            &&& g.bind.port != 0
        }),
{
    reveal(is_set);
}

proof fn lemma_bind_address(o: option::OptionsView, w: rules::LayerRulesView, x: section::RawValueView)
    requires
        is_set(o, w, Setting::BindAddress, x),
        said(o, w).bind == general::clear_of(o),
    ensures
        ({
            let g = said(o, w);
            let v = x.value;
            let p = section::place(x);
            &&& address::ip_of(v) == Some(g.bind.ip)
        }),
{
    reveal(is_set);
}

proof fn lemma_port(o: option::OptionsView, w: rules::LayerRulesView, x: section::RawValueView)
    requires
        is_set(o, w, Setting::Port, x),
        said(o, w).bind == general::clear_of(o),
    ensures
        ({
            let g = said(o, w);
            let v = x.value;
            let p = section::place(x);
            &&& number::unsigned(v, 10) == Some(g.bind.port as nat)
            &&& 1 <= g.bind.port <= 65535
        }),
{
    reveal(is_set);
}

proof fn lemma_advertised_address(o: option::OptionsView, w: rules::LayerRulesView, x: section::RawValueView)
    requires
        is_set(o, w, Setting::AdvertisedAddress, x),
    ensures
        ({
            let g = said(o, w);
            let v = x.value;
            let p = section::place(x);
            &&& match address::ip_of(v) { Some(IpAddr::V4(a)) => g.network.advertised.ipv4 == Some(a) && g.network.advertised.ipv6 is None && g.advertised_address == a, Some(IpAddr::V6(a)) => g.network.advertised.ipv4 is None && g.network.advertised.ipv6 == Some(a), None => false }
        }),
{
    reveal(said);
    reveal(is_set);
}

proof fn lemma_advertised_ipv4(o: option::OptionsView, w: rules::LayerRulesView, x: section::RawValueView)
    requires
        is_set(o, w, Setting::AdvertisedIpv4, x),
        is_absent(o, w, Setting::AdvertisedAddress),
        said(o, w).network.advertised == general::advertised_of(o),
    ensures
        ({
            let g = said(o, w);
            let v = x.value;
            let p = section::place(x);
            &&& (text::trimmed(v).len() == 0 || text::same_fold(text::trimmed(v), "none"@)) ==> g.network.advertised.ipv4 is None
            &&& !(text::trimmed(v).len() == 0 || text::same_fold(text::trimmed(v), "none"@)) ==> address::ipv4_of(text::trimmed(v)) == g.network.advertised.ipv4 && g.network.advertised.ipv4 is Some
        }),
{
    reveal(is_set);
    reveal(is_absent);
}

proof fn lemma_advertised_ipv6(o: option::OptionsView, w: rules::LayerRulesView, x: section::RawValueView)
    requires
        is_set(o, w, Setting::AdvertisedIpv6, x),
        is_absent(o, w, Setting::AdvertisedAddress),
        said(o, w).network.advertised == general::advertised_of(o),
    ensures
        ({
            let g = said(o, w);
            let v = x.value;
            let p = section::place(x);
            &&& (text::trimmed(v).len() == 0 || text::same_fold(text::trimmed(v), "none"@)) ==> g.network.advertised.ipv6 is None
            &&& !(text::trimmed(v).len() == 0 || text::same_fold(text::trimmed(v), "none"@)) ==> address::ipv6_of(text::trimmed(v)) == g.network.advertised.ipv6 && g.network.advertised.ipv6 is Some
        }),
{
    reveal(is_set);
    reveal(is_absent);
}

proof fn lemma_tls_bind(o: option::OptionsView, w: rules::LayerRulesView, x: section::RawValueView)
    requires
        is_set(o, w, Setting::TlsBind, x),
    ensures
        ({
            let g = said(o, w);
            let v = x.value;
            let p = section::place(x);
            &&& g.listeners.tls is Some
            &&& address::socket_of(v) == Some(g.listeners.tls->0.bind)
        }),
{
    reveal(said);
    reveal(is_set);
}

proof fn lemma_tls_bind_address(o: option::OptionsView, w: rules::LayerRulesView, x: section::RawValueView)
    requires
        is_set(o, w, Setting::TlsBindAddress, x),
    ensures
        ({
            let g = said(o, w);
            let v = x.value;
            let p = section::place(x);
            &&& g.listeners.tls is Some
            &&& address::ip_of(v) == Some(g.listeners.tls->0.bind.ip)
        }),
{
    reveal(said);
    reveal(is_set);
}

proof fn lemma_tls_port(o: option::OptionsView, w: rules::LayerRulesView, x: section::RawValueView)
    requires
        is_set(o, w, Setting::TlsPort, x),
    ensures
        ({
            let g = said(o, w);
            let v = x.value;
            let p = section::place(x);
            &&& g.listeners.tls is Some
            &&& number::unsigned(v, 10) == Some(g.listeners.tls->0.bind.port as nat)
        }),
{
    reveal(said);
    reveal(is_set);
}

proof fn lemma_tls_combined_pem(o: option::OptionsView, w: rules::LayerRulesView, x: section::RawValueView)
    requires
        is_set(o, w, Setting::TlsCombinedPem, x),
    ensures
        ({
            let g = said(o, w);
            let v = x.value;
            let p = section::place(x);
            &&& g.listeners.tls is Some
            &&& g.listeners.tls->0.credentials == policy::TlsCredentialsView::CombinedPem(text::trimmed(v))
        }),
{
    reveal(said);
    reveal(is_set);
}

proof fn lemma_tls_certificate(o: option::OptionsView, w: rules::LayerRulesView, x: section::RawValueView)
    requires
        is_set(o, w, Setting::TlsCertificate, x),
    ensures
        ({
            let g = said(o, w);
            let v = x.value;
            let p = section::place(x);
            &&& g.listeners.tls is Some
            &&& g.listeners.tls->0.credentials matches policy::TlsCredentialsView::SplitPem { certificate, private_key, trust_store } && certificate == text::trimmed(v)
        }),
{
    reveal(said);
    reveal(is_set);
}

proof fn lemma_tls_private_key(o: option::OptionsView, w: rules::LayerRulesView, x: section::RawValueView)
    requires
        is_set(o, w, Setting::TlsPrivateKey, x),
    ensures
        ({
            let g = said(o, w);
            let v = x.value;
            let p = section::place(x);
            &&& g.listeners.tls is Some
            &&& g.listeners.tls->0.credentials matches policy::TlsCredentialsView::SplitPem { certificate, private_key, trust_store } && private_key == text::trimmed(v)
        }),
{
    reveal(said);
    reveal(is_set);
}

proof fn lemma_tls_trust_store(o: option::OptionsView, w: rules::LayerRulesView, x: section::RawValueView)
    requires
        is_set(o, w, Setting::TlsTrustStore, x),
    ensures
        ({
            let g = said(o, w);
            let v = x.value;
            let p = section::place(x);
            &&& g.listeners.tls is Some
            &&& g.listeners.tls->0.credentials matches policy::TlsCredentialsView::SplitPem { certificate, private_key, trust_store } && trust_store == Some(text::trimmed(v))
        }),
{
    reveal(said);
    reveal(is_set);
}

proof fn lemma_external_address(o: option::OptionsView, w: rules::LayerRulesView, x: section::RawValueView)
    requires
        is_set(o, w, Setting::ExternalAddress, x),
    ensures
        ({
            let g = said(o, w);
            let v = x.value;
            let p = section::place(x);
            &&& !(text::trimmed(v).len() == 0 || text::same_fold(text::trimmed(v), "none"@)) ==> (address::ip_of(text::trimmed(v)) matches Some(a) && g.network.external == Some(policy::ExternalAddressView::Address(a)))
        }),
{
    reveal(said);
    reveal(is_set);
}

proof fn lemma_external_host(o: option::OptionsView, w: rules::LayerRulesView, x: section::RawValueView)
    requires
        is_set(o, w, Setting::ExternalHost, x),
    ensures
        ({
            let g = said(o, w);
            let v = x.value;
            let p = section::place(x);
            &&& !(text::trimmed(v).len() == 0 || text::same_fold(text::trimmed(v), "none"@)) ==> (g.network.external matches Some(policy::ExternalAddressView::Hostname { name, refresh_seconds }) && value::value_in(setting::hostname_setting(p, text::trimmed(v))) == Some(name))
        }),
{
    reveal(said);
    reveal(is_set);
}

proof fn lemma_external_refresh(o: option::OptionsView, w: rules::LayerRulesView, x: section::RawValueView)
    requires
        is_set(o, w, Setting::ExternalRefresh, x),
    ensures
        ({
            let g = said(o, w);
            let v = x.value;
            let p = section::place(x);
            &&& g.network.external matches Some(policy::ExternalAddressView::Hostname { name, refresh_seconds }) && number::unsigned(v, 10) == Some(refresh_seconds as nat) && 1 <= refresh_seconds <= 86400
        }),
{
    reveal(said);
    reveal(is_set);
}

proof fn lemma_device_table(o: option::OptionsView, w: rules::LayerRulesView, x: section::RawValueView)
    requires
        is_set(o, w, Setting::DeviceTable, x),
    ensures
        ({
            let g = said(o, w);
            let v = x.value;
            let p = section::place(x);
            &&& g.realtime_tables matches Some(t) && value::value_in(setting::family_setting(p, v)) == Some(t.device_family)
        }),
{
    reveal(said);
    reveal(is_set);
}

proof fn lemma_line_table(o: option::OptionsView, w: rules::LayerRulesView, x: section::RawValueView)
    requires
        is_set(o, w, Setting::LineTable, x),
    ensures
        ({
            let g = said(o, w);
            let v = x.value;
            let p = section::place(x);
            &&& g.realtime_tables matches Some(t) && value::value_in(setting::family_setting(p, v)) == Some(t.line_family)
        }),
{
    reveal(said);
    reveal(is_set);
}

/// Addresses, listeners and tables: what stands where an option is not set.
pub proof fn law_general_addresses_have_defaults(s: section::RawSectionView, w: rules::LayerRulesView)
    requires
        general::general_setting(s, w) is Ok,
    ensures
        ({
            let g = general::general_setting(s, w)->Ok_0;
            &&& unset(s, "bind"@) && unset(s, "clearbind"@) && unset(s, "bind_address"@) && unset(s, "bindaddr"@) && unset(s, "clearbindaddr"@) ==> (g.bind.ip == IpAddr::V4(Ipv4Addr { bits: 0 }))
            &&& unset(s, "bind"@) && unset(s, "clearbind"@) && unset(s, "clearport"@) && unset(s, "port"@) ==> (g.bind.port == 2000)
            &&& unset(s, "advertised_address"@) && unset(s, "advertised_ipv4"@) && unset(s, "advertisedaddressipv4"@) ==> (g.network.advertised.ipv4 == Some(Ipv4Addr { bits: 0x7f00_0001 }))
            &&& unset(s, "advertised_address"@) && unset(s, "advertised_ipv6"@) && unset(s, "advertisedaddressipv6"@) ==> (g.network.advertised.ipv6 is None)
            &&& unset(s, "securebind"@) && unset(s, "tls_bind"@) && unset(s, "secbindaddr"@) && unset(s, "tls_bind_address"@) && unset(s, "tlsbindaddr"@) ==> (g.listeners.tls matches Some(t) ==> t.bind.ip == IpAddr::V4(Ipv4Addr { bits: 0 }))
            &&& unset(s, "securebind"@) && unset(s, "tls_bind"@) && unset(s, "secport"@) && unset(s, "tls_port"@) && unset(s, "tlsport"@) ==> (g.listeners.tls matches Some(t) ==> t.bind.port == 2443)
            &&& unset(s, "securebind"@) && unset(s, "tls_bind"@) && unset(s, "secbindaddr"@) && unset(s, "tls_bind_address"@) && unset(s, "tlsbindaddr"@) && unset(s, "secport"@) && unset(s, "tls_port"@) && unset(s, "tlsport"@) && unset(s, "certfile"@) && unset(s, "tls_combined_pem"@) && unset(s, "tlscombinedpem"@) && unset(s, "tls_certificate"@) && unset(s, "tlscertificatefile"@) && unset(s, "tls_private_key"@) && unset(s, "tlsprivatekeyfile"@) && unset(s, "tls_trust_store"@) && unset(s, "tlscafile"@) ==> (g.listeners.tls is None)
            &&& unset(s, "externalrefresh"@) && unset(s, "externrefresh"@) ==> (g.network.external matches Some(policy::ExternalAddressView::Hostname { name, refresh_seconds }) ==> refresh_seconds == 60)
            &&& unset(s, "externaladdress"@) && unset(s, "externip"@) && unset(s, "externalhost"@) && unset(s, "externhost"@) ==> (g.network.external is None)
            &&& unset(s, "device_table"@) && unset(s, "devicetable"@) && unset(s, "line_table"@) && unset(s, "linetable"@) ==> (g.realtime_tables is None)
        }),
{
    let o = lemma_accepted(s, w);
    lemma_addresses_without(s, w, o);
}

proof fn lemma_addresses_without(s: section::RawSectionView, w: rules::LayerRulesView, o: option::OptionsView)
    requires
        is_accepted(s, w, o),
    ensures
        ({
            let g = said(o, w);
            &&& unset(s, "bind"@) && unset(s, "clearbind"@) && unset(s, "bind_address"@) && unset(s, "bindaddr"@) && unset(s, "clearbindaddr"@) ==> (g.bind.ip == IpAddr::V4(Ipv4Addr { bits: 0 }))
            &&& unset(s, "bind"@) && unset(s, "clearbind"@) && unset(s, "clearport"@) && unset(s, "port"@) ==> (g.bind.port == 2000)
            &&& unset(s, "advertised_address"@) && unset(s, "advertised_ipv4"@) && unset(s, "advertisedaddressipv4"@) ==> (g.network.advertised.ipv4 == Some(Ipv4Addr { bits: 0x7f00_0001 }))
            &&& unset(s, "advertised_address"@) && unset(s, "advertised_ipv6"@) && unset(s, "advertisedaddressipv6"@) ==> (g.network.advertised.ipv6 is None)
            &&& unset(s, "securebind"@) && unset(s, "tls_bind"@) && unset(s, "secbindaddr"@) && unset(s, "tls_bind_address"@) && unset(s, "tlsbindaddr"@) ==> (g.listeners.tls matches Some(t) ==> t.bind.ip == IpAddr::V4(Ipv4Addr { bits: 0 }))
            &&& unset(s, "securebind"@) && unset(s, "tls_bind"@) && unset(s, "secport"@) && unset(s, "tls_port"@) && unset(s, "tlsport"@) ==> (g.listeners.tls matches Some(t) ==> t.bind.port == 2443)
            &&& unset(s, "securebind"@) && unset(s, "tls_bind"@) && unset(s, "secbindaddr"@) && unset(s, "tls_bind_address"@) && unset(s, "tlsbindaddr"@) && unset(s, "secport"@) && unset(s, "tls_port"@) && unset(s, "tlsport"@) && unset(s, "certfile"@) && unset(s, "tls_combined_pem"@) && unset(s, "tlscombinedpem"@) && unset(s, "tls_certificate"@) && unset(s, "tlscertificatefile"@) && unset(s, "tls_private_key"@) && unset(s, "tlsprivatekeyfile"@) && unset(s, "tls_trust_store"@) && unset(s, "tlscafile"@) ==> (g.listeners.tls is None)
            &&& unset(s, "externalrefresh"@) && unset(s, "externrefresh"@) ==> (g.network.external matches Some(policy::ExternalAddressView::Hostname { name, refresh_seconds }) ==> refresh_seconds == 60)
            &&& unset(s, "externaladdress"@) && unset(s, "externip"@) && unset(s, "externalhost"@) && unset(s, "externhost"@) ==> (g.network.external is None)
            &&& unset(s, "device_table"@) && unset(s, "devicetable"@) && unset(s, "line_table"@) && unset(s, "linetable"@) ==> (g.realtime_tables is None)
        }),
{
    lemma_addresses_said(s, w, o);
    if unset(s, "bind"@) && unset(s, "clearbind"@) && unset(s, "bind_address"@) && unset(s, "bindaddr"@) && unset(s, "clearbindaddr"@) {
        lemma_without_bind_or_bind_address(s, w, o);
    }
    if unset(s, "bind"@) && unset(s, "clearbind"@) && unset(s, "clearport"@) && unset(s, "port"@) {
        lemma_without_bind_or_port(s, w, o);
    }
    if unset(s, "advertised_address"@) && unset(s, "advertised_ipv4"@) && unset(s, "advertisedaddressipv4"@) {
        lemma_without_advertised_address_or_advertised_ipv4(s, w, o);
    }
    if unset(s, "advertised_address"@) && unset(s, "advertised_ipv6"@) && unset(s, "advertisedaddressipv6"@) {
        lemma_without_advertised_address_or_advertised_ipv6(s, w, o);
    }
    if unset(s, "securebind"@) && unset(s, "tls_bind"@) && unset(s, "secbindaddr"@) && unset(s, "tls_bind_address"@) && unset(s, "tlsbindaddr"@) {
        lemma_without_tls_bind_or_tls_bind_address(s, w, o);
    }
    if unset(s, "securebind"@) && unset(s, "tls_bind"@) && unset(s, "secport"@) && unset(s, "tls_port"@) && unset(s, "tlsport"@) {
        lemma_without_tls_bind_or_tls_port(s, w, o);
    }
    if unset(s, "securebind"@) && unset(s, "tls_bind"@) && unset(s, "secbindaddr"@) && unset(s, "tls_bind_address"@) && unset(s, "tlsbindaddr"@) && unset(s, "secport"@) && unset(s, "tls_port"@) && unset(s, "tlsport"@) && unset(s, "certfile"@) && unset(s, "tls_combined_pem"@) && unset(s, "tlscombinedpem"@) && unset(s, "tls_certificate"@) && unset(s, "tlscertificatefile"@) && unset(s, "tls_private_key"@) && unset(s, "tlsprivatekeyfile"@) && unset(s, "tls_trust_store"@) && unset(s, "tlscafile"@) {
        lemma_without_tls_bind_and_others(s, w, o);
    }
    if unset(s, "externalrefresh"@) && unset(s, "externrefresh"@) {
        lemma_without_external_refresh(s, w, o);
    }
    if unset(s, "externaladdress"@) && unset(s, "externip"@) && unset(s, "externalhost"@) && unset(s, "externhost"@) {
        lemma_without_external_address_or_external_host(s, w, o);
    }
    if unset(s, "device_table"@) && unset(s, "devicetable"@) && unset(s, "line_table"@) && unset(s, "linetable"@) {
        lemma_without_device_table_or_line_table(s, w, o);
    }
}

proof fn lemma_without_bind_or_bind_address(s: section::RawSectionView, w: rules::LayerRulesView, o: option::OptionsView)
    requires
        is_accepted(s, w, o),
        unset(s, "bind"@),
        unset(s, "clearbind"@),
        unset(s, "bind_address"@),
        unset(s, "bindaddr"@),
        unset(s, "clearbindaddr"@),
        said(o, w).bind == general::clear_of(o),
    ensures
        ({
            let g = said(o, w);
            g.bind.ip == IpAddr::V4(Ipv4Addr { bits: 0 })
        }),
{
    assert forall|i: int| 0 <= i < s.values.len() implies meaning_of(
        text::lower((#[trigger] s.values[i]).key),
    ) != Some(Setting::Bind) by {
        lemma_back(text::lower(s.values[i].key));
    }
    lemma_absent(s, w, o, Setting::Bind);
    assert forall|i: int| 0 <= i < s.values.len() implies meaning_of(
        text::lower((#[trigger] s.values[i]).key),
    ) != Some(Setting::BindAddress) by {
        lemma_back(text::lower(s.values[i].key));
    }
    lemma_absent(s, w, o, Setting::BindAddress);
    reveal(is_absent);
}

proof fn lemma_without_bind_or_port(s: section::RawSectionView, w: rules::LayerRulesView, o: option::OptionsView)
    requires
        is_accepted(s, w, o),
        unset(s, "bind"@),
        unset(s, "clearbind"@),
        unset(s, "clearport"@),
        unset(s, "port"@),
        said(o, w).bind == general::clear_of(o),
    ensures
        ({
            let g = said(o, w);
            g.bind.port == 2000
        }),
{
    assert forall|i: int| 0 <= i < s.values.len() implies meaning_of(
        text::lower((#[trigger] s.values[i]).key),
    ) != Some(Setting::Bind) by {
        lemma_back(text::lower(s.values[i].key));
    }
    lemma_absent(s, w, o, Setting::Bind);
    assert forall|i: int| 0 <= i < s.values.len() implies meaning_of(
        text::lower((#[trigger] s.values[i]).key),
    ) != Some(Setting::Port) by {
        lemma_back(text::lower(s.values[i].key));
    }
    lemma_absent(s, w, o, Setting::Port);
    reveal(is_absent);
}

proof fn lemma_without_advertised_address_or_advertised_ipv4(s: section::RawSectionView, w: rules::LayerRulesView, o: option::OptionsView)
    requires
        is_accepted(s, w, o),
        unset(s, "advertised_address"@),
        unset(s, "advertised_ipv4"@),
        unset(s, "advertisedaddressipv4"@),
    ensures
        ({
            let g = said(o, w);
            g.network.advertised.ipv4 == Some(Ipv4Addr { bits: 0x7f00_0001 })
        }),
{
    assert forall|i: int| 0 <= i < s.values.len() implies meaning_of(
        text::lower((#[trigger] s.values[i]).key),
    ) != Some(Setting::AdvertisedAddress) by {
        lemma_back(text::lower(s.values[i].key));
    }
    lemma_absent(s, w, o, Setting::AdvertisedAddress);
    assert forall|i: int| 0 <= i < s.values.len() implies meaning_of(
        text::lower((#[trigger] s.values[i]).key),
    ) != Some(Setting::AdvertisedIpv4) by {
        lemma_back(text::lower(s.values[i].key));
    }
    lemma_absent(s, w, o, Setting::AdvertisedIpv4);
    reveal(said);
    reveal(is_absent);
}

proof fn lemma_without_advertised_address_or_advertised_ipv6(s: section::RawSectionView, w: rules::LayerRulesView, o: option::OptionsView)
    requires
        is_accepted(s, w, o),
        unset(s, "advertised_address"@),
        unset(s, "advertised_ipv6"@),
        unset(s, "advertisedaddressipv6"@),
    ensures
        ({
            let g = said(o, w);
            g.network.advertised.ipv6 is None
        }),
{
    assert forall|i: int| 0 <= i < s.values.len() implies meaning_of(
        text::lower((#[trigger] s.values[i]).key),
    ) != Some(Setting::AdvertisedAddress) by {
        lemma_back(text::lower(s.values[i].key));
    }
    lemma_absent(s, w, o, Setting::AdvertisedAddress);
    assert forall|i: int| 0 <= i < s.values.len() implies meaning_of(
        text::lower((#[trigger] s.values[i]).key),
    ) != Some(Setting::AdvertisedIpv6) by {
        lemma_back(text::lower(s.values[i].key));
    }
    lemma_absent(s, w, o, Setting::AdvertisedIpv6);
    reveal(said);
    reveal(is_absent);
}

proof fn lemma_without_tls_bind_or_tls_bind_address(s: section::RawSectionView, w: rules::LayerRulesView, o: option::OptionsView)
    requires
        is_accepted(s, w, o),
        unset(s, "securebind"@),
        unset(s, "tls_bind"@),
        unset(s, "secbindaddr"@),
        unset(s, "tls_bind_address"@),
        unset(s, "tlsbindaddr"@),
    ensures
        ({
            let g = said(o, w);
            g.listeners.tls matches Some(t) ==> t.bind.ip == IpAddr::V4(Ipv4Addr { bits: 0 })
        }),
{
    assert forall|i: int| 0 <= i < s.values.len() implies meaning_of(
        text::lower((#[trigger] s.values[i]).key),
    ) != Some(Setting::TlsBind) by {
        lemma_back(text::lower(s.values[i].key));
    }
    lemma_absent(s, w, o, Setting::TlsBind);
    assert forall|i: int| 0 <= i < s.values.len() implies meaning_of(
        text::lower((#[trigger] s.values[i]).key),
    ) != Some(Setting::TlsBindAddress) by {
        lemma_back(text::lower(s.values[i].key));
    }
    lemma_absent(s, w, o, Setting::TlsBindAddress);
    reveal(said);
    reveal(is_absent);
}

proof fn lemma_without_tls_bind_or_tls_port(s: section::RawSectionView, w: rules::LayerRulesView, o: option::OptionsView)
    requires
        is_accepted(s, w, o),
        unset(s, "securebind"@),
        unset(s, "tls_bind"@),
        unset(s, "secport"@),
        unset(s, "tls_port"@),
        unset(s, "tlsport"@),
    ensures
        ({
            let g = said(o, w);
            g.listeners.tls matches Some(t) ==> t.bind.port == 2443
        }),
{
    assert forall|i: int| 0 <= i < s.values.len() implies meaning_of(
        text::lower((#[trigger] s.values[i]).key),
    ) != Some(Setting::TlsBind) by {
        lemma_back(text::lower(s.values[i].key));
    }
    lemma_absent(s, w, o, Setting::TlsBind);
    assert forall|i: int| 0 <= i < s.values.len() implies meaning_of(
        text::lower((#[trigger] s.values[i]).key),
    ) != Some(Setting::TlsPort) by {
        lemma_back(text::lower(s.values[i].key));
    }
    lemma_absent(s, w, o, Setting::TlsPort);
    reveal(said);
    reveal(is_absent);
}

proof fn lemma_without_tls_bind_and_others(s: section::RawSectionView, w: rules::LayerRulesView, o: option::OptionsView)
    requires
        is_accepted(s, w, o),
        unset(s, "securebind"@),
        unset(s, "tls_bind"@),
        unset(s, "secbindaddr"@),
        unset(s, "tls_bind_address"@),
        unset(s, "tlsbindaddr"@),
        unset(s, "secport"@),
        unset(s, "tls_port"@),
        unset(s, "tlsport"@),
        unset(s, "certfile"@),
        unset(s, "tls_combined_pem"@),
        unset(s, "tlscombinedpem"@),
        unset(s, "tls_certificate"@),
        unset(s, "tlscertificatefile"@),
        unset(s, "tls_private_key"@),
        unset(s, "tlsprivatekeyfile"@),
        unset(s, "tls_trust_store"@),
        unset(s, "tlscafile"@),
    ensures
        ({
            let g = said(o, w);
            g.listeners.tls is None
        }),
{
    assert forall|i: int| 0 <= i < s.values.len() implies meaning_of(
        text::lower((#[trigger] s.values[i]).key),
    ) != Some(Setting::TlsBind) by {
        lemma_back(text::lower(s.values[i].key));
    }
    lemma_absent(s, w, o, Setting::TlsBind);
    assert forall|i: int| 0 <= i < s.values.len() implies meaning_of(
        text::lower((#[trigger] s.values[i]).key),
    ) != Some(Setting::TlsBindAddress) by {
        lemma_back(text::lower(s.values[i].key));
    }
    lemma_absent(s, w, o, Setting::TlsBindAddress);
    assert forall|i: int| 0 <= i < s.values.len() implies meaning_of(
        text::lower((#[trigger] s.values[i]).key),
    ) != Some(Setting::TlsPort) by {
        lemma_back(text::lower(s.values[i].key));
    }
    lemma_absent(s, w, o, Setting::TlsPort);
    assert forall|i: int| 0 <= i < s.values.len() implies meaning_of(
        text::lower((#[trigger] s.values[i]).key),
    ) != Some(Setting::TlsCombinedPem) by {
        lemma_back(text::lower(s.values[i].key));
    }
    lemma_absent(s, w, o, Setting::TlsCombinedPem);
    assert forall|i: int| 0 <= i < s.values.len() implies meaning_of(
        text::lower((#[trigger] s.values[i]).key),
    ) != Some(Setting::TlsCertificate) by {
        lemma_back(text::lower(s.values[i].key));
    }
    lemma_absent(s, w, o, Setting::TlsCertificate);
    assert forall|i: int| 0 <= i < s.values.len() implies meaning_of(
        text::lower((#[trigger] s.values[i]).key),
    ) != Some(Setting::TlsPrivateKey) by {
        lemma_back(text::lower(s.values[i].key));
    }
    lemma_absent(s, w, o, Setting::TlsPrivateKey);
    assert forall|i: int| 0 <= i < s.values.len() implies meaning_of(
        text::lower((#[trigger] s.values[i]).key),
    ) != Some(Setting::TlsTrustStore) by {
        lemma_back(text::lower(s.values[i].key));
    }
    lemma_absent(s, w, o, Setting::TlsTrustStore);
    reveal(said);
    reveal(is_absent);
}

proof fn lemma_without_external_refresh(s: section::RawSectionView, w: rules::LayerRulesView, o: option::OptionsView)
    requires
        is_accepted(s, w, o),
        unset(s, "externalrefresh"@),
        unset(s, "externrefresh"@),
    ensures
        ({
            let g = said(o, w);
            g.network.external matches Some(policy::ExternalAddressView::Hostname { name, refresh_seconds }) ==> refresh_seconds == 60
        }),
{
    assert forall|i: int| 0 <= i < s.values.len() implies meaning_of(
        text::lower((#[trigger] s.values[i]).key),
    ) != Some(Setting::ExternalRefresh) by {
        lemma_back(text::lower(s.values[i].key));
    }
    lemma_absent(s, w, o, Setting::ExternalRefresh);
    reveal(said);
    reveal(is_absent);
}

proof fn lemma_without_external_address_or_external_host(s: section::RawSectionView, w: rules::LayerRulesView, o: option::OptionsView)
    requires
        is_accepted(s, w, o),
        unset(s, "externaladdress"@),
        unset(s, "externip"@),
        unset(s, "externalhost"@),
        unset(s, "externhost"@),
    ensures
        ({
            let g = said(o, w);
            g.network.external is None
        }),
{
    assert forall|i: int| 0 <= i < s.values.len() implies meaning_of(
        text::lower((#[trigger] s.values[i]).key),
    ) != Some(Setting::ExternalAddress) by {
        lemma_back(text::lower(s.values[i].key));
    }
    lemma_absent(s, w, o, Setting::ExternalAddress);
    assert forall|i: int| 0 <= i < s.values.len() implies meaning_of(
        text::lower((#[trigger] s.values[i]).key),
    ) != Some(Setting::ExternalHost) by {
        lemma_back(text::lower(s.values[i].key));
    }
    lemma_absent(s, w, o, Setting::ExternalHost);
    reveal(said);
    reveal(is_absent);
}

proof fn lemma_without_device_table_or_line_table(s: section::RawSectionView, w: rules::LayerRulesView, o: option::OptionsView)
    requires
        is_accepted(s, w, o),
        unset(s, "device_table"@),
        unset(s, "devicetable"@),
        unset(s, "line_table"@),
        unset(s, "linetable"@),
    ensures
        ({
            let g = said(o, w);
            g.realtime_tables is None
        }),
{
    assert forall|i: int| 0 <= i < s.values.len() implies meaning_of(
        text::lower((#[trigger] s.values[i]).key),
    ) != Some(Setting::DeviceTable) by {
        lemma_back(text::lower(s.values[i].key));
    }
    lemma_absent(s, w, o, Setting::DeviceTable);
    assert forall|i: int| 0 <= i < s.values.len() implies meaning_of(
        text::lower((#[trigger] s.values[i]).key),
    ) != Some(Setting::LineTable) by {
        lemma_back(text::lower(s.values[i].key));
    }
    lemma_absent(s, w, o, Setting::LineTable);
    reveal(said);
    reveal(is_absent);
}

/// The listener is the address that stations are bound to, and an IPv4 address
/// that is told to stations is told wherever there is one.
pub proof fn law_general_addresses_agree(s: section::RawSectionView, w: rules::LayerRulesView)
    requires
        general::general_setting(s, w) is Ok,
    ensures
        ({
            let g = general::general_setting(s, w)->Ok_0;
            &&& g.listeners.clear == g.bind
            &&& g.network.advertised.ipv4 matches Some(a) ==> g.advertised_address == a
            &&& g.network.advertised.ipv4 is Some || g.network.advertised.ipv6 is Some
            &&& g.listeners.tls matches Some(t) ==> t.bind != g.bind
        }),
{
}

} // verus!
