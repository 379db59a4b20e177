//! What the options of a device do, option by option: which field a setting
//! sets, and what stands where an option is not set.

use vstd::prelude::*;

use crate::config::codec;
use crate::config::device;
use crate::config::effect;
use crate::config::effect::{says, unset};
use crate::config::error;
use crate::config::general;
use crate::config::line;
use crate::config::network;
use crate::config::option;
use crate::config::option::{Scope, Setting};
use crate::config::policy;
use crate::config::policy::DndMode;
use crate::config::rules;
use crate::config::section;
use crate::config::setting;
use crate::config::softkey;
use crate::config::spelling;
use crate::config::value;
use crate::number;
use crate::station::{DtmfMode, LampMode, LegacyCodePage};
use crate::text;

verus! {

/// Where nothing is refused, no single setting is.
proof fn lemma_none_refused(
    o: option::OptionsView,
    lines: Seq<policy::LineConfigView>,
    profiles: Seq<policy::SoftKeyProfileView>,
    w: rules::LayerRulesView,
    i: int,
    j: int,
)
    requires
        0 <= j <= i < o.settings.len(),
        device::first_fault(o, j, lines, profiles, w) is None,
    ensures
        !device::is_button(o.settings[i]) && o.settings[i] != Setting::PermitHost
            ==> line::entry_fault(o, i, w) is None,
    decreases i - j,
{
    if j < i {
        lemma_none_refused(o, lines, profiles, w, i, j + 1);
    }
}

/// The option that a name in lower case stands for.
#[verifier::opaque]
spec fn meaning_of(n: text::Text) -> Option<Setting> {
    option::device_named(n)
}

/// The options of an accepted section.
#[verifier::opaque]
spec fn is_accepted(s: section::RawSectionView, lines: Seq<policy::LineConfigView>, profiles: Seq<policy::SoftKeyProfileView>, g: policy::GeneralConfigView, w: rules::LayerRulesView, o: option::OptionsView) -> bool {
    &&& option::decoded(Scope::Device, s) == Ok::<option::OptionsView, error::ErrorView>(o)
    &&& o.matched()
    &&& o.section == s
    &&& device::first_fault(o, 0, lines, profiles, w) is None
    &&& device::device_of(o, lines, g, w) is Ok
    &&& device::device_of(o, lines, g, w) == device::device_setting(s, lines, profiles, g, w)
}

/// What the options of an accepted section say.
#[verifier::opaque]
spec fn said(o: option::OptionsView, lines: Seq<policy::LineConfigView>, profiles: Seq<policy::SoftKeyProfileView>, g: policy::GeneralConfigView, w: rules::LayerRulesView) -> policy::DeviceConfigView {
    device::device_of(o, lines, g, w)->Ok_0
}

/// A setting that its option is found by, and that is not refused.
#[verifier::opaque]
spec fn is_set(o: option::OptionsView, lines: Seq<policy::LineConfigView>, profiles: Seq<policy::SoftKeyProfileView>, g: policy::GeneralConfigView, w: rules::LayerRulesView, k: Setting, x: section::RawValueView) -> bool {
    &&& device::device_of(o, lines, g, w) is Ok
    &&& !value::repeats(k) ==> {
        &&& value::found(o, k) == Some(x)
        &&& value::value_fault(k, section::place(x), x.value, w) is None
    }
}

/// An option that is not set.
#[verifier::opaque]
spec fn is_absent(o: option::OptionsView, lines: Seq<policy::LineConfigView>, profiles: Seq<policy::SoftKeyProfileView>, g: policy::GeneralConfigView, w: rules::LayerRulesView, k: Setting) -> bool {
    device::device_of(o, lines, g, w) is Ok && value::found(o, k) is None
}

/// The names of the options.
proof fn lemma_forth(n: text::Text)
    ensures
        n == "type"@ ==> meaning_of(n) == Some(Setting::Type),
        n == "description"@ ==> meaning_of(n) == Some(Setting::Description),
        n == "softkey_profile"@ || n == "softkeyprofile"@ ==> meaning_of(n) == Some(Setting::SoftkeyProfile),
        n == "cfwdall"@ || n == "forward_all_enabled"@ || n == "forwardallenabled"@ ==> meaning_of(n) == Some(Setting::ForwardAllEnabled),
        n == "cfwdbusy"@ || n == "forward_busy_enabled"@ || n == "forwardbusyenabled"@ ==> meaning_of(n) == Some(Setting::ForwardBusyEnabled),
        n == "cfwdnoanswer"@ || n == "forward_no_answer_enabled"@ || n == "forwardnoanswerenabled"@ ==> meaning_of(n) == Some(Setting::ForwardNoAnswerEnabled),
        n == "cfwdnoanswertimeout"@ || n == "forward_no_answer_timeout"@ || n == "forwardnoanswertimeout"@ ==> meaning_of(n) == Some(Setting::ForwardNoAnswerTimeout),
        n == "forward_all"@ ==> meaning_of(n) == Some(Setting::ForwardAll),
        n == "forward_busy"@ ==> meaning_of(n) == Some(Setting::ForwardBusy),
        n == "forward_no_answer"@ ==> meaning_of(n) == Some(Setting::ForwardNoAnswer),
        n == "dnd_feature"@ || n == "dndfeature"@ ==> meaning_of(n) == Some(Setting::DndFeature),
        n == "dnd"@ ==> meaning_of(n) == Some(Setting::Dnd),
        n == "privacy_feature"@ || n == "privacyfeature"@ || n == "private"@ ==> meaning_of(n) == Some(Setting::PrivacyFeature),
        n == "privacy"@ ==> meaning_of(n) == Some(Setting::Privacy),
        n == "feature_default"@ || n == "featuredefault"@ ==> meaning_of(n) == Some(Setting::FeatureDefault),
        n == "setvar"@ ==> meaning_of(n) == Some(Setting::SetVariable),
        n == "park"@ ==> meaning_of(n) == Some(Setting::Park),
        n == "conf_allow"@ || n == "confallow"@ || n == "conference_allow"@ ==> meaning_of(n) == Some(Setting::ConferenceAllow),
        n == "conf_music_on_hold_class"@ || n == "conference_music_on_hold_class"@ || n == "confmusiconholdclass"@ ==> meaning_of(n) == Some(Setting::ConferenceMusicOnHoldClass),
        n == "conf_play_general_announce"@ || n == "conference_play_general_announce"@ || n == "confplaygeneralannounce"@ ==> meaning_of(n) == Some(Setting::ConferencePlayGeneralAnnounce),
        n == "conf_play_part_announce"@ || n == "conference_play_participant_announce"@ || n == "confplaypartannounce"@ ==> meaning_of(n) == Some(Setting::ConferencePlayParticipantAnnounce),
        n == "conf_mute_on_entry"@ || n == "conference_mute_on_entry"@ || n == "confmuteonentry"@ ==> meaning_of(n) == Some(Setting::ConferenceMuteOnEntry),
        n == "conf_show_conflist"@ || n == "conference_show_list"@ || n == "confshowconflist"@ ==> meaning_of(n) == Some(Setting::ConferenceShowList),
        n == "meetme"@ ==> meaning_of(n) == Some(Setting::ConferenceDialingEnabled),
        n == "meetmeopts"@ ==> meaning_of(n) == Some(Setting::ConferenceOptions),
        n == "use_redial_menu"@ || n == "useredialmenu"@ ==> meaning_of(n) == Some(Setting::UseRedialMenu),
        n == "allow_ringin_notification"@ || n == "allowringinnotification"@ ==> meaning_of(n) == Some(Setting::AllowRinginNotification),
        n == "mwi_lamp"@ || n == "mwilamp"@ ==> meaning_of(n) == Some(Setting::MwiLamp),
        n == "mwi_on_call"@ || n == "mwioncall"@ ==> meaning_of(n) == Some(Setting::MwiOnCall),
        n == "phone_code_page"@ || n == "phonecodepage"@ ==> meaning_of(n) == Some(Setting::PhoneCodePage),
        n == "allow_overlap"@ || n == "allowoverlap"@ ==> meaning_of(n) == Some(Setting::AllowOverlap),
        n == "force_dtmf_mode"@ || n == "force_dtmfmode"@ || n == "forcedtmfmode"@ ==> meaning_of(n) == Some(Setting::ForceDtmfMode),
        n == "direct_media"@ || n == "directrtp"@ ==> meaning_of(n) == Some(Setting::DirectMedia),
        n == "early_media"@ || n == "earlyrtp"@ ==> meaning_of(n) == Some(Setting::EarlyMedia),
        n == "audio_encryption"@ || n == "audioencryption"@ ==> meaning_of(n) == Some(Setting::AudioEncryption),
        n == "deny"@ ==> meaning_of(n) == Some(Setting::Deny),
        n == "permit"@ ==> meaning_of(n) == Some(Setting::Permit),
        n == "permit_host"@ || n == "permithost"@ ==> meaning_of(n) == Some(Setting::PermitHost),
        n == "nat"@ ==> meaning_of(n) == Some(Setting::Nat),
        n == "transport"@ || n == "transport_requirement"@ || n == "transportrequirement"@ ==> meaning_of(n) == Some(Setting::Transport),
        n == "sccp_tos"@ || n == "signalingtos"@ ==> meaning_of(n) == Some(Setting::SignalingTos),
        n == "sccp_dscp"@ || n == "sccpdscp"@ || n == "signaling_dscp"@ || n == "signalingdscp"@ ==> meaning_of(n) == Some(Setting::SignalingDscp),
        n == "sccp_cos"@ || n == "signaling_cos"@ || n == "signalingcos"@ ==> meaning_of(n) == Some(Setting::SignalingCos),
        n == "audio_tos"@ || n == "audiotos"@ ==> meaning_of(n) == Some(Setting::AudioTos),
        n == "audio_dscp"@ || n == "audiodscp"@ ==> meaning_of(n) == Some(Setting::AudioDscp),
        n == "audio_cos"@ || n == "audiocos"@ ==> meaning_of(n) == Some(Setting::AudioCos),
        n == "video_tos"@ || n == "videotos"@ ==> meaning_of(n) == Some(Setting::VideoTos),
        n == "video_dscp"@ || n == "videodscp"@ ==> meaning_of(n) == Some(Setting::VideoDscp),
        n == "video_cos"@ || n == "videocos"@ ==> meaning_of(n) == Some(Setting::VideoCos),
        n == "trust_phone_ip"@ || n == "trustphoneip"@ ==> meaning_of(n) == Some(Setting::TrustPhoneIp),
        n == "dtmfmode"@ || n == "obsolete_dtmf_mode"@ ==> meaning_of(n) == Some(Setting::ObsoleteDtmfMode),
        n == "allow"@ ==> meaning_of(n) == Some(Setting::Allow),
        n == "disallow"@ ==> meaning_of(n) == Some(Setting::Disallow),
        n == "line"@ ==> meaning_of(n) == Some(Setting::Line),
        n == "button"@ ==> meaning_of(n) == Some(Setting::Button),
{
    reveal(meaning_of);
    spelling::lemma_device_spellings();
}

/// The options go by no other names.
proof fn lemma_back(n: text::Text)
    ensures
        meaning_of(n) == Some(Setting::Type) ==> n == "type"@,
        meaning_of(n) == Some(Setting::Description) ==> n == "description"@,
        meaning_of(n) == Some(Setting::SoftkeyProfile) ==> n == "softkey_profile"@ || n == "softkeyprofile"@,
        meaning_of(n) == Some(Setting::ForwardAllEnabled) ==> n == "cfwdall"@ || n == "forward_all_enabled"@ || n == "forwardallenabled"@,
        meaning_of(n) == Some(Setting::ForwardBusyEnabled) ==> n == "cfwdbusy"@ || n == "forward_busy_enabled"@ || n == "forwardbusyenabled"@,
        meaning_of(n) == Some(Setting::ForwardNoAnswerEnabled) ==> n == "cfwdnoanswer"@ || n == "forward_no_answer_enabled"@ || n == "forwardnoanswerenabled"@,
        meaning_of(n) == Some(Setting::ForwardNoAnswerTimeout) ==> n == "cfwdnoanswertimeout"@ || n == "forward_no_answer_timeout"@ || n == "forwardnoanswertimeout"@,
        meaning_of(n) == Some(Setting::ForwardAll) ==> n == "forward_all"@,
        meaning_of(n) == Some(Setting::ForwardBusy) ==> n == "forward_busy"@,
        meaning_of(n) == Some(Setting::ForwardNoAnswer) ==> n == "forward_no_answer"@,
        meaning_of(n) == Some(Setting::DndFeature) ==> n == "dnd_feature"@ || n == "dndfeature"@,
        meaning_of(n) == Some(Setting::Dnd) ==> n == "dnd"@,
        meaning_of(n) == Some(Setting::PrivacyFeature) ==> n == "privacy_feature"@ || n == "privacyfeature"@ || n == "private"@,
        meaning_of(n) == Some(Setting::Privacy) ==> n == "privacy"@,
        meaning_of(n) == Some(Setting::FeatureDefault) ==> n == "feature_default"@ || n == "featuredefault"@,
        meaning_of(n) == Some(Setting::SetVariable) ==> n == "setvar"@,
        meaning_of(n) == Some(Setting::Park) ==> n == "park"@,
        meaning_of(n) == Some(Setting::ConferenceAllow) ==> n == "conf_allow"@ || n == "confallow"@ || n == "conference_allow"@,
        meaning_of(n) == Some(Setting::ConferenceMusicOnHoldClass) ==> n == "conf_music_on_hold_class"@ || n == "conference_music_on_hold_class"@ || n == "confmusiconholdclass"@,
        meaning_of(n) == Some(Setting::ConferencePlayGeneralAnnounce) ==> n == "conf_play_general_announce"@ || n == "conference_play_general_announce"@ || n == "confplaygeneralannounce"@,
        meaning_of(n) == Some(Setting::ConferencePlayParticipantAnnounce) ==> n == "conf_play_part_announce"@ || n == "conference_play_participant_announce"@ || n == "confplaypartannounce"@,
        meaning_of(n) == Some(Setting::ConferenceMuteOnEntry) ==> n == "conf_mute_on_entry"@ || n == "conference_mute_on_entry"@ || n == "confmuteonentry"@,
        meaning_of(n) == Some(Setting::ConferenceShowList) ==> n == "conf_show_conflist"@ || n == "conference_show_list"@ || n == "confshowconflist"@,
        meaning_of(n) == Some(Setting::ConferenceDialingEnabled) ==> n == "meetme"@,
        meaning_of(n) == Some(Setting::ConferenceOptions) ==> n == "meetmeopts"@,
        meaning_of(n) == Some(Setting::UseRedialMenu) ==> n == "use_redial_menu"@ || n == "useredialmenu"@,
        meaning_of(n) == Some(Setting::AllowRinginNotification) ==> n == "allow_ringin_notification"@ || n == "allowringinnotification"@,
        meaning_of(n) == Some(Setting::MwiLamp) ==> n == "mwi_lamp"@ || n == "mwilamp"@,
        meaning_of(n) == Some(Setting::MwiOnCall) ==> n == "mwi_on_call"@ || n == "mwioncall"@,
        meaning_of(n) == Some(Setting::PhoneCodePage) ==> n == "phone_code_page"@ || n == "phonecodepage"@,
        meaning_of(n) == Some(Setting::AllowOverlap) ==> n == "allow_overlap"@ || n == "allowoverlap"@,
        meaning_of(n) == Some(Setting::ForceDtmfMode) ==> n == "force_dtmf_mode"@ || n == "force_dtmfmode"@ || n == "forcedtmfmode"@,
        meaning_of(n) == Some(Setting::DirectMedia) ==> n == "direct_media"@ || n == "directrtp"@,
        meaning_of(n) == Some(Setting::EarlyMedia) ==> n == "early_media"@ || n == "earlyrtp"@,
        meaning_of(n) == Some(Setting::AudioEncryption) ==> n == "audio_encryption"@ || n == "audioencryption"@,
        meaning_of(n) == Some(Setting::Deny) ==> n == "deny"@,
        meaning_of(n) == Some(Setting::Permit) ==> n == "permit"@,
        meaning_of(n) == Some(Setting::PermitHost) ==> n == "permit_host"@ || n == "permithost"@,
        meaning_of(n) == Some(Setting::Nat) ==> n == "nat"@,
        meaning_of(n) == Some(Setting::Transport) ==> n == "transport"@ || n == "transport_requirement"@ || n == "transportrequirement"@,
        meaning_of(n) == Some(Setting::SignalingTos) ==> n == "sccp_tos"@ || n == "signalingtos"@,
        meaning_of(n) == Some(Setting::SignalingDscp) ==> n == "sccp_dscp"@ || n == "sccpdscp"@ || n == "signaling_dscp"@ || n == "signalingdscp"@,
        meaning_of(n) == Some(Setting::SignalingCos) ==> n == "sccp_cos"@ || n == "signaling_cos"@ || n == "signalingcos"@,
        meaning_of(n) == Some(Setting::AudioTos) ==> n == "audio_tos"@ || n == "audiotos"@,
        meaning_of(n) == Some(Setting::AudioDscp) ==> n == "audio_dscp"@ || n == "audiodscp"@,
        meaning_of(n) == Some(Setting::AudioCos) ==> n == "audio_cos"@ || n == "audiocos"@,
        meaning_of(n) == Some(Setting::VideoTos) ==> n == "video_tos"@ || n == "videotos"@,
        meaning_of(n) == Some(Setting::VideoDscp) ==> n == "video_dscp"@ || n == "videodscp"@,
        meaning_of(n) == Some(Setting::VideoCos) ==> n == "video_cos"@ || n == "videocos"@,
        meaning_of(n) == Some(Setting::TrustPhoneIp) ==> n == "trust_phone_ip"@ || n == "trustphoneip"@,
        meaning_of(n) == Some(Setting::ObsoleteDtmfMode) ==> n == "dtmfmode"@ || n == "obsolete_dtmf_mode"@,
        meaning_of(n) == Some(Setting::Allow) ==> n == "allow"@,
        meaning_of(n) == Some(Setting::Disallow) ==> n == "disallow"@,
        meaning_of(n) == Some(Setting::Line) ==> n == "line"@,
        meaning_of(n) == Some(Setting::Button) ==> n == "button"@,
{
    reveal(meaning_of);
}

/// What an accepted section is made of.
proof fn lemma_accepted(s: section::RawSectionView, lines: Seq<policy::LineConfigView>, profiles: Seq<policy::SoftKeyProfileView>, g: policy::GeneralConfigView, w: rules::LayerRulesView) -> (o: option::OptionsView)
    requires
        device::device_setting(s, lines, profiles, g, w) is Ok,
    ensures
        is_accepted(s, lines, profiles, g, w, o),
        said(o, lines, profiles, g, w) == device::device_setting(s, lines, profiles, g, w)->Ok_0,
        forall|i: int|
            0 <= i < s.values.len() ==> meaning_of(text::lower((#[trigger] s.values[i]).key))
                == Some(o.settings[i]),
        forall|i: int|
            0 <= i < s.values.len() ==> is_set(o, lines, profiles, g, w, #[trigger] o.settings[i], s.values[i]),
{
    reveal(is_accepted);
    reveal(said);
    reveal(meaning_of);
    reveal(is_set);
    effect::lemma_decoded(Scope::Device, s);
    let o = option::decoded(Scope::Device, s)->Ok_0;
    assert forall|i: int| 0 <= i < s.values.len() implies is_set(
        o,
        lines, profiles, g, w,
        #[trigger] o.settings[i],
        s.values[i],
    ) by {
        if !value::repeats(o.settings[i]) {
            lemma_none_refused(o, lines, profiles, w, i, 0);
            effect::lemma_found_is(o, w, i);
        }
    }
    o
}

/// An option that excludes the option of a setting is not set beside it.
proof fn lemma_no_twin(
    s: section::RawSectionView,
    lines: Seq<policy::LineConfigView>, profiles: Seq<policy::SoftKeyProfileView>, g: policy::GeneralConfigView, w: rules::LayerRulesView,
    o: option::OptionsView,
    i: int,
    x: Setting,
)
    requires
        is_accepted(s, lines, profiles, g, w, o),
        0 <= i < s.values.len(),
        !value::repeats(o.settings[i]),
        !value::repeats(x),
        value::excludes(o.settings[i], x),
        value::excludes(x, o.settings[i]),
        x != o.settings[i],
        x != Setting::SetVariable,
    ensures
        is_absent(o, lines, profiles, g, w, x),
{
    reveal(is_accepted);
    reveal(is_absent);
    assert forall|j: int| 0 <= j < o.settings.len() implies #[trigger] o.settings[j] != x by {
        if o.settings[j] == x {
            lemma_none_refused(o, lines, profiles, w, i, 0);
            lemma_none_refused(o, lines, profiles, w, j, 0);
            if j < i {
                assert(value::is_excluded(o.settings, i));
            } else {
                assert(value::excludes(o.settings[j], o.settings[i]));
                assert(value::is_excluded(o.settings, j));
            }
        }
    }
    effect::lemma_not_found(o, x);
}

/// An option whose names no setting has is not set.
proof fn lemma_absent(s: section::RawSectionView, lines: Seq<policy::LineConfigView>, profiles: Seq<policy::SoftKeyProfileView>, g: policy::GeneralConfigView, w: rules::LayerRulesView, o: option::OptionsView, x: Setting)
    requires
        is_accepted(s, lines, profiles, g, w, o),
        forall|i: int|
            0 <= i < s.values.len() ==> meaning_of(text::lower((#[trigger] s.values[i]).key))
                != Some(x),
    ensures
        is_absent(o, lines, profiles, g, w, x),
{
    reveal(is_accepted);
    reveal(is_absent);
    reveal(meaning_of);
    effect::lemma_decoded(Scope::Device, s);
    assert forall|i: int| 0 <= i < o.settings.len() implies #[trigger] o.settings[i] != x by {
        assert(option::device_named(text::lower(s.values[i].key)) == Some(o.settings[i]));
    }
    effect::lemma_not_found(o, x);
}

// ---------------------------------------------------------------------------
// Features

/// Features: a setting sets its own field, under each name of its option.
pub proof fn law_device_features_are_set(
    s: section::RawSectionView,
    lines: Seq<policy::LineConfigView>,
    profiles: Seq<policy::SoftKeyProfileView>,
    g: policy::GeneralConfigView,
    w: rules::LayerRulesView,
    i: int,
)
    requires
        device::device_setting(s, lines, profiles, g, w) is Ok,
        0 <= i < s.values.len(),
    ensures
        ({
            let d = device::device_setting(s, lines, profiles, g, w)->Ok_0;
            let k = text::lower(s.values[i].key);
            let v = s.values[i].value;
            let p = section::place(s.values[i]);
            &&& k == "cfwdall"@ || k == "forward_all_enabled"@ || k == "forwardallenabled"@ ==> {
                &&& says(v, d.feature_defaults.forwarding.all_enabled)
            }
            &&& k == "cfwdbusy"@ || k == "forward_busy_enabled"@ || k == "forwardbusyenabled"@ ==> {
                &&& says(v, d.feature_defaults.forwarding.busy_enabled)
            }
            &&& k == "cfwdnoanswer"@ || k == "forward_no_answer_enabled"@ || k == "forwardnoanswerenabled"@ ==> {
                &&& says(v, d.feature_defaults.forwarding.no_answer_enabled)
            }
            &&& k == "cfwdnoanswertimeout"@ || k == "forward_no_answer_timeout"@ || k == "forwardnoanswertimeout"@ ==> {
                &&& number::unsigned(v, 10) == Some(d.feature_defaults.forwarding.no_answer_timeout_seconds as nat)
                &&& 1 <= d.feature_defaults.forwarding.no_answer_timeout_seconds <= 86400
            }
            &&& k == "forward_all"@ ==> {
                &&& value::value_in(value::forwarding_setting(p, v, w)) == Some(d.feature_defaults.forwarding.all)
            }
            &&& k == "forward_busy"@ ==> {
                &&& value::value_in(value::forwarding_setting(p, v, w)) == Some(d.feature_defaults.forwarding.busy)
            }
            &&& k == "forward_no_answer"@ ==> {
                &&& value::value_in(value::forwarding_setting(p, v, w)) == Some(d.feature_defaults.forwarding.no_answer)
            }
            &&& k == "dnd_feature"@ || k == "dndfeature"@ ==> {
                &&& says(v, d.feature_defaults.dnd_enabled)
            }
            &&& k == "dnd"@ ==> {
                &&& value::value_in(setting::dnd_setting(p, v)) == Some(d.feature_defaults.dnd)
            }
            &&& k == "privacy_feature"@ || k == "privacyfeature"@ || k == "private"@ ==> {
                &&& says(v, d.feature_defaults.privacy_enabled)
            }
            &&& k == "privacy"@ ==> {
                &&& says(v, d.feature_defaults.privacy)
            }
            &&& k == "park"@ ==> {
                &&& says(v, d.parking.enabled)
            }
            &&& k == "softkey_profile"@ || k == "softkeyprofile"@ ==> {
                &&& d.soft_key_profile == softkey::name_of_profile(v)
            }
        }),
{
    let o = lemma_accepted(s, lines, profiles, g, w);
    lemma_features_of(s, lines, profiles, g, w, o, i);
}

proof fn lemma_features_of(
    s: section::RawSectionView,
    lines: Seq<policy::LineConfigView>,
    profiles: Seq<policy::SoftKeyProfileView>,
    g: policy::GeneralConfigView,
    w: rules::LayerRulesView,
    o: option::OptionsView,
    i: int,
)
    requires
        is_accepted(s, lines, profiles, g, w, o),
        0 <= i < s.values.len(),
        meaning_of(text::lower(s.values[i].key)) == Some(o.settings[i]),
        is_set(o, lines, profiles, g, w, o.settings[i], s.values[i]),
    ensures
        ({
            let d = said(o, lines, profiles, g, w);
            let k = text::lower(s.values[i].key);
            let v = s.values[i].value;
            let p = section::place(s.values[i]);
            &&& k == "cfwdall"@ || k == "forward_all_enabled"@ || k == "forwardallenabled"@ ==> {
                &&& says(v, d.feature_defaults.forwarding.all_enabled)
            }
            &&& k == "cfwdbusy"@ || k == "forward_busy_enabled"@ || k == "forwardbusyenabled"@ ==> {
                &&& says(v, d.feature_defaults.forwarding.busy_enabled)
            }
            &&& k == "cfwdnoanswer"@ || k == "forward_no_answer_enabled"@ || k == "forwardnoanswerenabled"@ ==> {
                &&& says(v, d.feature_defaults.forwarding.no_answer_enabled)
            }
            &&& k == "cfwdnoanswertimeout"@ || k == "forward_no_answer_timeout"@ || k == "forwardnoanswertimeout"@ ==> {
                &&& number::unsigned(v, 10) == Some(d.feature_defaults.forwarding.no_answer_timeout_seconds as nat)
                &&& 1 <= d.feature_defaults.forwarding.no_answer_timeout_seconds <= 86400
            }
            &&& k == "forward_all"@ ==> {
                &&& value::value_in(value::forwarding_setting(p, v, w)) == Some(d.feature_defaults.forwarding.all)
            }
            &&& k == "forward_busy"@ ==> {
                &&& value::value_in(value::forwarding_setting(p, v, w)) == Some(d.feature_defaults.forwarding.busy)
            }
            &&& k == "forward_no_answer"@ ==> {
                &&& value::value_in(value::forwarding_setting(p, v, w)) == Some(d.feature_defaults.forwarding.no_answer)
            }
            &&& k == "dnd_feature"@ || k == "dndfeature"@ ==> {
                &&& says(v, d.feature_defaults.dnd_enabled)
            }
            &&& k == "dnd"@ ==> {
                &&& value::value_in(setting::dnd_setting(p, v)) == Some(d.feature_defaults.dnd)
            }
            &&& k == "privacy_feature"@ || k == "privacyfeature"@ || k == "private"@ ==> {
                &&& says(v, d.feature_defaults.privacy_enabled)
            }
            &&& k == "privacy"@ ==> {
                &&& says(v, d.feature_defaults.privacy)
            }
            &&& k == "park"@ ==> {
                &&& says(v, d.parking.enabled)
            }
            &&& k == "softkey_profile"@ || k == "softkeyprofile"@ ==> {
                &&& d.soft_key_profile == softkey::name_of_profile(v)
            }
        }),
{
    let k = text::lower(s.values[i].key);
    lemma_features_forth(k);
    lemma_features_said(s, lines, profiles, g, w, o);
    if k == "cfwdall"@ || k == "forward_all_enabled"@ || k == "forwardallenabled"@ {
        lemma_forward_all_enabled(o, lines, profiles, g, w, s.values[i]);
    }
    if k == "cfwdbusy"@ || k == "forward_busy_enabled"@ || k == "forwardbusyenabled"@ {
        lemma_forward_busy_enabled(o, lines, profiles, g, w, s.values[i]);
    }
    if k == "cfwdnoanswer"@ || k == "forward_no_answer_enabled"@ || k == "forwardnoanswerenabled"@ {
        lemma_forward_no_answer_enabled(o, lines, profiles, g, w, s.values[i]);
    }
    if k == "cfwdnoanswertimeout"@ || k == "forward_no_answer_timeout"@ || k == "forwardnoanswertimeout"@ {
        lemma_forward_no_answer_timeout(o, lines, profiles, g, w, s.values[i]);
    }
    if k == "forward_all"@ {
        lemma_forward_all(o, lines, profiles, g, w, s.values[i]);
    }
    if k == "forward_busy"@ {
        lemma_forward_busy(o, lines, profiles, g, w, s.values[i]);
    }
    if k == "forward_no_answer"@ {
        lemma_forward_no_answer(o, lines, profiles, g, w, s.values[i]);
    }
    if k == "dnd_feature"@ || k == "dndfeature"@ {
        lemma_dnd_feature(o, lines, profiles, g, w, s.values[i]);
    }
    if k == "dnd"@ {
        lemma_dnd(o, lines, profiles, g, w, s.values[i]);
    }
    if k == "privacy_feature"@ || k == "privacyfeature"@ || k == "private"@ {
        lemma_privacy_feature(o, lines, profiles, g, w, s.values[i]);
    }
    if k == "privacy"@ {
        lemma_privacy(o, lines, profiles, g, w, s.values[i]);
    }
    if k == "park"@ {
        lemma_park(o, lines, profiles, g, w, s.values[i]);
    }
    if k == "softkey_profile"@ || k == "softkeyprofile"@ {
        lemma_softkey_profile(o, lines, profiles, g, w, s.values[i]);
    }
}

proof fn lemma_features_forth(n: text::Text)
    ensures
        n == "cfwdall"@ || n == "forward_all_enabled"@ || n == "forwardallenabled"@ ==> meaning_of(n) == Some(Setting::ForwardAllEnabled),
        n == "cfwdbusy"@ || n == "forward_busy_enabled"@ || n == "forwardbusyenabled"@ ==> meaning_of(n) == Some(Setting::ForwardBusyEnabled),
        n == "cfwdnoanswer"@ || n == "forward_no_answer_enabled"@ || n == "forwardnoanswerenabled"@ ==> meaning_of(n) == Some(Setting::ForwardNoAnswerEnabled),
        n == "cfwdnoanswertimeout"@ || n == "forward_no_answer_timeout"@ || n == "forwardnoanswertimeout"@ ==> meaning_of(n) == Some(Setting::ForwardNoAnswerTimeout),
        n == "forward_all"@ ==> meaning_of(n) == Some(Setting::ForwardAll),
        n == "forward_busy"@ ==> meaning_of(n) == Some(Setting::ForwardBusy),
        n == "forward_no_answer"@ ==> meaning_of(n) == Some(Setting::ForwardNoAnswer),
        n == "dnd_feature"@ || n == "dndfeature"@ ==> meaning_of(n) == Some(Setting::DndFeature),
        n == "dnd"@ ==> meaning_of(n) == Some(Setting::Dnd),
        n == "privacy_feature"@ || n == "privacyfeature"@ || n == "private"@ ==> meaning_of(n) == Some(Setting::PrivacyFeature),
        n == "privacy"@ ==> meaning_of(n) == Some(Setting::Privacy),
        n == "park"@ ==> meaning_of(n) == Some(Setting::Park),
        n == "softkey_profile"@ || n == "softkeyprofile"@ ==> meaning_of(n) == Some(Setting::SoftkeyProfile),
{
    lemma_forth(n);
}

/// Where these fields come from.
proof fn lemma_features_said(s: section::RawSectionView, lines: Seq<policy::LineConfigView>, profiles: Seq<policy::SoftKeyProfileView>, g: policy::GeneralConfigView, w: rules::LayerRulesView, o: option::OptionsView)
    requires
        is_accepted(s, lines, profiles, g, w, o),
    ensures
        said(o, lines, profiles, g, w).feature_defaults.forwarding.all_enabled == network::over(value::flag_at(o, Setting::ForwardAllEnabled), true),
        said(o, lines, profiles, g, w).feature_defaults.forwarding.busy_enabled == network::over(value::flag_at(o, Setting::ForwardBusyEnabled), true),
        said(o, lines, profiles, g, w).feature_defaults.forwarding.no_answer_enabled == network::over(value::flag_at(o, Setting::ForwardNoAnswerEnabled), true),
        said(o, lines, profiles, g, w).feature_defaults.forwarding.no_answer_timeout_seconds == network::over(value::answer_timeout_at(o, Setting::ForwardNoAnswerTimeout), 30) as u32,
        said(o, lines, profiles, g, w).feature_defaults.forwarding.all == network::over(value::forwarding_at(o, Setting::ForwardAll, w), None),
        said(o, lines, profiles, g, w).feature_defaults.forwarding.busy == network::over(value::forwarding_at(o, Setting::ForwardBusy, w), None),
        said(o, lines, profiles, g, w).feature_defaults.forwarding.no_answer == network::over(value::forwarding_at(o, Setting::ForwardNoAnswer, w), None),
        said(o, lines, profiles, g, w).feature_defaults.dnd_enabled == network::over(value::flag_at(o, Setting::DndFeature), true),
        said(o, lines, profiles, g, w).feature_defaults.dnd == network::over(value::dnd_at(o, Setting::Dnd), DndMode::Off),
        said(o, lines, profiles, g, w).feature_defaults.privacy_enabled == network::over(value::flag_at(o, Setting::PrivacyFeature), true),
        said(o, lines, profiles, g, w).feature_defaults.privacy == network::over(value::flag_at(o, Setting::Privacy), false),
        said(o, lines, profiles, g, w).parking.enabled == network::over(value::flag_at(o, Setting::Park), true),
        said(o, lines, profiles, g, w).soft_key_profile == device::profile_of(o),
{
    reveal(is_accepted);
    reveal(said);
}

proof fn lemma_forward_all_enabled(o: option::OptionsView, lines: Seq<policy::LineConfigView>, profiles: Seq<policy::SoftKeyProfileView>, g: policy::GeneralConfigView, w: rules::LayerRulesView, x: section::RawValueView)
    requires
        is_set(o, lines, profiles, g, w, Setting::ForwardAllEnabled, x),
        said(o, lines, profiles, g, w).feature_defaults.forwarding.all_enabled == network::over(value::flag_at(o, Setting::ForwardAllEnabled), true),
    ensures
        ({
            let d = said(o, lines, profiles, g, w);
            let v = x.value;
            let p = section::place(x);
            &&& says(v, d.feature_defaults.forwarding.all_enabled)
        }),
{
    reveal(is_set);
}

proof fn lemma_forward_busy_enabled(o: option::OptionsView, lines: Seq<policy::LineConfigView>, profiles: Seq<policy::SoftKeyProfileView>, g: policy::GeneralConfigView, w: rules::LayerRulesView, x: section::RawValueView)
    requires
        is_set(o, lines, profiles, g, w, Setting::ForwardBusyEnabled, x),
        said(o, lines, profiles, g, w).feature_defaults.forwarding.busy_enabled == network::over(value::flag_at(o, Setting::ForwardBusyEnabled), true),
    ensures
        ({
            let d = said(o, lines, profiles, g, w);
            let v = x.value;
            let p = section::place(x);
            &&& says(v, d.feature_defaults.forwarding.busy_enabled)
        }),
{
    reveal(is_set);
}

proof fn lemma_forward_no_answer_enabled(o: option::OptionsView, lines: Seq<policy::LineConfigView>, profiles: Seq<policy::SoftKeyProfileView>, g: policy::GeneralConfigView, w: rules::LayerRulesView, x: section::RawValueView)
    requires
        is_set(o, lines, profiles, g, w, Setting::ForwardNoAnswerEnabled, x),
        said(o, lines, profiles, g, w).feature_defaults.forwarding.no_answer_enabled == network::over(value::flag_at(o, Setting::ForwardNoAnswerEnabled), true),
    ensures
        ({
            let d = said(o, lines, profiles, g, w);
            let v = x.value;
            let p = section::place(x);
            &&& says(v, d.feature_defaults.forwarding.no_answer_enabled)
        }),
{
    reveal(is_set);
}

proof fn lemma_forward_no_answer_timeout(o: option::OptionsView, lines: Seq<policy::LineConfigView>, profiles: Seq<policy::SoftKeyProfileView>, g: policy::GeneralConfigView, w: rules::LayerRulesView, x: section::RawValueView)
    requires
        is_set(o, lines, profiles, g, w, Setting::ForwardNoAnswerTimeout, x),
        said(o, lines, profiles, g, w).feature_defaults.forwarding.no_answer_timeout_seconds == network::over(value::answer_timeout_at(o, Setting::ForwardNoAnswerTimeout), 30) as u32,
    ensures
        ({
            let d = said(o, lines, profiles, g, w);
            let v = x.value;
            let p = section::place(x);
            &&& number::unsigned(v, 10) == Some(d.feature_defaults.forwarding.no_answer_timeout_seconds as nat)
            &&& 1 <= d.feature_defaults.forwarding.no_answer_timeout_seconds <= 86400
        }),
{
    reveal(is_set);
}

proof fn lemma_forward_all(o: option::OptionsView, lines: Seq<policy::LineConfigView>, profiles: Seq<policy::SoftKeyProfileView>, g: policy::GeneralConfigView, w: rules::LayerRulesView, x: section::RawValueView)
    requires
        is_set(o, lines, profiles, g, w, Setting::ForwardAll, x),
        said(o, lines, profiles, g, w).feature_defaults.forwarding.all == network::over(value::forwarding_at(o, Setting::ForwardAll, w), None),
    ensures
        ({
            let d = said(o, lines, profiles, g, w);
            let v = x.value;
            let p = section::place(x);
            &&& value::value_in(value::forwarding_setting(p, v, w)) == Some(d.feature_defaults.forwarding.all)
        }),
{
    reveal(is_set);
}

proof fn lemma_forward_busy(o: option::OptionsView, lines: Seq<policy::LineConfigView>, profiles: Seq<policy::SoftKeyProfileView>, g: policy::GeneralConfigView, w: rules::LayerRulesView, x: section::RawValueView)
    requires
        is_set(o, lines, profiles, g, w, Setting::ForwardBusy, x),
        said(o, lines, profiles, g, w).feature_defaults.forwarding.busy == network::over(value::forwarding_at(o, Setting::ForwardBusy, w), None),
    ensures
        ({
            let d = said(o, lines, profiles, g, w);
            let v = x.value;
            let p = section::place(x);
            &&& value::value_in(value::forwarding_setting(p, v, w)) == Some(d.feature_defaults.forwarding.busy)
        }),
{
    reveal(is_set);
}

proof fn lemma_forward_no_answer(o: option::OptionsView, lines: Seq<policy::LineConfigView>, profiles: Seq<policy::SoftKeyProfileView>, g: policy::GeneralConfigView, w: rules::LayerRulesView, x: section::RawValueView)
    requires
        is_set(o, lines, profiles, g, w, Setting::ForwardNoAnswer, x),
        said(o, lines, profiles, g, w).feature_defaults.forwarding.no_answer == network::over(value::forwarding_at(o, Setting::ForwardNoAnswer, w), None),
    ensures
        ({
            let d = said(o, lines, profiles, g, w);
            let v = x.value;
            let p = section::place(x);
            &&& value::value_in(value::forwarding_setting(p, v, w)) == Some(d.feature_defaults.forwarding.no_answer)
        }),
{
    reveal(is_set);
}

proof fn lemma_dnd_feature(o: option::OptionsView, lines: Seq<policy::LineConfigView>, profiles: Seq<policy::SoftKeyProfileView>, g: policy::GeneralConfigView, w: rules::LayerRulesView, x: section::RawValueView)
    requires
        is_set(o, lines, profiles, g, w, Setting::DndFeature, x),
        said(o, lines, profiles, g, w).feature_defaults.dnd_enabled == network::over(value::flag_at(o, Setting::DndFeature), true),
    ensures
        ({
            let d = said(o, lines, profiles, g, w);
            let v = x.value;
            let p = section::place(x);
            &&& says(v, d.feature_defaults.dnd_enabled)
        }),
{
    reveal(is_set);
}

proof fn lemma_dnd(o: option::OptionsView, lines: Seq<policy::LineConfigView>, profiles: Seq<policy::SoftKeyProfileView>, g: policy::GeneralConfigView, w: rules::LayerRulesView, x: section::RawValueView)
    requires
        is_set(o, lines, profiles, g, w, Setting::Dnd, x),
        said(o, lines, profiles, g, w).feature_defaults.dnd == network::over(value::dnd_at(o, Setting::Dnd), DndMode::Off),
    ensures
        ({
            let d = said(o, lines, profiles, g, w);
            let v = x.value;
            let p = section::place(x);
            &&& value::value_in(setting::dnd_setting(p, v)) == Some(d.feature_defaults.dnd)
        }),
{
    reveal(is_set);
}

proof fn lemma_privacy_feature(o: option::OptionsView, lines: Seq<policy::LineConfigView>, profiles: Seq<policy::SoftKeyProfileView>, g: policy::GeneralConfigView, w: rules::LayerRulesView, x: section::RawValueView)
    requires
        is_set(o, lines, profiles, g, w, Setting::PrivacyFeature, x),
        said(o, lines, profiles, g, w).feature_defaults.privacy_enabled == network::over(value::flag_at(o, Setting::PrivacyFeature), true),
    ensures
        ({
            let d = said(o, lines, profiles, g, w);
            let v = x.value;
            let p = section::place(x);
            &&& says(v, d.feature_defaults.privacy_enabled)
        }),
{
    reveal(is_set);
}

proof fn lemma_privacy(o: option::OptionsView, lines: Seq<policy::LineConfigView>, profiles: Seq<policy::SoftKeyProfileView>, g: policy::GeneralConfigView, w: rules::LayerRulesView, x: section::RawValueView)
    requires
        is_set(o, lines, profiles, g, w, Setting::Privacy, x),
        said(o, lines, profiles, g, w).feature_defaults.privacy == network::over(value::flag_at(o, Setting::Privacy), false),
    ensures
        ({
            let d = said(o, lines, profiles, g, w);
            let v = x.value;
            let p = section::place(x);
            &&& says(v, d.feature_defaults.privacy)
        }),
{
    reveal(is_set);
}

proof fn lemma_park(o: option::OptionsView, lines: Seq<policy::LineConfigView>, profiles: Seq<policy::SoftKeyProfileView>, g: policy::GeneralConfigView, w: rules::LayerRulesView, x: section::RawValueView)
    requires
        is_set(o, lines, profiles, g, w, Setting::Park, x),
        said(o, lines, profiles, g, w).parking.enabled == network::over(value::flag_at(o, Setting::Park), true),
    ensures
        ({
            let d = said(o, lines, profiles, g, w);
            let v = x.value;
            let p = section::place(x);
            &&& says(v, d.parking.enabled)
        }),
{
    reveal(is_set);
}

proof fn lemma_softkey_profile(o: option::OptionsView, lines: Seq<policy::LineConfigView>, profiles: Seq<policy::SoftKeyProfileView>, g: policy::GeneralConfigView, w: rules::LayerRulesView, x: section::RawValueView)
    requires
        is_set(o, lines, profiles, g, w, Setting::SoftkeyProfile, x),
        said(o, lines, profiles, g, w).soft_key_profile == device::profile_of(o),
    ensures
        ({
            let d = said(o, lines, profiles, g, w);
            let v = x.value;
            let p = section::place(x);
            &&& d.soft_key_profile == softkey::name_of_profile(v)
        }),
{
    reveal(is_set);
}

/// Features: what stands where an option is not set.
pub proof fn law_device_features_have_defaults(s: section::RawSectionView, lines: Seq<policy::LineConfigView>, profiles: Seq<policy::SoftKeyProfileView>, g: policy::GeneralConfigView, w: rules::LayerRulesView)
    requires
        device::device_setting(s, lines, profiles, g, w) is Ok,
    ensures
        ({
            let d = device::device_setting(s, lines, profiles, g, w)->Ok_0;
            &&& unset(s, "cfwdall"@) && unset(s, "forward_all_enabled"@) && unset(s, "forwardallenabled"@) ==> (d.feature_defaults.forwarding.all_enabled)
            &&& unset(s, "cfwdbusy"@) && unset(s, "forward_busy_enabled"@) && unset(s, "forwardbusyenabled"@) ==> (d.feature_defaults.forwarding.busy_enabled)
            &&& unset(s, "cfwdnoanswer"@) && unset(s, "forward_no_answer_enabled"@) && unset(s, "forwardnoanswerenabled"@) ==> (d.feature_defaults.forwarding.no_answer_enabled)
            &&& unset(s, "cfwdnoanswertimeout"@) && unset(s, "forward_no_answer_timeout"@) && unset(s, "forwardnoanswertimeout"@) ==> (d.feature_defaults.forwarding.no_answer_timeout_seconds == 30)
            &&& unset(s, "forward_all"@) ==> (d.feature_defaults.forwarding.all is None)
            &&& unset(s, "forward_busy"@) ==> (d.feature_defaults.forwarding.busy is None)
            &&& unset(s, "forward_no_answer"@) ==> (d.feature_defaults.forwarding.no_answer is None)
            &&& unset(s, "dnd_feature"@) && unset(s, "dndfeature"@) ==> (d.feature_defaults.dnd_enabled)
            &&& unset(s, "dnd"@) ==> (d.feature_defaults.dnd is Off)
            &&& unset(s, "privacy_feature"@) && unset(s, "privacyfeature"@) && unset(s, "private"@) ==> (d.feature_defaults.privacy_enabled)
            &&& unset(s, "privacy"@) ==> (!d.feature_defaults.privacy)
            &&& unset(s, "park"@) ==> (d.parking.enabled)
            &&& unset(s, "softkey_profile"@) && unset(s, "softkeyprofile"@) ==> (d.soft_key_profile == softkey::default_name())
        }),
{
    let o = lemma_accepted(s, lines, profiles, g, w);
    lemma_features_without(s, lines, profiles, g, w, o);
}

proof fn lemma_features_without(s: section::RawSectionView, lines: Seq<policy::LineConfigView>, profiles: Seq<policy::SoftKeyProfileView>, g: policy::GeneralConfigView, w: rules::LayerRulesView, o: option::OptionsView)
    requires
        is_accepted(s, lines, profiles, g, w, o),
    ensures
        ({
            let d = said(o, lines, profiles, g, w);
            &&& unset(s, "cfwdall"@) && unset(s, "forward_all_enabled"@) && unset(s, "forwardallenabled"@) ==> (d.feature_defaults.forwarding.all_enabled)
            &&& unset(s, "cfwdbusy"@) && unset(s, "forward_busy_enabled"@) && unset(s, "forwardbusyenabled"@) ==> (d.feature_defaults.forwarding.busy_enabled)
            &&& unset(s, "cfwdnoanswer"@) && unset(s, "forward_no_answer_enabled"@) && unset(s, "forwardnoanswerenabled"@) ==> (d.feature_defaults.forwarding.no_answer_enabled)
            &&& unset(s, "cfwdnoanswertimeout"@) && unset(s, "forward_no_answer_timeout"@) && unset(s, "forwardnoanswertimeout"@) ==> (d.feature_defaults.forwarding.no_answer_timeout_seconds == 30)
            &&& unset(s, "forward_all"@) ==> (d.feature_defaults.forwarding.all is None)
            &&& unset(s, "forward_busy"@) ==> (d.feature_defaults.forwarding.busy is None)
            &&& unset(s, "forward_no_answer"@) ==> (d.feature_defaults.forwarding.no_answer is None)
            &&& unset(s, "dnd_feature"@) && unset(s, "dndfeature"@) ==> (d.feature_defaults.dnd_enabled)
            &&& unset(s, "dnd"@) ==> (d.feature_defaults.dnd is Off)
            &&& unset(s, "privacy_feature"@) && unset(s, "privacyfeature"@) && unset(s, "private"@) ==> (d.feature_defaults.privacy_enabled)
            &&& unset(s, "privacy"@) ==> (!d.feature_defaults.privacy)
            &&& unset(s, "park"@) ==> (d.parking.enabled)
            &&& unset(s, "softkey_profile"@) && unset(s, "softkeyprofile"@) ==> (d.soft_key_profile == softkey::default_name())
        }),
{
    lemma_features_said(s, lines, profiles, g, w, o);
    if unset(s, "cfwdall"@) && unset(s, "forward_all_enabled"@) && unset(s, "forwardallenabled"@) {
        lemma_without_forward_all_enabled(s, lines, profiles, g, w, o);
    }
    if unset(s, "cfwdbusy"@) && unset(s, "forward_busy_enabled"@) && unset(s, "forwardbusyenabled"@) {
        lemma_without_forward_busy_enabled(s, lines, profiles, g, w, o);
    }
    if unset(s, "cfwdnoanswer"@) && unset(s, "forward_no_answer_enabled"@) && unset(s, "forwardnoanswerenabled"@) {
        lemma_without_forward_no_answer_enabled(s, lines, profiles, g, w, o);
    }
    if unset(s, "cfwdnoanswertimeout"@) && unset(s, "forward_no_answer_timeout"@) && unset(s, "forwardnoanswertimeout"@) {
        lemma_without_forward_no_answer_timeout(s, lines, profiles, g, w, o);
    }
    if unset(s, "forward_all"@) {
        lemma_without_forward_all(s, lines, profiles, g, w, o);
    }
    if unset(s, "forward_busy"@) {
        lemma_without_forward_busy(s, lines, profiles, g, w, o);
    }
    if unset(s, "forward_no_answer"@) {
        lemma_without_forward_no_answer(s, lines, profiles, g, w, o);
    }
    if unset(s, "dnd_feature"@) && unset(s, "dndfeature"@) {
        lemma_without_dnd_feature(s, lines, profiles, g, w, o);
    }
    if unset(s, "dnd"@) {
        lemma_without_dnd(s, lines, profiles, g, w, o);
    }
    if unset(s, "privacy_feature"@) && unset(s, "privacyfeature"@) && unset(s, "private"@) {
        lemma_without_privacy_feature(s, lines, profiles, g, w, o);
    }
    if unset(s, "privacy"@) {
        lemma_without_privacy(s, lines, profiles, g, w, o);
    }
    if unset(s, "park"@) {
        lemma_without_park(s, lines, profiles, g, w, o);
    }
    if unset(s, "softkey_profile"@) && unset(s, "softkeyprofile"@) {
        lemma_without_softkey_profile(s, lines, profiles, g, w, o);
    }
}

proof fn lemma_without_forward_all_enabled(s: section::RawSectionView, lines: Seq<policy::LineConfigView>, profiles: Seq<policy::SoftKeyProfileView>, g: policy::GeneralConfigView, w: rules::LayerRulesView, o: option::OptionsView)
    requires
        is_accepted(s, lines, profiles, g, w, o),
        unset(s, "cfwdall"@),
        unset(s, "forward_all_enabled"@),
        unset(s, "forwardallenabled"@),
        said(o, lines, profiles, g, w).feature_defaults.forwarding.all_enabled == network::over(value::flag_at(o, Setting::ForwardAllEnabled), true),
    ensures
        ({
            let d = said(o, lines, profiles, g, w);
            d.feature_defaults.forwarding.all_enabled
        }),
{
    assert forall|i: int| 0 <= i < s.values.len() implies meaning_of(
        text::lower((#[trigger] s.values[i]).key),
    ) != Some(Setting::ForwardAllEnabled) by {
        lemma_back(text::lower(s.values[i].key));
    }
    lemma_absent(s, lines, profiles, g, w, o, Setting::ForwardAllEnabled);
    reveal(is_absent);
}

proof fn lemma_without_forward_busy_enabled(s: section::RawSectionView, lines: Seq<policy::LineConfigView>, profiles: Seq<policy::SoftKeyProfileView>, g: policy::GeneralConfigView, w: rules::LayerRulesView, o: option::OptionsView)
    requires
        is_accepted(s, lines, profiles, g, w, o),
        unset(s, "cfwdbusy"@),
        unset(s, "forward_busy_enabled"@),
        unset(s, "forwardbusyenabled"@),
        said(o, lines, profiles, g, w).feature_defaults.forwarding.busy_enabled == network::over(value::flag_at(o, Setting::ForwardBusyEnabled), true),
    ensures
        ({
            let d = said(o, lines, profiles, g, w);
            d.feature_defaults.forwarding.busy_enabled
        }),
{
    assert forall|i: int| 0 <= i < s.values.len() implies meaning_of(
        text::lower((#[trigger] s.values[i]).key),
    ) != Some(Setting::ForwardBusyEnabled) by {
        lemma_back(text::lower(s.values[i].key));
    }
    lemma_absent(s, lines, profiles, g, w, o, Setting::ForwardBusyEnabled);
    reveal(is_absent);
}

proof fn lemma_without_forward_no_answer_enabled(s: section::RawSectionView, lines: Seq<policy::LineConfigView>, profiles: Seq<policy::SoftKeyProfileView>, g: policy::GeneralConfigView, w: rules::LayerRulesView, o: option::OptionsView)
    requires
        is_accepted(s, lines, profiles, g, w, o),
        unset(s, "cfwdnoanswer"@),
        unset(s, "forward_no_answer_enabled"@),
        unset(s, "forwardnoanswerenabled"@),
        said(o, lines, profiles, g, w).feature_defaults.forwarding.no_answer_enabled == network::over(value::flag_at(o, Setting::ForwardNoAnswerEnabled), true),
    ensures
        ({
            let d = said(o, lines, profiles, g, w);
            d.feature_defaults.forwarding.no_answer_enabled
        }),
{
    assert forall|i: int| 0 <= i < s.values.len() implies meaning_of(
        text::lower((#[trigger] s.values[i]).key),
    ) != Some(Setting::ForwardNoAnswerEnabled) by {
        lemma_back(text::lower(s.values[i].key));
    }
    lemma_absent(s, lines, profiles, g, w, o, Setting::ForwardNoAnswerEnabled);
    reveal(is_absent);
}

proof fn lemma_without_forward_no_answer_timeout(s: section::RawSectionView, lines: Seq<policy::LineConfigView>, profiles: Seq<policy::SoftKeyProfileView>, g: policy::GeneralConfigView, w: rules::LayerRulesView, o: option::OptionsView)
    requires
        is_accepted(s, lines, profiles, g, w, o),
        unset(s, "cfwdnoanswertimeout"@),
        unset(s, "forward_no_answer_timeout"@),
        unset(s, "forwardnoanswertimeout"@),
        said(o, lines, profiles, g, w).feature_defaults.forwarding.no_answer_timeout_seconds == network::over(value::answer_timeout_at(o, Setting::ForwardNoAnswerTimeout), 30) as u32,
    ensures
        ({
            let d = said(o, lines, profiles, g, w);
            d.feature_defaults.forwarding.no_answer_timeout_seconds == 30
        }),
{
    assert forall|i: int| 0 <= i < s.values.len() implies meaning_of(
        text::lower((#[trigger] s.values[i]).key),
    ) != Some(Setting::ForwardNoAnswerTimeout) by {
        lemma_back(text::lower(s.values[i].key));
    }
    lemma_absent(s, lines, profiles, g, w, o, Setting::ForwardNoAnswerTimeout);
    reveal(is_absent);
}

proof fn lemma_without_forward_all(s: section::RawSectionView, lines: Seq<policy::LineConfigView>, profiles: Seq<policy::SoftKeyProfileView>, g: policy::GeneralConfigView, w: rules::LayerRulesView, o: option::OptionsView)
    requires
        is_accepted(s, lines, profiles, g, w, o),
        unset(s, "forward_all"@),
        said(o, lines, profiles, g, w).feature_defaults.forwarding.all == network::over(value::forwarding_at(o, Setting::ForwardAll, w), None),
    ensures
        ({
            let d = said(o, lines, profiles, g, w);
            d.feature_defaults.forwarding.all is None
        }),
{
    assert forall|i: int| 0 <= i < s.values.len() implies meaning_of(
        text::lower((#[trigger] s.values[i]).key),
    ) != Some(Setting::ForwardAll) by {
        lemma_back(text::lower(s.values[i].key));
    }
    lemma_absent(s, lines, profiles, g, w, o, Setting::ForwardAll);
    reveal(is_absent);
}

proof fn lemma_without_forward_busy(s: section::RawSectionView, lines: Seq<policy::LineConfigView>, profiles: Seq<policy::SoftKeyProfileView>, g: policy::GeneralConfigView, w: rules::LayerRulesView, o: option::OptionsView)
    requires
        is_accepted(s, lines, profiles, g, w, o),
        unset(s, "forward_busy"@),
        said(o, lines, profiles, g, w).feature_defaults.forwarding.busy == network::over(value::forwarding_at(o, Setting::ForwardBusy, w), None),
    ensures
        ({
            let d = said(o, lines, profiles, g, w);
            d.feature_defaults.forwarding.busy is None
        }),
{
    assert forall|i: int| 0 <= i < s.values.len() implies meaning_of(
        text::lower((#[trigger] s.values[i]).key),
    ) != Some(Setting::ForwardBusy) by {
        lemma_back(text::lower(s.values[i].key));
    }
    lemma_absent(s, lines, profiles, g, w, o, Setting::ForwardBusy);
    reveal(is_absent);
}

proof fn lemma_without_forward_no_answer(s: section::RawSectionView, lines: Seq<policy::LineConfigView>, profiles: Seq<policy::SoftKeyProfileView>, g: policy::GeneralConfigView, w: rules::LayerRulesView, o: option::OptionsView)
    requires
        is_accepted(s, lines, profiles, g, w, o),
        unset(s, "forward_no_answer"@),
        said(o, lines, profiles, g, w).feature_defaults.forwarding.no_answer == network::over(value::forwarding_at(o, Setting::ForwardNoAnswer, w), None),
    ensures
        ({
            let d = said(o, lines, profiles, g, w);
            d.feature_defaults.forwarding.no_answer is None
        }),
{
    assert forall|i: int| 0 <= i < s.values.len() implies meaning_of(
        text::lower((#[trigger] s.values[i]).key),
    ) != Some(Setting::ForwardNoAnswer) by {
        lemma_back(text::lower(s.values[i].key));
    }
    lemma_absent(s, lines, profiles, g, w, o, Setting::ForwardNoAnswer);
    reveal(is_absent);
}

proof fn lemma_without_dnd_feature(s: section::RawSectionView, lines: Seq<policy::LineConfigView>, profiles: Seq<policy::SoftKeyProfileView>, g: policy::GeneralConfigView, w: rules::LayerRulesView, o: option::OptionsView)
    requires
        is_accepted(s, lines, profiles, g, w, o),
        unset(s, "dnd_feature"@),
        unset(s, "dndfeature"@),
        said(o, lines, profiles, g, w).feature_defaults.dnd_enabled == network::over(value::flag_at(o, Setting::DndFeature), true),
    ensures
        ({
            let d = said(o, lines, profiles, g, w);
            d.feature_defaults.dnd_enabled
        }),
{
    assert forall|i: int| 0 <= i < s.values.len() implies meaning_of(
        text::lower((#[trigger] s.values[i]).key),
    ) != Some(Setting::DndFeature) by {
        lemma_back(text::lower(s.values[i].key));
    }
    lemma_absent(s, lines, profiles, g, w, o, Setting::DndFeature);
    reveal(is_absent);
}

proof fn lemma_without_dnd(s: section::RawSectionView, lines: Seq<policy::LineConfigView>, profiles: Seq<policy::SoftKeyProfileView>, g: policy::GeneralConfigView, w: rules::LayerRulesView, o: option::OptionsView)
    requires
        is_accepted(s, lines, profiles, g, w, o),
        unset(s, "dnd"@),
        said(o, lines, profiles, g, w).feature_defaults.dnd == network::over(value::dnd_at(o, Setting::Dnd), DndMode::Off),
    ensures
        ({
            let d = said(o, lines, profiles, g, w);
            d.feature_defaults.dnd is Off
        }),
{
    assert forall|i: int| 0 <= i < s.values.len() implies meaning_of(
        text::lower((#[trigger] s.values[i]).key),
    ) != Some(Setting::Dnd) by {
        lemma_back(text::lower(s.values[i].key));
    }
    lemma_absent(s, lines, profiles, g, w, o, Setting::Dnd);
    reveal(is_absent);
}

proof fn lemma_without_privacy_feature(s: section::RawSectionView, lines: Seq<policy::LineConfigView>, profiles: Seq<policy::SoftKeyProfileView>, g: policy::GeneralConfigView, w: rules::LayerRulesView, o: option::OptionsView)
    requires
        is_accepted(s, lines, profiles, g, w, o),
        unset(s, "privacy_feature"@),
        unset(s, "privacyfeature"@),
        unset(s, "private"@),
        said(o, lines, profiles, g, w).feature_defaults.privacy_enabled == network::over(value::flag_at(o, Setting::PrivacyFeature), true),
    ensures
        ({
            let d = said(o, lines, profiles, g, w);
            d.feature_defaults.privacy_enabled
        }),
{
    assert forall|i: int| 0 <= i < s.values.len() implies meaning_of(
        text::lower((#[trigger] s.values[i]).key),
    ) != Some(Setting::PrivacyFeature) by {
        lemma_back(text::lower(s.values[i].key));
    }
    lemma_absent(s, lines, profiles, g, w, o, Setting::PrivacyFeature);
    reveal(is_absent);
}

proof fn lemma_without_privacy(s: section::RawSectionView, lines: Seq<policy::LineConfigView>, profiles: Seq<policy::SoftKeyProfileView>, g: policy::GeneralConfigView, w: rules::LayerRulesView, o: option::OptionsView)
    requires
        is_accepted(s, lines, profiles, g, w, o),
        unset(s, "privacy"@),
        said(o, lines, profiles, g, w).feature_defaults.privacy == network::over(value::flag_at(o, Setting::Privacy), false),
    ensures
        ({
            let d = said(o, lines, profiles, g, w);
            !d.feature_defaults.privacy
        }),
{
    assert forall|i: int| 0 <= i < s.values.len() implies meaning_of(
        text::lower((#[trigger] s.values[i]).key),
    ) != Some(Setting::Privacy) by {
        lemma_back(text::lower(s.values[i].key));
    }
    lemma_absent(s, lines, profiles, g, w, o, Setting::Privacy);
    reveal(is_absent);
}

proof fn lemma_without_park(s: section::RawSectionView, lines: Seq<policy::LineConfigView>, profiles: Seq<policy::SoftKeyProfileView>, g: policy::GeneralConfigView, w: rules::LayerRulesView, o: option::OptionsView)
    requires
        is_accepted(s, lines, profiles, g, w, o),
        unset(s, "park"@),
        said(o, lines, profiles, g, w).parking.enabled == network::over(value::flag_at(o, Setting::Park), true),
    ensures
        ({
            let d = said(o, lines, profiles, g, w);
            d.parking.enabled
        }),
{
    assert forall|i: int| 0 <= i < s.values.len() implies meaning_of(
        text::lower((#[trigger] s.values[i]).key),
    ) != Some(Setting::Park) by {
        lemma_back(text::lower(s.values[i].key));
    }
    lemma_absent(s, lines, profiles, g, w, o, Setting::Park);
    reveal(is_absent);
}

proof fn lemma_without_softkey_profile(s: section::RawSectionView, lines: Seq<policy::LineConfigView>, profiles: Seq<policy::SoftKeyProfileView>, g: policy::GeneralConfigView, w: rules::LayerRulesView, o: option::OptionsView)
    requires
        is_accepted(s, lines, profiles, g, w, o),
        unset(s, "softkey_profile"@),
        unset(s, "softkeyprofile"@),
        said(o, lines, profiles, g, w).soft_key_profile == device::profile_of(o),
    ensures
        ({
            let d = said(o, lines, profiles, g, w);
            d.soft_key_profile == softkey::default_name()
        }),
{
    assert forall|i: int| 0 <= i < s.values.len() implies meaning_of(
        text::lower((#[trigger] s.values[i]).key),
    ) != Some(Setting::SoftkeyProfile) by {
        lemma_back(text::lower(s.values[i].key));
    }
    lemma_absent(s, lines, profiles, g, w, o, Setting::SoftkeyProfile);
    reveal(is_absent);
}

// ---------------------------------------------------------------------------
// Conferences and the phone

/// Conferences and the phone: a setting sets its own field, under each name of its option.
pub proof fn law_device_conferences_are_set(
    s: section::RawSectionView,
    lines: Seq<policy::LineConfigView>,
    profiles: Seq<policy::SoftKeyProfileView>,
    g: policy::GeneralConfigView,
    w: rules::LayerRulesView,
    i: int,
)
    requires
        device::device_setting(s, lines, profiles, g, w) is Ok,
        0 <= i < s.values.len(),
    ensures
        ({
            let d = device::device_setting(s, lines, profiles, g, w)->Ok_0;
            let k = text::lower(s.values[i].key);
            let v = s.values[i].value;
            let p = section::place(s.values[i]);
            &&& k == "conf_allow"@ || k == "confallow"@ || k == "conference_allow"@ ==> {
                &&& says(v, d.conference.allowed)
            }
            &&& k == "conf_music_on_hold_class"@ || k == "conference_music_on_hold_class"@ || k == "confmusiconholdclass"@ ==> {
                &&& value::value_in(setting::empty_optional_setting(p, v)) == Some(d.conference.music_on_hold_class)
            }
            &&& k == "conf_play_general_announce"@ || k == "conference_play_general_announce"@ || k == "confplaygeneralannounce"@ ==> {
                &&& says(v, d.conference.play_general_announcements)
            }
            &&& k == "conf_play_part_announce"@ || k == "conference_play_participant_announce"@ || k == "confplaypartannounce"@ ==> {
                &&& says(v, d.conference.play_participant_announcements)
            }
            &&& k == "conf_mute_on_entry"@ || k == "conference_mute_on_entry"@ || k == "confmuteonentry"@ ==> {
                &&& says(v, d.conference.mute_on_entry)
            }
            &&& k == "conf_show_conflist"@ || k == "conference_show_list"@ || k == "confshowconflist"@ ==> {
                &&& says(v, d.conference.show_conference_list)
            }
            &&& k == "meetme"@ ==> {
                &&& says(v, d.conference.dialing.enabled)
            }
            &&& k == "meetmeopts"@ ==> {
                &&& d.conference.dialing.application_options == text::trimmed(v)
            }
            &&& k == "use_redial_menu"@ || k == "useredialmenu"@ ==> {
                &&& says(v, d.call_ui.redial_mode is PlacedCallsMenu)
            }
            &&& k == "allow_ringin_notification"@ || k == "allowringinnotification"@ ==> {
                &&& says(v, d.call_ui.hinted_ringing_notification)
            }
            &&& k == "mwi_lamp"@ || k == "mwilamp"@ ==> {
                &&& value::value_in(setting::lamp_setting(p, v)) == Some(d.call_ui.mwi_lamp_mode)
            }
            &&& k == "mwi_on_call"@ || k == "mwioncall"@ ==> {
                &&& says(v, d.call_ui.mwi_on_call)
            }
            &&& k == "phone_code_page"@ || k == "phonecodepage"@ ==> {
                &&& value::value_in(setting::code_page_setting(p, v)) == Some(d.call_ui.legacy_code_page)
            }
        }),
{
    let o = lemma_accepted(s, lines, profiles, g, w);
    lemma_conferences_of(s, lines, profiles, g, w, o, i);
}

proof fn lemma_conferences_of(
    s: section::RawSectionView,
    lines: Seq<policy::LineConfigView>,
    profiles: Seq<policy::SoftKeyProfileView>,
    g: policy::GeneralConfigView,
    w: rules::LayerRulesView,
    o: option::OptionsView,
    i: int,
)
    requires
        is_accepted(s, lines, profiles, g, w, o),
        0 <= i < s.values.len(),
        meaning_of(text::lower(s.values[i].key)) == Some(o.settings[i]),
        is_set(o, lines, profiles, g, w, o.settings[i], s.values[i]),
    ensures
        ({
            let d = said(o, lines, profiles, g, w);
            let k = text::lower(s.values[i].key);
            let v = s.values[i].value;
            let p = section::place(s.values[i]);
            &&& k == "conf_allow"@ || k == "confallow"@ || k == "conference_allow"@ ==> {
                &&& says(v, d.conference.allowed)
            }
            &&& k == "conf_music_on_hold_class"@ || k == "conference_music_on_hold_class"@ || k == "confmusiconholdclass"@ ==> {
                &&& value::value_in(setting::empty_optional_setting(p, v)) == Some(d.conference.music_on_hold_class)
            }
            &&& k == "conf_play_general_announce"@ || k == "conference_play_general_announce"@ || k == "confplaygeneralannounce"@ ==> {
                &&& says(v, d.conference.play_general_announcements)
            }
            &&& k == "conf_play_part_announce"@ || k == "conference_play_participant_announce"@ || k == "confplaypartannounce"@ ==> {
                &&& says(v, d.conference.play_participant_announcements)
            }
            &&& k == "conf_mute_on_entry"@ || k == "conference_mute_on_entry"@ || k == "confmuteonentry"@ ==> {
                &&& says(v, d.conference.mute_on_entry)
            }
            &&& k == "conf_show_conflist"@ || k == "conference_show_list"@ || k == "confshowconflist"@ ==> {
                &&& says(v, d.conference.show_conference_list)
            }
            &&& k == "meetme"@ ==> {
                &&& says(v, d.conference.dialing.enabled)
            }
            &&& k == "meetmeopts"@ ==> {
                &&& d.conference.dialing.application_options == text::trimmed(v)
            }
            &&& k == "use_redial_menu"@ || k == "useredialmenu"@ ==> {
                &&& says(v, d.call_ui.redial_mode is PlacedCallsMenu)
            }
            &&& k == "allow_ringin_notification"@ || k == "allowringinnotification"@ ==> {
                &&& says(v, d.call_ui.hinted_ringing_notification)
            }
            &&& k == "mwi_lamp"@ || k == "mwilamp"@ ==> {
                &&& value::value_in(setting::lamp_setting(p, v)) == Some(d.call_ui.mwi_lamp_mode)
            }
            &&& k == "mwi_on_call"@ || k == "mwioncall"@ ==> {
                &&& says(v, d.call_ui.mwi_on_call)
            }
            &&& k == "phone_code_page"@ || k == "phonecodepage"@ ==> {
                &&& value::value_in(setting::code_page_setting(p, v)) == Some(d.call_ui.legacy_code_page)
            }
        }),
{
    let k = text::lower(s.values[i].key);
    lemma_conferences_forth(k);
    lemma_conferences_said(s, lines, profiles, g, w, o);
    if k == "conf_allow"@ || k == "confallow"@ || k == "conference_allow"@ {
        lemma_conference_allow(o, lines, profiles, g, w, s.values[i]);
    }
    if k == "conf_music_on_hold_class"@ || k == "conference_music_on_hold_class"@ || k == "confmusiconholdclass"@ {
        lemma_conference_music_on_hold_class(o, lines, profiles, g, w, s.values[i]);
    }
    if k == "conf_play_general_announce"@ || k == "conference_play_general_announce"@ || k == "confplaygeneralannounce"@ {
        lemma_conference_play_general_announce(o, lines, profiles, g, w, s.values[i]);
    }
    if k == "conf_play_part_announce"@ || k == "conference_play_participant_announce"@ || k == "confplaypartannounce"@ {
        lemma_conference_play_participant_announce(o, lines, profiles, g, w, s.values[i]);
    }
    if k == "conf_mute_on_entry"@ || k == "conference_mute_on_entry"@ || k == "confmuteonentry"@ {
        lemma_conference_mute_on_entry(o, lines, profiles, g, w, s.values[i]);
    }
    if k == "conf_show_conflist"@ || k == "conference_show_list"@ || k == "confshowconflist"@ {
        lemma_conference_show_list(o, lines, profiles, g, w, s.values[i]);
    }
    if k == "meetme"@ {
        lemma_conference_dialing_enabled(o, lines, profiles, g, w, s.values[i]);
    }
    if k == "meetmeopts"@ {
        lemma_conference_options(o, lines, profiles, g, w, s.values[i]);
    }
    if k == "use_redial_menu"@ || k == "useredialmenu"@ {
        lemma_use_redial_menu(o, lines, profiles, g, w, s.values[i]);
    }
    if k == "allow_ringin_notification"@ || k == "allowringinnotification"@ {
        lemma_allow_ringin_notification(o, lines, profiles, g, w, s.values[i]);
    }
    if k == "mwi_lamp"@ || k == "mwilamp"@ {
        lemma_mwi_lamp(o, lines, profiles, g, w, s.values[i]);
    }
    if k == "mwi_on_call"@ || k == "mwioncall"@ {
        lemma_mwi_on_call(o, lines, profiles, g, w, s.values[i]);
    }
    if k == "phone_code_page"@ || k == "phonecodepage"@ {
        lemma_phone_code_page(o, lines, profiles, g, w, s.values[i]);
    }
}

proof fn lemma_conferences_forth(n: text::Text)
    ensures
        n == "conf_allow"@ || n == "confallow"@ || n == "conference_allow"@ ==> meaning_of(n) == Some(Setting::ConferenceAllow),
        n == "conf_music_on_hold_class"@ || n == "conference_music_on_hold_class"@ || n == "confmusiconholdclass"@ ==> meaning_of(n) == Some(Setting::ConferenceMusicOnHoldClass),
        n == "conf_play_general_announce"@ || n == "conference_play_general_announce"@ || n == "confplaygeneralannounce"@ ==> meaning_of(n) == Some(Setting::ConferencePlayGeneralAnnounce),
        n == "conf_play_part_announce"@ || n == "conference_play_participant_announce"@ || n == "confplaypartannounce"@ ==> meaning_of(n) == Some(Setting::ConferencePlayParticipantAnnounce),
        n == "conf_mute_on_entry"@ || n == "conference_mute_on_entry"@ || n == "confmuteonentry"@ ==> meaning_of(n) == Some(Setting::ConferenceMuteOnEntry),
        n == "conf_show_conflist"@ || n == "conference_show_list"@ || n == "confshowconflist"@ ==> meaning_of(n) == Some(Setting::ConferenceShowList),
        n == "meetme"@ ==> meaning_of(n) == Some(Setting::ConferenceDialingEnabled),
        n == "meetmeopts"@ ==> meaning_of(n) == Some(Setting::ConferenceOptions),
        n == "use_redial_menu"@ || n == "useredialmenu"@ ==> meaning_of(n) == Some(Setting::UseRedialMenu),
        n == "allow_ringin_notification"@ || n == "allowringinnotification"@ ==> meaning_of(n) == Some(Setting::AllowRinginNotification),
        n == "mwi_lamp"@ || n == "mwilamp"@ ==> meaning_of(n) == Some(Setting::MwiLamp),
        n == "mwi_on_call"@ || n == "mwioncall"@ ==> meaning_of(n) == Some(Setting::MwiOnCall),
        n == "phone_code_page"@ || n == "phonecodepage"@ ==> meaning_of(n) == Some(Setting::PhoneCodePage),
{
    lemma_forth(n);
}

/// Where these fields come from.
proof fn lemma_conferences_said(s: section::RawSectionView, lines: Seq<policy::LineConfigView>, profiles: Seq<policy::SoftKeyProfileView>, g: policy::GeneralConfigView, w: rules::LayerRulesView, o: option::OptionsView)
    requires
        is_accepted(s, lines, profiles, g, w, o),
    ensures
        said(o, lines, profiles, g, w).conference.allowed == network::over(value::flag_at(o, Setting::ConferenceAllow), true),
        said(o, lines, profiles, g, w).conference.music_on_hold_class == network::over(value::empty_optional_at(o, Setting::ConferenceMusicOnHoldClass), Some("default"@)),
        said(o, lines, profiles, g, w).conference.play_general_announcements == network::over(value::flag_at(o, Setting::ConferencePlayGeneralAnnounce), true),
        said(o, lines, profiles, g, w).conference.play_participant_announcements == network::over(value::flag_at(o, Setting::ConferencePlayParticipantAnnounce), true),
        said(o, lines, profiles, g, w).conference.mute_on_entry == network::over(value::flag_at(o, Setting::ConferenceMuteOnEntry), false),
        said(o, lines, profiles, g, w).conference.show_conference_list == network::over(value::flag_at(o, Setting::ConferenceShowList), true),
        said(o, lines, profiles, g, w).conference.dialing.enabled == network::over(value::flag_at(o, Setting::ConferenceDialingEnabled), g.conference_dialing.enabled),
        said(o, lines, profiles, g, w).conference.dialing.application_options == network::over(value::app_options_at(o, Setting::ConferenceOptions), g.conference_dialing.application_options),
        said(o, lines, profiles, g, w).call_ui == device::call_ui_of(o),
        said(o, lines, profiles, g, w).call_ui.hinted_ringing_notification == network::over(value::flag_at(o, Setting::AllowRinginNotification), false),
        said(o, lines, profiles, g, w).call_ui.mwi_lamp_mode == network::over(value::lamp_at(o, Setting::MwiLamp), LampMode::On),
        said(o, lines, profiles, g, w).call_ui.mwi_on_call == network::over(value::flag_at(o, Setting::MwiOnCall), false),
        said(o, lines, profiles, g, w).call_ui.legacy_code_page == network::over(value::code_page_at(o, Setting::PhoneCodePage), LegacyCodePage::Iso8859_1),
{
    reveal(is_accepted);
    reveal(said);
}

proof fn lemma_conference_allow(o: option::OptionsView, lines: Seq<policy::LineConfigView>, profiles: Seq<policy::SoftKeyProfileView>, g: policy::GeneralConfigView, w: rules::LayerRulesView, x: section::RawValueView)
    requires
        is_set(o, lines, profiles, g, w, Setting::ConferenceAllow, x),
        said(o, lines, profiles, g, w).conference.allowed == network::over(value::flag_at(o, Setting::ConferenceAllow), true),
    ensures
        ({
            let d = said(o, lines, profiles, g, w);
            let v = x.value;
            let p = section::place(x);
            &&& says(v, d.conference.allowed)
        }),
{
    reveal(is_set);
}

proof fn lemma_conference_music_on_hold_class(o: option::OptionsView, lines: Seq<policy::LineConfigView>, profiles: Seq<policy::SoftKeyProfileView>, g: policy::GeneralConfigView, w: rules::LayerRulesView, x: section::RawValueView)
    requires
        is_set(o, lines, profiles, g, w, Setting::ConferenceMusicOnHoldClass, x),
        said(o, lines, profiles, g, w).conference.music_on_hold_class == network::over(value::empty_optional_at(o, Setting::ConferenceMusicOnHoldClass), Some("default"@)),
    ensures
        ({
            let d = said(o, lines, profiles, g, w);
            let v = x.value;
            let p = section::place(x);
            &&& value::value_in(setting::empty_optional_setting(p, v)) == Some(d.conference.music_on_hold_class)
        }),
{
    reveal(is_set);
}

proof fn lemma_conference_play_general_announce(o: option::OptionsView, lines: Seq<policy::LineConfigView>, profiles: Seq<policy::SoftKeyProfileView>, g: policy::GeneralConfigView, w: rules::LayerRulesView, x: section::RawValueView)
    requires
        is_set(o, lines, profiles, g, w, Setting::ConferencePlayGeneralAnnounce, x),
        said(o, lines, profiles, g, w).conference.play_general_announcements == network::over(value::flag_at(o, Setting::ConferencePlayGeneralAnnounce), true),
    ensures
        ({
            let d = said(o, lines, profiles, g, w);
            let v = x.value;
            let p = section::place(x);
            &&& says(v, d.conference.play_general_announcements)
        }),
{
    reveal(is_set);
}

proof fn lemma_conference_play_participant_announce(o: option::OptionsView, lines: Seq<policy::LineConfigView>, profiles: Seq<policy::SoftKeyProfileView>, g: policy::GeneralConfigView, w: rules::LayerRulesView, x: section::RawValueView)
    requires
        is_set(o, lines, profiles, g, w, Setting::ConferencePlayParticipantAnnounce, x),
        said(o, lines, profiles, g, w).conference.play_participant_announcements == network::over(value::flag_at(o, Setting::ConferencePlayParticipantAnnounce), true),
    ensures
        ({
            let d = said(o, lines, profiles, g, w);
            let v = x.value;
            let p = section::place(x);
            &&& says(v, d.conference.play_participant_announcements)
        }),
{
    reveal(is_set);
}

proof fn lemma_conference_mute_on_entry(o: option::OptionsView, lines: Seq<policy::LineConfigView>, profiles: Seq<policy::SoftKeyProfileView>, g: policy::GeneralConfigView, w: rules::LayerRulesView, x: section::RawValueView)
    requires
        is_set(o, lines, profiles, g, w, Setting::ConferenceMuteOnEntry, x),
        said(o, lines, profiles, g, w).conference.mute_on_entry == network::over(value::flag_at(o, Setting::ConferenceMuteOnEntry), false),
    ensures
        ({
            let d = said(o, lines, profiles, g, w);
            let v = x.value;
            let p = section::place(x);
            &&& says(v, d.conference.mute_on_entry)
        }),
{
    reveal(is_set);
}

proof fn lemma_conference_show_list(o: option::OptionsView, lines: Seq<policy::LineConfigView>, profiles: Seq<policy::SoftKeyProfileView>, g: policy::GeneralConfigView, w: rules::LayerRulesView, x: section::RawValueView)
    requires
        is_set(o, lines, profiles, g, w, Setting::ConferenceShowList, x),
        said(o, lines, profiles, g, w).conference.show_conference_list == network::over(value::flag_at(o, Setting::ConferenceShowList), true),
    ensures
        ({
            let d = said(o, lines, profiles, g, w);
            let v = x.value;
            let p = section::place(x);
            &&& says(v, d.conference.show_conference_list)
        }),
{
    reveal(is_set);
}

proof fn lemma_conference_dialing_enabled(o: option::OptionsView, lines: Seq<policy::LineConfigView>, profiles: Seq<policy::SoftKeyProfileView>, g: policy::GeneralConfigView, w: rules::LayerRulesView, x: section::RawValueView)
    requires
        is_set(o, lines, profiles, g, w, Setting::ConferenceDialingEnabled, x),
        said(o, lines, profiles, g, w).conference.dialing.enabled == network::over(value::flag_at(o, Setting::ConferenceDialingEnabled), g.conference_dialing.enabled),
    ensures
        ({
            let d = said(o, lines, profiles, g, w);
            let v = x.value;
            let p = section::place(x);
            &&& says(v, d.conference.dialing.enabled)
        }),
{
    reveal(is_set);
}

proof fn lemma_conference_options(o: option::OptionsView, lines: Seq<policy::LineConfigView>, profiles: Seq<policy::SoftKeyProfileView>, g: policy::GeneralConfigView, w: rules::LayerRulesView, x: section::RawValueView)
    requires
        is_set(o, lines, profiles, g, w, Setting::ConferenceOptions, x),
        said(o, lines, profiles, g, w).conference.dialing.application_options == network::over(value::app_options_at(o, Setting::ConferenceOptions), g.conference_dialing.application_options),
    ensures
        ({
            let d = said(o, lines, profiles, g, w);
            let v = x.value;
            let p = section::place(x);
            &&& d.conference.dialing.application_options == text::trimmed(v)
        }),
{
    reveal(is_set);
}

proof fn lemma_use_redial_menu(o: option::OptionsView, lines: Seq<policy::LineConfigView>, profiles: Seq<policy::SoftKeyProfileView>, g: policy::GeneralConfigView, w: rules::LayerRulesView, x: section::RawValueView)
    requires
        is_set(o, lines, profiles, g, w, Setting::UseRedialMenu, x),
        said(o, lines, profiles, g, w).call_ui == device::call_ui_of(o),
    ensures
        ({
            let d = said(o, lines, profiles, g, w);
            let v = x.value;
            let p = section::place(x);
            &&& says(v, d.call_ui.redial_mode is PlacedCallsMenu)
        }),
{
    reveal(is_set);
}

proof fn lemma_allow_ringin_notification(o: option::OptionsView, lines: Seq<policy::LineConfigView>, profiles: Seq<policy::SoftKeyProfileView>, g: policy::GeneralConfigView, w: rules::LayerRulesView, x: section::RawValueView)
    requires
        is_set(o, lines, profiles, g, w, Setting::AllowRinginNotification, x),
        said(o, lines, profiles, g, w).call_ui.hinted_ringing_notification == network::over(value::flag_at(o, Setting::AllowRinginNotification), false),
    ensures
        ({
            let d = said(o, lines, profiles, g, w);
            let v = x.value;
            let p = section::place(x);
            &&& says(v, d.call_ui.hinted_ringing_notification)
        }),
{
    reveal(is_set);
}

proof fn lemma_mwi_lamp(o: option::OptionsView, lines: Seq<policy::LineConfigView>, profiles: Seq<policy::SoftKeyProfileView>, g: policy::GeneralConfigView, w: rules::LayerRulesView, x: section::RawValueView)
    requires
        is_set(o, lines, profiles, g, w, Setting::MwiLamp, x),
        said(o, lines, profiles, g, w).call_ui.mwi_lamp_mode == network::over(value::lamp_at(o, Setting::MwiLamp), LampMode::On),
    ensures
        ({
            let d = said(o, lines, profiles, g, w);
            let v = x.value;
            let p = section::place(x);
            &&& value::value_in(setting::lamp_setting(p, v)) == Some(d.call_ui.mwi_lamp_mode)
        }),
{
    reveal(is_set);
}

proof fn lemma_mwi_on_call(o: option::OptionsView, lines: Seq<policy::LineConfigView>, profiles: Seq<policy::SoftKeyProfileView>, g: policy::GeneralConfigView, w: rules::LayerRulesView, x: section::RawValueView)
    requires
        is_set(o, lines, profiles, g, w, Setting::MwiOnCall, x),
        said(o, lines, profiles, g, w).call_ui.mwi_on_call == network::over(value::flag_at(o, Setting::MwiOnCall), false),
    ensures
        ({
            let d = said(o, lines, profiles, g, w);
            let v = x.value;
            let p = section::place(x);
            &&& says(v, d.call_ui.mwi_on_call)
        }),
{
    reveal(is_set);
}

proof fn lemma_phone_code_page(o: option::OptionsView, lines: Seq<policy::LineConfigView>, profiles: Seq<policy::SoftKeyProfileView>, g: policy::GeneralConfigView, w: rules::LayerRulesView, x: section::RawValueView)
    requires
        is_set(o, lines, profiles, g, w, Setting::PhoneCodePage, x),
        said(o, lines, profiles, g, w).call_ui.legacy_code_page == network::over(value::code_page_at(o, Setting::PhoneCodePage), LegacyCodePage::Iso8859_1),
    ensures
        ({
            let d = said(o, lines, profiles, g, w);
            let v = x.value;
            let p = section::place(x);
            &&& value::value_in(setting::code_page_setting(p, v)) == Some(d.call_ui.legacy_code_page)
        }),
{
    reveal(is_set);
}

/// Conferences and the phone: what stands where an option is not set.
pub proof fn law_device_conferences_have_defaults(s: section::RawSectionView, lines: Seq<policy::LineConfigView>, profiles: Seq<policy::SoftKeyProfileView>, g: policy::GeneralConfigView, w: rules::LayerRulesView)
    requires
        device::device_setting(s, lines, profiles, g, w) is Ok,
    ensures
        ({
            let d = device::device_setting(s, lines, profiles, g, w)->Ok_0;
            &&& unset(s, "conf_allow"@) && unset(s, "confallow"@) && unset(s, "conference_allow"@) ==> (d.conference.allowed)
            &&& unset(s, "conf_music_on_hold_class"@) && unset(s, "conference_music_on_hold_class"@) && unset(s, "confmusiconholdclass"@) ==> (d.conference.music_on_hold_class == Some("default"@))
            &&& unset(s, "conf_play_general_announce"@) && unset(s, "conference_play_general_announce"@) && unset(s, "confplaygeneralannounce"@) ==> (d.conference.play_general_announcements)
            &&& unset(s, "conf_play_part_announce"@) && unset(s, "conference_play_participant_announce"@) && unset(s, "confplaypartannounce"@) ==> (d.conference.play_participant_announcements)
            &&& unset(s, "conf_mute_on_entry"@) && unset(s, "conference_mute_on_entry"@) && unset(s, "confmuteonentry"@) ==> (!d.conference.mute_on_entry)
            &&& unset(s, "conf_show_conflist"@) && unset(s, "conference_show_list"@) && unset(s, "confshowconflist"@) ==> (d.conference.show_conference_list)
            &&& unset(s, "meetme"@) ==> (d.conference.dialing.enabled == g.conference_dialing.enabled)
            &&& unset(s, "meetmeopts"@) ==> (d.conference.dialing.application_options == g.conference_dialing.application_options)
            &&& unset(s, "use_redial_menu"@) && unset(s, "useredialmenu"@) ==> (d.call_ui.redial_mode is LastNumber)
            &&& unset(s, "allow_ringin_notification"@) && unset(s, "allowringinnotification"@) ==> (!d.call_ui.hinted_ringing_notification)
            &&& unset(s, "mwi_lamp"@) && unset(s, "mwilamp"@) ==> (d.call_ui.mwi_lamp_mode is On)
            &&& unset(s, "mwi_on_call"@) && unset(s, "mwioncall"@) ==> (!d.call_ui.mwi_on_call)
            &&& unset(s, "phone_code_page"@) && unset(s, "phonecodepage"@) ==> (d.call_ui.legacy_code_page is Iso8859_1)
        }),
{
    let o = lemma_accepted(s, lines, profiles, g, w);
    lemma_conferences_without(s, lines, profiles, g, w, o);
}

proof fn lemma_conferences_without(s: section::RawSectionView, lines: Seq<policy::LineConfigView>, profiles: Seq<policy::SoftKeyProfileView>, g: policy::GeneralConfigView, w: rules::LayerRulesView, o: option::OptionsView)
    requires
        is_accepted(s, lines, profiles, g, w, o),
    ensures
        ({
            let d = said(o, lines, profiles, g, w);
            &&& unset(s, "conf_allow"@) && unset(s, "confallow"@) && unset(s, "conference_allow"@) ==> (d.conference.allowed)
            &&& unset(s, "conf_music_on_hold_class"@) && unset(s, "conference_music_on_hold_class"@) && unset(s, "confmusiconholdclass"@) ==> (d.conference.music_on_hold_class == Some("default"@))
            &&& unset(s, "conf_play_general_announce"@) && unset(s, "conference_play_general_announce"@) && unset(s, "confplaygeneralannounce"@) ==> (d.conference.play_general_announcements)
            &&& unset(s, "conf_play_part_announce"@) && unset(s, "conference_play_participant_announce"@) && unset(s, "confplaypartannounce"@) ==> (d.conference.play_participant_announcements)
            &&& unset(s, "conf_mute_on_entry"@) && unset(s, "conference_mute_on_entry"@) && unset(s, "confmuteonentry"@) ==> (!d.conference.mute_on_entry)
            &&& unset(s, "conf_show_conflist"@) && unset(s, "conference_show_list"@) && unset(s, "confshowconflist"@) ==> (d.conference.show_conference_list)
            &&& unset(s, "meetme"@) ==> (d.conference.dialing.enabled == g.conference_dialing.enabled)
            &&& unset(s, "meetmeopts"@) ==> (d.conference.dialing.application_options == g.conference_dialing.application_options)
            &&& unset(s, "use_redial_menu"@) && unset(s, "useredialmenu"@) ==> (d.call_ui.redial_mode is LastNumber)
            &&& unset(s, "allow_ringin_notification"@) && unset(s, "allowringinnotification"@) ==> (!d.call_ui.hinted_ringing_notification)
            &&& unset(s, "mwi_lamp"@) && unset(s, "mwilamp"@) ==> (d.call_ui.mwi_lamp_mode is On)
            &&& unset(s, "mwi_on_call"@) && unset(s, "mwioncall"@) ==> (!d.call_ui.mwi_on_call)
            &&& unset(s, "phone_code_page"@) && unset(s, "phonecodepage"@) ==> (d.call_ui.legacy_code_page is Iso8859_1)
        }),
{
    lemma_conferences_said(s, lines, profiles, g, w, o);
    if unset(s, "conf_allow"@) && unset(s, "confallow"@) && unset(s, "conference_allow"@) {
        lemma_without_conference_allow(s, lines, profiles, g, w, o);
    }
    if unset(s, "conf_music_on_hold_class"@) && unset(s, "conference_music_on_hold_class"@) && unset(s, "confmusiconholdclass"@) {
        lemma_without_conference_music_on_hold_class(s, lines, profiles, g, w, o);
    }
    if unset(s, "conf_play_general_announce"@) && unset(s, "conference_play_general_announce"@) && unset(s, "confplaygeneralannounce"@) {
        lemma_without_conference_play_general_announce(s, lines, profiles, g, w, o);
    }
    if unset(s, "conf_play_part_announce"@) && unset(s, "conference_play_participant_announce"@) && unset(s, "confplaypartannounce"@) {
        lemma_without_conference_play_participant_announce(s, lines, profiles, g, w, o);
    }
    if unset(s, "conf_mute_on_entry"@) && unset(s, "conference_mute_on_entry"@) && unset(s, "confmuteonentry"@) {
        lemma_without_conference_mute_on_entry(s, lines, profiles, g, w, o);
    }
    if unset(s, "conf_show_conflist"@) && unset(s, "conference_show_list"@) && unset(s, "confshowconflist"@) {
        lemma_without_conference_show_list(s, lines, profiles, g, w, o);
    }
    if unset(s, "meetme"@) {
        lemma_without_conference_dialing_enabled(s, lines, profiles, g, w, o);
    }
    if unset(s, "meetmeopts"@) {
        lemma_without_conference_options(s, lines, profiles, g, w, o);
    }
    if unset(s, "use_redial_menu"@) && unset(s, "useredialmenu"@) {
        lemma_without_use_redial_menu(s, lines, profiles, g, w, o);
    }
    if unset(s, "allow_ringin_notification"@) && unset(s, "allowringinnotification"@) {
        lemma_without_allow_ringin_notification(s, lines, profiles, g, w, o);
    }
    if unset(s, "mwi_lamp"@) && unset(s, "mwilamp"@) {
        lemma_without_mwi_lamp(s, lines, profiles, g, w, o);
    }
    if unset(s, "mwi_on_call"@) && unset(s, "mwioncall"@) {
        lemma_without_mwi_on_call(s, lines, profiles, g, w, o);
    }
    if unset(s, "phone_code_page"@) && unset(s, "phonecodepage"@) {
        lemma_without_phone_code_page(s, lines, profiles, g, w, o);
    }
}

proof fn lemma_without_conference_allow(s: section::RawSectionView, lines: Seq<policy::LineConfigView>, profiles: Seq<policy::SoftKeyProfileView>, g: policy::GeneralConfigView, w: rules::LayerRulesView, o: option::OptionsView)
    requires
        is_accepted(s, lines, profiles, g, w, o),
        unset(s, "conf_allow"@),
        unset(s, "confallow"@),
        unset(s, "conference_allow"@),
        said(o, lines, profiles, g, w).conference.allowed == network::over(value::flag_at(o, Setting::ConferenceAllow), true),
    ensures
        ({
            let d = said(o, lines, profiles, g, w);
            d.conference.allowed
        }),
{
    assert forall|i: int| 0 <= i < s.values.len() implies meaning_of(
        text::lower((#[trigger] s.values[i]).key),
    ) != Some(Setting::ConferenceAllow) by {
        lemma_back(text::lower(s.values[i].key));
    }
    lemma_absent(s, lines, profiles, g, w, o, Setting::ConferenceAllow);
    reveal(is_absent);
}

proof fn lemma_without_conference_music_on_hold_class(s: section::RawSectionView, lines: Seq<policy::LineConfigView>, profiles: Seq<policy::SoftKeyProfileView>, g: policy::GeneralConfigView, w: rules::LayerRulesView, o: option::OptionsView)
    requires
        is_accepted(s, lines, profiles, g, w, o),
        unset(s, "conf_music_on_hold_class"@),
        unset(s, "conference_music_on_hold_class"@),
        unset(s, "confmusiconholdclass"@),
        said(o, lines, profiles, g, w).conference.music_on_hold_class == network::over(value::empty_optional_at(o, Setting::ConferenceMusicOnHoldClass), Some("default"@)),
    ensures
        ({
            let d = said(o, lines, profiles, g, w);
            d.conference.music_on_hold_class == Some("default"@)
        }),
{
    assert forall|i: int| 0 <= i < s.values.len() implies meaning_of(
        text::lower((#[trigger] s.values[i]).key),
    ) != Some(Setting::ConferenceMusicOnHoldClass) by {
        lemma_back(text::lower(s.values[i].key));
    }
    lemma_absent(s, lines, profiles, g, w, o, Setting::ConferenceMusicOnHoldClass);
    reveal(is_absent);
}

proof fn lemma_without_conference_play_general_announce(s: section::RawSectionView, lines: Seq<policy::LineConfigView>, profiles: Seq<policy::SoftKeyProfileView>, g: policy::GeneralConfigView, w: rules::LayerRulesView, o: option::OptionsView)
    requires
        is_accepted(s, lines, profiles, g, w, o),
        unset(s, "conf_play_general_announce"@),
        unset(s, "conference_play_general_announce"@),
        unset(s, "confplaygeneralannounce"@),
        said(o, lines, profiles, g, w).conference.play_general_announcements == network::over(value::flag_at(o, Setting::ConferencePlayGeneralAnnounce), true),
    ensures
        ({
            let d = said(o, lines, profiles, g, w);
            d.conference.play_general_announcements
        }),
{
    assert forall|i: int| 0 <= i < s.values.len() implies meaning_of(
        text::lower((#[trigger] s.values[i]).key),
    ) != Some(Setting::ConferencePlayGeneralAnnounce) by {
        lemma_back(text::lower(s.values[i].key));
    }
    lemma_absent(s, lines, profiles, g, w, o, Setting::ConferencePlayGeneralAnnounce);
    reveal(is_absent);
}

proof fn lemma_without_conference_play_participant_announce(s: section::RawSectionView, lines: Seq<policy::LineConfigView>, profiles: Seq<policy::SoftKeyProfileView>, g: policy::GeneralConfigView, w: rules::LayerRulesView, o: option::OptionsView)
    requires
        is_accepted(s, lines, profiles, g, w, o),
        unset(s, "conf_play_part_announce"@),
        unset(s, "conference_play_participant_announce"@),
        unset(s, "confplaypartannounce"@),
        said(o, lines, profiles, g, w).conference.play_participant_announcements == network::over(value::flag_at(o, Setting::ConferencePlayParticipantAnnounce), true),
    ensures
        ({
            let d = said(o, lines, profiles, g, w);
            d.conference.play_participant_announcements
        }),
{
    assert forall|i: int| 0 <= i < s.values.len() implies meaning_of(
        text::lower((#[trigger] s.values[i]).key),
    ) != Some(Setting::ConferencePlayParticipantAnnounce) by {
        lemma_back(text::lower(s.values[i].key));
    }
    lemma_absent(s, lines, profiles, g, w, o, Setting::ConferencePlayParticipantAnnounce);
    reveal(is_absent);
}

proof fn lemma_without_conference_mute_on_entry(s: section::RawSectionView, lines: Seq<policy::LineConfigView>, profiles: Seq<policy::SoftKeyProfileView>, g: policy::GeneralConfigView, w: rules::LayerRulesView, o: option::OptionsView)
    requires
        is_accepted(s, lines, profiles, g, w, o),
        unset(s, "conf_mute_on_entry"@),
        unset(s, "conference_mute_on_entry"@),
        unset(s, "confmuteonentry"@),
        said(o, lines, profiles, g, w).conference.mute_on_entry == network::over(value::flag_at(o, Setting::ConferenceMuteOnEntry), false),
    ensures
        ({
            let d = said(o, lines, profiles, g, w);
            !d.conference.mute_on_entry
        }),
{
    assert forall|i: int| 0 <= i < s.values.len() implies meaning_of(
        text::lower((#[trigger] s.values[i]).key),
    ) != Some(Setting::ConferenceMuteOnEntry) by {
        lemma_back(text::lower(s.values[i].key));
    }
    lemma_absent(s, lines, profiles, g, w, o, Setting::ConferenceMuteOnEntry);
    reveal(is_absent);
}

proof fn lemma_without_conference_show_list(s: section::RawSectionView, lines: Seq<policy::LineConfigView>, profiles: Seq<policy::SoftKeyProfileView>, g: policy::GeneralConfigView, w: rules::LayerRulesView, o: option::OptionsView)
    requires
        is_accepted(s, lines, profiles, g, w, o),
        unset(s, "conf_show_conflist"@),
        unset(s, "conference_show_list"@),
        unset(s, "confshowconflist"@),
        said(o, lines, profiles, g, w).conference.show_conference_list == network::over(value::flag_at(o, Setting::ConferenceShowList), true),
    ensures
        ({
            let d = said(o, lines, profiles, g, w);
            d.conference.show_conference_list
        }),
{
    assert forall|i: int| 0 <= i < s.values.len() implies meaning_of(
        text::lower((#[trigger] s.values[i]).key),
    ) != Some(Setting::ConferenceShowList) by {
        lemma_back(text::lower(s.values[i].key));
    }
    lemma_absent(s, lines, profiles, g, w, o, Setting::ConferenceShowList);
    reveal(is_absent);
}

proof fn lemma_without_conference_dialing_enabled(s: section::RawSectionView, lines: Seq<policy::LineConfigView>, profiles: Seq<policy::SoftKeyProfileView>, g: policy::GeneralConfigView, w: rules::LayerRulesView, o: option::OptionsView)
    requires
        is_accepted(s, lines, profiles, g, w, o),
        unset(s, "meetme"@),
        said(o, lines, profiles, g, w).conference.dialing.enabled == network::over(value::flag_at(o, Setting::ConferenceDialingEnabled), g.conference_dialing.enabled),
    ensures
        ({
            let d = said(o, lines, profiles, g, w);
            d.conference.dialing.enabled == g.conference_dialing.enabled
        }),
{
    assert forall|i: int| 0 <= i < s.values.len() implies meaning_of(
        text::lower((#[trigger] s.values[i]).key),
    ) != Some(Setting::ConferenceDialingEnabled) by {
        lemma_back(text::lower(s.values[i].key));
    }
    lemma_absent(s, lines, profiles, g, w, o, Setting::ConferenceDialingEnabled);
    reveal(is_absent);
}

proof fn lemma_without_conference_options(s: section::RawSectionView, lines: Seq<policy::LineConfigView>, profiles: Seq<policy::SoftKeyProfileView>, g: policy::GeneralConfigView, w: rules::LayerRulesView, o: option::OptionsView)
    requires
        is_accepted(s, lines, profiles, g, w, o),
        unset(s, "meetmeopts"@),
        said(o, lines, profiles, g, w).conference.dialing.application_options == network::over(value::app_options_at(o, Setting::ConferenceOptions), g.conference_dialing.application_options),
    ensures
        ({
            let d = said(o, lines, profiles, g, w);
            d.conference.dialing.application_options == g.conference_dialing.application_options
        }),
{
    assert forall|i: int| 0 <= i < s.values.len() implies meaning_of(
        text::lower((#[trigger] s.values[i]).key),
    ) != Some(Setting::ConferenceOptions) by {
        lemma_back(text::lower(s.values[i].key));
    }
    lemma_absent(s, lines, profiles, g, w, o, Setting::ConferenceOptions);
    reveal(is_absent);
}

proof fn lemma_without_use_redial_menu(s: section::RawSectionView, lines: Seq<policy::LineConfigView>, profiles: Seq<policy::SoftKeyProfileView>, g: policy::GeneralConfigView, w: rules::LayerRulesView, o: option::OptionsView)
    requires
        is_accepted(s, lines, profiles, g, w, o),
        unset(s, "use_redial_menu"@),
        unset(s, "useredialmenu"@),
        said(o, lines, profiles, g, w).call_ui == device::call_ui_of(o),
    ensures
        ({
            let d = said(o, lines, profiles, g, w);
            d.call_ui.redial_mode is LastNumber
        }),
{
    assert forall|i: int| 0 <= i < s.values.len() implies meaning_of(
        text::lower((#[trigger] s.values[i]).key),
    ) != Some(Setting::UseRedialMenu) by {
        lemma_back(text::lower(s.values[i].key));
    }
    lemma_absent(s, lines, profiles, g, w, o, Setting::UseRedialMenu);
    reveal(is_absent);
}

proof fn lemma_without_allow_ringin_notification(s: section::RawSectionView, lines: Seq<policy::LineConfigView>, profiles: Seq<policy::SoftKeyProfileView>, g: policy::GeneralConfigView, w: rules::LayerRulesView, o: option::OptionsView)
    requires
        is_accepted(s, lines, profiles, g, w, o),
        unset(s, "allow_ringin_notification"@),
        unset(s, "allowringinnotification"@),
        said(o, lines, profiles, g, w).call_ui.hinted_ringing_notification == network::over(value::flag_at(o, Setting::AllowRinginNotification), false),
    ensures
        ({
            let d = said(o, lines, profiles, g, w);
            !d.call_ui.hinted_ringing_notification
        }),
{
    assert forall|i: int| 0 <= i < s.values.len() implies meaning_of(
        text::lower((#[trigger] s.values[i]).key),
    ) != Some(Setting::AllowRinginNotification) by {
        lemma_back(text::lower(s.values[i].key));
    }
    lemma_absent(s, lines, profiles, g, w, o, Setting::AllowRinginNotification);
    reveal(is_absent);
}

proof fn lemma_without_mwi_lamp(s: section::RawSectionView, lines: Seq<policy::LineConfigView>, profiles: Seq<policy::SoftKeyProfileView>, g: policy::GeneralConfigView, w: rules::LayerRulesView, o: option::OptionsView)
    requires
        is_accepted(s, lines, profiles, g, w, o),
        unset(s, "mwi_lamp"@),
        unset(s, "mwilamp"@),
        said(o, lines, profiles, g, w).call_ui.mwi_lamp_mode == network::over(value::lamp_at(o, Setting::MwiLamp), LampMode::On),
    ensures
        ({
            let d = said(o, lines, profiles, g, w);
            d.call_ui.mwi_lamp_mode is On
        }),
{
    assert forall|i: int| 0 <= i < s.values.len() implies meaning_of(
        text::lower((#[trigger] s.values[i]).key),
    ) != Some(Setting::MwiLamp) by {
        lemma_back(text::lower(s.values[i].key));
    }
    lemma_absent(s, lines, profiles, g, w, o, Setting::MwiLamp);
    reveal(is_absent);
}

proof fn lemma_without_mwi_on_call(s: section::RawSectionView, lines: Seq<policy::LineConfigView>, profiles: Seq<policy::SoftKeyProfileView>, g: policy::GeneralConfigView, w: rules::LayerRulesView, o: option::OptionsView)
    requires
        is_accepted(s, lines, profiles, g, w, o),
        unset(s, "mwi_on_call"@),
        unset(s, "mwioncall"@),
        said(o, lines, profiles, g, w).call_ui.mwi_on_call == network::over(value::flag_at(o, Setting::MwiOnCall), false),
    ensures
        ({
            let d = said(o, lines, profiles, g, w);
            !d.call_ui.mwi_on_call
        }),
{
    assert forall|i: int| 0 <= i < s.values.len() implies meaning_of(
        text::lower((#[trigger] s.values[i]).key),
    ) != Some(Setting::MwiOnCall) by {
        lemma_back(text::lower(s.values[i].key));
    }
    lemma_absent(s, lines, profiles, g, w, o, Setting::MwiOnCall);
    reveal(is_absent);
}

proof fn lemma_without_phone_code_page(s: section::RawSectionView, lines: Seq<policy::LineConfigView>, profiles: Seq<policy::SoftKeyProfileView>, g: policy::GeneralConfigView, w: rules::LayerRulesView, o: option::OptionsView)
    requires
        is_accepted(s, lines, profiles, g, w, o),
        unset(s, "phone_code_page"@),
        unset(s, "phonecodepage"@),
        said(o, lines, profiles, g, w).call_ui.legacy_code_page == network::over(value::code_page_at(o, Setting::PhoneCodePage), LegacyCodePage::Iso8859_1),
    ensures
        ({
            let d = said(o, lines, profiles, g, w);
            d.call_ui.legacy_code_page is Iso8859_1
        }),
{
    assert forall|i: int| 0 <= i < s.values.len() implies meaning_of(
        text::lower((#[trigger] s.values[i]).key),
    ) != Some(Setting::PhoneCodePage) by {
        lemma_back(text::lower(s.values[i].key));
    }
    lemma_absent(s, lines, profiles, g, w, o, Setting::PhoneCodePage);
    reveal(is_absent);
}

// ---------------------------------------------------------------------------
// Media and network

/// Media and network: a setting sets its own field, under each name of its option.
pub proof fn law_device_media_are_set(
    s: section::RawSectionView,
    lines: Seq<policy::LineConfigView>,
    profiles: Seq<policy::SoftKeyProfileView>,
    g: policy::GeneralConfigView,
    w: rules::LayerRulesView,
    i: int,
)
    requires
        device::device_setting(s, lines, profiles, g, w) is Ok,
        0 <= i < s.values.len(),
    ensures
        ({
            let d = device::device_setting(s, lines, profiles, g, w)->Ok_0;
            let k = text::lower(s.values[i].key);
            let v = s.values[i].value;
            let p = section::place(s.values[i]);
            &&& k == "allow_overlap"@ || k == "allowoverlap"@ ==> {
                &&& says(v, d.allow_overlap)
            }
            &&& k == "audio_encryption"@ || k == "audioencryption"@ ==> {
                &&& value::value_in(codec::encryption_setting(p, v)) == Some(d.media.audio_encryption)
            }
            &&& k == "force_dtmf_mode"@ || k == "force_dtmfmode"@ || k == "forcedtmfmode"@ ==> {
                &&& value::value_in(setting::dtmf_setting(p, v)) == Some(d.media.dtmf_mode)
            }
            &&& k == "direct_media"@ || k == "directrtp"@ ==> {
                &&& says(v, d.media.direct_media)
            }
            &&& k == "early_media"@ || k == "earlyrtp"@ ==> {
                &&& value::value_in(setting::early_media_setting(p, v)) == Some(d.media.early_media)
            }
            &&& k == "nat"@ ==> {
                &&& value::value_in(setting::nat_setting(p, v)) == Some(d.network.nat)
            }
            &&& k == "transport"@ || k == "transport_requirement"@ || k == "transportrequirement"@ ==> {
                &&& value::value_in(setting::transport_setting(p, v)) == Some(d.network.transport)
            }
            &&& k == "sccp_tos"@ || k == "signalingtos"@ ==> {
                &&& value::value_in(network::tos_setting(p, v)) == Some(d.network.qos.signaling.dscp)
            }
            &&& k == "sccp_dscp"@ || k == "sccpdscp"@ || k == "signaling_dscp"@ || k == "signalingdscp"@ ==> {
                &&& value::value_in(network::dscp_setting(p, v)) == Some(d.network.qos.signaling.dscp)
            }
            &&& k == "sccp_cos"@ || k == "signaling_cos"@ || k == "signalingcos"@ ==> {
                &&& value::value_in(network::cos_setting(p, v)) == Some(d.network.qos.signaling.cos)
            }
            &&& k == "audio_tos"@ || k == "audiotos"@ ==> {
                &&& value::value_in(network::tos_setting(p, v)) == Some(d.network.qos.audio.dscp)
            }
            &&& k == "audio_dscp"@ || k == "audiodscp"@ ==> {
                &&& value::value_in(network::dscp_setting(p, v)) == Some(d.network.qos.audio.dscp)
            }
            &&& k == "audio_cos"@ || k == "audiocos"@ ==> {
                &&& value::value_in(network::cos_setting(p, v)) == Some(d.network.qos.audio.cos)
            }
            &&& k == "video_tos"@ || k == "videotos"@ ==> {
                &&& value::value_in(network::tos_setting(p, v)) == Some(d.network.qos.video.dscp)
            }
            &&& k == "video_dscp"@ || k == "videodscp"@ ==> {
                &&& value::value_in(network::dscp_setting(p, v)) == Some(d.network.qos.video.dscp)
            }
            &&& k == "video_cos"@ || k == "videocos"@ ==> {
                &&& value::value_in(network::cos_setting(p, v)) == Some(d.network.qos.video.cos)
            }
        }),
{
    let o = lemma_accepted(s, lines, profiles, g, w);
    lemma_media_of(s, lines, profiles, g, w, o, i);
}

proof fn lemma_media_of(
    s: section::RawSectionView,
    lines: Seq<policy::LineConfigView>,
    profiles: Seq<policy::SoftKeyProfileView>,
    g: policy::GeneralConfigView,
    w: rules::LayerRulesView,
    o: option::OptionsView,
    i: int,
)
    requires
        is_accepted(s, lines, profiles, g, w, o),
        0 <= i < s.values.len(),
        meaning_of(text::lower(s.values[i].key)) == Some(o.settings[i]),
        is_set(o, lines, profiles, g, w, o.settings[i], s.values[i]),
    ensures
        ({
            let d = said(o, lines, profiles, g, w);
            let k = text::lower(s.values[i].key);
            let v = s.values[i].value;
            let p = section::place(s.values[i]);
            &&& k == "allow_overlap"@ || k == "allowoverlap"@ ==> {
                &&& says(v, d.allow_overlap)
            }
            &&& k == "audio_encryption"@ || k == "audioencryption"@ ==> {
                &&& value::value_in(codec::encryption_setting(p, v)) == Some(d.media.audio_encryption)
            }
            &&& k == "force_dtmf_mode"@ || k == "force_dtmfmode"@ || k == "forcedtmfmode"@ ==> {
                &&& value::value_in(setting::dtmf_setting(p, v)) == Some(d.media.dtmf_mode)
            }
            &&& k == "direct_media"@ || k == "directrtp"@ ==> {
                &&& says(v, d.media.direct_media)
            }
            &&& k == "early_media"@ || k == "earlyrtp"@ ==> {
                &&& value::value_in(setting::early_media_setting(p, v)) == Some(d.media.early_media)
            }
            &&& k == "nat"@ ==> {
                &&& value::value_in(setting::nat_setting(p, v)) == Some(d.network.nat)
            }
            &&& k == "transport"@ || k == "transport_requirement"@ || k == "transportrequirement"@ ==> {
                &&& value::value_in(setting::transport_setting(p, v)) == Some(d.network.transport)
            }
            &&& k == "sccp_tos"@ || k == "signalingtos"@ ==> {
                &&& value::value_in(network::tos_setting(p, v)) == Some(d.network.qos.signaling.dscp)
            }
            &&& k == "sccp_dscp"@ || k == "sccpdscp"@ || k == "signaling_dscp"@ || k == "signalingdscp"@ ==> {
                &&& value::value_in(network::dscp_setting(p, v)) == Some(d.network.qos.signaling.dscp)
            }
            &&& k == "sccp_cos"@ || k == "signaling_cos"@ || k == "signalingcos"@ ==> {
                &&& value::value_in(network::cos_setting(p, v)) == Some(d.network.qos.signaling.cos)
            }
            &&& k == "audio_tos"@ || k == "audiotos"@ ==> {
                &&& value::value_in(network::tos_setting(p, v)) == Some(d.network.qos.audio.dscp)
            }
            &&& k == "audio_dscp"@ || k == "audiodscp"@ ==> {
                &&& value::value_in(network::dscp_setting(p, v)) == Some(d.network.qos.audio.dscp)
            }
            &&& k == "audio_cos"@ || k == "audiocos"@ ==> {
                &&& value::value_in(network::cos_setting(p, v)) == Some(d.network.qos.audio.cos)
            }
            &&& k == "video_tos"@ || k == "videotos"@ ==> {
                &&& value::value_in(network::tos_setting(p, v)) == Some(d.network.qos.video.dscp)
            }
            &&& k == "video_dscp"@ || k == "videodscp"@ ==> {
                &&& value::value_in(network::dscp_setting(p, v)) == Some(d.network.qos.video.dscp)
            }
            &&& k == "video_cos"@ || k == "videocos"@ ==> {
                &&& value::value_in(network::cos_setting(p, v)) == Some(d.network.qos.video.cos)
            }
        }),
{
    let k = text::lower(s.values[i].key);
    lemma_media_forth(k);
    lemma_media_said(s, lines, profiles, g, w, o);
    if k == "allow_overlap"@ || k == "allowoverlap"@ {
        lemma_allow_overlap(o, lines, profiles, g, w, s.values[i]);
    }
    if k == "audio_encryption"@ || k == "audioencryption"@ {
        lemma_audio_encryption(o, lines, profiles, g, w, s.values[i]);
    }
    if k == "force_dtmf_mode"@ || k == "force_dtmfmode"@ || k == "forcedtmfmode"@ {
        lemma_force_dtmf_mode(o, lines, profiles, g, w, s.values[i]);
    }
    if k == "direct_media"@ || k == "directrtp"@ {
        lemma_direct_media(o, lines, profiles, g, w, s.values[i]);
    }
    if k == "early_media"@ || k == "earlyrtp"@ {
        lemma_early_media(o, lines, profiles, g, w, s.values[i]);
    }
    if k == "nat"@ {
        lemma_nat(o, lines, profiles, g, w, s.values[i]);
    }
    if k == "transport"@ || k == "transport_requirement"@ || k == "transportrequirement"@ {
        lemma_transport(o, lines, profiles, g, w, s.values[i]);
    }
    if k == "sccp_tos"@ || k == "signalingtos"@ {
        lemma_signaling_tos(o, lines, profiles, g, w, s.values[i]);
    }
    if k == "sccp_dscp"@ || k == "sccpdscp"@ || k == "signaling_dscp"@ || k == "signalingdscp"@ {
        lemma_no_twin(s, lines, profiles, g, w, o, i, Setting::SignalingTos);
        lemma_signaling_dscp(o, lines, profiles, g, w, s.values[i]);
    }
    if k == "sccp_cos"@ || k == "signaling_cos"@ || k == "signalingcos"@ {
        lemma_signaling_cos(o, lines, profiles, g, w, s.values[i]);
    }
    if k == "audio_tos"@ || k == "audiotos"@ {
        lemma_audio_tos(o, lines, profiles, g, w, s.values[i]);
    }
    if k == "audio_dscp"@ || k == "audiodscp"@ {
        lemma_no_twin(s, lines, profiles, g, w, o, i, Setting::AudioTos);
        lemma_audio_dscp(o, lines, profiles, g, w, s.values[i]);
    }
    if k == "audio_cos"@ || k == "audiocos"@ {
        lemma_audio_cos(o, lines, profiles, g, w, s.values[i]);
    }
    if k == "video_tos"@ || k == "videotos"@ {
        lemma_video_tos(o, lines, profiles, g, w, s.values[i]);
    }
    if k == "video_dscp"@ || k == "videodscp"@ {
        lemma_no_twin(s, lines, profiles, g, w, o, i, Setting::VideoTos);
        lemma_video_dscp(o, lines, profiles, g, w, s.values[i]);
    }
    if k == "video_cos"@ || k == "videocos"@ {
        lemma_video_cos(o, lines, profiles, g, w, s.values[i]);
    }
}

proof fn lemma_media_forth(n: text::Text)
    ensures
        n == "allow_overlap"@ || n == "allowoverlap"@ ==> meaning_of(n) == Some(Setting::AllowOverlap),
        n == "audio_encryption"@ || n == "audioencryption"@ ==> meaning_of(n) == Some(Setting::AudioEncryption),
        n == "force_dtmf_mode"@ || n == "force_dtmfmode"@ || n == "forcedtmfmode"@ ==> meaning_of(n) == Some(Setting::ForceDtmfMode),
        n == "direct_media"@ || n == "directrtp"@ ==> meaning_of(n) == Some(Setting::DirectMedia),
        n == "early_media"@ || n == "earlyrtp"@ ==> meaning_of(n) == Some(Setting::EarlyMedia),
        n == "nat"@ ==> meaning_of(n) == Some(Setting::Nat),
        n == "transport"@ || n == "transport_requirement"@ || n == "transportrequirement"@ ==> meaning_of(n) == Some(Setting::Transport),
        n == "sccp_tos"@ || n == "signalingtos"@ ==> meaning_of(n) == Some(Setting::SignalingTos),
        n == "sccp_dscp"@ || n == "sccpdscp"@ || n == "signaling_dscp"@ || n == "signalingdscp"@ ==> meaning_of(n) == Some(Setting::SignalingDscp),
        n == "sccp_cos"@ || n == "signaling_cos"@ || n == "signalingcos"@ ==> meaning_of(n) == Some(Setting::SignalingCos),
        n == "audio_tos"@ || n == "audiotos"@ ==> meaning_of(n) == Some(Setting::AudioTos),
        n == "audio_dscp"@ || n == "audiodscp"@ ==> meaning_of(n) == Some(Setting::AudioDscp),
        n == "audio_cos"@ || n == "audiocos"@ ==> meaning_of(n) == Some(Setting::AudioCos),
        n == "video_tos"@ || n == "videotos"@ ==> meaning_of(n) == Some(Setting::VideoTos),
        n == "video_dscp"@ || n == "videodscp"@ ==> meaning_of(n) == Some(Setting::VideoDscp),
        n == "video_cos"@ || n == "videocos"@ ==> meaning_of(n) == Some(Setting::VideoCos),
{
    lemma_forth(n);
}

/// Where these fields come from.
proof fn lemma_media_said(s: section::RawSectionView, lines: Seq<policy::LineConfigView>, profiles: Seq<policy::SoftKeyProfileView>, g: policy::GeneralConfigView, w: rules::LayerRulesView, o: option::OptionsView)
    requires
        is_accepted(s, lines, profiles, g, w, o),
    ensures
        said(o, lines, profiles, g, w).allow_overlap == network::over(value::flag_at(o, Setting::AllowOverlap), g.allow_overlap),
        said(o, lines, profiles, g, w).media.audio_encryption == network::over(value::encryption_at(o, Setting::AudioEncryption), g.audio_encryption),
        said(o, lines, profiles, g, w).media.dtmf_mode == network::over(value::dtmf_at(o, Setting::ForceDtmfMode), DtmfMode::Auto),
        said(o, lines, profiles, g, w).media.direct_media == network::over(value::flag_at(o, Setting::DirectMedia), g.direct_media),
        said(o, lines, profiles, g, w).media.early_media == network::over(value::early_at(o, Setting::EarlyMedia), g.early_media),
        said(o, lines, profiles, g, w).network.nat == network::over(value::nat_at(o, Setting::Nat), g.network.nat),
        said(o, lines, profiles, g, w).network.transport == device::transport_of(o),
        said(o, lines, profiles, g, w).network.qos.signaling.dscp == network::over(general::either(value::tos_at(o, Setting::SignalingTos), value::dscp_at(o, Setting::SignalingDscp)), g.qos.signaling.dscp),
        said(o, lines, profiles, g, w).network.qos.signaling.cos == network::over(value::cos_at(o, Setting::SignalingCos), g.qos.signaling.cos),
        said(o, lines, profiles, g, w).network.qos.audio.dscp == network::over(general::either(value::tos_at(o, Setting::AudioTos), value::dscp_at(o, Setting::AudioDscp)), g.qos.audio.dscp),
        said(o, lines, profiles, g, w).network.qos.audio.cos == network::over(value::cos_at(o, Setting::AudioCos), g.qos.audio.cos),
        said(o, lines, profiles, g, w).network.qos.video.dscp == network::over(general::either(value::tos_at(o, Setting::VideoTos), value::dscp_at(o, Setting::VideoDscp)), g.qos.video.dscp),
        said(o, lines, profiles, g, w).network.qos.video.cos == network::over(value::cos_at(o, Setting::VideoCos), g.qos.video.cos),
{
    reveal(is_accepted);
    reveal(said);
}

proof fn lemma_allow_overlap(o: option::OptionsView, lines: Seq<policy::LineConfigView>, profiles: Seq<policy::SoftKeyProfileView>, g: policy::GeneralConfigView, w: rules::LayerRulesView, x: section::RawValueView)
    requires
        is_set(o, lines, profiles, g, w, Setting::AllowOverlap, x),
        said(o, lines, profiles, g, w).allow_overlap == network::over(value::flag_at(o, Setting::AllowOverlap), g.allow_overlap),
    ensures
        ({
            let d = said(o, lines, profiles, g, w);
            let v = x.value;
            let p = section::place(x);
            &&& says(v, d.allow_overlap)
        }),
{
    reveal(is_set);
}

proof fn lemma_audio_encryption(o: option::OptionsView, lines: Seq<policy::LineConfigView>, profiles: Seq<policy::SoftKeyProfileView>, g: policy::GeneralConfigView, w: rules::LayerRulesView, x: section::RawValueView)
    requires
        is_set(o, lines, profiles, g, w, Setting::AudioEncryption, x),
        said(o, lines, profiles, g, w).media.audio_encryption == network::over(value::encryption_at(o, Setting::AudioEncryption), g.audio_encryption),
    ensures
        ({
            let d = said(o, lines, profiles, g, w);
            let v = x.value;
            let p = section::place(x);
            &&& value::value_in(codec::encryption_setting(p, v)) == Some(d.media.audio_encryption)
        }),
{
    reveal(is_set);
}

proof fn lemma_force_dtmf_mode(o: option::OptionsView, lines: Seq<policy::LineConfigView>, profiles: Seq<policy::SoftKeyProfileView>, g: policy::GeneralConfigView, w: rules::LayerRulesView, x: section::RawValueView)
    requires
        is_set(o, lines, profiles, g, w, Setting::ForceDtmfMode, x),
        said(o, lines, profiles, g, w).media.dtmf_mode == network::over(value::dtmf_at(o, Setting::ForceDtmfMode), DtmfMode::Auto),
    ensures
        ({
            let d = said(o, lines, profiles, g, w);
            let v = x.value;
            let p = section::place(x);
            &&& value::value_in(setting::dtmf_setting(p, v)) == Some(d.media.dtmf_mode)
        }),
{
    reveal(is_set);
}

proof fn lemma_direct_media(o: option::OptionsView, lines: Seq<policy::LineConfigView>, profiles: Seq<policy::SoftKeyProfileView>, g: policy::GeneralConfigView, w: rules::LayerRulesView, x: section::RawValueView)
    requires
        is_set(o, lines, profiles, g, w, Setting::DirectMedia, x),
        said(o, lines, profiles, g, w).media.direct_media == network::over(value::flag_at(o, Setting::DirectMedia), g.direct_media),
    ensures
        ({
            let d = said(o, lines, profiles, g, w);
            let v = x.value;
            let p = section::place(x);
            &&& says(v, d.media.direct_media)
        }),
{
    reveal(is_set);
}

proof fn lemma_early_media(o: option::OptionsView, lines: Seq<policy::LineConfigView>, profiles: Seq<policy::SoftKeyProfileView>, g: policy::GeneralConfigView, w: rules::LayerRulesView, x: section::RawValueView)
    requires
        is_set(o, lines, profiles, g, w, Setting::EarlyMedia, x),
        said(o, lines, profiles, g, w).media.early_media == network::over(value::early_at(o, Setting::EarlyMedia), g.early_media),
    ensures
        ({
            let d = said(o, lines, profiles, g, w);
            let v = x.value;
            let p = section::place(x);
            &&& value::value_in(setting::early_media_setting(p, v)) == Some(d.media.early_media)
        }),
{
    reveal(is_set);
}

proof fn lemma_nat(o: option::OptionsView, lines: Seq<policy::LineConfigView>, profiles: Seq<policy::SoftKeyProfileView>, g: policy::GeneralConfigView, w: rules::LayerRulesView, x: section::RawValueView)
    requires
        is_set(o, lines, profiles, g, w, Setting::Nat, x),
        said(o, lines, profiles, g, w).network.nat == network::over(value::nat_at(o, Setting::Nat), g.network.nat),
    ensures
        ({
            let d = said(o, lines, profiles, g, w);
            let v = x.value;
            let p = section::place(x);
            &&& value::value_in(setting::nat_setting(p, v)) == Some(d.network.nat)
        }),
{
    reveal(is_set);
}

proof fn lemma_transport(o: option::OptionsView, lines: Seq<policy::LineConfigView>, profiles: Seq<policy::SoftKeyProfileView>, g: policy::GeneralConfigView, w: rules::LayerRulesView, x: section::RawValueView)
    requires
        is_set(o, lines, profiles, g, w, Setting::Transport, x),
        said(o, lines, profiles, g, w).network.transport == device::transport_of(o),
    ensures
        ({
            let d = said(o, lines, profiles, g, w);
            let v = x.value;
            let p = section::place(x);
            &&& value::value_in(setting::transport_setting(p, v)) == Some(d.network.transport)
        }),
{
    reveal(is_set);
}

proof fn lemma_signaling_tos(o: option::OptionsView, lines: Seq<policy::LineConfigView>, profiles: Seq<policy::SoftKeyProfileView>, g: policy::GeneralConfigView, w: rules::LayerRulesView, x: section::RawValueView)
    requires
        is_set(o, lines, profiles, g, w, Setting::SignalingTos, x),
        said(o, lines, profiles, g, w).network.qos.signaling.dscp == network::over(general::either(value::tos_at(o, Setting::SignalingTos), value::dscp_at(o, Setting::SignalingDscp)), g.qos.signaling.dscp),
    ensures
        ({
            let d = said(o, lines, profiles, g, w);
            let v = x.value;
            let p = section::place(x);
            &&& value::value_in(network::tos_setting(p, v)) == Some(d.network.qos.signaling.dscp)
        }),
{
    reveal(is_set);
}

proof fn lemma_signaling_dscp(o: option::OptionsView, lines: Seq<policy::LineConfigView>, profiles: Seq<policy::SoftKeyProfileView>, g: policy::GeneralConfigView, w: rules::LayerRulesView, x: section::RawValueView)
    requires
        is_set(o, lines, profiles, g, w, Setting::SignalingDscp, x),
        is_absent(o, lines, profiles, g, w, Setting::SignalingTos),
        said(o, lines, profiles, g, w).network.qos.signaling.dscp == network::over(general::either(value::tos_at(o, Setting::SignalingTos), value::dscp_at(o, Setting::SignalingDscp)), g.qos.signaling.dscp),
    ensures
        ({
            let d = said(o, lines, profiles, g, w);
            let v = x.value;
            let p = section::place(x);
            &&& value::value_in(network::dscp_setting(p, v)) == Some(d.network.qos.signaling.dscp)
        }),
{
    reveal(is_set);
    reveal(is_absent);
}

proof fn lemma_signaling_cos(o: option::OptionsView, lines: Seq<policy::LineConfigView>, profiles: Seq<policy::SoftKeyProfileView>, g: policy::GeneralConfigView, w: rules::LayerRulesView, x: section::RawValueView)
    requires
        is_set(o, lines, profiles, g, w, Setting::SignalingCos, x),
        said(o, lines, profiles, g, w).network.qos.signaling.cos == network::over(value::cos_at(o, Setting::SignalingCos), g.qos.signaling.cos),
    ensures
        ({
            let d = said(o, lines, profiles, g, w);
            let v = x.value;
            let p = section::place(x);
            &&& value::value_in(network::cos_setting(p, v)) == Some(d.network.qos.signaling.cos)
        }),
{
    reveal(is_set);
}

proof fn lemma_audio_tos(o: option::OptionsView, lines: Seq<policy::LineConfigView>, profiles: Seq<policy::SoftKeyProfileView>, g: policy::GeneralConfigView, w: rules::LayerRulesView, x: section::RawValueView)
    requires
        is_set(o, lines, profiles, g, w, Setting::AudioTos, x),
        said(o, lines, profiles, g, w).network.qos.audio.dscp == network::over(general::either(value::tos_at(o, Setting::AudioTos), value::dscp_at(o, Setting::AudioDscp)), g.qos.audio.dscp),
    ensures
        ({
            let d = said(o, lines, profiles, g, w);
            let v = x.value;
            let p = section::place(x);
            &&& value::value_in(network::tos_setting(p, v)) == Some(d.network.qos.audio.dscp)
        }),
{
    reveal(is_set);
}

proof fn lemma_audio_dscp(o: option::OptionsView, lines: Seq<policy::LineConfigView>, profiles: Seq<policy::SoftKeyProfileView>, g: policy::GeneralConfigView, w: rules::LayerRulesView, x: section::RawValueView)
    requires
        is_set(o, lines, profiles, g, w, Setting::AudioDscp, x),
        is_absent(o, lines, profiles, g, w, Setting::AudioTos),
        said(o, lines, profiles, g, w).network.qos.audio.dscp == network::over(general::either(value::tos_at(o, Setting::AudioTos), value::dscp_at(o, Setting::AudioDscp)), g.qos.audio.dscp),
    ensures
        ({
            let d = said(o, lines, profiles, g, w);
            let v = x.value;
            let p = section::place(x);
            &&& value::value_in(network::dscp_setting(p, v)) == Some(d.network.qos.audio.dscp)
        }),
{
    reveal(is_set);
    reveal(is_absent);
}

proof fn lemma_audio_cos(o: option::OptionsView, lines: Seq<policy::LineConfigView>, profiles: Seq<policy::SoftKeyProfileView>, g: policy::GeneralConfigView, w: rules::LayerRulesView, x: section::RawValueView)
    requires
        is_set(o, lines, profiles, g, w, Setting::AudioCos, x),
        said(o, lines, profiles, g, w).network.qos.audio.cos == network::over(value::cos_at(o, Setting::AudioCos), g.qos.audio.cos),
    ensures
        ({
            let d = said(o, lines, profiles, g, w);
            let v = x.value;
            let p = section::place(x);
            &&& value::value_in(network::cos_setting(p, v)) == Some(d.network.qos.audio.cos)
        }),
{
    reveal(is_set);
}

proof fn lemma_video_tos(o: option::OptionsView, lines: Seq<policy::LineConfigView>, profiles: Seq<policy::SoftKeyProfileView>, g: policy::GeneralConfigView, w: rules::LayerRulesView, x: section::RawValueView)
    requires
        is_set(o, lines, profiles, g, w, Setting::VideoTos, x),
        said(o, lines, profiles, g, w).network.qos.video.dscp == network::over(general::either(value::tos_at(o, Setting::VideoTos), value::dscp_at(o, Setting::VideoDscp)), g.qos.video.dscp),
    ensures
        ({
            let d = said(o, lines, profiles, g, w);
            let v = x.value;
            let p = section::place(x);
            &&& value::value_in(network::tos_setting(p, v)) == Some(d.network.qos.video.dscp)
        }),
{
    reveal(is_set);
}

proof fn lemma_video_dscp(o: option::OptionsView, lines: Seq<policy::LineConfigView>, profiles: Seq<policy::SoftKeyProfileView>, g: policy::GeneralConfigView, w: rules::LayerRulesView, x: section::RawValueView)
    requires
        is_set(o, lines, profiles, g, w, Setting::VideoDscp, x),
        is_absent(o, lines, profiles, g, w, Setting::VideoTos),
        said(o, lines, profiles, g, w).network.qos.video.dscp == network::over(general::either(value::tos_at(o, Setting::VideoTos), value::dscp_at(o, Setting::VideoDscp)), g.qos.video.dscp),
    ensures
        ({
            let d = said(o, lines, profiles, g, w);
            let v = x.value;
            let p = section::place(x);
            &&& value::value_in(network::dscp_setting(p, v)) == Some(d.network.qos.video.dscp)
        }),
{
    reveal(is_set);
    reveal(is_absent);
}

proof fn lemma_video_cos(o: option::OptionsView, lines: Seq<policy::LineConfigView>, profiles: Seq<policy::SoftKeyProfileView>, g: policy::GeneralConfigView, w: rules::LayerRulesView, x: section::RawValueView)
    requires
        is_set(o, lines, profiles, g, w, Setting::VideoCos, x),
        said(o, lines, profiles, g, w).network.qos.video.cos == network::over(value::cos_at(o, Setting::VideoCos), g.qos.video.cos),
    ensures
        ({
            let d = said(o, lines, profiles, g, w);
            let v = x.value;
            let p = section::place(x);
            &&& value::value_in(network::cos_setting(p, v)) == Some(d.network.qos.video.cos)
        }),
{
    reveal(is_set);
}

/// Media and network: what stands where an option is not set.
pub proof fn law_device_media_have_defaults(s: section::RawSectionView, lines: Seq<policy::LineConfigView>, profiles: Seq<policy::SoftKeyProfileView>, g: policy::GeneralConfigView, w: rules::LayerRulesView)
    requires
        device::device_setting(s, lines, profiles, g, w) is Ok,
    ensures
        ({
            let d = device::device_setting(s, lines, profiles, g, w)->Ok_0;
            &&& unset(s, "allow_overlap"@) && unset(s, "allowoverlap"@) ==> (d.allow_overlap == g.allow_overlap)
            &&& unset(s, "audio_encryption"@) && unset(s, "audioencryption"@) ==> (d.media.audio_encryption == g.audio_encryption)
            &&& unset(s, "force_dtmf_mode"@) && unset(s, "force_dtmfmode"@) && unset(s, "forcedtmfmode"@) ==> (d.media.dtmf_mode is Auto)
            &&& unset(s, "direct_media"@) && unset(s, "directrtp"@) ==> (d.media.direct_media == g.direct_media)
            &&& unset(s, "early_media"@) && unset(s, "earlyrtp"@) ==> (d.media.early_media == g.early_media)
            &&& unset(s, "nat"@) ==> (d.network.nat == g.network.nat)
            &&& unset(s, "transport"@) && unset(s, "transport_requirement"@) && unset(s, "transportrequirement"@) ==> (d.network.transport is Either)
            &&& unset(s, "sccp_tos"@) && unset(s, "signalingtos"@) && unset(s, "sccp_dscp"@) && unset(s, "sccpdscp"@) && unset(s, "signaling_dscp"@) && unset(s, "signalingdscp"@) ==> (d.network.qos.signaling.dscp == g.qos.signaling.dscp)
            &&& unset(s, "sccp_cos"@) && unset(s, "signaling_cos"@) && unset(s, "signalingcos"@) ==> (d.network.qos.signaling.cos == g.qos.signaling.cos)
            &&& unset(s, "audio_tos"@) && unset(s, "audiotos"@) && unset(s, "audio_dscp"@) && unset(s, "audiodscp"@) ==> (d.network.qos.audio.dscp == g.qos.audio.dscp)
            &&& unset(s, "audio_cos"@) && unset(s, "audiocos"@) ==> (d.network.qos.audio.cos == g.qos.audio.cos)
            &&& unset(s, "video_tos"@) && unset(s, "videotos"@) && unset(s, "video_dscp"@) && unset(s, "videodscp"@) ==> (d.network.qos.video.dscp == g.qos.video.dscp)
            &&& unset(s, "video_cos"@) && unset(s, "videocos"@) ==> (d.network.qos.video.cos == g.qos.video.cos)
        }),
{
    let o = lemma_accepted(s, lines, profiles, g, w);
    lemma_media_without(s, lines, profiles, g, w, o);
}

proof fn lemma_media_without(s: section::RawSectionView, lines: Seq<policy::LineConfigView>, profiles: Seq<policy::SoftKeyProfileView>, g: policy::GeneralConfigView, w: rules::LayerRulesView, o: option::OptionsView)
    requires
        is_accepted(s, lines, profiles, g, w, o),
    ensures
        ({
            let d = said(o, lines, profiles, g, w);
            &&& unset(s, "allow_overlap"@) && unset(s, "allowoverlap"@) ==> (d.allow_overlap == g.allow_overlap)
            &&& unset(s, "audio_encryption"@) && unset(s, "audioencryption"@) ==> (d.media.audio_encryption == g.audio_encryption)
            &&& unset(s, "force_dtmf_mode"@) && unset(s, "force_dtmfmode"@) && unset(s, "forcedtmfmode"@) ==> (d.media.dtmf_mode is Auto)
            &&& unset(s, "direct_media"@) && unset(s, "directrtp"@) ==> (d.media.direct_media == g.direct_media)
            &&& unset(s, "early_media"@) && unset(s, "earlyrtp"@) ==> (d.media.early_media == g.early_media)
            &&& unset(s, "nat"@) ==> (d.network.nat == g.network.nat)
            &&& unset(s, "transport"@) && unset(s, "transport_requirement"@) && unset(s, "transportrequirement"@) ==> (d.network.transport is Either)
            &&& unset(s, "sccp_tos"@) && unset(s, "signalingtos"@) && unset(s, "sccp_dscp"@) && unset(s, "sccpdscp"@) && unset(s, "signaling_dscp"@) && unset(s, "signalingdscp"@) ==> (d.network.qos.signaling.dscp == g.qos.signaling.dscp)
            &&& unset(s, "sccp_cos"@) && unset(s, "signaling_cos"@) && unset(s, "signalingcos"@) ==> (d.network.qos.signaling.cos == g.qos.signaling.cos)
            &&& unset(s, "audio_tos"@) && unset(s, "audiotos"@) && unset(s, "audio_dscp"@) && unset(s, "audiodscp"@) ==> (d.network.qos.audio.dscp == g.qos.audio.dscp)
            &&& unset(s, "audio_cos"@) && unset(s, "audiocos"@) ==> (d.network.qos.audio.cos == g.qos.audio.cos)
            &&& unset(s, "video_tos"@) && unset(s, "videotos"@) && unset(s, "video_dscp"@) && unset(s, "videodscp"@) ==> (d.network.qos.video.dscp == g.qos.video.dscp)
            &&& unset(s, "video_cos"@) && unset(s, "videocos"@) ==> (d.network.qos.video.cos == g.qos.video.cos)
        }),
{
    lemma_media_said(s, lines, profiles, g, w, o);
    if unset(s, "allow_overlap"@) && unset(s, "allowoverlap"@) {
        lemma_without_allow_overlap(s, lines, profiles, g, w, o);
    }
    if unset(s, "audio_encryption"@) && unset(s, "audioencryption"@) {
        lemma_without_audio_encryption(s, lines, profiles, g, w, o);
    }
    if unset(s, "force_dtmf_mode"@) && unset(s, "force_dtmfmode"@) && unset(s, "forcedtmfmode"@) {
        lemma_without_force_dtmf_mode(s, lines, profiles, g, w, o);
    }
    if unset(s, "direct_media"@) && unset(s, "directrtp"@) {
        lemma_without_direct_media(s, lines, profiles, g, w, o);
    }
    if unset(s, "early_media"@) && unset(s, "earlyrtp"@) {
        lemma_without_early_media(s, lines, profiles, g, w, o);
    }
    if unset(s, "nat"@) {
        lemma_without_nat(s, lines, profiles, g, w, o);
    }
    if unset(s, "transport"@) && unset(s, "transport_requirement"@) && unset(s, "transportrequirement"@) {
        lemma_without_transport(s, lines, profiles, g, w, o);
    }
    if unset(s, "sccp_tos"@) && unset(s, "signalingtos"@) && unset(s, "sccp_dscp"@) && unset(s, "sccpdscp"@) && unset(s, "signaling_dscp"@) && unset(s, "signalingdscp"@) {
        lemma_without_signaling_tos_or_signaling_dscp(s, lines, profiles, g, w, o);
    }
    if unset(s, "sccp_cos"@) && unset(s, "signaling_cos"@) && unset(s, "signalingcos"@) {
        lemma_without_signaling_cos(s, lines, profiles, g, w, o);
    }
    if unset(s, "audio_tos"@) && unset(s, "audiotos"@) && unset(s, "audio_dscp"@) && unset(s, "audiodscp"@) {
        lemma_without_audio_tos_or_audio_dscp(s, lines, profiles, g, w, o);
    }
    if unset(s, "audio_cos"@) && unset(s, "audiocos"@) {
        lemma_without_audio_cos(s, lines, profiles, g, w, o);
    }
    if unset(s, "video_tos"@) && unset(s, "videotos"@) && unset(s, "video_dscp"@) && unset(s, "videodscp"@) {
        lemma_without_video_tos_or_video_dscp(s, lines, profiles, g, w, o);
    }
    if unset(s, "video_cos"@) && unset(s, "videocos"@) {
        lemma_without_video_cos(s, lines, profiles, g, w, o);
    }
}

proof fn lemma_without_allow_overlap(s: section::RawSectionView, lines: Seq<policy::LineConfigView>, profiles: Seq<policy::SoftKeyProfileView>, g: policy::GeneralConfigView, w: rules::LayerRulesView, o: option::OptionsView)
    requires
        is_accepted(s, lines, profiles, g, w, o),
        unset(s, "allow_overlap"@),
        unset(s, "allowoverlap"@),
        said(o, lines, profiles, g, w).allow_overlap == network::over(value::flag_at(o, Setting::AllowOverlap), g.allow_overlap),
    ensures
        ({
            let d = said(o, lines, profiles, g, w);
            d.allow_overlap == g.allow_overlap
        }),
{
    assert forall|i: int| 0 <= i < s.values.len() implies meaning_of(
        text::lower((#[trigger] s.values[i]).key),
    ) != Some(Setting::AllowOverlap) by {
        lemma_back(text::lower(s.values[i].key));
    }
    lemma_absent(s, lines, profiles, g, w, o, Setting::AllowOverlap);
    reveal(is_absent);
}

proof fn lemma_without_audio_encryption(s: section::RawSectionView, lines: Seq<policy::LineConfigView>, profiles: Seq<policy::SoftKeyProfileView>, g: policy::GeneralConfigView, w: rules::LayerRulesView, o: option::OptionsView)
    requires
        is_accepted(s, lines, profiles, g, w, o),
        unset(s, "audio_encryption"@),
        unset(s, "audioencryption"@),
        said(o, lines, profiles, g, w).media.audio_encryption == network::over(value::encryption_at(o, Setting::AudioEncryption), g.audio_encryption),
    ensures
        ({
            let d = said(o, lines, profiles, g, w);
            d.media.audio_encryption == g.audio_encryption
        }),
{
    assert forall|i: int| 0 <= i < s.values.len() implies meaning_of(
        text::lower((#[trigger] s.values[i]).key),
    ) != Some(Setting::AudioEncryption) by {
        lemma_back(text::lower(s.values[i].key));
    }
    lemma_absent(s, lines, profiles, g, w, o, Setting::AudioEncryption);
    reveal(is_absent);
}

proof fn lemma_without_force_dtmf_mode(s: section::RawSectionView, lines: Seq<policy::LineConfigView>, profiles: Seq<policy::SoftKeyProfileView>, g: policy::GeneralConfigView, w: rules::LayerRulesView, o: option::OptionsView)
    requires
        is_accepted(s, lines, profiles, g, w, o),
        unset(s, "force_dtmf_mode"@),
        unset(s, "force_dtmfmode"@),
        unset(s, "forcedtmfmode"@),
        said(o, lines, profiles, g, w).media.dtmf_mode == network::over(value::dtmf_at(o, Setting::ForceDtmfMode), DtmfMode::Auto),
    ensures
        ({
            let d = said(o, lines, profiles, g, w);
            d.media.dtmf_mode is Auto
        }),
{
    assert forall|i: int| 0 <= i < s.values.len() implies meaning_of(
        text::lower((#[trigger] s.values[i]).key),
    ) != Some(Setting::ForceDtmfMode) by {
        lemma_back(text::lower(s.values[i].key));
    }
    lemma_absent(s, lines, profiles, g, w, o, Setting::ForceDtmfMode);
    reveal(is_absent);
}

proof fn lemma_without_direct_media(s: section::RawSectionView, lines: Seq<policy::LineConfigView>, profiles: Seq<policy::SoftKeyProfileView>, g: policy::GeneralConfigView, w: rules::LayerRulesView, o: option::OptionsView)
    requires
        is_accepted(s, lines, profiles, g, w, o),
        unset(s, "direct_media"@),
        unset(s, "directrtp"@),
        said(o, lines, profiles, g, w).media.direct_media == network::over(value::flag_at(o, Setting::DirectMedia), g.direct_media),
    ensures
        ({
            let d = said(o, lines, profiles, g, w);
            d.media.direct_media == g.direct_media
        }),
{
    assert forall|i: int| 0 <= i < s.values.len() implies meaning_of(
        text::lower((#[trigger] s.values[i]).key),
    ) != Some(Setting::DirectMedia) by {
        lemma_back(text::lower(s.values[i].key));
    }
    lemma_absent(s, lines, profiles, g, w, o, Setting::DirectMedia);
    reveal(is_absent);
}

proof fn lemma_without_early_media(s: section::RawSectionView, lines: Seq<policy::LineConfigView>, profiles: Seq<policy::SoftKeyProfileView>, g: policy::GeneralConfigView, w: rules::LayerRulesView, o: option::OptionsView)
    requires
        is_accepted(s, lines, profiles, g, w, o),
        unset(s, "early_media"@),
        unset(s, "earlyrtp"@),
        said(o, lines, profiles, g, w).media.early_media == network::over(value::early_at(o, Setting::EarlyMedia), g.early_media),
    ensures
        ({
            let d = said(o, lines, profiles, g, w);
            d.media.early_media == g.early_media
        }),
{
    assert forall|i: int| 0 <= i < s.values.len() implies meaning_of(
        text::lower((#[trigger] s.values[i]).key),
    ) != Some(Setting::EarlyMedia) by {
        lemma_back(text::lower(s.values[i].key));
    }
    lemma_absent(s, lines, profiles, g, w, o, Setting::EarlyMedia);
    reveal(is_absent);
}

proof fn lemma_without_nat(s: section::RawSectionView, lines: Seq<policy::LineConfigView>, profiles: Seq<policy::SoftKeyProfileView>, g: policy::GeneralConfigView, w: rules::LayerRulesView, o: option::OptionsView)
    requires
        is_accepted(s, lines, profiles, g, w, o),
        unset(s, "nat"@),
        said(o, lines, profiles, g, w).network.nat == network::over(value::nat_at(o, Setting::Nat), g.network.nat),
    ensures
        ({
            let d = said(o, lines, profiles, g, w);
            d.network.nat == g.network.nat
        }),
{
    assert forall|i: int| 0 <= i < s.values.len() implies meaning_of(
        text::lower((#[trigger] s.values[i]).key),
    ) != Some(Setting::Nat) by {
        lemma_back(text::lower(s.values[i].key));
    }
    lemma_absent(s, lines, profiles, g, w, o, Setting::Nat);
    reveal(is_absent);
}

proof fn lemma_without_transport(s: section::RawSectionView, lines: Seq<policy::LineConfigView>, profiles: Seq<policy::SoftKeyProfileView>, g: policy::GeneralConfigView, w: rules::LayerRulesView, o: option::OptionsView)
    requires
        is_accepted(s, lines, profiles, g, w, o),
        unset(s, "transport"@),
        unset(s, "transport_requirement"@),
        unset(s, "transportrequirement"@),
        said(o, lines, profiles, g, w).network.transport == device::transport_of(o),
    ensures
        ({
            let d = said(o, lines, profiles, g, w);
            d.network.transport is Either
        }),
{
    assert forall|i: int| 0 <= i < s.values.len() implies meaning_of(
        text::lower((#[trigger] s.values[i]).key),
    ) != Some(Setting::Transport) by {
        lemma_back(text::lower(s.values[i].key));
    }
    lemma_absent(s, lines, profiles, g, w, o, Setting::Transport);
    reveal(is_absent);
}

proof fn lemma_without_signaling_tos_or_signaling_dscp(s: section::RawSectionView, lines: Seq<policy::LineConfigView>, profiles: Seq<policy::SoftKeyProfileView>, g: policy::GeneralConfigView, w: rules::LayerRulesView, o: option::OptionsView)
    requires
        is_accepted(s, lines, profiles, g, w, o),
        unset(s, "sccp_tos"@),
        unset(s, "signalingtos"@),
        unset(s, "sccp_dscp"@),
        unset(s, "sccpdscp"@),
        unset(s, "signaling_dscp"@),
        unset(s, "signalingdscp"@),
        said(o, lines, profiles, g, w).network.qos.signaling.dscp == network::over(general::either(value::tos_at(o, Setting::SignalingTos), value::dscp_at(o, Setting::SignalingDscp)), g.qos.signaling.dscp),
    ensures
        ({
            let d = said(o, lines, profiles, g, w);
            d.network.qos.signaling.dscp == g.qos.signaling.dscp
        }),
{
    assert forall|i: int| 0 <= i < s.values.len() implies meaning_of(
        text::lower((#[trigger] s.values[i]).key),
    ) != Some(Setting::SignalingTos) by {
        lemma_back(text::lower(s.values[i].key));
    }
    lemma_absent(s, lines, profiles, g, w, o, Setting::SignalingTos);
    assert forall|i: int| 0 <= i < s.values.len() implies meaning_of(
        text::lower((#[trigger] s.values[i]).key),
    ) != Some(Setting::SignalingDscp) by {
        lemma_back(text::lower(s.values[i].key));
    }
    lemma_absent(s, lines, profiles, g, w, o, Setting::SignalingDscp);
    reveal(is_absent);
}

proof fn lemma_without_signaling_cos(s: section::RawSectionView, lines: Seq<policy::LineConfigView>, profiles: Seq<policy::SoftKeyProfileView>, g: policy::GeneralConfigView, w: rules::LayerRulesView, o: option::OptionsView)
    requires
        is_accepted(s, lines, profiles, g, w, o),
        unset(s, "sccp_cos"@),
        unset(s, "signaling_cos"@),
        unset(s, "signalingcos"@),
        said(o, lines, profiles, g, w).network.qos.signaling.cos == network::over(value::cos_at(o, Setting::SignalingCos), g.qos.signaling.cos),
    ensures
        ({
            let d = said(o, lines, profiles, g, w);
            d.network.qos.signaling.cos == g.qos.signaling.cos
        }),
{
    assert forall|i: int| 0 <= i < s.values.len() implies meaning_of(
        text::lower((#[trigger] s.values[i]).key),
    ) != Some(Setting::SignalingCos) by {
        lemma_back(text::lower(s.values[i].key));
    }
    lemma_absent(s, lines, profiles, g, w, o, Setting::SignalingCos);
    reveal(is_absent);
}

proof fn lemma_without_audio_tos_or_audio_dscp(s: section::RawSectionView, lines: Seq<policy::LineConfigView>, profiles: Seq<policy::SoftKeyProfileView>, g: policy::GeneralConfigView, w: rules::LayerRulesView, o: option::OptionsView)
    requires
        is_accepted(s, lines, profiles, g, w, o),
        unset(s, "audio_tos"@),
        unset(s, "audiotos"@),
        unset(s, "audio_dscp"@),
        unset(s, "audiodscp"@),
        said(o, lines, profiles, g, w).network.qos.audio.dscp == network::over(general::either(value::tos_at(o, Setting::AudioTos), value::dscp_at(o, Setting::AudioDscp)), g.qos.audio.dscp),
    ensures
        ({
            let d = said(o, lines, profiles, g, w);
            d.network.qos.audio.dscp == g.qos.audio.dscp
        }),
{
    assert forall|i: int| 0 <= i < s.values.len() implies meaning_of(
        text::lower((#[trigger] s.values[i]).key),
    ) != Some(Setting::AudioTos) by {
        lemma_back(text::lower(s.values[i].key));
    }
    lemma_absent(s, lines, profiles, g, w, o, Setting::AudioTos);
    assert forall|i: int| 0 <= i < s.values.len() implies meaning_of(
        text::lower((#[trigger] s.values[i]).key),
    ) != Some(Setting::AudioDscp) by {
        lemma_back(text::lower(s.values[i].key));
    }
    lemma_absent(s, lines, profiles, g, w, o, Setting::AudioDscp);
    reveal(is_absent);
}

proof fn lemma_without_audio_cos(s: section::RawSectionView, lines: Seq<policy::LineConfigView>, profiles: Seq<policy::SoftKeyProfileView>, g: policy::GeneralConfigView, w: rules::LayerRulesView, o: option::OptionsView)
    requires
        is_accepted(s, lines, profiles, g, w, o),
        unset(s, "audio_cos"@),
        unset(s, "audiocos"@),
        said(o, lines, profiles, g, w).network.qos.audio.cos == network::over(value::cos_at(o, Setting::AudioCos), g.qos.audio.cos),
    ensures
        ({
            let d = said(o, lines, profiles, g, w);
            d.network.qos.audio.cos == g.qos.audio.cos
        }),
{
    assert forall|i: int| 0 <= i < s.values.len() implies meaning_of(
        text::lower((#[trigger] s.values[i]).key),
    ) != Some(Setting::AudioCos) by {
        lemma_back(text::lower(s.values[i].key));
    }
    lemma_absent(s, lines, profiles, g, w, o, Setting::AudioCos);
    reveal(is_absent);
}

proof fn lemma_without_video_tos_or_video_dscp(s: section::RawSectionView, lines: Seq<policy::LineConfigView>, profiles: Seq<policy::SoftKeyProfileView>, g: policy::GeneralConfigView, w: rules::LayerRulesView, o: option::OptionsView)
    requires
        is_accepted(s, lines, profiles, g, w, o),
        unset(s, "video_tos"@),
        unset(s, "videotos"@),
        unset(s, "video_dscp"@),
        unset(s, "videodscp"@),
        said(o, lines, profiles, g, w).network.qos.video.dscp == network::over(general::either(value::tos_at(o, Setting::VideoTos), value::dscp_at(o, Setting::VideoDscp)), g.qos.video.dscp),
    ensures
        ({
            let d = said(o, lines, profiles, g, w);
            d.network.qos.video.dscp == g.qos.video.dscp
        }),
{
    assert forall|i: int| 0 <= i < s.values.len() implies meaning_of(
        text::lower((#[trigger] s.values[i]).key),
    ) != Some(Setting::VideoTos) by {
        lemma_back(text::lower(s.values[i].key));
    }
    lemma_absent(s, lines, profiles, g, w, o, Setting::VideoTos);
    assert forall|i: int| 0 <= i < s.values.len() implies meaning_of(
        text::lower((#[trigger] s.values[i]).key),
    ) != Some(Setting::VideoDscp) by {
        lemma_back(text::lower(s.values[i].key));
    }
    lemma_absent(s, lines, profiles, g, w, o, Setting::VideoDscp);
    reveal(is_absent);
}

proof fn lemma_without_video_cos(s: section::RawSectionView, lines: Seq<policy::LineConfigView>, profiles: Seq<policy::SoftKeyProfileView>, g: policy::GeneralConfigView, w: rules::LayerRulesView, o: option::OptionsView)
    requires
        is_accepted(s, lines, profiles, g, w, o),
        unset(s, "video_cos"@),
        unset(s, "videocos"@),
        said(o, lines, profiles, g, w).network.qos.video.cos == network::over(value::cos_at(o, Setting::VideoCos), g.qos.video.cos),
    ensures
        ({
            let d = said(o, lines, profiles, g, w);
            d.network.qos.video.cos == g.qos.video.cos
        }),
{
    assert forall|i: int| 0 <= i < s.values.len() implies meaning_of(
        text::lower((#[trigger] s.values[i]).key),
    ) != Some(Setting::VideoCos) by {
        lemma_back(text::lower(s.values[i].key));
    }
    lemma_absent(s, lines, profiles, g, w, o, Setting::VideoCos);
    reveal(is_absent);
}

/// A device goes by the name of its section, and is described by `description`
/// or by that name.
pub proof fn law_devices_say_who_they_are(
    s: section::RawSectionView,
    lines: Seq<policy::LineConfigView>,
    profiles: Seq<policy::SoftKeyProfileView>,
    g: policy::GeneralConfigView,
    w: rules::LayerRulesView,
)
    requires
        device::device_setting(s, lines, profiles, g, w) is Ok,
    ensures
        ({
            let d = device::device_setting(s, lines, profiles, g, w)->Ok_0;
            &&& d.id.name == s.name
            &&& unset(s, "description"@) ==> d.description == s.name
            &&& forall|i: int|
                0 <= i < s.values.len() && text::lower((#[trigger] s.values[i]).key)
                    == "description"@ ==> d.description == s.values[i].value
        }),
{
    let o = lemma_accepted(s, lines, profiles, g, w);
    lemma_who(s, lines, profiles, g, w, o);
}

proof fn lemma_who(
    s: section::RawSectionView,
    lines: Seq<policy::LineConfigView>,
    profiles: Seq<policy::SoftKeyProfileView>,
    g: policy::GeneralConfigView,
    w: rules::LayerRulesView,
    o: option::OptionsView,
)
    requires
        is_accepted(s, lines, profiles, g, w, o),
        forall|i: int|
            0 <= i < s.values.len() ==> meaning_of(text::lower((#[trigger] s.values[i]).key))
                == Some(o.settings[i]),
    ensures
        ({
            let d = said(o, lines, profiles, g, w);
            &&& d.id.name == s.name
            &&& unset(s, "description"@) ==> d.description == s.name
            &&& forall|i: int|
                0 <= i < s.values.len() && text::lower((#[trigger] s.values[i]).key)
                    == "description"@ ==> d.description == s.values[i].value
        }),
{
    lemma_names_said(s, lines, profiles, g, w, o);
    reveal_strlit("description");
    assert(text::lower("description"@) =~= "description"@);
    if unset(s, "description"@) {
        effect::lemma_no_value_of(s, "description"@);
    }
    let d = said(o, lines, profiles, g, w);
    assert forall|i: int|
        0 <= i < s.values.len() && text::lower((#[trigger] s.values[i]).key)
            == "description"@ implies d.description == s.values[i].value by {
        lemma_forth(text::lower(s.values[i].key));
        lemma_only(s, lines, profiles, g, w, o, i);
        effect::lemma_value_of(s, "description"@, i);
    }
}

proof fn lemma_names_said(
    s: section::RawSectionView,
    lines: Seq<policy::LineConfigView>,
    profiles: Seq<policy::SoftKeyProfileView>,
    g: policy::GeneralConfigView,
    w: rules::LayerRulesView,
    o: option::OptionsView,
)
    requires
        is_accepted(s, lines, profiles, g, w, o),
    ensures
        said(o, lines, profiles, g, w).id.name == s.name,
        said(o, lines, profiles, g, w).description == network::over(
            section::value_of(s, "description"@),
            s.name,
        ),
{
    reveal(is_accepted);
    reveal(said);
}

/// No other setting has the name of one that does not repeat.
proof fn lemma_only(
    s: section::RawSectionView,
    lines: Seq<policy::LineConfigView>,
    profiles: Seq<policy::SoftKeyProfileView>,
    g: policy::GeneralConfigView,
    w: rules::LayerRulesView,
    o: option::OptionsView,
    i: int,
)
    requires
        is_accepted(s, lines, profiles, g, w, o),
        0 <= i < s.values.len(),
        o.settings[i] == Setting::Description,
    ensures
        forall|j: int|
            0 <= j < s.values.len() && j != i ==> text::lower((#[trigger] s.values[j]).key)
                != text::lower(s.values[i].key),
{
    reveal(is_accepted);
    effect::lemma_decoded(Scope::Device, s);
    assert forall|j: int| 0 <= j < s.values.len() && j != i implies text::lower(
        (#[trigger] s.values[j]).key,
    ) != text::lower(s.values[i].key) by {
        if text::lower(s.values[j].key) == text::lower(s.values[i].key) {
            assert(o.settings[j] == o.settings[i]);
            lemma_none_refused(o, lines, profiles, w, i, 0);
            lemma_none_refused(o, lines, profiles, w, j, 0);
            assert(value::excludes(o.settings[j], o.settings[i]));
            if j < i {
                assert(value::is_excluded(o.settings, i));
            } else {
                assert(value::is_excluded(o.settings, j));
            }
        }
    }
}

} // verus!
