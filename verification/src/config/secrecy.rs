//! What is not shown: the values of private options do not reach diagnostics.

use vstd::prelude::*;

use crate::config::option;
use crate::config::option::Scope;
use crate::config::option::Setting;
use crate::config::policy;
use crate::config::restatement;
use crate::config::rules;
use crate::config::section;
use crate::config::value;
use crate::config::variable;
use crate::text;

verus! {

/// Letters with which, and with which alone, sensitive names begin and end.
pub open spec fn are_telling(first: char, second: char, last: char) -> bool {
    ||| first == 's' && second == 'e' && last == 't'
    ||| first == 'p' && second == 'a' && last == 'd'
    ||| first == 'a' && second == 'u' && last == 'n'
    ||| first == 't' && second == 'o' && last == 'n'
    ||| first == 'k' && second == 'e' && last == 'y'
    ||| first == 'a' && second == 'c' && last == 'e'
    ||| first == 'm' && second == 'o' && last == 'n'
    ||| first == 'p' && second == 'i' && last == 'n'
    ||| first == 's' && second == 'e' && last == 'r'
    ||| first == 'f' && second == 'o' && last == 'l'
    ||| first == 'f' && second == 'o' && last == 'y'
    ||| first == 'f' && second == 'o' && last == 'r'
    ||| first == 'h' && second == 'o' && last == 'n'
    ||| first == 'v' && second == 'm' && last == 'm'
    ||| first == 'v' && second == 'o' && last == 'r'
    ||| first == 't' && second == 'r' && last == 'm'
    ||| first == 't' && second == 'r' && last == 'l'
    ||| first == 'c' && second == 'e' && last == 'e'
    ||| first == 't' && second == 'l' && last == 'm'
    ||| first == 't' && second == 'l' && last == 'y'
    ||| first == 't' && second == 'l' && last == 'e'
}

/// Whether a name begins and ends as a sensitive one does.
pub open spec fn looks_sensitive(name: text::Text) -> bool {
    name.len() >= 2 && are_telling(name[0], name[1], name.last())
}

/// Names that begin and end as sensitive ones do without being any.
pub open spec fn is_lookalike(name: text::Text) -> bool {
    ||| name == "secbindaddr"@
    ||| name == "secport"@
    ||| name == "tls_certificate"@
    ||| name == "tlscertificatefile"@
    ||| name == "audio_encryption"@
    ||| name == "audioencryption"@
}

/// Sensitive names look so.
proof fn lemma_sensitive_looks(name: text::Text)
    requires
        option::is_sensitive(name),
    ensures
        looks_sensitive(name),
{
    reveal_strlit("secret");
    reveal_strlit("password");
    reveal_strlit("authorization");
    reveal_strlit("authtoken");
    reveal_strlit("token");
    reveal_strlit("key");
    reveal_strlit("accountcode");
    reveal_strlit("mobilitypin");
    reveal_strlit("pin");
    reveal_strlit("setvar");
    reveal_strlit("forwardall");
    reveal_strlit("forwardbusy");
    reveal_strlit("forwardnoanswer");
    reveal_strlit("hotlineextension");
    reveal_strlit("vmnum");
    reveal_strlit("voicemailnumber");
    reveal_strlit("trnsfvm");
    reveal_strlit("voicemailtransfer");
    reveal_strlit("transfertovoicemail");
    reveal_strlit("certfile");
    reveal_strlit("tlscombinedpem");
    reveal_strlit("tlsprivatekey");
    reveal_strlit("tlsprivatekeyfile");
    reveal_strlit("tlstruststore");
    reveal_strlit("tlscafile");
}

/// The look-alikes are not sensitive.
proof fn lemma_lookalikes(name: text::Text)
    requires
        is_lookalike(name),
    ensures
        !option::is_sensitive(text::name_of(name)),
{
    reveal_strlit("secret");
    reveal_strlit("password");
    reveal_strlit("authorization");
    reveal_strlit("authtoken");
    reveal_strlit("token");
    reveal_strlit("key");
    reveal_strlit("accountcode");
    reveal_strlit("mobilitypin");
    reveal_strlit("pin");
    reveal_strlit("setvar");
    reveal_strlit("forwardall");
    reveal_strlit("forwardbusy");
    reveal_strlit("forwardnoanswer");
    reveal_strlit("hotlineextension");
    reveal_strlit("vmnum");
    reveal_strlit("voicemailnumber");
    reveal_strlit("trnsfvm");
    reveal_strlit("voicemailtransfer");
    reveal_strlit("transfertovoicemail");
    reveal_strlit("certfile");
    reveal_strlit("tlscombinedpem");
    reveal_strlit("tlsprivatekey");
    reveal_strlit("tlsprivatekeyfile");
    reveal_strlit("tlstruststore");
    reveal_strlit("tlscafile");
    reveal_strlit("secbindaddr");
    reveal_strlit("secport");
    reveal_strlit("tls_certificate");
    reveal_strlit("tlscertificatefile");
    reveal_strlit("audio_encryption");
    reveal_strlit("audioencryption");
    assert("secret"@.len() == 6 && "secret"@[0] == 's');
    assert("password"@.len() == 8 && "password"@[0] == 'p');
    assert("authorization"@.len() == 13 && "authorization"@[0] == 'a');
    assert("authtoken"@.len() == 9 && "authtoken"@[0] == 'a');
    assert("token"@.len() == 5 && "token"@[0] == 't');
    assert("key"@.len() == 3 && "key"@[0] == 'k');
    assert("accountcode"@.len() == 11 && "accountcode"@[0] == 'a');
    assert("mobilitypin"@.len() == 11 && "mobilitypin"@[0] == 'm');
    assert("pin"@.len() == 3 && "pin"@[0] == 'p');
    assert("setvar"@.len() == 6 && "setvar"@[0] == 's');
    assert("forwardall"@.len() == 10 && "forwardall"@[0] == 'f');
    assert("forwardbusy"@.len() == 11 && "forwardbusy"@[0] == 'f');
    assert("forwardnoanswer"@.len() == 15 && "forwardnoanswer"@[0] == 'f');
    assert("hotlineextension"@.len() == 16 && "hotlineextension"@[0] == 'h');
    assert("vmnum"@.len() == 5 && "vmnum"@[0] == 'v');
    assert("voicemailnumber"@.len() == 15 && "voicemailnumber"@[0] == 'v');
    assert("trnsfvm"@.len() == 7 && "trnsfvm"@[0] == 't');
    assert("voicemailtransfer"@.len() == 17 && "voicemailtransfer"@[0] == 'v');
    assert("transfertovoicemail"@.len() == 19 && "transfertovoicemail"@[0] == 't');
    assert("certfile"@.len() == 8 && "certfile"@[0] == 'c');
    assert("tlscombinedpem"@.len() == 14 && "tlscombinedpem"@[0] == 't');
    assert("tlsprivatekey"@.len() == 13 && "tlsprivatekey"@[0] == 't');
    assert("tlsprivatekeyfile"@.len() == 17 && "tlsprivatekeyfile"@[0] == 't');
    assert("tlstruststore"@.len() == 13 && "tlstruststore"@[0] == 't');
    assert("tlscafile"@.len() == 9 && "tlscafile"@[0] == 't');
    assert("tlscombinedpem"@[4] == 'o');
    if name == "secbindaddr"@ {
        restatement::lemma_plain_name(name);
    }
    if name == "secport"@ {
        restatement::lemma_plain_name(name);
    }
    if name == "tls_certificate"@ {
        let head = name.take(3);
        let tail = name.skip(4);
        restatement::lemma_plain_name(head);
        restatement::lemma_plain_name(tail);
        restatement::lemma_name_joined(head, '_', tail);
        assert(name =~= head.push('_') + tail);
        assert((head + tail).len() == 14 && (head + tail)[0] == 't' && (head + tail)[4] == 'e');
    }
    if name == "tlscertificatefile"@ {
        restatement::lemma_plain_name(name);
    }
    if name == "audio_encryption"@ {
        let head = name.take(5);
        let tail = name.skip(6);
        restatement::lemma_plain_name(head);
        restatement::lemma_plain_name(tail);
        restatement::lemma_name_joined(head, '_', tail);
        assert(name =~= head.push('_') + tail);
        assert((head + tail).len() == 15 && (head + tail)[0] == 'a' && (head + tail)[4] == 'o');
    }
    if name == "audioencryption"@ {
        restatement::lemma_plain_name(name);
    }
}

/// How the spellings of general options look.
proof fn lemma_general_looks(name: text::Text)
    requires
        option::general_named(name) is Some,
    ensures
        name.len() >= 2,
        text::is_alnum(name[0]) && text::is_alnum(name[1]) && text::is_alnum(name.last()),
        value::is_private(option::general_named(name)->0) || !looks_sensitive(name) || is_lookalike(
            name,
        ),
{
    reveal_strlit("dateformat");
    reveal_strlit("tzoffset");
    reveal_strlit("bind");
    reveal_strlit("clearbind");
    reveal_strlit("bind_address");
    reveal_strlit("bindaddr");
    reveal_strlit("clearbindaddr");
    reveal_strlit("clearport");
    reveal_strlit("port");
    reveal_strlit("advertised_address");
    reveal_strlit("advertised_ipv4");
    reveal_strlit("advertisedaddressipv4");
    reveal_strlit("advertised_ipv6");
    reveal_strlit("advertisedaddressipv6");
    reveal_strlit("securebind");
    reveal_strlit("tls_bind");
    reveal_strlit("secbindaddr");
    reveal_strlit("tls_bind_address");
    reveal_strlit("tlsbindaddr");
    reveal_strlit("secport");
    reveal_strlit("tls_port");
    reveal_strlit("tlsport");
    reveal_strlit("certfile");
    reveal_strlit("tls_combined_pem");
    reveal_strlit("tlscombinedpem");
    reveal_strlit("tls_certificate");
    reveal_strlit("tlscertificatefile");
    reveal_strlit("tls_private_key");
    reveal_strlit("tlsprivatekeyfile");
    reveal_strlit("tls_trust_store");
    reveal_strlit("tlscafile");
    reveal_strlit("deny");
    reveal_strlit("permit");
    reveal_strlit("localnet");
    reveal_strlit("externaladdress");
    reveal_strlit("externip");
    reveal_strlit("externalhost");
    reveal_strlit("externhost");
    reveal_strlit("externalrefresh");
    reveal_strlit("externrefresh");
    reveal_strlit("nat");
    reveal_strlit("sccp_tos");
    reveal_strlit("signalingtos");
    reveal_strlit("sccp_dscp");
    reveal_strlit("sccpdscp");
    reveal_strlit("signaling_dscp");
    reveal_strlit("signalingdscp");
    reveal_strlit("sccp_cos");
    reveal_strlit("signaling_cos");
    reveal_strlit("signalingcos");
    reveal_strlit("audio_tos");
    reveal_strlit("audiotos");
    reveal_strlit("audio_dscp");
    reveal_strlit("audiodscp");
    reveal_strlit("audio_cos");
    reveal_strlit("audiocos");
    reveal_strlit("video_tos");
    reveal_strlit("videotos");
    reveal_strlit("video_dscp");
    reveal_strlit("videodscp");
    reveal_strlit("video_cos");
    reveal_strlit("videocos");
    reveal_strlit("trust_phone_ip");
    reveal_strlit("trustphoneip");
    reveal_strlit("server_name");
    reveal_strlit("servername");
    reveal_strlit("language");
    reveal_strlit("accountcode");
    reveal_strlit("keepalive");
    reveal_strlit("secondary_keepalive");
    reveal_strlit("signaling_server");
    reveal_strlit("first_digit_timeout");
    reveal_strlit("firstdigittimeout");
    reveal_strlit("interdigit_timeout_ms");
    reveal_strlit("digit_timeout");
    reveal_strlit("digittimeout");
    reveal_strlit("digit_timeout_char");
    reveal_strlit("digittimeoutchar");
    reveal_strlit("record_digit_timeout_char");
    reveal_strlit("recorddigittimeoutchar");
    reveal_strlit("simulate_enbloc");
    reveal_strlit("speed_dial_await_further_digits");
    reveal_strlit("speeddialawaitfurtherdigits");
    reveal_strlit("allow_overlap");
    reveal_strlit("allowoverlap");
    reveal_strlit("transfer_on_hangup");
    reveal_strlit("call_answer_order");
    reveal_strlit("callanswerorder");
    reveal_strlit("ring_type");
    reveal_strlit("ringtype");
    reveal_strlit("call_waiting_tone");
    reveal_strlit("callwaitingtone");
    reveal_strlit("call_waiting_interval");
    reveal_strlit("callwaitinginterval");
    reveal_strlit("fallback");
    reveal_strlit("backoff_time");
    reveal_strlit("server_priority");
    reveal_strlit("allow");
    reveal_strlit("disallow");
    reveal_strlit("meetme");
    reveal_strlit("meetmeopts");
    reveal_strlit("autoanswer_ring_time");
    reveal_strlit("autoanswerringtime");
    reveal_strlit("autoanswer_tone");
    reveal_strlit("autoanswertone");
    reveal_strlit("remote_hangup_tone");
    reveal_strlit("remotehangup_tone");
    reveal_strlit("hotline_enabled");
    reveal_strlit("hotlineenabled");
    reveal_strlit("hotline_extension");
    reveal_strlit("hotlineextension");
    reveal_strlit("hotline_context");
    reveal_strlit("hotlinecontext");
    reveal_strlit("hotline_label");
    reveal_strlit("hotlinelabel");
    reveal_strlit("direct_media");
    reveal_strlit("directrtp");
    reveal_strlit("early_media");
    reveal_strlit("earlyrtp");
    reveal_strlit("audio_encryption");
    reveal_strlit("audioencryption");
    reveal_strlit("echocancel");
    reveal_strlit("silencesuppression");
    reveal_strlit("jb_enable");
    reveal_strlit("jbenable");
    reveal_strlit("jb_force");
    reveal_strlit("jbforce");
    reveal_strlit("jb_log");
    reveal_strlit("jblog");
    reveal_strlit("jb_max_size");
    reveal_strlit("jbmaxsize");
    reveal_strlit("jb_resync_threshold");
    reveal_strlit("jbresyncthreshold");
    reveal_strlit("jb_implementation");
    reveal_strlit("jbimpl");
    reveal_strlit("regcontext");
    reveal_strlit("device_table");
    reveal_strlit("devicetable");
    reveal_strlit("line_table");
    reveal_strlit("linetable");
}

/// How the spellings of line options look.
proof fn lemma_line_looks(name: text::Text)
    requires
        option::line_named(name) is Some,
    ensures
        name.len() >= 2,
        text::is_alnum(name[0]) && text::is_alnum(name[1]) && text::is_alnum(name.last()),
        value::is_private(option::line_named(name)->0) || !looks_sensitive(name) || is_lookalike(
            name,
        ),
{
    reveal_strlit("type");
    reveal_strlit("label");
    reveal_strlit("context");
    reveal_strlit("callerid");
    reveal_strlit("incoming_limit");
    reveal_strlit("incominglimit");
    reveal_strlit("language");
    reveal_strlit("accountcode");
    reveal_strlit("setvar");
    reveal_strlit("mailbox");
    reveal_strlit("vmnum");
    reveal_strlit("voicemail_number");
    reveal_strlit("voicemailnumber");
    reveal_strlit("transfertovoicemail");
    reveal_strlit("trnsfvm");
    reveal_strlit("voicemail_transfer");
    reveal_strlit("voicemailtransfer");
    reveal_strlit("call_group");
    reveal_strlit("callgroup");
    reveal_strlit("pickup_group");
    reveal_strlit("pickupgroup");
    reveal_strlit("named_call_group");
    reveal_strlit("namedcallgroup");
    reveal_strlit("named_pickup_group");
    reveal_strlit("namedpickupgroup");
    reveal_strlit("directed_pickup");
    reveal_strlit("directedpickup");
    reveal_strlit("directed_pickup_context");
    reveal_strlit("directedpickupcontext");
    reveal_strlit("directedpickupmodeanswer");
    reveal_strlit("pickup_mode_answer");
    reveal_strlit("pickupmodeanswer");
    reveal_strlit("parkinglot");
    reveal_strlit("meetme");
    reveal_strlit("meetmenum");
    reveal_strlit("meetmeopts");
    reveal_strlit("adhoc_number");
    reveal_strlit("adhocnumber");
    reveal_strlit("initial_dialtone_tone");
    reveal_strlit("secondary_dialtone_digits");
    reveal_strlit("secondary_dialtone_tone");
    reveal_strlit("pin");
    reveal_strlit("regexten");
    reveal_strlit("allow");
    reveal_strlit("disallow");
    reveal_strlit("video_mode");
    reveal_strlit("videomode");
    reveal_strlit("audio_encryption");
    reveal_strlit("audioencryption");
    reveal_strlit("echocancel");
    reveal_strlit("silencesuppression");
}

/// How the spellings of device options look.
proof fn lemma_device_looks(name: text::Text)
    requires
        option::device_named(name) is Some,
    ensures
        name.len() >= 2,
        text::is_alnum(name[0]) && text::is_alnum(name[1]) && text::is_alnum(name.last()),
        value::is_private(option::device_named(name)->0) || !looks_sensitive(name) || is_lookalike(
            name,
        ),
{
    reveal_strlit("type");
    reveal_strlit("description");
    reveal_strlit("softkey_profile");
    reveal_strlit("softkeyprofile");
    reveal_strlit("cfwdall");
    reveal_strlit("forward_all_enabled");
    reveal_strlit("forwardallenabled");
    reveal_strlit("cfwdbusy");
    reveal_strlit("forward_busy_enabled");
    reveal_strlit("forwardbusyenabled");
    reveal_strlit("cfwdnoanswer");
    reveal_strlit("forward_no_answer_enabled");
    reveal_strlit("forwardnoanswerenabled");
    reveal_strlit("cfwdnoanswertimeout");
    reveal_strlit("forward_no_answer_timeout");
    reveal_strlit("forwardnoanswertimeout");
    reveal_strlit("forward_all");
    reveal_strlit("forward_busy");
    reveal_strlit("forward_no_answer");
    reveal_strlit("dnd_feature");
    reveal_strlit("dndfeature");
    reveal_strlit("dnd");
    reveal_strlit("privacy_feature");
    reveal_strlit("privacyfeature");
    reveal_strlit("private");
    reveal_strlit("privacy");
    reveal_strlit("feature_default");
    reveal_strlit("featuredefault");
    reveal_strlit("setvar");
    reveal_strlit("park");
    reveal_strlit("conf_allow");
    reveal_strlit("confallow");
    reveal_strlit("conference_allow");
    reveal_strlit("conf_music_on_hold_class");
    reveal_strlit("conference_music_on_hold_class");
    reveal_strlit("confmusiconholdclass");
    reveal_strlit("conf_play_general_announce");
    reveal_strlit("conference_play_general_announce");
    reveal_strlit("confplaygeneralannounce");
    reveal_strlit("conf_play_part_announce");
    reveal_strlit("conference_play_participant_announce");
    reveal_strlit("confplaypartannounce");
    reveal_strlit("conf_mute_on_entry");
    reveal_strlit("conference_mute_on_entry");
    reveal_strlit("confmuteonentry");
    reveal_strlit("conf_show_conflist");
    reveal_strlit("conference_show_list");
    reveal_strlit("confshowconflist");
    reveal_strlit("meetme");
    reveal_strlit("meetmeopts");
    reveal_strlit("use_redial_menu");
    reveal_strlit("useredialmenu");
    reveal_strlit("allow_ringin_notification");
    reveal_strlit("allowringinnotification");
    reveal_strlit("mwi_lamp");
    reveal_strlit("mwilamp");
    reveal_strlit("mwi_on_call");
    reveal_strlit("mwioncall");
    reveal_strlit("phone_code_page");
    reveal_strlit("phonecodepage");
    reveal_strlit("allow_overlap");
    reveal_strlit("allowoverlap");
    reveal_strlit("force_dtmf_mode");
    reveal_strlit("force_dtmfmode");
    reveal_strlit("forcedtmfmode");
    reveal_strlit("direct_media");
    reveal_strlit("directrtp");
    reveal_strlit("early_media");
    reveal_strlit("earlyrtp");
    reveal_strlit("audio_encryption");
    reveal_strlit("audioencryption");
    reveal_strlit("deny");
    reveal_strlit("permit");
    reveal_strlit("permit_host");
    reveal_strlit("permithost");
    reveal_strlit("nat");
    reveal_strlit("transport");
    reveal_strlit("transport_requirement");
    reveal_strlit("transportrequirement");
    reveal_strlit("sccp_tos");
    reveal_strlit("signalingtos");
    reveal_strlit("sccp_dscp");
    reveal_strlit("sccpdscp");
    reveal_strlit("signaling_dscp");
    reveal_strlit("signalingdscp");
    reveal_strlit("sccp_cos");
    reveal_strlit("signaling_cos");
    reveal_strlit("signalingcos");
    reveal_strlit("audio_tos");
    reveal_strlit("audiotos");
    reveal_strlit("audio_dscp");
    reveal_strlit("audiodscp");
    reveal_strlit("audio_cos");
    reveal_strlit("audiocos");
    reveal_strlit("video_tos");
    reveal_strlit("videotos");
    reveal_strlit("video_dscp");
    reveal_strlit("videodscp");
    reveal_strlit("video_cos");
    reveal_strlit("videocos");
    reveal_strlit("trust_phone_ip");
    reveal_strlit("trustphoneip");
    reveal_strlit("dtmfmode");
    reveal_strlit("obsolete_dtmf_mode");
    reveal_strlit("allow");
    reveal_strlit("disallow");
    reveal_strlit("line");
    reveal_strlit("button");
}

/// A sensitive name is that of a private option, or of none.
pub proof fn law_sensitive_names_are_of_private_options(scope: Scope, key: text::Text)
    requires
        option::sensitive(key),
        option::named(scope, text::lower(key)) is Some,
    ensures
        value::is_private(option::named(scope, text::lower(key))->0),
{
    let name = text::lower(key);
    let reduced = text::name_of(key);
    match scope {
        Scope::General => lemma_general_looks(name),
        Scope::Line => lemma_line_looks(name),
        Scope::Device => lemma_device_looks(name),
    }
    restatement::lemma_name_lower(key);
    restatement::lemma_name_starts(name);
    assert(text::lower(name) =~= name);
    assert(text::lower(name)[0] == text::lower_char(name[0]));
    assert(text::lower(name)[1] == text::lower_char(name[1]));
    assert(text::lower(name)[name.len() - 1] == text::lower_char(name.last()));
    assert(reduced.last() == name.last());
    lemma_sensitive_looks(reduced);
    assert(looks_sensitive(name));
    if is_lookalike(name) {
        lemma_lookalikes(name);
    }
}

/// The refused value of a private option is not shown: two values that are
/// refused in one place are refused by the same diagnostic.
pub proof fn law_refused_private_values_are_not_shown(
    s: Setting,
    key: text::Text,
    a: text::Text,
    b: text::Text,
    w: rules::LayerRulesView,
)
    requires
        value::is_private(s),
        value::value_fault(s, key, a, w) is Some,
        value::value_fault(s, key, b, w) is Some,
    ensures
        value::value_fault(s, key, a, w) == value::value_fault(s, key, b, w),
{
}

/// A refused channel variable is not shown, neither its name nor its value.
pub proof fn law_refused_variables_are_not_shown(
    l: Seq<policy::ChannelVariableView>,
    m: Seq<policy::ChannelVariableView>,
    key: text::Text,
    a: text::Text,
    b: text::Text,
    w: rules::LayerRulesView,
)
    requires
        variable::variables_after(l, key, a, w) is Err,
        variable::variables_after(m, key, b, w) is Err,
    ensures
        variable::variables_after(l, key, a, w) == variable::variables_after(m, key, b, w),
{
}

/// Whether sections are the same but for the values of their settings.
pub open spec fn differ_in_values(a: section::RawSectionView, b: section::RawSectionView) -> bool {
    &&& a.name == b.name
    &&& a.line == b.line
    &&& a.values.len() == b.values.len()
    &&& forall|i: int|
        0 <= i < a.values.len() ==> (#[trigger] a.values[i]) == (section::RawValueView {
            value: a.values[i].value,
            ..b.values[i]
        })
}

/// A key stands in the same place whatever the values.
proof fn lemma_same_place(
    a: Seq<section::RawValueView>,
    b: Seq<section::RawValueView>,
    key: text::Text,
)
    requires
        a.len() == b.len(),
        forall|i: int|
            0 <= i < a.len() ==> (#[trigger] a[i]) == (section::RawValueView {
                value: a[i].value,
                ..b[i]
            }),
    ensures
        match (section::last_entry(a, key), section::last_entry(b, key)) {
            (Some(x), Some(y)) => section::place(x) == section::place(y),
            (None, None) => true,
            _ => false,
        },
    decreases a.len(),
{
    if a.len() > 0 {
        let n = a.len() - 1;
        assert(a[n] == (section::RawValueView { value: a[n].value, ..b[n] }));
        let x = a.drop_last();
        let y = b.drop_last();
        assert forall|i: int| 0 <= i < x.len() implies (#[trigger] x[i]) == (
        section::RawValueView { value: x[i].value, ..y[i] }) by {
            assert(x[i] == a[i] && y[i] == b[i]);
        }
        lemma_same_place(x, y, key);
    }
}

/// The repeated value of an option that is private, or goes by a sensitive
/// name, is not shown.
pub proof fn law_repeated_private_values_are_not_shown(
    o: option::OptionsView,
    p: option::OptionsView,
    i: int,
)
    requires
        o.settings == p.settings,
        differ_in_values(o.section, p.section),
        0 <= i < o.section.values.len(),
        value::is_private(o.settings[i]) || option::sensitive(o.section.values[i].key),
    ensures
        value::repeat_fault(o, i) == value::repeat_fault(p, i),
{
    assert(o.section.values[i] == (section::RawValueView {
        value: o.section.values[i].value,
        ..p.section.values[i]
    }));
    lemma_same_place(o.section.values, p.section.values, o.section.values[i].key);
}

/// The value of a sensitive name that no option has is not shown.
pub proof fn law_unknown_sensitive_values_are_not_shown(
    scope: Scope,
    v: section::RawValueView,
    u: section::RawValueView,
)
    requires
        option::sensitive(v.key),
        v == (section::RawValueView { value: v.value, ..u }),
    ensures
        option::unknown(scope, v) == option::unknown(scope, u),
{
}

} // verus!
