//! The canonical names of options are spellings of theirs.

use vstd::prelude::*;

use crate::config::option;
use crate::text;

verus! {

/// What tells the spellings of the general section apart.
pub(crate) proof fn lemma_general_spellings()
    ensures
        "dateformat"@.len() == 10 && "dateformat"@[0] == 'd' && "dateformat"@[2] == 't',
        "tzoffset"@.len() == 8 && "tzoffset"@[0] == 't' && "tzoffset"@[5] == 's',
        "bind"@.len() == 4 && "bind"@[0] == 'b',
        "clearbind"@.len() == 9 && "clearbind"@[0] == 'c' && "clearbind"@[6] == 'i',
        "bind_address"@.len() == 12 && "bind_address"@[0] == 'b' && "bind_address"@[9] == 'e',
        "bindaddr"@.len() == 8 && "bindaddr"@[0] == 'b' && "bindaddr"@[5] == 'd',
        "clearbindaddr"@.len() == 13 && "clearbindaddr"@[10] == 'd',
        "clearport"@.len() == 9 && "clearport"@[0] == 'c' && "clearport"@[6] == 'o',
        "port"@.len() == 4 && "port"@[0] == 'p',
        "advertised_address"@.len() == 18 && "advertised_address"@[2] == 'v',
        "advertised_ipv4"@.len() == 15 && "advertised_ipv4"@[4] == 'r' && "advertised_ipv4"@[14] == '4',
        "advertisedaddressipv4"@.len() == 21 && "advertisedaddressipv4"@[20] == '4',
        "advertised_ipv6"@.len() == 15 && "advertised_ipv6"@[4] == 'r' && "advertised_ipv6"@[14] == '6',
        "advertisedaddressipv6"@.len() == 21 && "advertisedaddressipv6"@[20] == '6',
        "securebind"@.len() == 10 && "securebind"@[0] == 's' && "securebind"@[2] == 'c',
        "tls_bind"@.len() == 8 && "tls_bind"@[0] == 't' && "tls_bind"@[5] == 'i',
        "secbindaddr"@.len() == 11 && "secbindaddr"@[0] == 's' && "secbindaddr"@[2] == 'c',
        "tls_bind_address"@.len() == 16 && "tls_bind_address"@[4] == 'b',
        "tlsbindaddr"@.len() == 11 && "tlsbindaddr"@[0] == 't' && "tlsbindaddr"@[2] == 's',
        "secport"@.len() == 7 && "secport"@[0] == 's',
        "tls_port"@.len() == 8 && "tls_port"@[0] == 't' && "tls_port"@[5] == 'o',
        "tlsport"@.len() == 7 && "tlsport"@[0] == 't',
        "certfile"@.len() == 8 && "certfile"@[0] == 'c' && "certfile"@[5] == 'i',
        "tls_combined_pem"@.len() == 16 && "tls_combined_pem"@[4] == 'c',
        "tlscombinedpem"@.len() == 14 && "tlscombinedpem"@[7] == 'i',
        "tls_certificate"@.len() == 15 && "tls_certificate"@[4] == 'c' && "tls_certificate"@[14] == 'e',
        "tlscertificatefile"@.len() == 18 && "tlscertificatefile"@[2] == 's',
        "tls_private_key"@.len() == 15 && "tls_private_key"@[4] == 'p' && "tls_private_key"@[14] == 'y',
        "tlsprivatekeyfile"@.len() == 17 && "tlsprivatekeyfile"@[5] == 'i',
        "tls_trust_store"@.len() == 15 && "tls_trust_store"@[4] == 't' && "tls_trust_store"@[14] == 'e',
        "tlscafile"@.len() == 9 && "tlscafile"@[0] == 't' && "tlscafile"@[6] == 'i',
        "deny"@.len() == 4 && "deny"@[0] == 'd',
        "permit"@.len() == 6 && "permit"@[2] == 'r',
        "localnet"@.len() == 8 && "localnet"@[0] == 'l' && "localnet"@[5] == 'n',
        "externaladdress"@.len() == 15 && "externaladdress"@[4] == 'r' && "externaladdress"@[14] == 's',
        "externip"@.len() == 8 && "externip"@[0] == 'e' && "externip"@[5] == 'n',
        "externalhost"@.len() == 12 && "externalhost"@[0] == 'e' && "externalhost"@[9] == 'o',
        "externhost"@.len() == 10 && "externhost"@[0] == 'e' && "externhost"@[2] == 't',
        "externalrefresh"@.len() == 15 && "externalrefresh"@[4] == 'r' && "externalrefresh"@[14] == 'h',
        "externrefresh"@.len() == 13 && "externrefresh"@[10] == 'e',
        "nat"@.len() == 3,
        "sccp_tos"@.len() == 8 && "sccp_tos"@[0] == 's' && "sccp_tos"@[5] == 't',
        "signalingtos"@.len() == 12 && "signalingtos"@[0] == 's' && "signalingtos"@[9] == 't',
        "sccp_dscp"@.len() == 9 && "sccp_dscp"@[0] == 's' && "sccp_dscp"@[6] == 's',
        "sccpdscp"@.len() == 8 && "sccpdscp"@[0] == 's' && "sccpdscp"@[5] == 's',
        "signaling_dscp"@.len() == 14 && "signaling_dscp"@[7] == 'n',
        "signalingdscp"@.len() == 13 && "signalingdscp"@[10] == 's',
        "sccp_cos"@.len() == 8 && "sccp_cos"@[0] == 's' && "sccp_cos"@[5] == 'c',
        "signaling_cos"@.len() == 13 && "signaling_cos"@[10] == 'c',
        "signalingcos"@.len() == 12 && "signalingcos"@[0] == 's' && "signalingcos"@[9] == 'c',
        "audio_tos"@.len() == 9 && "audio_tos"@[0] == 'a' && "audio_tos"@[6] == 't',
        "audiotos"@.len() == 8 && "audiotos"@[0] == 'a' && "audiotos"@[5] == 't',
        "audio_dscp"@.len() == 10 && "audio_dscp"@[0] == 'a' && "audio_dscp"@[2] == 'd',
        "audiodscp"@.len() == 9 && "audiodscp"@[0] == 'a' && "audiodscp"@[6] == 's',
        "audio_cos"@.len() == 9 && "audio_cos"@[0] == 'a' && "audio_cos"@[6] == 'c',
        "audiocos"@.len() == 8 && "audiocos"@[0] == 'a' && "audiocos"@[5] == 'c',
        "video_tos"@.len() == 9 && "video_tos"@[0] == 'v' && "video_tos"@[6] == 't',
        "videotos"@.len() == 8 && "videotos"@[0] == 'v' && "videotos"@[5] == 't',
        "video_dscp"@.len() == 10 && "video_dscp"@[0] == 'v' && "video_dscp"@[2] == 'd',
        "videodscp"@.len() == 9 && "videodscp"@[0] == 'v' && "videodscp"@[6] == 's',
        "video_cos"@.len() == 9 && "video_cos"@[0] == 'v' && "video_cos"@[6] == 'c',
        "videocos"@.len() == 8 && "videocos"@[0] == 'v' && "videocos"@[5] == 'c',
        "trust_phone_ip"@.len() == 14 && "trust_phone_ip"@[7] == 'h',
        "trustphoneip"@.len() == 12 && "trustphoneip"@[0] == 't' && "trustphoneip"@[9] == 'e',
        "server_name"@.len() == 11 && "server_name"@[0] == 's' && "server_name"@[2] == 'r',
        "servername"@.len() == 10 && "servername"@[0] == 's' && "servername"@[2] == 'r',
        "language"@.len() == 8 && "language"@[0] == 'l' && "language"@[5] == 'a',
        "accountcode"@.len() == 11 && "accountcode"@[0] == 'a' && "accountcode"@[2] == 'c',
        "keepalive"@.len() == 9 && "keepalive"@[0] == 'k' && "keepalive"@[6] == 'i',
        "secondary_keepalive"@.len() == 19 && "secondary_keepalive"@[0] == 's',
        "signaling_server"@.len() == 16 && "signaling_server"@[4] == 'a',
        "first_digit_timeout"@.len() == 19 && "first_digit_timeout"@[0] == 'f',
        "firstdigittimeout"@.len() == 17 && "firstdigittimeout"@[5] == 'd',
        "interdigit_timeout_ms"@.len() == 21 && "interdigit_timeout_ms"@[20] == 's',
        "digit_timeout"@.len() == 13 && "digit_timeout"@[10] == 'o',
        "digittimeout"@.len() == 12 && "digittimeout"@[0] == 'd' && "digittimeout"@[9] == 'o',
        "digit_timeout_char"@.len() == 18 && "digit_timeout_char"@[2] == 'g',
        "digittimeoutchar"@.len() == 16 && "digittimeoutchar"@[4] == 't',
        "record_digit_timeout_char"@.len() == 25,
        "recorddigittimeoutchar"@.len() == 22,
        "simulate_enbloc"@.len() == 15 && "simulate_enbloc"@[4] == 'l' && "simulate_enbloc"@[14] == 'c',
        "speed_dial_await_further_digits"@.len() == 31,
        "speeddialawaitfurtherdigits"@.len() == 27,
        "allow_overlap"@.len() == 13 && "allow_overlap"@[10] == 'l',
        "allowoverlap"@.len() == 12 && "allowoverlap"@[0] == 'a' && "allowoverlap"@[9] == 'l',
        "transfer_on_hangup"@.len() == 18 && "transfer_on_hangup"@[2] == 'a',
        "call_answer_order"@.len() == 17 && "call_answer_order"@[5] == 'a',
        "callanswerorder"@.len() == 15 && "callanswerorder"@[4] == 'a' && "callanswerorder"@[14] == 'r',
        "ring_type"@.len() == 9 && "ring_type"@[0] == 'r' && "ring_type"@[6] == 'y',
        "ringtype"@.len() == 8 && "ringtype"@[0] == 'r' && "ringtype"@[5] == 'y',
        "call_waiting_tone"@.len() == 17 && "call_waiting_tone"@[5] == 'w',
        "callwaitingtone"@.len() == 15 && "callwaitingtone"@[4] == 'w' && "callwaitingtone"@[14] == 'e',
        "call_waiting_interval"@.len() == 21 && "call_waiting_interval"@[20] == 'l',
        "callwaitinginterval"@.len() == 19 && "callwaitinginterval"@[0] == 'c',
        "fallback"@.len() == 8 && "fallback"@[0] == 'f' && "fallback"@[5] == 'a',
        "backoff_time"@.len() == 12 && "backoff_time"@[0] == 'b' && "backoff_time"@[9] == 'i',
        "server_priority"@.len() == 15 && "server_priority"@[4] == 'e' && "server_priority"@[14] == 'y',
        "allow"@.len() == 5 && "allow"@[0] == 'a',
        "disallow"@.len() == 8 && "disallow"@[0] == 'd' && "disallow"@[5] == 'l',
        "meetme"@.len() == 6 && "meetme"@[2] == 'e',
        "meetmeopts"@.len() == 10 && "meetmeopts"@[0] == 'm' && "meetmeopts"@[2] == 'e',
        "autoanswer_ring_time"@.len() == 20,
        "autoanswerringtime"@.len() == 18 && "autoanswerringtime"@[2] == 't',
        "autoanswer_tone"@.len() == 15 && "autoanswer_tone"@[4] == 'a' && "autoanswer_tone"@[14] == 'e',
        "autoanswertone"@.len() == 14 && "autoanswertone"@[7] == 'w',
        "remote_hangup_tone"@.len() == 18 && "remote_hangup_tone"@[2] == 'm',
        "remotehangup_tone"@.len() == 17 && "remotehangup_tone"@[5] == 'e',
        "hotline_enabled"@.len() == 15 && "hotline_enabled"@[4] == 'i' && "hotline_enabled"@[14] == 'd',
        "hotlineenabled"@.len() == 14 && "hotlineenabled"@[7] == 'e',
        "hotline_extension"@.len() == 17 && "hotline_extension"@[5] == 'n',
        "hotlineextension"@.len() == 16 && "hotlineextension"@[4] == 'i',
        "hotline_context"@.len() == 15 && "hotline_context"@[4] == 'i' && "hotline_context"@[14] == 't',
        "hotlinecontext"@.len() == 14 && "hotlinecontext"@[7] == 'c',
        "hotline_label"@.len() == 13 && "hotline_label"@[10] == 'b',
        "hotlinelabel"@.len() == 12 && "hotlinelabel"@[0] == 'h' && "hotlinelabel"@[9] == 'b',
        "direct_media"@.len() == 12 && "direct_media"@[0] == 'd' && "direct_media"@[9] == 'd',
        "directrtp"@.len() == 9 && "directrtp"@[0] == 'd' && "directrtp"@[6] == 'r',
        "early_media"@.len() == 11 && "early_media"@[0] == 'e' && "early_media"@[2] == 'r',
        "earlyrtp"@.len() == 8 && "earlyrtp"@[0] == 'e' && "earlyrtp"@[5] == 'r',
        "audio_encryption"@.len() == 16 && "audio_encryption"@[4] == 'o',
        "audioencryption"@.len() == 15 && "audioencryption"@[4] == 'o' && "audioencryption"@[14] == 'n',
        "echocancel"@.len() == 10 && "echocancel"@[0] == 'e' && "echocancel"@[2] == 'h',
        "silencesuppression"@.len() == 18 && "silencesuppression"@[2] == 'l',
        "jb_enable"@.len() == 9 && "jb_enable"@[0] == 'j' && "jb_enable"@[6] == 'b',
        "jbenable"@.len() == 8 && "jbenable"@[0] == 'j' && "jbenable"@[5] == 'b',
        "jb_force"@.len() == 8 && "jb_force"@[0] == 'j' && "jb_force"@[5] == 'r',
        "jbforce"@.len() == 7 && "jbforce"@[0] == 'j',
        "jb_log"@.len() == 6 && "jb_log"@[2] == '_',
        "jblog"@.len() == 5 && "jblog"@[0] == 'j',
        "jb_max_size"@.len() == 11 && "jb_max_size"@[0] == 'j' && "jb_max_size"@[2] == '_',
        "jbmaxsize"@.len() == 9 && "jbmaxsize"@[0] == 'j' && "jbmaxsize"@[6] == 'i',
        "jb_resync_threshold"@.len() == 19 && "jb_resync_threshold"@[0] == 'j',
        "jbresyncthreshold"@.len() == 17 && "jbresyncthreshold"@[5] == 'y',
        "jb_implementation"@.len() == 17 && "jb_implementation"@[5] == 'p',
        "jbimpl"@.len() == 6 && "jbimpl"@[2] == 'i',
        "regcontext"@.len() == 10 && "regcontext"@[0] == 'r' && "regcontext"@[2] == 'g',
        "device_table"@.len() == 12 && "device_table"@[0] == 'd' && "device_table"@[9] == 'b',
        "devicetable"@.len() == 11 && "devicetable"@[0] == 'd' && "devicetable"@[2] == 'v',
        "line_table"@.len() == 10 && "line_table"@[0] == 'l' && "line_table"@[2] == 'n',
        "linetable"@.len() == 9 && "linetable"@[0] == 'l' && "linetable"@[6] == 'b',
{
    reveal_strlit("dateformat");
    reveal_strlit("tzoffset");
    reveal_strlit("bind");
    reveal_strlit("clearbind");
    reveal_strlit("bind_address");
    reveal_strlit("bindaddr");
    reveal_strlit("clearbindaddr");
    reveal_strlit("clearport");
    reveal_strlit("port");
    reveal_strlit("advertised_address");
    reveal_strlit("advertised_ipv4");
    reveal_strlit("advertisedaddressipv4");
    reveal_strlit("advertised_ipv6");
    reveal_strlit("advertisedaddressipv6");
    reveal_strlit("securebind");
    reveal_strlit("tls_bind");
    reveal_strlit("secbindaddr");
    reveal_strlit("tls_bind_address");
    reveal_strlit("tlsbindaddr");
    reveal_strlit("secport");
    reveal_strlit("tls_port");
    reveal_strlit("tlsport");
    reveal_strlit("certfile");
    reveal_strlit("tls_combined_pem");
    reveal_strlit("tlscombinedpem");
    reveal_strlit("tls_certificate");
    reveal_strlit("tlscertificatefile");
    reveal_strlit("tls_private_key");
    reveal_strlit("tlsprivatekeyfile");
    reveal_strlit("tls_trust_store");
    reveal_strlit("tlscafile");
    reveal_strlit("deny");
    reveal_strlit("permit");
    reveal_strlit("localnet");
    reveal_strlit("externaladdress");
    reveal_strlit("externip");
    reveal_strlit("externalhost");
    reveal_strlit("externhost");
    reveal_strlit("externalrefresh");
    reveal_strlit("externrefresh");
    reveal_strlit("nat");
    reveal_strlit("sccp_tos");
    reveal_strlit("signalingtos");
    reveal_strlit("sccp_dscp");
    reveal_strlit("sccpdscp");
    reveal_strlit("signaling_dscp");
    reveal_strlit("signalingdscp");
    reveal_strlit("sccp_cos");
    reveal_strlit("signaling_cos");
    reveal_strlit("signalingcos");
    reveal_strlit("audio_tos");
    reveal_strlit("audiotos");
    reveal_strlit("audio_dscp");
    reveal_strlit("audiodscp");
    reveal_strlit("audio_cos");
    reveal_strlit("audiocos");
    reveal_strlit("video_tos");
    reveal_strlit("videotos");
    reveal_strlit("video_dscp");
    reveal_strlit("videodscp");
    reveal_strlit("video_cos");
    reveal_strlit("videocos");
    reveal_strlit("trust_phone_ip");
    reveal_strlit("trustphoneip");
    reveal_strlit("server_name");
    reveal_strlit("servername");
    reveal_strlit("language");
    reveal_strlit("accountcode");
    reveal_strlit("keepalive");
    reveal_strlit("secondary_keepalive");
    reveal_strlit("signaling_server");
    reveal_strlit("first_digit_timeout");
    reveal_strlit("firstdigittimeout");
    reveal_strlit("interdigit_timeout_ms");
    reveal_strlit("digit_timeout");
    reveal_strlit("digittimeout");
    reveal_strlit("digit_timeout_char");
    reveal_strlit("digittimeoutchar");
    reveal_strlit("record_digit_timeout_char");
    reveal_strlit("recorddigittimeoutchar");
    reveal_strlit("simulate_enbloc");
    reveal_strlit("speed_dial_await_further_digits");
    reveal_strlit("speeddialawaitfurtherdigits");
    reveal_strlit("allow_overlap");
    reveal_strlit("allowoverlap");
    reveal_strlit("transfer_on_hangup");
    reveal_strlit("call_answer_order");
    reveal_strlit("callanswerorder");
    reveal_strlit("ring_type");
    reveal_strlit("ringtype");
    reveal_strlit("call_waiting_tone");
    reveal_strlit("callwaitingtone");
    reveal_strlit("call_waiting_interval");
    reveal_strlit("callwaitinginterval");
    reveal_strlit("fallback");
    reveal_strlit("backoff_time");
    reveal_strlit("server_priority");
    reveal_strlit("allow");
    reveal_strlit("disallow");
    reveal_strlit("meetme");
    reveal_strlit("meetmeopts");
    reveal_strlit("autoanswer_ring_time");
    reveal_strlit("autoanswerringtime");
    reveal_strlit("autoanswer_tone");
    reveal_strlit("autoanswertone");
    reveal_strlit("remote_hangup_tone");
    reveal_strlit("remotehangup_tone");
    reveal_strlit("hotline_enabled");
    reveal_strlit("hotlineenabled");
    reveal_strlit("hotline_extension");
    reveal_strlit("hotlineextension");
    reveal_strlit("hotline_context");
    reveal_strlit("hotlinecontext");
    reveal_strlit("hotline_label");
    reveal_strlit("hotlinelabel");
    reveal_strlit("direct_media");
    reveal_strlit("directrtp");
    reveal_strlit("early_media");
    reveal_strlit("earlyrtp");
    reveal_strlit("audio_encryption");
    reveal_strlit("audioencryption");
    reveal_strlit("echocancel");
    reveal_strlit("silencesuppression");
    reveal_strlit("jb_enable");
    reveal_strlit("jbenable");
    reveal_strlit("jb_force");
    reveal_strlit("jbforce");
    reveal_strlit("jb_log");
    reveal_strlit("jblog");
    reveal_strlit("jb_max_size");
    reveal_strlit("jbmaxsize");
    reveal_strlit("jb_resync_threshold");
    reveal_strlit("jbresyncthreshold");
    reveal_strlit("jb_implementation");
    reveal_strlit("jbimpl");
    reveal_strlit("regcontext");
    reveal_strlit("device_table");
    reveal_strlit("devicetable");
    reveal_strlit("line_table");
    reveal_strlit("linetable");
}

/// The canonical name of an option of the general section stands for it.
proof fn lemma_general_name(name: text::Text)
    requires
        option::general_named(name) is Some,
    ensures
        option::general_named(option::canonical_name(option::general_named(name)->0)) == option::general_named(name),
{
    lemma_general_spellings();
}

/// What tells the spellings of a line apart.
pub(crate) proof fn lemma_line_spellings()
    ensures
        "type"@.len() == 4,
        "label"@.len() == 5 && "label"@[0] == 'l',
        "context"@.len() == 7 && "context"@[0] == 'c',
        "callerid"@.len() == 8 && "callerid"@[0] == 'c',
        "incoming_limit"@.len() == 14 && "incoming_limit"@[0] == 'i',
        "incominglimit"@.len() == 13,
        "language"@.len() == 8 && "language"@[0] == 'l',
        "accountcode"@.len() == 11 && "accountcode"@[1] == 'c',
        "setvar"@.len() == 6 && "setvar"@[0] == 's',
        "mailbox"@.len() == 7 && "mailbox"@[0] == 'm',
        "vmnum"@.len() == 5 && "vmnum"@[0] == 'v',
        "voicemail_number"@.len() == 16 && "voicemail_number"@[6] == 'a',
        "voicemailnumber"@.len() == 15 && "voicemailnumber"@[0] == 'v',
        "transfertovoicemail"@.len() == 19,
        "trnsfvm"@.len() == 7 && "trnsfvm"@[0] == 't',
        "voicemail_transfer"@.len() == 18 && "voicemail_transfer"@[0] == 'v',
        "voicemailtransfer"@.len() == 17,
        "call_group"@.len() == 10 && "call_group"@[0] == 'c',
        "callgroup"@.len() == 9 && "callgroup"@[0] == 'c',
        "pickup_group"@.len() == 12 && "pickup_group"@[0] == 'p',
        "pickupgroup"@.len() == 11 && "pickupgroup"@[1] == 'i',
        "named_call_group"@.len() == 16 && "named_call_group"@[6] == 'c',
        "namedcallgroup"@.len() == 14 && "namedcallgroup"@[0] == 'n',
        "named_pickup_group"@.len() == 18 && "named_pickup_group"@[0] == 'n',
        "namedpickupgroup"@.len() == 16 && "namedpickupgroup"@[6] == 'i',
        "directed_pickup"@.len() == 15 && "directed_pickup"@[0] == 'd',
        "directedpickup"@.len() == 14 && "directedpickup"@[0] == 'd',
        "directed_pickup_context"@.len() == 23 && "directed_pickup_context"@[0] == 'd',
        "directedpickupcontext"@.len() == 21 && "directedpickupcontext"@[0] == 'd',
        "directedpickupmodeanswer"@.len() == 24,
        "pickup_mode_answer"@.len() == 18 && "pickup_mode_answer"@[0] == 'p',
        "pickupmodeanswer"@.len() == 16 && "pickupmodeanswer"@[6] == 'm',
        "parkinglot"@.len() == 10 && "parkinglot"@[0] == 'p',
        "meetme"@.len() == 6 && "meetme"@[0] == 'm',
        "meetmenum"@.len() == 9 && "meetmenum"@[0] == 'm',
        "meetmeopts"@.len() == 10 && "meetmeopts"@[0] == 'm',
        "adhoc_number"@.len() == 12 && "adhoc_number"@[0] == 'a',
        "adhocnumber"@.len() == 11 && "adhocnumber"@[1] == 'd',
        "initial_dialtone_tone"@.len() == 21 && "initial_dialtone_tone"@[0] == 'i',
        "secondary_dialtone_digits"@.len() == 25,
        "secondary_dialtone_tone"@.len() == 23 && "secondary_dialtone_tone"@[0] == 's',
        "pin"@.len() == 3,
        "regexten"@.len() == 8 && "regexten"@[0] == 'r',
        "allow"@.len() == 5 && "allow"@[0] == 'a',
        "disallow"@.len() == 8 && "disallow"@[0] == 'd',
        "video_mode"@.len() == 10 && "video_mode"@[0] == 'v',
        "videomode"@.len() == 9 && "videomode"@[0] == 'v',
        "audio_encryption"@.len() == 16 && "audio_encryption"@[6] == 'e',
        "audioencryption"@.len() == 15 && "audioencryption"@[0] == 'a',
        "echocancel"@.len() == 10 && "echocancel"@[0] == 'e',
        "silencesuppression"@.len() == 18 && "silencesuppression"@[0] == 's',
{
    reveal_strlit("type");
    reveal_strlit("label");
    reveal_strlit("context");
    reveal_strlit("callerid");
    reveal_strlit("incoming_limit");
    reveal_strlit("incominglimit");
    reveal_strlit("language");
    reveal_strlit("accountcode");
    reveal_strlit("setvar");
    reveal_strlit("mailbox");
    reveal_strlit("vmnum");
    reveal_strlit("voicemail_number");
    reveal_strlit("voicemailnumber");
    reveal_strlit("transfertovoicemail");
    reveal_strlit("trnsfvm");
    reveal_strlit("voicemail_transfer");
    reveal_strlit("voicemailtransfer");
    reveal_strlit("call_group");
    reveal_strlit("callgroup");
    reveal_strlit("pickup_group");
    reveal_strlit("pickupgroup");
    reveal_strlit("named_call_group");
    reveal_strlit("namedcallgroup");
    reveal_strlit("named_pickup_group");
    reveal_strlit("namedpickupgroup");
    reveal_strlit("directed_pickup");
    reveal_strlit("directedpickup");
    reveal_strlit("directed_pickup_context");
    reveal_strlit("directedpickupcontext");
    reveal_strlit("directedpickupmodeanswer");
    reveal_strlit("pickup_mode_answer");
    reveal_strlit("pickupmodeanswer");
    reveal_strlit("parkinglot");
    reveal_strlit("meetme");
    reveal_strlit("meetmenum");
    reveal_strlit("meetmeopts");
    reveal_strlit("adhoc_number");
    reveal_strlit("adhocnumber");
    reveal_strlit("initial_dialtone_tone");
    reveal_strlit("secondary_dialtone_digits");
    reveal_strlit("secondary_dialtone_tone");
    reveal_strlit("pin");
    reveal_strlit("regexten");
    reveal_strlit("allow");
    reveal_strlit("disallow");
    reveal_strlit("video_mode");
    reveal_strlit("videomode");
    reveal_strlit("audio_encryption");
    reveal_strlit("audioencryption");
    reveal_strlit("echocancel");
    reveal_strlit("silencesuppression");
}

/// The canonical name of an option of a line stands for it.
proof fn lemma_line_name(name: text::Text)
    requires
        option::line_named(name) is Some,
    ensures
        option::line_named(option::canonical_name(option::line_named(name)->0)) == option::line_named(name),
{
    lemma_line_spellings();
}

/// What tells the spellings of a device apart.
pub(crate) proof fn lemma_device_spellings()
    ensures
        "type"@.len() == 4 && "type"@[0] == 't',
        "description"@.len() == 11 && "description"@[4] == 'r',
        "softkey_profile"@.len() == 15 && "softkey_profile"@[2] == 'f',
        "softkeyprofile"@.len() == 14 && "softkeyprofile"@[2] == 'f',
        "cfwdall"@.len() == 7 && "cfwdall"@[5] == 'l',
        "forward_all_enabled"@.len() == 19 && "forward_all_enabled"@[0] == 'f',
        "forwardallenabled"@.len() == 17 && "forwardallenabled"@[7] == 'a',
        "cfwdbusy"@.len() == 8 && "cfwdbusy"@[0] == 'c' && "cfwdbusy"@[5] == 'u',
        "forward_busy_enabled"@.len() == 20 && "forward_busy_enabled"@[4] == 'a',
        "forwardbusyenabled"@.len() == 18 && "forwardbusyenabled"@[5] == 'r',
        "cfwdnoanswer"@.len() == 12 && "cfwdnoanswer"@[9] == 'w',
        "forward_no_answer_enabled"@.len() == 25 && "forward_no_answer_enabled"@[18] == 'e',
        "forwardnoanswerenabled"@.len() == 22 && "forwardnoanswerenabled"@[15] == 'e',
        "cfwdnoanswertimeout"@.len() == 19 && "cfwdnoanswertimeout"@[0] == 'c',
        "forward_no_answer_timeout"@.len() == 25 && "forward_no_answer_timeout"@[18] == 't',
        "forwardnoanswertimeout"@.len() == 22 && "forwardnoanswertimeout"@[15] == 't',
        "forward_all"@.len() == 11 && "forward_all"@[4] == 'a',
        "forward_busy"@.len() == 12 && "forward_busy"@[9] == 'u',
        "forward_no_answer"@.len() == 17 && "forward_no_answer"@[7] == '_',
        "dnd_feature"@.len() == 11 && "dnd_feature"@[4] == 'f',
        "dndfeature"@.len() == 10 && "dndfeature"@[0] == 'd',
        "dnd"@.len() == 3 && "dnd"@[0] == 'd',
        "privacy_feature"@.len() == 15 && "privacy_feature"@[2] == 'i',
        "privacyfeature"@.len() == 14 && "privacyfeature"@[2] == 'i',
        "private"@.len() == 7 && "private"@[5] == 't',
        "privacy"@.len() == 7 && "privacy"@[5] == 'c',
        "feature_default"@.len() == 15 && "feature_default"@[2] == 'a',
        "featuredefault"@.len() == 14 && "featuredefault"@[2] == 'a',
        "setvar"@.len() == 6 && "setvar"@[0] == 's',
        "park"@.len() == 4 && "park"@[0] == 'p',
        "conf_allow"@.len() == 10 && "conf_allow"@[0] == 'c',
        "confallow"@.len() == 9 && "confallow"@[0] == 'c' && "confallow"@[6] == 'l',
        "conference_allow"@.len() == 16 && "conference_allow"@[4] == 'e',
        "conf_music_on_hold_class"@.len() == 24 && "conf_music_on_hold_class"@[4] == '_',
        "conference_music_on_hold_class"@.len() == 30,
        "confmusiconholdclass"@.len() == 20 && "confmusiconholdclass"@[4] == 'm',
        "conf_play_general_announce"@.len() == 26,
        "conference_play_general_announce"@.len() == 32,
        "confplaygeneralannounce"@.len() == 23 && "confplaygeneralannounce"@[4] == 'p',
        "conf_play_part_announce"@.len() == 23 && "conf_play_part_announce"@[4] == '_',
        "conference_play_participant_announce"@.len() == 36,
        "confplaypartannounce"@.len() == 20 && "confplaypartannounce"@[4] == 'p',
        "conf_mute_on_entry"@.len() == 18 && "conf_mute_on_entry"@[5] == 'm',
        "conference_mute_on_entry"@.len() == 24 && "conference_mute_on_entry"@[4] == 'e',
        "confmuteonentry"@.len() == 15 && "confmuteonentry"@[2] == 'n',
        "conf_show_conflist"@.len() == 18 && "conf_show_conflist"@[5] == 's',
        "conference_show_list"@.len() == 20 && "conference_show_list"@[4] == 'e',
        "confshowconflist"@.len() == 16 && "confshowconflist"@[4] == 's',
        "meetme"@.len() == 6 && "meetme"@[0] == 'm',
        "meetmeopts"@.len() == 10 && "meetmeopts"@[0] == 'm',
        "use_redial_menu"@.len() == 15 && "use_redial_menu"@[2] == 'e',
        "useredialmenu"@.len() == 13 && "useredialmenu"@[10] == 'e',
        "allow_ringin_notification"@.len() == 25 && "allow_ringin_notification"@[18] == 'i',
        "allowringinnotification"@.len() == 23 && "allowringinnotification"@[4] == 'w',
        "mwi_lamp"@.len() == 8 && "mwi_lamp"@[0] == 'm' && "mwi_lamp"@[5] == 'a',
        "mwilamp"@.len() == 7 && "mwilamp"@[5] == 'm',
        "mwi_on_call"@.len() == 11 && "mwi_on_call"@[4] == 'o',
        "mwioncall"@.len() == 9 && "mwioncall"@[0] == 'm' && "mwioncall"@[6] == 'a',
        "phone_code_page"@.len() == 15 && "phone_code_page"@[2] == 'o',
        "phonecodepage"@.len() == 13 && "phonecodepage"@[10] == 'a',
        "allow_overlap"@.len() == 13 && "allow_overlap"@[10] == 'l',
        "allowoverlap"@.len() == 12 && "allowoverlap"@[9] == 'l',
        "force_dtmf_mode"@.len() == 15 && "force_dtmf_mode"@[2] == 'r',
        "force_dtmfmode"@.len() == 14 && "force_dtmfmode"@[2] == 'r',
        "forcedtmfmode"@.len() == 13 && "forcedtmfmode"@[10] == 'o',
        "direct_media"@.len() == 12 && "direct_media"@[9] == 'd',
        "directrtp"@.len() == 9 && "directrtp"@[0] == 'd' && "directrtp"@[6] == 'r',
        "early_media"@.len() == 11 && "early_media"@[4] == 'y',
        "earlyrtp"@.len() == 8 && "earlyrtp"@[0] == 'e' && "earlyrtp"@[5] == 'r',
        "audio_encryption"@.len() == 16 && "audio_encryption"@[4] == 'o',
        "audioencryption"@.len() == 15 && "audioencryption"@[2] == 'd',
        "deny"@.len() == 4 && "deny"@[0] == 'd',
        "permit"@.len() == 6 && "permit"@[0] == 'p',
        "permit_host"@.len() == 11 && "permit_host"@[4] == 'i',
        "permithost"@.len() == 10 && "permithost"@[0] == 'p',
        "nat"@.len() == 3 && "nat"@[0] == 'n',
        "transport"@.len() == 9 && "transport"@[0] == 't' && "transport"@[6] == 'o',
        "transport_requirement"@.len() == 21,
        "transportrequirement"@.len() == 20 && "transportrequirement"@[4] == 's',
        "sccp_tos"@.len() == 8 && "sccp_tos"@[0] == 's' && "sccp_tos"@[5] == 't',
        "signalingtos"@.len() == 12 && "signalingtos"@[9] == 't',
        "sccp_dscp"@.len() == 9 && "sccp_dscp"@[0] == 's' && "sccp_dscp"@[6] == 's',
        "sccpdscp"@.len() == 8 && "sccpdscp"@[0] == 's' && "sccpdscp"@[5] == 's',
        "signaling_dscp"@.len() == 14 && "signaling_dscp"@[2] == 'g',
        "signalingdscp"@.len() == 13 && "signalingdscp"@[10] == 's',
        "sccp_cos"@.len() == 8 && "sccp_cos"@[0] == 's' && "sccp_cos"@[5] == 'c',
        "signaling_cos"@.len() == 13 && "signaling_cos"@[10] == 'c',
        "signalingcos"@.len() == 12 && "signalingcos"@[9] == 'c',
        "audio_tos"@.len() == 9 && "audio_tos"@[0] == 'a' && "audio_tos"@[6] == 't',
        "audiotos"@.len() == 8 && "audiotos"@[0] == 'a' && "audiotos"@[5] == 't',
        "audio_dscp"@.len() == 10 && "audio_dscp"@[0] == 'a',
        "audiodscp"@.len() == 9 && "audiodscp"@[0] == 'a' && "audiodscp"@[6] == 's',
        "audio_cos"@.len() == 9 && "audio_cos"@[0] == 'a' && "audio_cos"@[6] == 'c',
        "audiocos"@.len() == 8 && "audiocos"@[0] == 'a' && "audiocos"@[5] == 'c',
        "video_tos"@.len() == 9 && "video_tos"@[0] == 'v' && "video_tos"@[6] == 't',
        "videotos"@.len() == 8 && "videotos"@[0] == 'v' && "videotos"@[5] == 't',
        "video_dscp"@.len() == 10 && "video_dscp"@[0] == 'v',
        "videodscp"@.len() == 9 && "videodscp"@[0] == 'v' && "videodscp"@[6] == 's',
        "video_cos"@.len() == 9 && "video_cos"@[0] == 'v' && "video_cos"@[6] == 'c',
        "videocos"@.len() == 8 && "videocos"@[0] == 'v' && "videocos"@[5] == 'c',
        "trust_phone_ip"@.len() == 14 && "trust_phone_ip"@[2] == 'u',
        "trustphoneip"@.len() == 12 && "trustphoneip"@[9] == 'e',
        "dtmfmode"@.len() == 8 && "dtmfmode"@[0] == 'd' && "dtmfmode"@[5] == 'o',
        "obsolete_dtmf_mode"@.len() == 18 && "obsolete_dtmf_mode"@[5] == 'e',
        "allow"@.len() == 5,
        "disallow"@.len() == 8 && "disallow"@[0] == 'd' && "disallow"@[5] == 'l',
        "line"@.len() == 4 && "line"@[0] == 'l',
        "button"@.len() == 6 && "button"@[0] == 'b',
{
    reveal_strlit("type");
    reveal_strlit("description");
    reveal_strlit("softkey_profile");
    reveal_strlit("softkeyprofile");
    reveal_strlit("cfwdall");
    reveal_strlit("forward_all_enabled");
    reveal_strlit("forwardallenabled");
    reveal_strlit("cfwdbusy");
    reveal_strlit("forward_busy_enabled");
    reveal_strlit("forwardbusyenabled");
    reveal_strlit("cfwdnoanswer");
    reveal_strlit("forward_no_answer_enabled");
    reveal_strlit("forwardnoanswerenabled");
    reveal_strlit("cfwdnoanswertimeout");
    reveal_strlit("forward_no_answer_timeout");
    reveal_strlit("forwardnoanswertimeout");
    reveal_strlit("forward_all");
    reveal_strlit("forward_busy");
    reveal_strlit("forward_no_answer");
    reveal_strlit("dnd_feature");
    reveal_strlit("dndfeature");
    reveal_strlit("dnd");
    reveal_strlit("privacy_feature");
    reveal_strlit("privacyfeature");
    reveal_strlit("private");
    reveal_strlit("privacy");
    reveal_strlit("feature_default");
    reveal_strlit("featuredefault");
    reveal_strlit("setvar");
    reveal_strlit("park");
    reveal_strlit("conf_allow");
    reveal_strlit("confallow");
    reveal_strlit("conference_allow");
    reveal_strlit("conf_music_on_hold_class");
    reveal_strlit("conference_music_on_hold_class");
    reveal_strlit("confmusiconholdclass");
    reveal_strlit("conf_play_general_announce");
    reveal_strlit("conference_play_general_announce");
    reveal_strlit("confplaygeneralannounce");
    reveal_strlit("conf_play_part_announce");
    reveal_strlit("conference_play_participant_announce");
    reveal_strlit("confplaypartannounce");
    reveal_strlit("conf_mute_on_entry");
    reveal_strlit("conference_mute_on_entry");
    reveal_strlit("confmuteonentry");
    reveal_strlit("conf_show_conflist");
    reveal_strlit("conference_show_list");
    reveal_strlit("confshowconflist");
    reveal_strlit("meetme");
    reveal_strlit("meetmeopts");
    reveal_strlit("use_redial_menu");
    reveal_strlit("useredialmenu");
    reveal_strlit("allow_ringin_notification");
    reveal_strlit("allowringinnotification");
    reveal_strlit("mwi_lamp");
    reveal_strlit("mwilamp");
    reveal_strlit("mwi_on_call");
    reveal_strlit("mwioncall");
    reveal_strlit("phone_code_page");
    reveal_strlit("phonecodepage");
    reveal_strlit("allow_overlap");
    reveal_strlit("allowoverlap");
    reveal_strlit("force_dtmf_mode");
    reveal_strlit("force_dtmfmode");
    reveal_strlit("forcedtmfmode");
    reveal_strlit("direct_media");
    reveal_strlit("directrtp");
    reveal_strlit("early_media");
    reveal_strlit("earlyrtp");
    reveal_strlit("audio_encryption");
    reveal_strlit("audioencryption");
    reveal_strlit("deny");
    reveal_strlit("permit");
    reveal_strlit("permit_host");
    reveal_strlit("permithost");
    reveal_strlit("nat");
    reveal_strlit("transport");
    reveal_strlit("transport_requirement");
    reveal_strlit("transportrequirement");
    reveal_strlit("sccp_tos");
    reveal_strlit("signalingtos");
    reveal_strlit("sccp_dscp");
    reveal_strlit("sccpdscp");
    reveal_strlit("signaling_dscp");
    reveal_strlit("signalingdscp");
    reveal_strlit("sccp_cos");
    reveal_strlit("signaling_cos");
    reveal_strlit("signalingcos");
    reveal_strlit("audio_tos");
    reveal_strlit("audiotos");
    reveal_strlit("audio_dscp");
    reveal_strlit("audiodscp");
    reveal_strlit("audio_cos");
    reveal_strlit("audiocos");
    reveal_strlit("video_tos");
    reveal_strlit("videotos");
    reveal_strlit("video_dscp");
    reveal_strlit("videodscp");
    reveal_strlit("video_cos");
    reveal_strlit("videocos");
    reveal_strlit("trust_phone_ip");
    reveal_strlit("trustphoneip");
    reveal_strlit("dtmfmode");
    reveal_strlit("obsolete_dtmf_mode");
    reveal_strlit("allow");
    reveal_strlit("disallow");
    reveal_strlit("line");
    reveal_strlit("button");
}

/// The canonical name of an option of a device stands for it.
proof fn lemma_device_name(name: text::Text)
    requires
        option::device_named(name) is Some,
    ensures
        option::device_named(option::canonical_name(option::device_named(name)->0)) == option::device_named(name),
{
    lemma_device_spellings();
}

/// The general section has no type.
pub(crate) proof fn lemma_general_has_no_type()
    ensures
        option::general_named("type"@) is None,
{
    lemma_general_spellings();
    reveal_strlit("type");
    assert("type"@[0] == 't');
}

/// The canonical name of an option stands for it in the section that has it.
pub proof fn law_canonical_names_stand_for_their_options(scope: option::Scope, name: text::Text)
    requires
        option::named(scope, name) is Some,
    ensures
        option::named(scope, option::canonical_name(option::named(scope, name)->0))
            == option::named(scope, name),
{
    match scope {
        option::Scope::General => lemma_general_name(name),
        option::Scope::Line => lemma_line_name(name),
        option::Scope::Device => lemma_device_name(name),
    }
}

/// Whether the letters of a spelling tell whether it is of codecs or of media
/// encryption.
pub open spec fn is_lettered(name: text::Text, x: option::Setting) -> bool {
    &&& name.len() >= 2
    &&& text::is_alnum(name[0]) && text::is_alnum(name[1]) && text::is_alnum(name.last())
    &&& (x == option::Setting::Allow) == (name[0] == 'a' && name[1] == 'l' && name.last() == 'w')
    &&& (x == option::Setting::Disallow) == (name[0] == 'd' && name[1] == 'i' && name.last()
        == 'w')
    &&& (x == option::Setting::AudioEncryption) == (name[0] == 'a' && name[1] == 'u'
        && name.last() == 'n')
}

/// The letters of the spellings of line options.
proof fn lemma_line_letters(name: text::Text)
    requires
        option::line_named(name) is Some,
    ensures
        is_lettered(name, option::line_named(name)->0),
{
    reveal_strlit("type");
    reveal_strlit("label");
    reveal_strlit("context");
    reveal_strlit("callerid");
    reveal_strlit("incoming_limit");
    reveal_strlit("incominglimit");
    reveal_strlit("language");
    reveal_strlit("accountcode");
    reveal_strlit("setvar");
    reveal_strlit("mailbox");
    reveal_strlit("vmnum");
    reveal_strlit("voicemail_number");
    reveal_strlit("voicemailnumber");
    reveal_strlit("transfertovoicemail");
    reveal_strlit("trnsfvm");
    reveal_strlit("voicemail_transfer");
    reveal_strlit("voicemailtransfer");
    reveal_strlit("call_group");
    reveal_strlit("callgroup");
    reveal_strlit("pickup_group");
    reveal_strlit("pickupgroup");
    reveal_strlit("named_call_group");
    reveal_strlit("namedcallgroup");
    reveal_strlit("named_pickup_group");
    reveal_strlit("namedpickupgroup");
    reveal_strlit("directed_pickup");
    reveal_strlit("directedpickup");
    reveal_strlit("directed_pickup_context");
    reveal_strlit("directedpickupcontext");
    reveal_strlit("directedpickupmodeanswer");
    reveal_strlit("pickup_mode_answer");
    reveal_strlit("pickupmodeanswer");
    reveal_strlit("parkinglot");
    reveal_strlit("meetme");
    reveal_strlit("meetmenum");
    reveal_strlit("meetmeopts");
    reveal_strlit("adhoc_number");
    reveal_strlit("adhocnumber");
    reveal_strlit("initial_dialtone_tone");
    reveal_strlit("secondary_dialtone_digits");
    reveal_strlit("secondary_dialtone_tone");
    reveal_strlit("pin");
    reveal_strlit("regexten");
    reveal_strlit("allow");
    reveal_strlit("disallow");
    reveal_strlit("video_mode");
    reveal_strlit("videomode");
    reveal_strlit("audio_encryption");
    reveal_strlit("audioencryption");
    reveal_strlit("echocancel");
    reveal_strlit("silencesuppression");
}

/// The letters of the spellings of device options.
proof fn lemma_device_letters(name: text::Text)
    requires
        option::device_named(name) is Some,
    ensures
        is_lettered(name, option::device_named(name)->0),
{
    reveal_strlit("type");
    reveal_strlit("description");
    reveal_strlit("softkey_profile");
    reveal_strlit("softkeyprofile");
    reveal_strlit("cfwdall");
    reveal_strlit("forward_all_enabled");
    reveal_strlit("forwardallenabled");
    reveal_strlit("cfwdbusy");
    reveal_strlit("forward_busy_enabled");
    reveal_strlit("forwardbusyenabled");
    reveal_strlit("cfwdnoanswer");
    reveal_strlit("forward_no_answer_enabled");
    reveal_strlit("forwardnoanswerenabled");
    reveal_strlit("cfwdnoanswertimeout");
    reveal_strlit("forward_no_answer_timeout");
    reveal_strlit("forwardnoanswertimeout");
    reveal_strlit("forward_all");
    reveal_strlit("forward_busy");
    reveal_strlit("forward_no_answer");
    reveal_strlit("dnd_feature");
    reveal_strlit("dndfeature");
    reveal_strlit("dnd");
    reveal_strlit("privacy_feature");
    reveal_strlit("privacyfeature");
    reveal_strlit("private");
    reveal_strlit("privacy");
    reveal_strlit("feature_default");
    reveal_strlit("featuredefault");
    reveal_strlit("setvar");
    reveal_strlit("park");
    reveal_strlit("conf_allow");
    reveal_strlit("confallow");
    reveal_strlit("conference_allow");
    reveal_strlit("conf_music_on_hold_class");
    reveal_strlit("conference_music_on_hold_class");
    reveal_strlit("confmusiconholdclass");
    reveal_strlit("conf_play_general_announce");
    reveal_strlit("conference_play_general_announce");
    reveal_strlit("confplaygeneralannounce");
    reveal_strlit("conf_play_part_announce");
    reveal_strlit("conference_play_participant_announce");
    reveal_strlit("confplaypartannounce");
    reveal_strlit("conf_mute_on_entry");
    reveal_strlit("conference_mute_on_entry");
    reveal_strlit("confmuteonentry");
    reveal_strlit("conf_show_conflist");
    reveal_strlit("conference_show_list");
    reveal_strlit("confshowconflist");
    reveal_strlit("meetme");
    reveal_strlit("meetmeopts");
    reveal_strlit("use_redial_menu");
    reveal_strlit("useredialmenu");
    reveal_strlit("allow_ringin_notification");
    reveal_strlit("allowringinnotification");
    reveal_strlit("mwi_lamp");
    reveal_strlit("mwilamp");
    reveal_strlit("mwi_on_call");
    reveal_strlit("mwioncall");
    reveal_strlit("phone_code_page");
    reveal_strlit("phonecodepage");
    reveal_strlit("allow_overlap");
    reveal_strlit("allowoverlap");
    reveal_strlit("force_dtmf_mode");
    reveal_strlit("force_dtmfmode");
    reveal_strlit("forcedtmfmode");
    reveal_strlit("direct_media");
    reveal_strlit("directrtp");
    reveal_strlit("early_media");
    reveal_strlit("earlyrtp");
    reveal_strlit("audio_encryption");
    reveal_strlit("audioencryption");
    reveal_strlit("deny");
    reveal_strlit("permit");
    reveal_strlit("permit_host");
    reveal_strlit("permithost");
    reveal_strlit("nat");
    reveal_strlit("transport");
    reveal_strlit("transport_requirement");
    reveal_strlit("transportrequirement");
    reveal_strlit("sccp_tos");
    reveal_strlit("signalingtos");
    reveal_strlit("sccp_dscp");
    reveal_strlit("sccpdscp");
    reveal_strlit("signaling_dscp");
    reveal_strlit("signalingdscp");
    reveal_strlit("sccp_cos");
    reveal_strlit("signaling_cos");
    reveal_strlit("signalingcos");
    reveal_strlit("audio_tos");
    reveal_strlit("audiotos");
    reveal_strlit("audio_dscp");
    reveal_strlit("audiodscp");
    reveal_strlit("audio_cos");
    reveal_strlit("audiocos");
    reveal_strlit("video_tos");
    reveal_strlit("videotos");
    reveal_strlit("video_dscp");
    reveal_strlit("videodscp");
    reveal_strlit("video_cos");
    reveal_strlit("videocos");
    reveal_strlit("trust_phone_ip");
    reveal_strlit("trustphoneip");
    reveal_strlit("dtmfmode");
    reveal_strlit("obsolete_dtmf_mode");
    reveal_strlit("allow");
    reveal_strlit("disallow");
    reveal_strlit("line");
    reveal_strlit("button");
}

/// The letters of a spelling tell whether it is of codecs or of media
/// encryption.
pub(crate) proof fn lemma_letters(scope: option::Scope, name: text::Text)
    requires
        scope != option::Scope::General,
        option::named(scope, name) is Some,
    ensures
        is_lettered(name, option::named(scope, name)->0),
{
    match scope {
        option::Scope::General => {},
        option::Scope::Line => lemma_line_letters(name),
        option::Scope::Device => lemma_device_letters(name),
    }
}

} // verus!
