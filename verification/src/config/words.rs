//! The words that settings take: each word means one thing, and no other text
//! is taken.

use vstd::prelude::*;

use crate::config::setting;
use crate::config::value;
use crate::number;
use crate::text;

verus! {

/// A switch is one of its words.
pub proof fn law_bool_words(key: text::Text, raw: text::Text)
    ensures
        ({
            let word = text::lower(text::trimmed(raw));
            match value::value_in(setting::bool_setting(key, raw)) {
                Some(true) => word == "true"@ || word == "yes"@ || word == "on"@ || word == "1"@,
                Some(false) => word == "false"@ || word == "no"@ || word == "off"@ || word == "0"@,
                None => word != "true"@ && word != "yes"@ && word != "on"@ && word != "1"@ && word != "false"@ && word != "no"@ && word != "off"@ && word != "0"@,
            }
        }),
{
    reveal_strlit("0");
    reveal_strlit("1");
    reveal_strlit("false");
    reveal_strlit("no");
    reveal_strlit("off");
    reveal_strlit("on");
    reveal_strlit("true");
    reveal_strlit("yes");
    assert("0"@.len() == 1 && "0"@[0] == '0');
    assert("1"@.len() == 1 && "1"@[0] == '1');
    assert("false"@.len() == 5);
    assert("no"@.len() == 2 && "no"@[0] == 'n');
    assert("off"@.len() == 3 && "off"@[0] == 'o');
    assert("on"@.len() == 2 && "on"@[0] == 'o');
    assert("true"@.len() == 4);
    assert("yes"@.len() == 3 && "yes"@[0] == 'y');
}

/// A NAT mode is one of its words.
pub proof fn law_nat_words(key: text::Text, raw: text::Text)
    ensures
        ({
            let word = text::name_of(raw);
            match value::value_in(setting::nat_setting(key, raw)) {
                Some(x) => {
                    ||| x is Auto && (word == "auto"@)
                    ||| x is Off && (word == "off"@)
                    ||| x is AutoOff && (word == "autooff"@)
                    ||| x is On && (word == "on"@)
                    ||| x is AutoOn && (word == "autoon"@)
                },
                None => word != "auto"@ && word != "off"@ && word != "autooff"@ && word != "on"@ && word != "autoon"@,
            }
        }),
{
    reveal_strlit("auto");
    reveal_strlit("autooff");
    reveal_strlit("autoon");
    reveal_strlit("off");
    reveal_strlit("on");
    assert("auto"@.len() == 4);
    assert("autooff"@.len() == 7);
    assert("autoon"@.len() == 6);
    assert("off"@.len() == 3);
    assert("on"@.len() == 2);
}

/// A transport is one of its words.
pub proof fn law_transport_words(key: text::Text, raw: text::Text)
    ensures
        ({
            let word = text::name_of(raw);
            match value::value_in(setting::transport_setting(key, raw)) {
                Some(x) => {
                    ||| x is Clear && (word == "clear"@ || word == "tcp"@)
                    ||| x is Tls && (word == "tls"@ || word == "secure"@)
                    ||| x is Either && (word == "either"@ || word == "any"@)
                },
                None => word != "clear"@ && word != "tcp"@ && word != "tls"@ && word != "secure"@ && word != "either"@ && word != "any"@,
            }
        }),
{
    reveal_strlit("any");
    reveal_strlit("clear");
    reveal_strlit("either");
    reveal_strlit("secure");
    reveal_strlit("tcp");
    reveal_strlit("tls");
    assert("any"@.len() == 3 && "any"@[0] == 'a');
    assert("clear"@.len() == 5);
    assert("either"@.len() == 6 && "either"@[0] == 'e');
    assert("secure"@.len() == 6 && "secure"@[0] == 's');
    assert("tcp"@.len() == 3 && "tcp"@[0] == 't' && "tcp"@[1] == 'c');
    assert("tls"@.len() == 3 && "tls"@[0] == 't' && "tls"@[1] == 'l');
}

/// A do-not-disturb mode is one of its words.
pub proof fn law_dnd_words(key: text::Text, raw: text::Text)
    ensures
        ({
            let word = text::name_of(raw);
            match value::value_in(setting::dnd_setting(key, raw)) {
                Some(x) => {
                    ||| x is Off && (word == "off"@ || word == "none"@ || word == "disabled"@)
                    ||| x is Silent && (word == "silent"@)
                    ||| x is Reject && (word == "reject"@ || word == "busy"@)
                },
                None => word != "off"@ && word != "none"@ && word != "disabled"@ && word != "silent"@ && word != "reject"@ && word != "busy"@,
            }
        }),
{
    reveal_strlit("busy");
    reveal_strlit("disabled");
    reveal_strlit("none");
    reveal_strlit("off");
    reveal_strlit("reject");
    reveal_strlit("silent");
    assert("busy"@.len() == 4 && "busy"@[0] == 'b');
    assert("disabled"@.len() == 8);
    assert("none"@.len() == 4 && "none"@[0] == 'n');
    assert("off"@.len() == 3);
    assert("reject"@.len() == 6 && "reject"@[0] == 'r');
    assert("silent"@.len() == 6 && "silent"@[0] == 's');
}

/// A do-not-disturb button is one of its words.
pub proof fn law_dnd_button_words(key: text::Text, raw: text::Text)
    ensures
        ({
            let word = text::name_of(raw);
            match value::value_in(setting::dnd_button_setting(key, raw)) {
                Some(x) => {
                    ||| x is Silent && (word == "silent"@)
                    ||| x is Reject && (word == "reject"@ || word == "busy"@)
                },
                None => word != "silent"@ && word != "reject"@ && word != "busy"@,
            }
        }),
{
    reveal_strlit("busy");
    reveal_strlit("reject");
    reveal_strlit("silent");
    assert("busy"@.len() == 4);
    assert("reject"@.len() == 6 && "reject"@[0] == 'r');
    assert("silent"@.len() == 6 && "silent"@[0] == 's');
}

/// An order of answering is one of its words.
pub proof fn law_answer_order_words(key: text::Text, raw: text::Text)
    ensures
        ({
            let word = text::lower(text::trimmed(raw));
            match value::value_in(setting::answer_order_setting(key, raw)) {
                Some(x) => {
                    ||| x is OldestFirst && (word == "oldestfirst"@)
                    ||| x is LastFirst && (word == "lastfirst"@)
                },
                None => word != "oldestfirst"@ && word != "lastfirst"@,
            }
        }),
{
    reveal_strlit("lastfirst");
    reveal_strlit("oldestfirst");
    assert("lastfirst"@.len() == 9);
    assert("oldestfirst"@.len() == 11);
}

/// Early media is one of its words.
pub proof fn law_early_media_words(key: text::Text, raw: text::Text)
    ensures
        ({
            let word = text::name_of(raw);
            match value::value_in(setting::early_media_setting(key, raw)) {
                Some(true) => word == "yes"@ || word == "true"@ || word == "on"@ || word == "1"@ || word == "offhook"@ || word == "immediate"@ || word == "dial"@ || word == "ringout"@ || word == "progress"@,
                Some(false) => word == "no"@ || word == "false"@ || word == "off"@ || word == "0"@ || word == "none"@,
                None => word != "yes"@ && word != "true"@ && word != "on"@ && word != "1"@ && word != "offhook"@ && word != "immediate"@ && word != "dial"@ && word != "ringout"@ && word != "progress"@ && word != "no"@ && word != "false"@ && word != "off"@ && word != "0"@ && word != "none"@,
            }
        }),
{
    reveal_strlit("0");
    reveal_strlit("1");
    reveal_strlit("dial");
    reveal_strlit("false");
    reveal_strlit("immediate");
    reveal_strlit("no");
    reveal_strlit("none");
    reveal_strlit("off");
    reveal_strlit("offhook");
    reveal_strlit("on");
    reveal_strlit("progress");
    reveal_strlit("ringout");
    reveal_strlit("true");
    reveal_strlit("yes");
    assert("0"@.len() == 1 && "0"@[0] == '0');
    assert("1"@.len() == 1 && "1"@[0] == '1');
    assert("dial"@.len() == 4 && "dial"@[0] == 'd');
    assert("false"@.len() == 5);
    assert("immediate"@.len() == 9);
    assert("no"@.len() == 2 && "no"@[0] == 'n');
    assert("none"@.len() == 4 && "none"@[0] == 'n');
    assert("off"@.len() == 3 && "off"@[0] == 'o');
    assert("offhook"@.len() == 7 && "offhook"@[0] == 'o');
    assert("on"@.len() == 2 && "on"@[0] == 'o');
    assert("progress"@.len() == 8);
    assert("ringout"@.len() == 7 && "ringout"@[0] == 'r');
    assert("true"@.len() == 4 && "true"@[0] == 't');
    assert("yes"@.len() == 3 && "yes"@[0] == 'y');
}

/// A DTMF mode is one of its words.
pub proof fn law_dtmf_words(key: text::Text, raw: text::Text)
    ensures
        ({
            let word = text::name_of(raw);
            match value::value_in(setting::dtmf_setting(key, raw)) {
                Some(x) => {
                    ||| x is Auto && (word == "auto"@)
                    ||| x is Rfc2833 && (word == "rfc2833"@)
                    ||| x is Skinny && (word == "skinny"@)
                },
                None => word != "auto"@ && word != "rfc2833"@ && word != "skinny"@,
            }
        }),
{
    reveal_strlit("auto");
    reveal_strlit("rfc2833");
    reveal_strlit("skinny");
    assert("auto"@.len() == 4);
    assert("rfc2833"@.len() == 7);
    assert("skinny"@.len() == 6);
}

/// A video mode is one of its words.
pub proof fn law_video_mode_words(key: text::Text, raw: text::Text)
    ensures
        ({
            let word = text::name_of(raw);
            match value::value_in(setting::video_mode_setting(key, raw)) {
                Some(x) => {
                    ||| x is Off && (word == "off"@)
                    ||| x is User && (word == "user"@)
                    ||| x is Auto && (word == "auto"@)
                },
                None => word != "off"@ && word != "user"@ && word != "auto"@,
            }
        }),
{
    reveal_strlit("auto");
    reveal_strlit("off");
    reveal_strlit("user");
    assert("auto"@.len() == 4 && "auto"@[0] == 'a');
    assert("off"@.len() == 3);
    assert("user"@.len() == 4 && "user"@[0] == 'u');
}

/// A jitter buffer is one of its words.
pub proof fn law_jitter_kind_words(key: text::Text, raw: text::Text)
    ensures
        ({
            let word = text::name_of(raw);
            match value::value_in(setting::jitter_kind_setting(key, raw)) {
                Some(x) => {
                    ||| x is Fixed && (word == "fixed"@)
                    ||| x is Adaptive && (word == "adaptive"@)
                },
                None => word != "fixed"@ && word != "adaptive"@,
            }
        }),
{
    reveal_strlit("adaptive");
    reveal_strlit("fixed");
    assert("adaptive"@.len() == 8);
    assert("fixed"@.len() == 5);
}

/// A ring is one of its words.
pub proof fn law_ringer_words(key: text::Text, raw: text::Text)
    ensures
        ({
            let word = text::name_of(raw);
            match value::value_in(setting::ringer_setting(key, raw)) {
                Some(x) => {
                    ||| x is Off && (word == "off"@)
                    ||| x is Inside && (word == "inside"@)
                    ||| x is Outside && (word == "outside"@)
                    ||| x is Feature && (word == "feature"@)
                    ||| x is Silent && (word == "silent"@)
                    ||| x is Urgent && (word == "urgent"@)
                    ||| x is Bellcore1 && (word == "bellcore1"@)
                    ||| x is Bellcore2 && (word == "bellcore2"@)
                    ||| x is Bellcore3 && (word == "bellcore3"@)
                    ||| x is Bellcore4 && (word == "bellcore4"@)
                    ||| x is Bellcore5 && (word == "bellcore5"@)
                },
                None => word != "off"@ && word != "inside"@ && word != "outside"@ && word != "feature"@ && word != "silent"@ && word != "urgent"@ && word != "bellcore1"@ && word != "bellcore2"@ && word != "bellcore3"@ && word != "bellcore4"@ && word != "bellcore5"@,
            }
        }),
{
    reveal_strlit("bellcore1");
    reveal_strlit("bellcore2");
    reveal_strlit("bellcore3");
    reveal_strlit("bellcore4");
    reveal_strlit("bellcore5");
    reveal_strlit("feature");
    reveal_strlit("inside");
    reveal_strlit("off");
    reveal_strlit("outside");
    reveal_strlit("silent");
    reveal_strlit("urgent");
    assert("bellcore1"@.len() == 9 && "bellcore1"@[8] == '1');
    assert("bellcore2"@.len() == 9 && "bellcore2"@[8] == '2');
    assert("bellcore3"@.len() == 9 && "bellcore3"@[8] == '3');
    assert("bellcore4"@.len() == 9 && "bellcore4"@[8] == '4');
    assert("bellcore5"@.len() == 9 && "bellcore5"@[8] == '5');
    assert("feature"@.len() == 7 && "feature"@[0] == 'f');
    assert("inside"@.len() == 6 && "inside"@[0] == 'i');
    assert("off"@.len() == 3);
    assert("outside"@.len() == 7 && "outside"@[0] == 'o');
    assert("silent"@.len() == 6 && "silent"@[0] == 's');
    assert("urgent"@.len() == 6 && "urgent"@[0] == 'u');
}

/// A lamp is one of its words.
pub proof fn law_lamp_words(key: text::Text, raw: text::Text)
    ensures
        ({
            let word = text::lower(text::trimmed(raw));
            match value::value_in(setting::lamp_setting(key, raw)) {
                Some(x) => {
                    ||| x is Off && (word == "off"@)
                    ||| x is On && (word == "on"@)
                    ||| x is Wink && (word == "wink"@)
                    ||| x is Flash && (word == "flash"@)
                    ||| x is Blink && (word == "blink"@)
                },
                None => word != "off"@ && word != "on"@ && word != "wink"@ && word != "flash"@ && word != "blink"@,
            }
        }),
{
    reveal_strlit("blink");
    reveal_strlit("flash");
    reveal_strlit("off");
    reveal_strlit("on");
    reveal_strlit("wink");
    assert("blink"@.len() == 5 && "blink"@[0] == 'b');
    assert("flash"@.len() == 5 && "flash"@[0] == 'f');
    assert("off"@.len() == 3);
    assert("on"@.len() == 2);
    assert("wink"@.len() == 4);
}

/// A code page is one of its words.
pub proof fn law_code_page_words(key: text::Text, raw: text::Text)
    ensures
        ({
            let word = text::name_of(raw);
            match value::value_in(setting::code_page_setting(key, raw)) {
                Some(x) => {
                    ||| x is Iso8859_1 && (word == "iso88591"@ || word == "latin1"@)
                    ||| x is Ascii && (word == "ascii"@ || word == "usascii"@)
                },
                None => word != "iso88591"@ && word != "latin1"@ && word != "ascii"@ && word != "usascii"@,
            }
        }),
{
    reveal_strlit("ascii");
    reveal_strlit("iso88591");
    reveal_strlit("latin1");
    reveal_strlit("usascii");
    assert("ascii"@.len() == 5);
    assert("iso88591"@.len() == 8);
    assert("latin1"@.len() == 6);
    assert("usascii"@.len() == 7);
}

/// A fallback decision is one of its words.
pub proof fn law_fallback_words(key: text::Text, raw: text::Text)
    ensures
        ({
            let word = text::lower(text::trimmed(raw));
            match value::value_in(setting::fallback_setting(key, raw)) {
                Some(x) => {
                    ||| x is Accept && (word == "true"@ || word == "yes"@ || word == "on"@ || word == "1"@)
                    ||| x is Reject && (word == "false"@ || word == "no"@ || word == "off"@ || word == "0"@)
                    ||| x is DeviceIdOdd && (word == "odd"@)
                    ||| x is DeviceIdEven && (word == "even"@)
                },
                None => word != "true"@ && word != "yes"@ && word != "on"@ && word != "1"@ && word != "false"@ && word != "no"@ && word != "off"@ && word != "0"@ && word != "odd"@ && word != "even"@,
            }
        }),
{
    reveal_strlit("0");
    reveal_strlit("1");
    reveal_strlit("even");
    reveal_strlit("false");
    reveal_strlit("no");
    reveal_strlit("odd");
    reveal_strlit("off");
    reveal_strlit("on");
    reveal_strlit("true");
    reveal_strlit("yes");
    assert("0"@.len() == 1 && "0"@[0] == '0');
    assert("1"@.len() == 1 && "1"@[0] == '1');
    assert("even"@.len() == 4 && "even"@[0] == 'e');
    assert("false"@.len() == 5);
    assert("no"@.len() == 2 && "no"@[0] == 'n');
    assert("odd"@.len() == 3 && "odd"@[0] == 'o' && "odd"@[1] == 'd');
    assert("off"@.len() == 3 && "off"@[0] == 'o' && "off"@[1] == 'f');
    assert("on"@.len() == 2 && "on"@[0] == 'o');
    assert("true"@.len() == 4 && "true"@[0] == 't');
    assert("yes"@.len() == 3 && "yes"@[0] == 'y');
}

/// A number in its bounds is read as it is written, and no other is.
pub proof fn law_numbers_are_read_as_written(
    key: text::Text,
    raw: text::Text,
    low: u64,
    high: u64,
    expected: text::Text,
    n: nat,
)
    ensures
        ({
            let r = value::value_in(
                setting::number_setting(key, number::decimal(n), raw, low, high, expected),
            );
            if low <= n <= high {
                r == Some(n as u64)
            } else {
                r is None
            }
        }),
{
    number::law_decimal_reads_back(n);
}

/// A UTC offset is a whole number of hours up to fourteen either way, kept in
/// minutes.
pub proof fn law_offsets_are_kept_in_minutes(key: text::Text, raw: text::Text)
    ensures
        match (value::value_in(setting::timezone_setting(key, raw)), number::i16_of(text::trimmed(raw))) {
            (Some(minutes), Some(hours)) => -14 <= hours <= 14 && minutes == 60 * hours,
            (None, Some(hours)) => hours < -14 || hours > 14,
            (None, None) => true,
            _ => false,
        },
{
}

/// Texts that may be left out: what is empty clears, and what is set is kept
/// without the white space around it. A text that has to be there may not be
/// empty, and none may hold control characters.
pub proof fn law_texts_are_trimmed(key: text::Text, raw: text::Text, max: usize, hidden: bool)
    ensures
        ({
            let t = text::trimmed(raw);
            let plain = forall|i: int|
                0 <= i < t.len() ==> (#[trigger] t[i] as u32) >= 0x20 && !(0x7f <= (t[i] as u32)
                    <= 0x9f);
            &&& value::value_in(setting::required_setting(key, raw)) == (if t.len() > 0 && plain {
                Some(t)
            } else {
                None
            })
            &&& value::value_in(setting::path_setting(key, raw, hidden)) == (if t.len() > 0 && plain {
                Some(t)
            } else {
                None
            })
            &&& value::value_in(setting::options_setting(key, raw)) == (if plain {
                Some(t)
            } else {
                None
            })
            &&& value::value_in(setting::metadata_setting(key, raw, max, hidden)) == (if t.len() > 0
                && plain && text::byte_len(t) <= max {
                Some(t)
            } else {
                None
            })
            &&& value::value_in(setting::bounded_setting(key, raw, max)) == (if plain
                && text::byte_len(t) <= max {
                Some(t)
            } else {
                None
            })
            &&& t.len() == 0 ==> value::value_in(
                setting::optional_metadata_setting(key, raw, max, hidden),
            ) == Some(None::<text::Text>)
            &&& t.len() == 0 ==> value::value_in(setting::empty_optional_setting(key, raw)) == Some(
                None::<text::Text>,
            )
        }),
{
    let t = text::trimmed(raw);
    if text::any_control(t) {
        let k = choose|k: int| 0 <= k < t.len() && text::is_control(#[trigger] t[k]);
        assert((t[k] as u32) < 0x20 || 0x7f <= (t[k] as u32) <= 0x9f);
    } else {
        assert forall|i: int| 0 <= i < t.len() implies (#[trigger] t[i] as u32) >= 0x20 && !(0x7f
            <= (t[i] as u32) <= 0x9f) by {
            assert(!text::is_control(t[i]));
        }
    }
}

} // verus!
