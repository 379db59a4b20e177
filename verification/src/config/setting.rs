//! Values of settings: what a text means, or why it is refused.
//!
//! Each function takes the key under which a value stands, for the diagnostic,
//! and the value as it was read.

use vstd::prelude::*;

use crate::config::error;
use crate::config::error::ConfigError;
use crate::config::policy;
use crate::config::policy::{
    CallAnswerOrder, DndButtonMode, DndMode, FallbackDecision, ForwardingDestination,
    HotlineDestination, JitterBufferImplementation, MobilityPin, NatMode,
    ParkingLotButtonConfig, ParkingRetrievalBehavior, TransportRequirement, VideoMode,
    VoicemailDestination,
};
use crate::number;
use crate::station::{DtmfMode, LampMode, LegacyCodePage, RingerMode};
use crate::text;

verus! {

// ---------------------------------------------------------------------------
// Named values

/// A switch.
pub open spec fn bool_setting(key: text::Text, raw: text::Text) -> Result<bool, error::ErrorView> {
    let name = text::lower(text::trimmed(raw));
    if name == "true"@ || name == "yes"@ || name == "on"@ || name == "1"@ {
        Ok(true)
    } else if name == "false"@ || name == "no"@ || name == "off"@ || name == "0"@ {
        Ok(false)
    } else {
        Err(error::invalid(key, raw, "yes or no"@, false))
    }
}

/// A switch.
pub fn parse_bool(key: &str, raw: &str) -> (r: Result<bool, ConfigError>)
    ensures
        error::outcome(r) == bool_setting(key@, raw@),
{
    let name = text::to_ascii_lowercase(text::trim(raw).as_str());
    let n = name.as_str();
    if text::same(n, "true") || text::same(n, "yes") || text::same(n, "on") || text::same(n, "1") {
        Ok(true)
    } else if text::same(n, "false") || text::same(n, "no") || text::same(n, "off") || text::same(n, "0") {
        Ok(false)
    } else {
        Err(error::invalid_option(key, raw, "yes or no", false))
    }
}

/// A treatment of address translation.
pub open spec fn nat_setting(key: text::Text, raw: text::Text) -> Result<NatMode, error::ErrorView> {
    let name = text::name_of(raw);
    if name == "auto"@ {
        Ok(NatMode::Auto)
    } else if name == "off"@ {
        Ok(NatMode::Off)
    } else if name == "autooff"@ {
        Ok(NatMode::AutoOff)
    } else if name == "on"@ {
        Ok(NatMode::On)
    } else if name == "autoon"@ {
        Ok(NatMode::AutoOn)
    } else {
        Err(error::invalid(key, raw, "auto, off, (auto)off, on, or (auto)on"@, false))
    }
}

/// A treatment of address translation.
pub fn parse_nat_mode(key: &str, raw: &str) -> (r: Result<NatMode, ConfigError>)
    ensures
        error::outcome(r) == nat_setting(key@, raw@),
{
    let name = text::normalize_name(raw);
    let n = name.as_str();
    if text::same(n, "auto") {
        Ok(NatMode::Auto)
    } else if text::same(n, "off") {
        Ok(NatMode::Off)
    } else if text::same(n, "autooff") {
        Ok(NatMode::AutoOff)
    } else if text::same(n, "on") {
        Ok(NatMode::On)
    } else if text::same(n, "autoon") {
        Ok(NatMode::AutoOn)
    } else {
        Err(error::invalid_option(key, raw, "auto, off, (auto)off, on, or (auto)on", false))
    }
}

/// A transport requirement.
pub open spec fn transport_setting(key: text::Text, raw: text::Text) -> Result<TransportRequirement, error::ErrorView> {
    let name = text::name_of(raw);
    if name == "clear"@ || name == "tcp"@ {
        Ok(TransportRequirement::Clear)
    } else if name == "tls"@ || name == "secure"@ {
        Ok(TransportRequirement::Tls)
    } else if name == "either"@ || name == "any"@ {
        Ok(TransportRequirement::Either)
    } else {
        Err(error::invalid(key, raw, "clear, tls, or either"@, false))
    }
}

/// A transport requirement.
pub fn parse_transport_requirement(key: &str, raw: &str) -> (r: Result<TransportRequirement, ConfigError>)
    ensures
        error::outcome(r) == transport_setting(key@, raw@),
{
    let name = text::normalize_name(raw);
    let n = name.as_str();
    if text::same(n, "clear") || text::same(n, "tcp") {
        Ok(TransportRequirement::Clear)
    } else if text::same(n, "tls") || text::same(n, "secure") {
        Ok(TransportRequirement::Tls)
    } else if text::same(n, "either") || text::same(n, "any") {
        Ok(TransportRequirement::Either)
    } else {
        Err(error::invalid_option(key, raw, "clear, tls, or either", false))
    }
}

/// A do-not-disturb mode.
pub open spec fn dnd_setting(key: text::Text, raw: text::Text) -> Result<DndMode, error::ErrorView> {
    let name = text::name_of(raw);
    if name == "off"@ || name == "none"@ || name == "disabled"@ {
        Ok(DndMode::Off)
    } else if name == "silent"@ {
        Ok(DndMode::Silent)
    } else if name == "reject"@ || name == "busy"@ {
        Ok(DndMode::Reject)
    } else {
        Err(error::invalid(key, raw, "off, silent, or reject"@, false))
    }
}

/// A do-not-disturb mode.
pub fn parse_dnd_mode(key: &str, raw: &str) -> (r: Result<DndMode, ConfigError>)
    ensures
        error::outcome(r) == dnd_setting(key@, raw@),
{
    let name = text::normalize_name(raw);
    let n = name.as_str();
    if text::same(n, "off") || text::same(n, "none") || text::same(n, "disabled") {
        Ok(DndMode::Off)
    } else if text::same(n, "silent") {
        Ok(DndMode::Silent)
    } else if text::same(n, "reject") || text::same(n, "busy") {
        Ok(DndMode::Reject)
    } else {
        Err(error::invalid_option(key, raw, "off, silent, or reject", false))
    }
}

/// The mode of a do-not-disturb button.
pub open spec fn dnd_button_setting(key: text::Text, raw: text::Text) -> Result<DndButtonMode, error::ErrorView> {
    let name = text::name_of(raw);
    if name == "silent"@ {
        Ok(DndButtonMode::Silent)
    } else if name == "reject"@ || name == "busy"@ {
        Ok(DndButtonMode::Reject)
    } else {
        Err(error::invalid(key, raw, "silent or reject"@, false))
    }
}

/// The mode of a do-not-disturb button.
pub fn parse_dnd_button_mode(key: &str, raw: &str) -> (r: Result<DndButtonMode, ConfigError>)
    ensures
        error::outcome(r) == dnd_button_setting(key@, raw@),
{
    let name = text::normalize_name(raw);
    let n = name.as_str();
    if text::same(n, "silent") {
        Ok(DndButtonMode::Silent)
    } else if text::same(n, "reject") || text::same(n, "busy") {
        Ok(DndButtonMode::Reject)
    } else {
        Err(error::invalid_option(key, raw, "silent or reject", false))
    }
}

/// An order of answering.
pub open spec fn answer_order_setting(key: text::Text, raw: text::Text) -> Result<CallAnswerOrder, error::ErrorView> {
    let name = text::lower(text::trimmed(raw));
    if name == "oldestfirst"@ {
        Ok(CallAnswerOrder::OldestFirst)
    } else if name == "lastfirst"@ {
        Ok(CallAnswerOrder::LastFirst)
    } else {
        Err(error::invalid(key, raw, "OldestFirst or LastFirst"@, false))
    }
}

/// An order of answering.
pub fn parse_call_answer_order(key: &str, raw: &str) -> (r: Result<CallAnswerOrder, ConfigError>)
    ensures
        error::outcome(r) == answer_order_setting(key@, raw@),
{
    let name = text::to_ascii_lowercase(text::trim(raw).as_str());
    let n = name.as_str();
    if text::same(n, "oldestfirst") {
        Ok(CallAnswerOrder::OldestFirst)
    } else if text::same(n, "lastfirst") {
        Ok(CallAnswerOrder::LastFirst)
    } else {
        Err(error::invalid_option(key, raw, "OldestFirst or LastFirst", false))
    }
}

/// Early media: a switch, or the name of a call stage, which switches it on.
pub open spec fn early_media_setting(key: text::Text, raw: text::Text) -> Result<bool, error::ErrorView> {
    let name = text::name_of(raw);
    if name == "yes"@ || name == "true"@ || name == "on"@ || name == "1"@ {
        Ok(true)
    } else if name == "no"@ || name == "false"@ || name == "off"@ || name == "0"@ || name == "none"@ {
        Ok(false)
    } else if name == "offhook"@ || name == "immediate"@ || name == "dial"@ || name == "ringout"@ || name == "progress"@ {
        Ok(true)
    } else {
        Err(error::invalid(key, raw, "yes, no, none, offhook, immediate, dial, ringout, or progress"@, false))
    }
}

/// Early media: a switch, or the name of a call stage, which switches it on.
pub fn parse_early_media(key: &str, raw: &str) -> (r: Result<bool, ConfigError>)
    ensures
        error::outcome(r) == early_media_setting(key@, raw@),
{
    let name = text::normalize_name(raw);
    let n = name.as_str();
    if text::same(n, "yes") || text::same(n, "true") || text::same(n, "on") || text::same(n, "1") {
        Ok(true)
    } else if text::same(n, "no") || text::same(n, "false") || text::same(n, "off") || text::same(n, "0") || text::same(n, "none") {
        Ok(false)
    } else if text::same(n, "offhook") || text::same(n, "immediate") || text::same(n, "dial") || text::same(n, "ringout") || text::same(n, "progress") {
        Ok(true)
    } else {
        Err(error::invalid_option(key, raw, "yes, no, none, offhook, immediate, dial, ringout, or progress", false))
    }
}

/// A way to send digits.
pub open spec fn dtmf_setting(key: text::Text, raw: text::Text) -> Result<DtmfMode, error::ErrorView> {
    let name = text::name_of(raw);
    if name == "auto"@ {
        Ok(DtmfMode::Auto)
    } else if name == "rfc2833"@ {
        Ok(DtmfMode::Rfc2833)
    } else if name == "skinny"@ {
        Ok(DtmfMode::Skinny)
    } else {
        Err(error::invalid(key, raw, "auto, rfc2833, or skinny"@, false))
    }
}

/// A way to send digits.
pub fn parse_dtmf_mode(key: &str, raw: &str) -> (r: Result<DtmfMode, ConfigError>)
    ensures
        error::outcome(r) == dtmf_setting(key@, raw@),
{
    let name = text::normalize_name(raw);
    let n = name.as_str();
    if text::same(n, "auto") {
        Ok(DtmfMode::Auto)
    } else if text::same(n, "rfc2833") {
        Ok(DtmfMode::Rfc2833)
    } else if text::same(n, "skinny") {
        Ok(DtmfMode::Skinny)
    } else {
        Err(error::invalid_option(key, raw, "auto, rfc2833, or skinny", false))
    }
}

/// A video mode.
pub open spec fn video_mode_setting(key: text::Text, raw: text::Text) -> Result<VideoMode, error::ErrorView> {
    let name = text::name_of(raw);
    if name == "off"@ {
        Ok(VideoMode::Off)
    } else if name == "user"@ {
        Ok(VideoMode::User)
    } else if name == "auto"@ {
        Ok(VideoMode::Auto)
    } else {
        Err(error::invalid(key, raw, "off, user, or auto"@, false))
    }
}

/// A video mode.
pub fn parse_video_mode(key: &str, raw: &str) -> (r: Result<VideoMode, ConfigError>)
    ensures
        error::outcome(r) == video_mode_setting(key@, raw@),
{
    let name = text::normalize_name(raw);
    let n = name.as_str();
    if text::same(n, "off") {
        Ok(VideoMode::Off)
    } else if text::same(n, "user") {
        Ok(VideoMode::User)
    } else if text::same(n, "auto") {
        Ok(VideoMode::Auto)
    } else {
        Err(error::invalid_option(key, raw, "off, user, or auto", false))
    }
}

/// A kind of jitter buffer.
pub open spec fn jitter_kind_setting(key: text::Text, raw: text::Text) -> Result<JitterBufferImplementation, error::ErrorView> {
    let name = text::name_of(raw);
    if name == "fixed"@ {
        Ok(JitterBufferImplementation::Fixed)
    } else if name == "adaptive"@ {
        Ok(JitterBufferImplementation::Adaptive)
    } else {
        Err(error::invalid(key, raw, "fixed or adaptive"@, false))
    }
}

/// A kind of jitter buffer.
pub fn parse_jitter_buffer_implementation(key: &str, raw: &str) -> (r: Result<JitterBufferImplementation, ConfigError>)
    ensures
        error::outcome(r) == jitter_kind_setting(key@, raw@),
{
    let name = text::normalize_name(raw);
    let n = name.as_str();
    if text::same(n, "fixed") {
        Ok(JitterBufferImplementation::Fixed)
    } else if text::same(n, "adaptive") {
        Ok(JitterBufferImplementation::Adaptive)
    } else {
        Err(error::invalid_option(key, raw, "fixed or adaptive", false))
    }
}

/// A ringer cadence.
pub open spec fn ringer_setting(key: text::Text, raw: text::Text) -> Result<RingerMode, error::ErrorView> {
    let name = text::name_of(raw);
    if name == "off"@ {
        Ok(RingerMode::Off)
    } else if name == "inside"@ {
        Ok(RingerMode::Inside)
    } else if name == "outside"@ {
        Ok(RingerMode::Outside)
    } else if name == "feature"@ {
        Ok(RingerMode::Feature)
    } else if name == "silent"@ {
        Ok(RingerMode::Silent)
    } else if name == "urgent"@ {
        Ok(RingerMode::Urgent)
    } else if name == "bellcore1"@ {
        Ok(RingerMode::Bellcore1)
    } else if name == "bellcore2"@ {
        Ok(RingerMode::Bellcore2)
    } else if name == "bellcore3"@ {
        Ok(RingerMode::Bellcore3)
    } else if name == "bellcore4"@ {
        Ok(RingerMode::Bellcore4)
    } else if name == "bellcore5"@ {
        Ok(RingerMode::Bellcore5)
    } else {
        Err(error::invalid(key, raw, "Off, Inside, Outside, Feature, Silent, Urgent, or Bellcore1..Bellcore5"@, false))
    }
}

/// A ringer cadence.
pub fn parse_ringer_mode(key: &str, raw: &str) -> (r: Result<RingerMode, ConfigError>)
    ensures
        error::outcome(r) == ringer_setting(key@, raw@),
{
    let name = text::normalize_name(raw);
    let n = name.as_str();
    if text::same(n, "off") {
        Ok(RingerMode::Off)
    } else if text::same(n, "inside") {
        Ok(RingerMode::Inside)
    } else if text::same(n, "outside") {
        Ok(RingerMode::Outside)
    } else if text::same(n, "feature") {
        Ok(RingerMode::Feature)
    } else if text::same(n, "silent") {
        Ok(RingerMode::Silent)
    } else if text::same(n, "urgent") {
        Ok(RingerMode::Urgent)
    } else if text::same(n, "bellcore1") {
        Ok(RingerMode::Bellcore1)
    } else if text::same(n, "bellcore2") {
        Ok(RingerMode::Bellcore2)
    } else if text::same(n, "bellcore3") {
        Ok(RingerMode::Bellcore3)
    } else if text::same(n, "bellcore4") {
        Ok(RingerMode::Bellcore4)
    } else if text::same(n, "bellcore5") {
        Ok(RingerMode::Bellcore5)
    } else {
        Err(error::invalid_option(key, raw, "Off, Inside, Outside, Feature, Silent, Urgent, or Bellcore1..Bellcore5", false))
    }
}

/// A lamp mode.
pub open spec fn lamp_setting(key: text::Text, raw: text::Text) -> Result<LampMode, error::ErrorView> {
    let name = text::lower(text::trimmed(raw));
    if name == "off"@ {
        Ok(LampMode::Off)
    } else if name == "on"@ {
        Ok(LampMode::On)
    } else if name == "wink"@ {
        Ok(LampMode::Wink)
    } else if name == "flash"@ {
        Ok(LampMode::Flash)
    } else if name == "blink"@ {
        Ok(LampMode::Blink)
    } else {
        Err(error::invalid(key, raw, "off, on, wink, flash, or blink"@, false))
    }
}

/// A lamp mode.
pub fn parse_lamp_mode(key: &str, raw: &str) -> (r: Result<LampMode, ConfigError>)
    ensures
        error::outcome(r) == lamp_setting(key@, raw@),
{
    let name = text::to_ascii_lowercase(text::trim(raw).as_str());
    let n = name.as_str();
    if text::same(n, "off") {
        Ok(LampMode::Off)
    } else if text::same(n, "on") {
        Ok(LampMode::On)
    } else if text::same(n, "wink") {
        Ok(LampMode::Wink)
    } else if text::same(n, "flash") {
        Ok(LampMode::Flash)
    } else if text::same(n, "blink") {
        Ok(LampMode::Blink)
    } else {
        Err(error::invalid_option(key, raw, "off, on, wink, flash, or blink", false))
    }
}

/// A character set.
pub open spec fn code_page_setting(key: text::Text, raw: text::Text) -> Result<LegacyCodePage, error::ErrorView> {
    let name = text::name_of(raw);
    if name == "iso88591"@ || name == "latin1"@ {
        Ok(LegacyCodePage::Iso8859_1)
    } else if name == "ascii"@ || name == "usascii"@ {
        Ok(LegacyCodePage::Ascii)
    } else {
        Err(error::invalid(key, raw, "ISO8859-1 or ASCII"@, false))
    }
}

/// A character set.
pub fn parse_code_page(key: &str, raw: &str) -> (r: Result<LegacyCodePage, ConfigError>)
    ensures
        error::outcome(r) == code_page_setting(key@, raw@),
{
    let name = text::normalize_name(raw);
    let n = name.as_str();
    if text::same(n, "iso88591") || text::same(n, "latin1") {
        Ok(LegacyCodePage::Iso8859_1)
    } else if text::same(n, "ascii") || text::same(n, "usascii") {
        Ok(LegacyCodePage::Ascii)
    } else {
        Err(error::invalid_option(key, raw, "ISO8859-1 or ASCII", false))
    }
}

/// A fallback decision. A value that may be a path is not shown.
pub open spec fn fallback_setting(key: text::Text, raw: text::Text) -> Result<
    FallbackDecision,
    error::ErrorView,
> {
    let value = text::trimmed(raw);
    let name = text::lower(value);
    if name == "true"@ || name == "yes"@ || name == "on"@ || name == "1"@ {
        Ok(FallbackDecision::Accept)
    } else if name == "false"@ || name == "no"@ || name == "off"@ || name == "0"@ {
        Ok(FallbackDecision::Reject)
    } else if name == "odd"@ {
        Ok(FallbackDecision::DeviceIdOdd)
    } else if name == "even"@ {
        Ok(FallbackDecision::DeviceIdEven)
    } else {
        Err(
            error::invalid(
                key,
                raw,
                "yes, no, odd, or even"@,
                value.contains('/') || value.contains('\\'),
            ),
        )
    }
}

/// A fallback decision. A value that may be a path is not shown.
pub fn parse_fallback_decision(key: &str, raw: &str) -> (r: Result<FallbackDecision, ConfigError>)
    ensures
        error::outcome(r) == fallback_setting(key@, raw@),
{
    let value = text::trim(raw);
    let name = text::to_ascii_lowercase(value.as_str());
    let n = name.as_str();
    if text::same(n, "true") || text::same(n, "yes") || text::same(n, "on") || text::same(n, "1") {
        Ok(FallbackDecision::Accept)
    } else if text::same(n, "false") || text::same(n, "no") || text::same(n, "off") || text::same(
        n,
        "0",
    ) {
        Ok(FallbackDecision::Reject)
    } else if text::same(n, "odd") {
        Ok(FallbackDecision::DeviceIdOdd)
    } else if text::same(n, "even") {
        Ok(FallbackDecision::DeviceIdEven)
    } else {
        let path = text::contains_char(value.as_str(), '/') || text::contains_char(
            value.as_str(),
            '\\',
        );
        Err(error::invalid_option(key, raw, "yes, no, odd, or even", path))
    }
}

// ---------------------------------------------------------------------------
// Numbers

/// A number from `low` to `high`.
pub open spec fn number_setting(
    key: text::Text,
    value: text::Text,
    raw: text::Text,
    low: u64,
    high: u64,
    expected: text::Text,
) -> Result<u64, error::ErrorView> {
    match number::unsigned(value, 10) {
        Some(n) => if low <= n <= high {
            Ok(n as u64)
        } else {
            Err(error::invalid(key, raw, expected, false))
        },
        None => Err(error::invalid(key, raw, expected, false)),
    }
}

/// Reads a number from `low` to `high`.
pub fn parse_number(
    key: &str,
    value: &str,
    raw: &str,
    low: u64,
    high: u64,
    expected: &str,
) -> (r: Result<u64, ConfigError>)
    ensures
        error::outcome(r) == number_setting(key@, value@, raw@, low, high, expected@),
        r is Ok ==> low <= r->Ok_0 <= high,
{
    match number::read_u64(value) {
        Some(n) => if low <= n && n <= high {
            return Ok(n);
        },
        None => {},
    }
    Err(error::invalid_option(key, raw, expected, false))
}

/// A positive number of milliseconds.
pub open spec fn jitter_setting(key: text::Text, raw: text::Text) -> Result<u64, error::ErrorView> {
    number_setting(
        key,
        text::trimmed(raw),
        raw,
        1,
        0x7fff_ffff,
        "a positive millisecond value no greater than 2147483647"@,
    )
}

/// A positive number of milliseconds.
pub fn parse_positive_jitter_millis(key: &str, raw: &str) -> (r: Result<u64, ConfigError>)
    ensures
        error::outcome(r) == jitter_setting(key@, raw@),
        r is Ok ==> 1 <= r->Ok_0 <= 0x7fff_ffff,
{
    parse_number(
        key,
        text::trim(raw).as_str(),
        raw,
        1,
        0x7fff_ffff,
        "a positive millisecond value no greater than 2147483647",
    )
}

/// Hours from UTC, as minutes.
pub open spec fn timezone_setting(key: text::Text, raw: text::Text) -> Result<
    i16,
    error::ErrorView,
> {
    match number::i16_of(text::trimmed(raw)) {
        Some(hours) => if -14 <= hours <= 14 {
            Ok((hours * 60) as i16)
        } else {
            Err(error::invalid(key, raw, "UTC offset -14..14 hours"@, false))
        },
        None => Err(error::invalid(key, raw, "UTC offset -14..14 hours"@, false)),
    }
}

/// Hours from UTC, as minutes.
pub fn parse_timezone(key: &str, raw: &str) -> (r: Result<i16, ConfigError>)
    ensures
        error::outcome(r) == timezone_setting(key@, raw@),
{
    match number::read_i16(text::trim(raw).as_str()) {
        Some(hours) => if -14 <= hours && hours <= 14 {
            return Ok(hours * 60);
        },
        None => {},
    }
    Err(error::invalid_option(key, raw, "UTC offset -14..14 hours", false))
}

// ---------------------------------------------------------------------------
// Texts

/// A printable text that is not empty.
pub open spec fn required_setting(key: text::Text, raw: text::Text) -> Result<
    text::Text,
    error::ErrorView,
> {
    let value = text::trimmed(raw);
    if value.len() == 0 || text::any_control(value) {
        Err(error::invalid(key, raw, "a nonempty printable value"@, false))
    } else {
        Ok(value)
    }
}

/// A printable text that is not empty.
pub fn parse_required_setting(key: &str, raw: &str) -> (r: Result<String, ConfigError>)
    ensures
        error::outcome(r) == required_setting(key@, raw@),
{
    let value = text::trim(raw);
    if value.as_str().is_empty() || text::has_control(value.as_str()) {
        return Err(error::invalid_option(key, raw, "a nonempty printable value", false));
    }
    Ok(value)
}

/// A printable text of at most `max` bytes that is not empty.
pub open spec fn metadata_setting(
    key: text::Text,
    raw: text::Text,
    max: usize,
    sensitive: bool,
) -> Result<text::Text, error::ErrorView> {
    let value = text::trimmed(raw);
    if value.len() == 0 || text::byte_len(value) > max || text::any_control(value) {
        Err(
            error::invalid(
                key,
                raw,
                "a nonempty printable value of at most "@ + number::decimal(max as nat)
                    + " bytes"@,
                sensitive,
            ),
        )
    } else {
        Ok(value)
    }
}

/// A printable text of at most `max` bytes that is not empty.
pub fn parse_metadata_required(key: &str, raw: &str, max: usize, sensitive: bool) -> (r: Result<
    String,
    ConfigError,
>)
    ensures
        error::outcome(r) == metadata_setting(key@, raw@, max, sensitive),
{
    let value = text::trim(raw);
    if value.as_str().is_empty() || value.as_str().len() > max || text::has_control(
        value.as_str(),
    ) {
        let expected = error::cat3(
            "a nonempty printable value of at most ",
            number::to_decimal(max as u64).as_str(),
            " bytes",
        );
        return Err(error::invalid_option(key, raw, expected.as_str(), sensitive));
    }
    Ok(value)
}

/// The value, in place of which empty text clears the setting.
pub open spec fn clearable(value: text::Text, set: Result<text::Text, error::ErrorView>) -> Result<
    Option<text::Text>,
    error::ErrorView,
> {
    if value.len() == 0 {
        Ok(None)
    } else {
        match set {
            Ok(v) => Ok(Some(v)),
            Err(e) => Err(e),
        }
    }
}

/// A printable text of at most `max` bytes; empty text clears the setting.
pub open spec fn optional_metadata_setting(
    key: text::Text,
    raw: text::Text,
    max: usize,
    sensitive: bool,
) -> Result<Option<text::Text>, error::ErrorView> {
    clearable(text::trimmed(raw), metadata_setting(key, raw, max, sensitive))
}

/// A printable text of at most `max` bytes; empty text clears the setting.
pub fn parse_metadata_optional(key: &str, raw: &str, max: usize, sensitive: bool) -> (r: Result<
    Option<String>,
    ConfigError,
>)
    ensures
        error::outcome(r) == optional_metadata_setting(key@, raw@, max, sensitive),
{
    if text::trim(raw).as_str().is_empty() {
        return Ok(None);
    }
    match parse_metadata_required(key, raw, max, sensitive) {
        Ok(v) => Ok(Some(v)),
        Err(e) => Err(e),
    }
}

/// A word that switches a setting off.
pub open spec fn is_off_word(value: text::Text) -> bool {
    let name = text::lower(value);
    name == "none"@ || name == "off"@ || name == "disabled"@
}

/// Whether a text is a word that switches a setting off.
fn off_word(value: &str) -> (r: bool)
    ensures
        r == is_off_word(value@),
{
    let name = text::to_ascii_lowercase(value);
    text::same(name.as_str(), "none") || text::same(name.as_str(), "off") || text::same(
        name.as_str(),
        "disabled",
    )
}

/// A printable text; empty text or an off word clears the setting.
pub open spec fn optional_setting(key: text::Text, raw: text::Text) -> Result<
    Option<text::Text>,
    error::ErrorView,
> {
    let value = text::trimmed(raw);
    if is_off_word(value) {
        Ok(None)
    } else {
        clearable(value, required_setting(key, value))
    }
}

/// A printable text; empty text or an off word clears the setting.
pub fn parse_optional_setting(key: &str, raw: &str) -> (r: Result<Option<String>, ConfigError>)
    ensures
        error::outcome(r) == optional_setting(key@, raw@),
{
    let value = text::trim(raw);
    if value.as_str().is_empty() || off_word(value.as_str()) {
        return Ok(None);
    }
    match parse_required_setting(key, value.as_str()) {
        Ok(v) => Ok(Some(v)),
        Err(e) => Err(e),
    }
}

/// A printable text; empty text clears the setting.
pub open spec fn empty_optional_setting(key: text::Text, raw: text::Text) -> Result<
    Option<text::Text>,
    error::ErrorView,
> {
    let value = text::trimmed(raw);
    clearable(value, required_setting(key, value))
}

/// A printable text; empty text clears the setting.
pub fn parse_empty_optional_setting(key: &str, raw: &str) -> (r: Result<
    Option<String>,
    ConfigError,
>)
    ensures
        error::outcome(r) == empty_optional_setting(key@, raw@),
{
    let value = text::trim(raw);
    if value.as_str().is_empty() {
        return Ok(None);
    }
    match parse_required_setting(key, value.as_str()) {
        Ok(v) => Ok(Some(v)),
        Err(e) => Err(e),
    }
}

/// A printable text, which may be empty.
pub open spec fn printable_setting(key: text::Text, raw: text::Text, expected: text::Text) -> Result<
    text::Text,
    error::ErrorView,
> {
    let value = text::trimmed(raw);
    if text::any_control(value) {
        Err(error::invalid(key, raw, expected, false))
    } else {
        Ok(value)
    }
}

/// A printable text, which may be empty.
fn parse_printable(key: &str, raw: &str, expected: &str) -> (r: Result<String, ConfigError>)
    ensures
        error::outcome(r) == printable_setting(key@, raw@, expected@),
{
    let value = text::trim(raw);
    if text::has_control(value.as_str()) {
        return Err(error::invalid_option(key, raw, expected, false));
    }
    Ok(value)
}

/// A printable text, which may be empty.
pub fn parse_setting_allow_empty(key: &str, raw: &str) -> (r: Result<String, ConfigError>)
    ensures
        error::outcome(r) == printable_setting(key@, raw@, "a printable value"@),
{
    parse_printable(key, raw, "a printable value")
}

/// A printable text of at most `max` bytes, which may be empty.
pub open spec fn bounded_setting(key: text::Text, raw: text::Text, max: usize) -> Result<
    text::Text,
    error::ErrorView,
> {
    match printable_setting(key, raw, "a printable value"@) {
        Err(e) => Err(e),
        Ok(v) => if text::byte_len(v) > max {
            Err(
                error::invalid(
                    key,
                    raw,
                    "at most "@ + number::decimal(max as nat) + " bytes"@,
                    false,
                ),
            )
        } else {
            Ok(v)
        },
    }
}

/// A printable text of at most `max` bytes, which may be empty.
pub fn parse_bounded_setting_allow_empty(key: &str, raw: &str, max: usize) -> (r: Result<
    String,
    ConfigError,
>)
    ensures
        error::outcome(r) == bounded_setting(key@, raw@, max),
{
    let value = match parse_setting_allow_empty(key, raw) {
        Ok(v) => v,
        Err(e) => return Err(e),
    };
    if value.as_str().len() > max {
        let expected = error::cat3("at most ", number::to_decimal(max as u64).as_str(), " bytes");
        return Err(error::invalid_option(key, raw, expected.as_str(), false));
    }
    Ok(value)
}

/// The options of a conference application.
pub open spec fn options_setting(key: text::Text, raw: text::Text) -> Result<
    text::Text,
    error::ErrorView,
> {
    printable_setting(key, raw, "printable application options"@)
}

/// The options of a conference application.
pub fn parse_application_options(key: &str, raw: &str) -> (r: Result<String, ConfigError>)
    ensures
        error::outcome(r) == options_setting(key@, raw@),
{
    parse_printable(key, raw, "printable application options")
}

/// A path of a file.
pub open spec fn path_setting(key: text::Text, raw: text::Text, sensitive: bool) -> Result<
    text::Text,
    error::ErrorView,
> {
    let value = text::trimmed(raw);
    if value.len() == 0 || text::any_control(value) {
        Err(
            error::invalid(
                key,
                raw,
                "a non-empty filesystem path without control characters"@,
                sensitive,
            ),
        )
    } else {
        Ok(value)
    }
}

/// A path of a file.
pub fn parse_path(key: &str, raw: &str, sensitive: bool) -> (r: Result<String, ConfigError>)
    ensures
        error::outcome(r) == path_setting(key@, raw@, sensitive),
{
    let value = text::trim(raw);
    if value.as_str().is_empty() || text::has_control(value.as_str()) {
        return Err(
            error::invalid_option(
                key,
                raw,
                "a non-empty filesystem path without control characters",
                sensitive,
            ),
        );
    }
    Ok(value)
}

/// One label of a host name.
pub open spec fn is_label(label: text::Text) -> bool {
    &&& label.len() > 0
    &&& text::byte_len(label) <= 63
    &&& label[0] != '-'
    &&& label.last() != '-'
    &&& text::all_alnum_or(label, '-')
}

/// A host name: labels with dots between them.
pub open spec fn is_hostname(value: text::Text) -> bool {
    let labels = text::pieces(value, '.');
    text::byte_len(value) <= 253 && forall|i: int|
        0 <= i < labels.len() ==> is_label(#[trigger] labels[i])
}

/// A host name, in lower case.
pub open spec fn hostname_setting(key: text::Text, raw: text::Text) -> Result<
    text::Text,
    error::ErrorView,
> {
    let value = text::trimmed(raw);
    if is_hostname(value) {
        Ok(text::lower(value))
    } else {
        Err(error::invalid(key, raw, "a valid DNS hostname up to 253 bytes"@, false))
    }
}

/// Whether a text is one label of a host name.
fn label_ok(label: &str) -> (r: bool)
    ensures
        r == is_label(label@),
{
    let v = text::to_chars(label);
    v.len() > 0 && label.len() <= 63 && v[0] != '-' && v[v.len() - 1] != '-' && text::only_alnum_or(
        label,
        '-',
    )
}

/// A host name, in lower case.
pub fn parse_hostname(key: &str, raw: &str) -> (r: Result<String, ConfigError>)
    ensures
        error::outcome(r) == hostname_setting(key@, raw@),
{
    let value = text::trim(raw);
    let labels = text::split(value.as_str(), '.');
    let ghost all = labels.deep_view();
    let mut good = value.as_str().len() <= 253;
    let mut i: usize = 0;
    while i < labels.len()
        invariant
            all == labels.deep_view(),
            all == text::pieces(value@, '.'),
            i <= labels@.len(),
            good == (text::byte_len(value@) <= 253 && forall|j: int|
                0 <= j < i ==> is_label(#[trigger] all[j])),
        decreases labels.len() - i,
    {
        assert(all[i as int] == labels@[i as int]@);
        if !label_ok(labels[i].as_str()) {
            good = false;
        }
        i += 1;
    }
    if good {
        Ok(text::to_ascii_lowercase(value.as_str()))
    } else {
        Err(error::invalid_option(key, raw, "a valid DNS hostname up to 253 bytes", false))
    }
}

/// A realtime family name has at most this many bytes.
pub const MAX_REALTIME_FAMILY_BYTES: usize = 45;

/// The name of a realtime family.
pub open spec fn family_setting(key: text::Text, raw: text::Text) -> Result<
    text::Text,
    error::ErrorView,
> {
    let value = text::trimmed(raw);
    if value.len() == 0 || text::byte_len(value) > MAX_REALTIME_FAMILY_BYTES
        || !text::all_alnum_or(value, '_') {
        Err(
            error::invalid(
                key,
                raw,
                "a non-empty realtime family name up to 45 bytes using letters, digits, or underscore"@,
                false,
            ),
        )
    } else {
        Ok(value)
    }
}

/// The name of a realtime family.
pub fn parse_realtime_family(key: &str, raw: &str) -> (r: Result<String, ConfigError>)
    ensures
        error::outcome(r) == family_setting(key@, raw@),
{
    let value = text::trim(raw);
    if value.as_str().is_empty() || value.as_str().len() > MAX_REALTIME_FAMILY_BYTES
        || !text::only_alnum_or(value.as_str(), '_') {
        return Err(
            error::invalid_option(
                key,
                raw,
                "a non-empty realtime family name up to 45 bytes using letters, digits, or underscore",
                false,
            ),
        );
    }
    Ok(value)
}

/// A mailbox, with an optional context behind an at sign.
pub open spec fn is_mailbox(value: text::Text) -> bool {
    let parts = text::pieces(value, '@');
    &&& parts.len() <= 2
    &&& forall|i: int|
        0 <= i < parts.len() ==> (#[trigger] parts[i]).len() > 0 && !text::any_space(parts[i])
}

/// A mailbox; empty text or an off word clears the setting.
pub open spec fn mailbox_setting(key: text::Text, raw: text::Text) -> Result<
    Option<text::Text>,
    error::ErrorView,
> {
    match optional_setting(key, raw) {
        Ok(Some(value)) => if is_mailbox(value) {
            Ok(Some(value))
        } else {
            Err(
                error::invalid(key, raw, "mailbox or mailbox@context without whitespace"@, false),
            )
        },
        other => other,
    }
}

/// A mailbox; empty text or an off word clears the setting.
pub fn parse_mailbox(key: &str, raw: &str) -> (r: Result<Option<String>, ConfigError>)
    ensures
        error::outcome(r) == mailbox_setting(key@, raw@),
{
    let value = match parse_optional_setting(key, raw) {
        Ok(Some(v)) => v,
        Ok(None) => return Ok(None),
        Err(e) => return Err(e),
    };
    let parts = text::split(value.as_str(), '@');
    let ghost all = parts.deep_view();
    let mut good = parts.len() <= 2;
    let mut i: usize = 0;
    while i < parts.len()
        invariant
            all == parts.deep_view(),
            all == text::pieces(value@, '@'),
            i <= parts@.len(),
            good == (parts@.len() <= 2 && forall|j: int|
                0 <= j < i ==> (#[trigger] all[j]).len() > 0 && !text::any_space(all[j])),
        decreases parts.len() - i,
    {
        assert(all[i as int] == parts@[i as int]@);
        if parts[i].as_str().is_empty() || text::has_space(parts[i].as_str()) {
            good = false;
        }
        i += 1;
    }
    if !good {
        return Err(
            error::invalid_option(key, raw, "mailbox or mailbox@context without whitespace", false),
        );
    }
    Ok(Some(value))
}

/// A PIN; empty text clears the setting. The value is not shown.
pub open spec fn pin_setting(key: text::Text, raw: text::Text) -> Result<
    Option<policy::MobilityPinView>,
    error::ErrorView,
> {
    let value = text::trimmed(raw);
    if value.len() == 0 {
        Ok(None)
    } else if policy::is_pin(value) {
        Ok(Some(policy::MobilityPinView { digits: value }))
    } else {
        Err(
            error::invalid(
                key,
                raw,
                "one to seven ASCII digits, or empty to disable mobility login"@,
                true,
            ),
        )
    }
}

/// A PIN; empty text clears the setting. The value is not shown.
pub fn parse_mobility_pin(key: &str, raw: &str) -> (r: Result<Option<MobilityPin>, ConfigError>)
    ensures
        error::outcome(r) == pin_setting(key@, raw@),
{
    let value = text::trim(raw);
    if value.as_str().is_empty() {
        return Ok(None);
    }
    match MobilityPin::new(value.as_str()) {
        Some(pin) => Ok(Some(pin)),
        None => Err(
            error::invalid_option(
                key,
                raw,
                "one to seven ASCII digits, or empty to disable mobility login",
                true,
            ),
        ),
    }
}

// ---------------------------------------------------------------------------
// Digits

/// A character that a telephone can send.
pub open spec fn is_dtmf(c: char) -> bool {
    text::is_digit(c) || c == '*' || c == '#' || 'A' <= c <= 'D'
}

/// Whether a telephone can send a character.
fn dtmf(c: char) -> (r: bool)
    ensures
        r == is_dtmf(c),
{
    text::digit(c) || c == '*' || c == '#' || ('A' <= c && c <= 'D')
}

/// The digit that ends dialing.
pub open spec fn terminator_setting(key: text::Text, raw: text::Text) -> Result<
    char,
    error::ErrorView,
> {
    let value = text::trimmed(raw);
    if value.len() != 1 {
        Err(error::invalid(key, raw, "one DTMF character"@, false))
    } else if is_dtmf(text::upper_char(value[0])) {
        Ok(text::upper_char(value[0]))
    } else {
        Err(error::invalid(key, raw, "one DTMF character: 0..9, *, #, or A..D"@, false))
    }
}

/// The digit that ends dialing.
pub fn parse_dial_terminator(key: &str, raw: &str) -> (r: Result<char, ConfigError>)
    ensures
        error::outcome(r) == terminator_setting(key@, raw@),
{
    let value = text::trim(raw);
    let v = text::to_chars(value.as_str());
    if v.len() != 1 {
        return Err(error::invalid_option(key, raw, "one DTMF character", false));
    }
    let c = text::to_upper(v[0]);
    if dtmf(c) {
        Ok(c)
    } else {
        Err(error::invalid_option(key, raw, "one DTMF character: 0..9, *, #, or A..D", false))
    }
}

/// Digits that a telephone can send, letters in either case.
pub open spec fn all_dtmf(value: text::Text) -> bool {
    forall|i: int| 0 <= i < value.len() ==> is_dtmf(text::upper_char(#[trigger] value[i]))
}

/// Up to nine digits behind which the secondary dial tone plays; empty text
/// clears the setting.
pub open spec fn prefix_setting(key: text::Text, raw: text::Text) -> Result<
    Option<text::Text>,
    error::ErrorView,
> {
    let value = text::trimmed(raw);
    if value.len() == 0 {
        Ok(None)
    } else if text::byte_len(value) > 9 || !all_dtmf(value) {
        Err(
            error::invalid(key, raw, "up to 9 DTMF characters: 0..9, *, #, or A..D"@, false),
        )
    } else {
        Ok(Some(text::upper(value)))
    }
}

/// Up to nine digits behind which the secondary dial tone plays.
pub fn parse_secondary_dialtone_digits(key: &str, raw: &str) -> (r: Result<
    Option<String>,
    ConfigError,
>)
    ensures
        error::outcome(r) == prefix_setting(key@, raw@),
{
    let value = text::trim(raw);
    if value.as_str().is_empty() {
        return Ok(None);
    }
    let v = text::to_chars(value.as_str());
    let mut good = true;
    let mut i: usize = 0;
    while i < v.len()
        invariant
            v@ == value@,
            i <= v@.len(),
            good == (forall|j: int|
                0 <= j < i ==> is_dtmf(text::upper_char(#[trigger] value@[j]))),
        decreases v.len() - i,
    {
        if !dtmf(text::to_upper(v[i])) {
            good = false;
        }
        i += 1;
    }
    if value.as_str().len() > 9 || !good {
        return Err(
            error::invalid_option(
                key,
                raw,
                "up to 9 DTMF characters: 0..9, *, #, or A..D",
                false,
            ),
        );
    }
    Ok(Some(text::to_ascii_uppercase(value.as_str())))
}

// ---------------------------------------------------------------------------
// Destinations

/// A destination: printable, not empty, of at most `max` bytes.
pub open spec fn is_destination(value: text::Text, max: usize) -> bool {
    value.len() > 0 && text::byte_len(value) <= max && !text::any_control(value)
}

/// A destination that is not shown where it is refused.
pub open spec fn destination_setting(key: text::Text, value: text::Text, max: usize) -> Result<
    Option<text::Text>,
    error::ErrorView,
> {
    if value.len() == 0 {
        Ok(None)
    } else if is_destination(value, max) {
        Ok(Some(value))
    } else {
        Err(error::invalid(key, "<redacted>"@, "a bounded printable destination"@, true))
    }
}

/// A destination; empty text or an off word clears the setting.
pub open spec fn switchable_destination(key: text::Text, raw: text::Text, max: usize) -> Result<
    Option<text::Text>,
    error::ErrorView,
> {
    let value = text::trimmed(raw);
    if is_off_word(value) {
        Ok(None)
    } else {
        destination_setting(key, value, max)
    }
}

/// A destination; empty text clears the setting.
pub open spec fn hotline_setting(key: text::Text, raw: text::Text, max: usize) -> Result<
    Option<text::Text>,
    error::ErrorView,
> {
    destination_setting(key, text::trimmed(raw), max)
}

/// Reads a destination.
fn parse_destination(key: &str, value: &str, max: usize) -> (r: Result<
    Option<String>,
    ConfigError,
>)
    ensures
        error::outcome(r) == destination_setting(key@, value@, max),
{
    if value.is_empty() {
        return Ok(None);
    }
    if value.len() <= max && !text::has_control(value) {
        Ok(Some(text::copy(value)))
    } else {
        Err(error::invalid_option(key, "<redacted>", "a bounded printable destination", true))
    }
}

/// Reads a destination that an off word clears.
fn parse_switchable(key: &str, raw: &str, max: usize) -> (r: Result<Option<String>, ConfigError>)
    ensures
        error::outcome(r) == switchable_destination(key@, raw@, max),
{
    let value = text::trim(raw);
    if off_word(value.as_str()) {
        return Ok(None);
    }
    parse_destination(key, value.as_str(), max)
}

/// The voicemail destination that a text gives.
pub open spec fn voicemail_view(v: Option<text::Text>) -> Option<policy::VoicemailDestinationView> {
    match v {
        Some(destination) => Some(policy::VoicemailDestinationView { destination }),
        None => None,
    }
}

/// Reads a voicemail destination of at most `max` bytes.
pub fn parse_optional_voicemail_destination(key: &str, raw: &str, max: usize) -> (r: Result<
    Option<VoicemailDestination>,
    ConfigError,
>)
    ensures
        error::outcome(r) == (match switchable_destination(key@, raw@, max) {
            Ok(v) => Ok(voicemail_view(v)),
            Err(e) => Err(e),
        }),
{
    match parse_switchable(key, raw, max) {
        Ok(Some(destination)) => Ok(Some(VoicemailDestination { destination })),
        Ok(None) => Ok(None),
        Err(e) => Err(e),
    }
}

/// The forwarding destination that a text gives.
pub open spec fn forwarding_view(v: Option<text::Text>) -> Option<policy::ForwardingDestinationView> {
    match v {
        Some(destination) => Some(policy::ForwardingDestinationView { destination }),
        None => None,
    }
}

/// Reads a forwarding destination of at most `max` bytes.
pub fn parse_optional_forwarding_destination(key: &str, raw: &str, max: usize) -> (r: Result<
    Option<ForwardingDestination>,
    ConfigError,
>)
    ensures
        error::outcome(r) == (match switchable_destination(key@, raw@, max) {
            Ok(v) => Ok(forwarding_view(v)),
            Err(e) => Err(e),
        }),
{
    match parse_switchable(key, raw, max) {
        Ok(Some(destination)) => Ok(Some(ForwardingDestination { destination })),
        Ok(None) => Ok(None),
        Err(e) => Err(e),
    }
}

/// The hotline destination that a text gives.
pub open spec fn hotline_view(v: Option<text::Text>) -> Option<policy::HotlineDestinationView> {
    match v {
        Some(destination) => Some(policy::HotlineDestinationView { destination }),
        None => None,
    }
}

/// Reads a hotline destination of at most `max` bytes.
pub fn parse_optional_hotline_destination(key: &str, raw: &str, max: usize) -> (r: Result<
    Option<HotlineDestination>,
    ConfigError,
>)
    ensures
        error::outcome(r) == (match hotline_setting(key@, raw@, max) {
            Ok(v) => Ok(hotline_view(v)),
            Err(e) => Err(e),
        }),
{
    match parse_destination(key, text::trim(raw).as_str(), max) {
        Ok(Some(destination)) => Ok(Some(HotlineDestination { destination })),
        Ok(None) => Ok(None),
        Err(e) => Err(e),
    }
}

impl VoicemailDestination {
    /// The destination of a text that is printable, not empty and of at most
    /// `max` bytes.
    pub fn new(value: &str, max: usize) -> (r: Option<VoicemailDestination>)
        ensures
            r is Some == is_destination(value@, max),
            r is Some ==> r->0.deep_view().destination == value@,
    {
        match parse_destination("", value, max) {
            Ok(Some(destination)) => Some(VoicemailDestination { destination }),
            _ => None,
        }
    }
}

// ---------------------------------------------------------------------------
// Parking buttons

/// The settings of a parking button: a lot, and optionally what retrieval does.
pub open spec fn parking_setting(key: text::Text, raw: Option<text::Text>) -> Result<
    policy::ParkingLotButtonConfigView,
    error::ErrorView,
> {
    let shown = match raw {
        Some(v) => v,
        None => Seq::empty(),
    };
    let source = match raw {
        Some(v) => v,
        None => "default,RetrieveSingle"@,
    };
    let fields = text::fields_of(source, ',');
    if fields.len() > 2 || fields[0].len() == 0 {
        Err(error::refused(key, shown))
    } else {
        let name = text::name_of(fields[1]);
        let retrieval = if fields.len() == 1 || name == "retrievesingle"@ {
            Some(ParkingRetrievalBehavior::RetrieveSingle)
        } else if name == "alwaysshowmenu"@ {
            Some(ParkingRetrievalBehavior::AlwaysShowMenu)
        } else {
            None
        };
        match retrieval {
            None => Err(error::refused(key, shown)),
            Some(retrieval) => match required_setting(key, fields[0]) {
                Err(e) => Err(e),
                Ok(lot) => Ok(policy::ParkingLotButtonConfigView { lot, retrieval }),
            },
        }
    }
}

/// The settings of a parking button.
pub fn parse_parking_lot_button(key: &str, raw: Option<&str>) -> (r: Result<
    ParkingLotButtonConfig,
    ConfigError,
>)
    ensures
        error::outcome(r) == parking_setting(key@, raw.deep_view()),
{
    let (shown, source) = match raw {
        Some(v) => (v, v),
        None => ("", "default,RetrieveSingle"),
    };
    proof {
        if raw is None {
            reveal_strlit("");
            assert(""@ =~= Seq::empty());
        }
    }
    let fields = text::fields(source, ',');
    let ghost all = fields.deep_view();
    assert(all[0] == fields@[0]@);
    if fields.len() > 2 || fields[0].as_str().is_empty() {
        return Err(error::invalid_value(key, shown));
    }
    let retrieval = if fields.len() == 1 {
        ParkingRetrievalBehavior::RetrieveSingle
    } else {
        assert(all[1] == fields@[1]@);
        let name = text::normalize_name(fields[1].as_str());
        if text::same(name.as_str(), "retrievesingle") {
            ParkingRetrievalBehavior::RetrieveSingle
        } else if text::same(name.as_str(), "alwaysshowmenu") {
            ParkingRetrievalBehavior::AlwaysShowMenu
        } else {
            return Err(error::invalid_value(key, shown));
        }
    };
    match parse_required_setting(key, fields[0].as_str()) {
        Err(e) => Err(e),
        Ok(lot) => Ok(ParkingLotButtonConfig { lot, retrieval }),
    }
}

} // verus!
