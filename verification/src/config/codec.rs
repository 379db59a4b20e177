//! Codec preferences and media encryption.

use vstd::prelude::*;

use crate::config::error;
use crate::config::error::ConfigError;
use crate::config::policy;
use crate::config::policy::MediaEncryptionPolicy;
use crate::config::policy::MediaEncryptionProfile;
use crate::config::policy::MediaEncryptionRequirement;
use crate::media::formats::audio;
use crate::station::Codec;
use crate::station::CodecKind;
use crate::text;

verus! {

pub const MAX_CODEC_PREFERENCES: usize = 32;

// ---------------------------------------------------------------------------
// Named groups of codecs

/// The station codecs that have an audio format, in their default order.
pub open spec fn mapped_audio() -> Seq<Codec> {
    seq![
        Codec::Pcmu,
        Codec::G711Ulaw56k,
        Codec::Pcma,
        Codec::G711Alaw56k,
        Codec::G72264k,
        Codec::G72256k,
        Codec::G72248k,
        Codec::G7231,
        Codec::G729,
        Codec::G729A,
        Codec::G729B,
        Codec::G729Ab,
        Codec::G729AnnexB,
        Codec::G726_32k,
        Codec::Gsm,
        Codec::Wideband256k,
        Codec::Ilbc,
        Codec::G7221_32k,
        Codec::Opus,
    ]
}

/// The codecs that a reduced name stands for.
pub open spec fn group_of(name: text::Text) -> Option<Seq<Codec>> {
    if name == "all"@ {
        Some(mapped_audio())
    } else if name == "is11172"@ {
        Some(seq![Codec::Is11172])
    } else if name == "is13872"@ {
        Some(seq![Codec::Is13818])
    } else if name == "gsm"@ {
        Some(seq![Codec::Gsm])
    } else if name == "slin16"@ {
        Some(seq![Codec::Wideband256k])
    } else if name == "activevoice"@ {
        Some(seq![Codec::ActiveVoice])
    } else if name == "alaw"@ {
        Some(seq![Codec::Pcma, Codec::G711Alaw56k])
    } else if name == "ulaw"@ {
        Some(seq![Codec::Pcmu, Codec::G711Ulaw56k])
    } else if name == "g722"@ {
        Some(seq![Codec::G72264k, Codec::G72256k, Codec::G72248k])
    } else if name == "g7221"@ {
        Some(seq![Codec::G7221_32k])
    } else if name == "g723"@ {
        Some(seq![Codec::G7231])
    } else if name == "g726"@ {
        Some(seq![Codec::G726_32k])
    } else if name == "g728"@ {
        Some(seq![Codec::G728])
    } else if name == "g729"@ {
        Some(seq![Codec::G729, Codec::G729A, Codec::G729B, Codec::G729Ab, Codec::G729AnnexB])
    } else if name == "ilbc"@ {
        Some(seq![Codec::Ilbc])
    } else if name == "isac"@ {
        Some(seq![Codec::Isac])
    } else if name == "opus"@ {
        Some(seq![Codec::Opus])
    } else if name == "h224"@ {
        Some(seq![Codec::H224])
    } else if name == "aac"@ {
        Some(seq![Codec::Aac])
    } else if name == "mp4alatm128"@ {
        Some(seq![Codec::Mp4aLatm128])
    } else if name == "mp4alatm64"@ {
        Some(seq![Codec::Mp4aLatm64])
    } else if name == "mp4alatm56"@ {
        Some(seq![Codec::Mp4aLatm56])
    } else if name == "mp4alatm48"@ {
        Some(seq![Codec::Mp4aLatm48])
    } else if name == "mp4alatm32"@ {
        Some(seq![Codec::Mp4aLatm32])
    } else if name == "mp4alatm24"@ {
        Some(seq![Codec::Mp4aLatm24])
    } else if name == "mp4alatmna"@ {
        Some(seq![Codec::Mp4aLatm])
    } else if name == "amr"@ {
        Some(seq![Codec::Amr])
    } else if name == "amrwb"@ {
        Some(seq![Codec::AmrWb])
    } else if name == "h261"@ {
        Some(seq![Codec::H261])
    } else if name == "h263"@ {
        Some(seq![Codec::H263, Codec::H263Plus])
    } else if name == "h264"@ {
        Some(seq![Codec::H264, Codec::H264Svc, Codec::H264Fec, Codec::H264Uc])
    } else if name == "h265"@ {
        Some(seq![Codec::H265])
    } else if name == "t120"@ {
        Some(seq![Codec::T120])
    } else if name == "data"@ {
        Some(seq![Codec::Data64k, Codec::Data56k])
    } else if name == "t38fax"@ {
        Some(seq![Codec::T38Fax])
    } else if name == "tote"@ {
        Some(seq![Codec::Tote])
    } else if name == "xv711u"@ {
        Some(seq![Codec::Xv150ModemRelay711u])
    } else if name == "v711u"@ {
        Some(seq![Codec::NseVbd711u])
    } else if name == "xv729a"@ {
        Some(seq![Codec::Xv150ModemRelay729a])
    } else if name == "v729a"@ {
        Some(seq![Codec::NseVbd729a])
    } else if name == "clearchan"@ {
        Some(seq![Codec::ClearChannel])
    } else if name == "univxcoder"@ {
        Some(seq![Codec::UniversalTranscoder])
    } else if name == "rfc2833"@ {
        Some(seq![Codec::DtmfOutOfBandRfc2833])
    } else if name == "passthrough"@ {
        Some(seq![Codec::DtmfPassthrough])
    } else if name == "dynamic"@ {
        Some(seq![Codec::DtmfDynamic])
    } else if name == "oob"@ {
        Some(seq![Codec::DtmfOutOfBand])
    } else if name == "rfc2833ib"@ {
        Some(seq![Codec::DtmfInBandRfc2833])
    } else if name == "cfb"@ {
        Some(seq![Codec::CfbTones])
    } else if name == "noaudio"@ {
        Some(seq![Codec::DtmfNoAudio])
    } else if name == "v150modem"@ {
        Some(seq![Codec::V150ModemRelay])
    } else if name == "v150sprt"@ {
        Some(seq![Codec::V150Sprt])
    } else if name == "v150sse"@ {
        Some(seq![Codec::V150Sse])
    } else {
        None
    }
}

/// The station codecs that have an audio format, in their default order.
pub fn mapped_audio_codecs() -> (r: Vec<Codec>)
    ensures
        r@ == mapped_audio(),
{
    let r = vec![
        Codec::Pcmu,
        Codec::G711Ulaw56k,
        Codec::Pcma,
        Codec::G711Alaw56k,
        Codec::G72264k,
        Codec::G72256k,
        Codec::G72248k,
        Codec::G7231,
        Codec::G729,
        Codec::G729A,
        Codec::G729B,
        Codec::G729Ab,
        Codec::G729AnnexB,
        Codec::G726_32k,
        Codec::Gsm,
        Codec::Wideband256k,
        Codec::Ilbc,
        Codec::G7221_32k,
        Codec::Opus,
    ];
    assert(r@ =~= mapped_audio());
    r
}

/// The codecs that a name stands for.
pub fn codec_group(raw: &str) -> (r: Option<Vec<Codec>>)
    ensures
        match group_of(text::name_of(raw@)) {
            Some(g) => r is Some && r->0@ == g,
            None => r is None,
        },
{
    let name = text::normalize_name(raw);
    let n = name.as_str();
    if text::same(n, "all") {
        return Some(mapped_audio_codecs());
    }
    let r = if text::same(n, "is11172") {
        vec![Codec::Is11172]
    } else if text::same(n, "is13872") {
        vec![Codec::Is13818]
    } else if text::same(n, "gsm") {
        vec![Codec::Gsm]
    } else if text::same(n, "slin16") {
        vec![Codec::Wideband256k]
    } else if text::same(n, "activevoice") {
        vec![Codec::ActiveVoice]
    } else if text::same(n, "alaw") {
        vec![Codec::Pcma, Codec::G711Alaw56k]
    } else if text::same(n, "ulaw") {
        vec![Codec::Pcmu, Codec::G711Ulaw56k]
    } else if text::same(n, "g722") {
        vec![Codec::G72264k, Codec::G72256k, Codec::G72248k]
    } else if text::same(n, "g7221") {
        vec![Codec::G7221_32k]
    } else if text::same(n, "g723") {
        vec![Codec::G7231]
    } else if text::same(n, "g726") {
        vec![Codec::G726_32k]
    } else if text::same(n, "g728") {
        vec![Codec::G728]
    } else if text::same(n, "g729") {
        vec![Codec::G729, Codec::G729A, Codec::G729B, Codec::G729Ab, Codec::G729AnnexB]
    } else if text::same(n, "ilbc") {
        vec![Codec::Ilbc]
    } else if text::same(n, "isac") {
        vec![Codec::Isac]
    } else if text::same(n, "opus") {
        vec![Codec::Opus]
    } else if text::same(n, "h224") {
        vec![Codec::H224]
    } else if text::same(n, "aac") {
        vec![Codec::Aac]
    } else if text::same(n, "mp4alatm128") {
        vec![Codec::Mp4aLatm128]
    } else if text::same(n, "mp4alatm64") {
        vec![Codec::Mp4aLatm64]
    } else if text::same(n, "mp4alatm56") {
        vec![Codec::Mp4aLatm56]
    } else if text::same(n, "mp4alatm48") {
        vec![Codec::Mp4aLatm48]
    } else if text::same(n, "mp4alatm32") {
        vec![Codec::Mp4aLatm32]
    } else if text::same(n, "mp4alatm24") {
        vec![Codec::Mp4aLatm24]
    } else if text::same(n, "mp4alatmna") {
        vec![Codec::Mp4aLatm]
    } else if text::same(n, "amr") {
        vec![Codec::Amr]
    } else if text::same(n, "amrwb") {
        vec![Codec::AmrWb]
    } else if text::same(n, "h261") {
        vec![Codec::H261]
    } else if text::same(n, "h263") {
        vec![Codec::H263, Codec::H263Plus]
    } else if text::same(n, "h264") {
        vec![Codec::H264, Codec::H264Svc, Codec::H264Fec, Codec::H264Uc]
    } else if text::same(n, "h265") {
        vec![Codec::H265]
    } else if text::same(n, "t120") {
        vec![Codec::T120]
    } else if text::same(n, "data") {
        vec![Codec::Data64k, Codec::Data56k]
    } else if text::same(n, "t38fax") {
        vec![Codec::T38Fax]
    } else if text::same(n, "tote") {
        vec![Codec::Tote]
    } else if text::same(n, "xv711u") {
        vec![Codec::Xv150ModemRelay711u]
    } else if text::same(n, "v711u") {
        vec![Codec::NseVbd711u]
    } else if text::same(n, "xv729a") {
        vec![Codec::Xv150ModemRelay729a]
    } else if text::same(n, "v729a") {
        vec![Codec::NseVbd729a]
    } else if text::same(n, "clearchan") {
        vec![Codec::ClearChannel]
    } else if text::same(n, "univxcoder") {
        vec![Codec::UniversalTranscoder]
    } else if text::same(n, "rfc2833") {
        vec![Codec::DtmfOutOfBandRfc2833]
    } else if text::same(n, "passthrough") {
        vec![Codec::DtmfPassthrough]
    } else if text::same(n, "dynamic") {
        vec![Codec::DtmfDynamic]
    } else if text::same(n, "oob") {
        vec![Codec::DtmfOutOfBand]
    } else if text::same(n, "rfc2833ib") {
        vec![Codec::DtmfInBandRfc2833]
    } else if text::same(n, "cfb") {
        vec![Codec::CfbTones]
    } else if text::same(n, "noaudio") {
        vec![Codec::DtmfNoAudio]
    } else if text::same(n, "v150modem") {
        vec![Codec::V150ModemRelay]
    } else if text::same(n, "v150sprt") {
        vec![Codec::V150Sprt]
    } else if text::same(n, "v150sse") {
        vec![Codec::V150Sse]
    } else {
        return None;
    };
    assert(r@ =~= group_of(n@)->0);
    Some(r)
}

// ---------------------------------------------------------------------------
// Preference settings

/// One `allow` or `disallow` setting.
#[derive(Debug, PartialEq, Eq)]
pub struct CodecSetting {
    pub allow: bool,
    pub raw: String,
}

pub struct CodecSettingView {
    pub allow: bool,
    pub raw: text::Text,
}

impl DeepView for CodecSetting {
    type V = CodecSettingView;

    open spec fn deep_view(&self) -> CodecSettingView {
        CodecSettingView { allow: self.allow, raw: self.raw@ }
    }
}

/// A list without one codec.
pub open spec fn without(list: Seq<Codec>, codec: Codec) -> Seq<Codec>
    decreases list.len(),
{
    if list.len() == 0 {
        Seq::empty()
    } else if list.last() == codec {
        without(list.drop_last(), codec)
    } else {
        without(list.drop_last(), codec).push(list.last())
    }
}

/// The preferences after the codecs of a group from one on: each leaves its
/// place, and, where it is allowed, comes last.
pub open spec fn after_group(
    key: text::Text,
    allow: bool,
    group: Seq<Codec>,
    i: int,
    list: Seq<Codec>,
) -> Result<Seq<Codec>, error::ErrorView>
    decreases group.len() - i,
{
    if i >= group.len() {
        Ok(list)
    } else if !allow {
        after_group(key, allow, group, i + 1, without(list, group[i]))
    } else if without(list, group[i]).len() >= MAX_CODEC_PREFERENCES {
        Err(error::refused(key, "more than 32 codec preferences"@))
    } else {
        after_group(key, allow, group, i + 1, without(list, group[i]).push(group[i]))
    }
}

/// The token behind a negation, or the whole.
pub open spec fn bare(token: text::Text) -> text::Text {
    if token.len() > 0 && token[0] == '!' {
        text::trimmed(token.skip(1))
    } else {
        token
    }
}

/// Whether a token is negated.
pub open spec fn negated(token: text::Text) -> bool {
    token.len() > 0 && token[0] == '!'
}

/// The preferences after one token.
pub open spec fn after_token(
    key: text::Text,
    allow: bool,
    raw: text::Text,
    token: text::Text,
    list: Seq<Codec>,
) -> Result<Seq<Codec>, error::ErrorView> {
    let allowed = allow != negated(token);
    let name = bare(token);
    if token.len() == 0 || name.len() == 0 {
        Err(error::refused(key, raw))
    } else if text::same_fold(name, "all"@) && !allowed {
        Ok(Seq::empty())
    } else {
        match group_of(text::name_of(name)) {
            None => Err(error::refused(key, name)),
            Some(group) => after_group(key, allowed, group, 0, list),
        }
    }
}

/// The preferences after the tokens from one on.
pub open spec fn after_tokens(
    key: text::Text,
    allow: bool,
    raw: text::Text,
    tokens: Seq<text::Text>,
    i: int,
    list: Seq<Codec>,
) -> Result<Seq<Codec>, error::ErrorView>
    decreases tokens.len() - i,
{
    if i >= tokens.len() {
        Ok(list)
    } else {
        match after_token(key, allow, raw, tokens[i], list) {
            Ok(next) => after_tokens(key, allow, raw, tokens, i + 1, next),
            Err(e) => Err(e),
        }
    }
}

/// Whether a list of tokens names all codecs beside others.
pub open spec fn mixes_all(tokens: Seq<text::Text>) -> bool {
    tokens.len() > 1 && exists|i: int|
        0 <= i < tokens.len() && text::same_fold(#[trigger] tokens[i], "all"@)
}

/// The preferences after one setting.
pub open spec fn after_setting(key: text::Text, s: CodecSettingView, list: Seq<Codec>) -> Result<
    Seq<Codec>,
    error::ErrorView,
> {
    let tokens = text::fields_of(s.raw, ',');
    if mixes_all(tokens) {
        Err(error::refused(key, s.raw))
    } else {
        after_tokens(key, s.allow, s.raw, tokens, 0, list)
    }
}

/// The preferences after the settings from one on.
pub open spec fn after_settings(
    key: text::Text,
    settings: Seq<CodecSettingView>,
    i: int,
    list: Seq<Codec>,
) -> Result<Seq<Codec>, error::ErrorView>
    decreases settings.len() - i,
{
    if i >= settings.len() {
        Ok(list)
    } else {
        match after_setting(key, settings[i], list) {
            Ok(next) => after_settings(key, settings, i + 1, next),
            Err(e) => Err(e),
        }
    }
}

/// Whether a codec carries audio.
pub open spec fn is_audio(codec: Codec) -> bool {
    codec.kind_of() == CodecKind::Audio
}

/// The first audio codec without an audio format.
pub open spec fn first_unmapped(list: Seq<Codec>) -> Option<Codec>
    decreases list.len(),
{
    if list.len() == 0 {
        None
    } else if is_audio(list[0]) && audio::mapped(list[0]) is Err {
        Some(list[0])
    } else {
        first_unmapped(list.skip(1))
    }
}

/// Whether a list has an audio codec.
pub open spec fn has_audio(list: Seq<Codec>) -> bool {
    exists|i: int| 0 <= i < list.len() && is_audio(#[trigger] list[i])
}

/// Why audio cannot be carried by a codec.
pub open spec fn unmapped_reason(codec: Codec) -> text::Text {
    match audio::reason_of(codec) {
        Some(reason) => reason,
        None => "codec has no Asterisk audio format mapping"@,
    }
}

/// The preferences that a list of settings gives, applied in order to none.
pub open spec fn preferences(key: text::Text, settings: Seq<CodecSettingView>) -> Result<
    Seq<Codec>,
    error::ErrorView,
> {
    match after_settings(key, settings, 0, Seq::empty()) {
        Err(e) => Err(e),
        Ok(list) => if !has_audio(list) {
            Err(error::refused(key, "at least one audio codec is required"@))
        } else {
            match first_unmapped(list) {
                Some(codec) => Err(error::refused(key, unmapped_reason(codec))),
                None => Ok(list),
            }
        },
    }
}

/// Takes one codec out of a list.
fn remove_codec(list: &Vec<Codec>, codec: Codec) -> (r: Vec<Codec>)
    ensures
        r@ == without(list@, codec),
{
    let mut r: Vec<Codec> = Vec::new();
    let mut i: usize = 0;
    assert(list@.take(0) =~= Seq::empty());
    while i < list.len()
        invariant
            i <= list@.len(),
            r@ == without(list@.take(i as int), codec),
        decreases list.len() - i,
    {
        assert(list@.take(i + 1).drop_last() =~= list@.take(i as int));
        if list[i] != codec {
            r.push(list[i]);
        }
        i += 1;
    }
    assert(list@.take(i as int) =~= list@);
    r
}

/// Applies a group of codecs.
fn apply_group(key: &str, allow: bool, group: &Vec<Codec>, from: Vec<Codec>) -> (r: Result<
    Vec<Codec>,
    ConfigError,
>)
    ensures
        error::listed(r) == after_group(key@, allow, group@, 0, from@),
{
    let mut list = from;
    let mut i: usize = 0;
    while i < group.len()
        invariant
            i <= group@.len(),
            after_group(key@, allow, group@, 0, from@) == after_group(
                key@,
                allow,
                group@,
                i as int,
                list@,
            ),
        decreases group.len() - i,
    {
        let mut next = remove_codec(&list, group[i]);
        if allow {
            if next.len() >= MAX_CODEC_PREFERENCES {
                return Err(error::invalid_value(key, "more than 32 codec preferences"));
            }
            next.push(group[i]);
        }
        list = next;
        i += 1;
    }
    Ok(list)
}

/// Applies one token.
fn apply_token(key: &str, allow: bool, raw: &str, token: &str, list: Vec<Codec>) -> (r: Result<
    Vec<Codec>,
    ConfigError,
>)
    ensures
        error::listed(r) == after_token(key@, allow, raw@, token@, list@),
{
    let c = text::to_chars(token);
    if c.len() == 0 {
        return Err(error::invalid_value(key, raw));
    }
    let mut allowed = allow;
    let name = if c[0] == '!' {
        allowed = !allow;
        let rest = text::from_chars(&c, 1, c.len());
        assert(rest@ =~= token@.skip(1));
        text::trim(rest.as_str())
    } else {
        text::copy(token)
    };
    if name.as_str().is_empty() {
        return Err(error::invalid_value(key, raw));
    }
    if text::eq_ignore_ascii_case(name.as_str(), "all") && !allowed {
        return Ok(Vec::new());
    }
    match codec_group(name.as_str()) {
        None => Err(error::invalid_value(key, name.as_str())),
        Some(group) => apply_group(key, allowed, &group, list),
    }
}

/// Whether a list of tokens names all codecs beside others.
fn names_all(tokens: &Vec<String>) -> (r: bool)
    ensures
        r == mixes_all(tokens.deep_view()),
{
    let ghost all = tokens.deep_view();
    if tokens.len() < 2 {
        return false;
    }
    let mut i: usize = 0;
    while i < tokens.len()
        invariant
            all == tokens.deep_view(),
            tokens@.len() > 1,
            i <= tokens@.len(),
            forall|j: int| 0 <= j < i ==> !text::same_fold(#[trigger] all[j], "all"@),
        decreases tokens.len() - i,
    {
        assert(all[i as int] == tokens@[i as int]@);
        if text::eq_ignore_ascii_case(tokens[i].as_str(), "all") {
            assert(text::same_fold(all[i as int], "all"@));
            return true;
        }
        i += 1;
    }
    false
}

/// Applies one setting.
fn apply_setting(key: &str, s: &CodecSetting, from: Vec<Codec>) -> (r: Result<
    Vec<Codec>,
    ConfigError,
>)
    ensures
        error::listed(r) == after_setting(key@, s.deep_view(), from@),
{
    let raw = s.raw.as_str();
    let tokens = text::fields(raw, ',');
    let ghost all = tokens.deep_view();
    if names_all(&tokens) {
        return Err(error::invalid_value(key, raw));
    }
    let mut list = from;
    let mut i: usize = 0;
    while i < tokens.len()
        invariant
            all == tokens.deep_view(),
            i <= tokens@.len(),
            after_setting(key@, s.deep_view(), from@) == after_tokens(
                key@,
                s.allow,
                raw@,
                all,
                i as int,
                list@,
            ),
        decreases tokens.len() - i,
    {
        assert(all[i as int] == tokens@[i as int]@);
        match apply_token(key, s.allow, raw, tokens[i].as_str(), list) {
            Ok(next) => {
                list = next;
            },
            Err(e) => return Err(e),
        }
        i += 1;
    }
    Ok(list)
}

/// Whether a list has an audio codec.
fn any_audio(list: &Vec<Codec>) -> (r: bool)
    ensures
        r == has_audio(list@),
{
    let mut i: usize = 0;
    while i < list.len()
        invariant
            i <= list@.len(),
            forall|j: int| 0 <= j < i ==> !is_audio(#[trigger] list@[j]),
        decreases list.len() - i,
    {
        if list[i].kind() == CodecKind::Audio {
            assert(is_audio(list@[i as int]));
            return true;
        }
        i += 1;
    }
    false
}

/// The first audio codec without an audio format.
fn find_unmapped(list: &Vec<Codec>) -> (r: Option<Codec>)
    ensures
        r == first_unmapped(list@),
{
    let mut i: usize = 0;
    assert(list@.skip(0) =~= list@);
    while i < list.len()
        invariant
            i <= list@.len(),
            first_unmapped(list@) == first_unmapped(list@.skip(i as int)),
        decreases list.len() - i,
    {
        assert(list@.skip(i as int)[0] == list@[i as int]);
        if list[i].kind() == CodecKind::Audio && audio::pbx_audio_format(list[i]).is_err() {
            return Some(list[i]);
        }
        assert(list@.skip(i as int).skip(1) =~= list@.skip(i + 1));
        i += 1;
    }
    None
}

/// Applies `allow` and `disallow` settings, in order, to an empty list.
pub fn apply_codec_settings(settings: &Vec<CodecSetting>, key: &str) -> (r: Result<
    Vec<Codec>,
    ConfigError,
>)
    ensures
        error::listed(r) == preferences(key@, settings.deep_view()),
{
    let ghost all = settings.deep_view();
    let mut list: Vec<Codec> = Vec::new();
    let mut i: usize = 0;
    while i < settings.len()
        invariant
            all == settings.deep_view(),
            i <= settings@.len(),
            after_settings(key@, all, 0, Seq::empty()) == after_settings(
                key@,
                all,
                i as int,
                list@,
            ),
        decreases settings.len() - i,
    {
        assert(all[i as int] == settings@[i as int].deep_view());
        match apply_setting(key, &settings[i], list) {
            Ok(next) => {
                list = next;
            },
            Err(e) => return Err(e),
        }
        i += 1;
    }
    if !any_audio(&list) {
        return Err(error::invalid_value(key, "at least one audio codec is required"));
    }
    match find_unmapped(&list) {
        Some(codec) => {
            let reason = match audio::unsupported_audio_reason(codec) {
                Some(reason) => reason,
                None => "codec has no Asterisk audio format mapping",
            };
            Err(error::invalid_value(key, reason))
        },
        None => Ok(list),
    }
}

// ---------------------------------------------------------------------------
// Laws

/// Codec preferences are distinct and few.
pub open spec fn is_preference_list(list: Seq<Codec>) -> bool {
    list.no_duplicates() && list.len() <= MAX_CODEC_PREFERENCES
}

/// Whatever the settings, accepted preferences name no codec twice, hold at
/// most the permitted number, hold an audio codec, and hold no audio codec
/// that has no audio format.
pub proof fn law_preferences_are_usable(key: text::Text, settings: Seq<CodecSettingView>)
    ensures
        preferences(key, settings) matches Ok(list) ==> is_preference_list(list) && has_audio(list)
            && forall|i: int|
            0 <= i < list.len() && is_audio(#[trigger] list[i]) ==> audio::mapped(list[i]) is Ok,
{
    lemma_after_settings(key, settings, 0, Seq::empty());
    if let Ok(list) = preferences(key, settings) {
        lemma_none_unmapped(list);
    }
}

proof fn lemma_none_unmapped(list: Seq<Codec>)
    requires
        first_unmapped(list) is None,
    ensures
        forall|i: int|
            0 <= i < list.len() && is_audio(#[trigger] list[i]) ==> audio::mapped(list[i]) is Ok,
    decreases list.len(),
{
    if list.len() > 0 {
        lemma_none_unmapped(list.skip(1));
        assert forall|i: int| 0 <= i < list.len() && is_audio(#[trigger] list[i]) implies
            audio::mapped(list[i]) is Ok by {
            if i > 0 {
                assert(list.skip(1)[i - 1] == list[i]);
            }
        }
    }
}

proof fn lemma_without(list: Seq<Codec>, codec: Codec)
    requires
        list.no_duplicates(),
    ensures
        without(list, codec).no_duplicates(),
        without(list, codec).len() <= list.len(),
        !without(list, codec).contains(codec),
        forall|c: Codec| #[trigger] without(list, codec).contains(c) ==> list.contains(c),
    decreases list.len(),
{
    if list.len() > 0 {
        let head = list.drop_last();
        lemma_without(head, codec);
        let w = without(head, codec);
        assert forall|c: Codec| #[trigger] without(list, codec).contains(c) implies list.contains(
            c,
        ) by {
            if w.contains(c) {
                assert(head.contains(c));
                let k = choose|k: int| 0 <= k < head.len() && head[k] == c;
                assert(list[k] == c);
            } else {
                let r = without(list, codec);
                let k = choose|k: int| 0 <= k < r.len() && r[k] == c;
                if k < w.len() {
                    assert(w[k] == c);
                }
                assert(list[list.len() - 1] == c);
            }
        }
        if list.last() != codec {
            let r = w.push(list.last());
            assert forall|a: int, b: int| 0 <= a < r.len() && 0 <= b < r.len() && a != b implies
                r[a] != r[b] by {
                if a == w.len() || b == w.len() {
                    let k = if a == w.len() {
                        b
                    } else {
                        a
                    };
                    assert(w.contains(w[k]));
                    assert(head.contains(w[k]));
                    let m = choose|m: int| 0 <= m < head.len() && head[m] == w[k];
                    assert(list[m] == w[k]);
                    assert(list[list.len() - 1] == list.last());
                }
            }
            assert forall|k: int| 0 <= k < r.len() implies r[k] != codec by {
                if k < w.len() {
                    assert(w.contains(w[k]));
                }
            }
        }
    }
}

proof fn lemma_after_group(key: text::Text, allow: bool, group: Seq<Codec>, i: int, list: Seq<Codec>)
    requires
        0 <= i,
        is_preference_list(list),
    ensures
        after_group(key, allow, group, i, list) matches Ok(next) ==> is_preference_list(next),
    decreases group.len() - i,
{
    if i < group.len() {
        lemma_without(list, group[i]);
        let w = without(list, group[i]);
        if !allow {
            lemma_after_group(key, allow, group, i + 1, w);
        } else if w.len() < MAX_CODEC_PREFERENCES {
            let r = w.push(group[i]);
            assert forall|a: int, b: int| 0 <= a < r.len() && 0 <= b < r.len() && a != b implies
                r[a] != r[b] by {
                if a == w.len() {
                    assert(w.contains(w[b]));
                } else if b == w.len() {
                    assert(w.contains(w[a]));
                }
            }
            lemma_after_group(key, allow, group, i + 1, r);
        }
    }
}

proof fn lemma_after_tokens(
    key: text::Text,
    allow: bool,
    raw: text::Text,
    tokens: Seq<text::Text>,
    i: int,
    list: Seq<Codec>,
)
    requires
        0 <= i,
        is_preference_list(list),
    ensures
        after_tokens(key, allow, raw, tokens, i, list) matches Ok(next) ==> is_preference_list(
            next,
        ),
    decreases tokens.len() - i,
{
    if i < tokens.len() {
        if let Some(group) = group_of(text::name_of(bare(tokens[i]))) {
            lemma_after_group(key, allow != negated(tokens[i]), group, 0, list);
        }
        if let Ok(next) = after_token(key, allow, raw, tokens[i], list) {
            lemma_after_tokens(key, allow, raw, tokens, i + 1, next);
        }
    }
}

proof fn lemma_after_settings(
    key: text::Text,
    settings: Seq<CodecSettingView>,
    i: int,
    list: Seq<Codec>,
)
    requires
        0 <= i,
        is_preference_list(list),
    ensures
        after_settings(key, settings, i, list) matches Ok(next) ==> is_preference_list(next),
    decreases settings.len() - i,
{
    if i < settings.len() {
        let s = settings[i];
        lemma_after_tokens(key, s.allow, s.raw, text::fields_of(s.raw, ','), 0, list);
        if let Ok(next) = after_setting(key, s, list) {
            lemma_after_settings(key, settings, i + 1, next);
        }
    }
}

// ---------------------------------------------------------------------------
// Media encryption

/// The requirement that a reduced name stands for.
pub open spec fn requirement_of(name: text::Text) -> Option<MediaEncryptionRequirement> {
    if name == "off"@ {
        Some(MediaEncryptionRequirement::Off)
    } else if name == "optional"@ {
        Some(MediaEncryptionRequirement::Optional)
    } else if name == "required"@ {
        Some(MediaEncryptionRequirement::Required)
    } else {
        None
    }
}

/// The profile of a canonical name.
pub open spec fn profile_of(name: text::Text) -> Option<MediaEncryptionProfile> {
    if name == "aes-128-hmac-sha1-80"@ {
        Some(MediaEncryptionProfile::Aes128HmacSha1_80)
    } else if name == "aes-128-hmac-sha1-32"@ {
        Some(MediaEncryptionProfile::Aes128HmacSha1_32)
    } else if name == "aead-aes-128-gcm"@ {
        Some(MediaEncryptionProfile::AeadAes128Gcm)
    } else if name == "aead-aes-256-gcm"@ {
        Some(MediaEncryptionProfile::AeadAes256Gcm)
    } else {
        None
    }
}

/// The profiles of the fields from one on, after those already read.
pub open spec fn profiles_from(
    key: text::Text,
    raw: text::Text,
    fields: Seq<text::Text>,
    i: int,
    list: Seq<MediaEncryptionProfile>,
) -> Result<Seq<MediaEncryptionProfile>, error::ErrorView>
    decreases fields.len() - i,
{
    if i >= fields.len() {
        Ok(list)
    } else {
        match profile_of(fields[i]) {
            Some(profile) => profiles_from(key, raw, fields, i + 1, list.push(profile)),
            None => Err(
                error::invalid(key, raw, "a canonical media-encryption profile list"@, false),
            ),
        }
    }
}

/// A media-encryption policy: a requirement, and profiles unless it is off.
pub open spec fn encryption_setting(key: text::Text, raw: text::Text) -> Result<
    policy::MediaEncryptionPolicyView,
    error::ErrorView,
> {
    let fields = text::fields_of(raw, ',');
    match requirement_of(text::name_of(fields[0])) {
        None => Err(
            error::invalid(
                key,
                raw,
                "off, optional,<profile...>, or required,<profile...>"@,
                false,
            ),
        ),
        Some(requirement) => match profiles_from(key, raw, fields, 1, Seq::empty()) {
            Err(e) => Err(e),
            Ok(profiles) => if (requirement == MediaEncryptionRequirement::Off) == (profiles.len()
                == 0) {
                Ok(policy::MediaEncryptionPolicyView { requirement, profiles })
            } else {
                Err(
                    error::invalid(
                        key,
                        raw,
                        "off without profiles, or optional/required with at least one profile"@,
                        false,
                    ),
                )
            },
        },
    }
}

/// Reads a requirement.
fn read_requirement(name: &str) -> (r: Option<MediaEncryptionRequirement>)
    ensures
        r == requirement_of(name@),
{
    if text::same(name, "off") {
        Some(MediaEncryptionRequirement::Off)
    } else if text::same(name, "optional") {
        Some(MediaEncryptionRequirement::Optional)
    } else if text::same(name, "required") {
        Some(MediaEncryptionRequirement::Required)
    } else {
        None
    }
}

/// Reads a profile.
fn read_profile(name: &str) -> (r: Option<MediaEncryptionProfile>)
    ensures
        r == profile_of(name@),
{
    if text::same(name, "aes-128-hmac-sha1-80") {
        Some(MediaEncryptionProfile::Aes128HmacSha1_80)
    } else if text::same(name, "aes-128-hmac-sha1-32") {
        Some(MediaEncryptionProfile::Aes128HmacSha1_32)
    } else if text::same(name, "aead-aes-128-gcm") {
        Some(MediaEncryptionProfile::AeadAes128Gcm)
    } else if text::same(name, "aead-aes-256-gcm") {
        Some(MediaEncryptionProfile::AeadAes256Gcm)
    } else {
        None
    }
}

/// Reads a media-encryption policy.
pub fn parse_media_encryption_policy(key: &str, raw: &str) -> (r: Result<
    MediaEncryptionPolicy,
    ConfigError,
>)
    ensures
        error::outcome(r) == encryption_setting(key@, raw@),
{
    let fields = text::fields(raw, ',');
    let ghost all = fields.deep_view();
    assert(all[0] == fields@[0]@);
    let requirement = match read_requirement(text::normalize_name(fields[0].as_str()).as_str()) {
        Some(x) => x,
        None => return Err(
            error::invalid_option(
                key,
                raw,
                "off, optional,<profile...>, or required,<profile...>",
                false,
            ),
        ),
    };
    let ghost whole = profiles_from(key@, raw@, all, 1, Seq::empty());
    let mut profiles: Vec<MediaEncryptionProfile> = Vec::new();
    let mut i: usize = 1;
    while i < fields.len()
        invariant
            all == fields.deep_view(),
            all == text::fields_of(raw@, ','),
            requirement_of(text::name_of(all[0])) == Some(requirement),
            1 <= i <= fields@.len(),
            whole == profiles_from(key@, raw@, all, 1, Seq::empty()),
            whole == profiles_from(key@, raw@, all, i as int, profiles@),
        decreases fields.len() - i,
    {
        assert(all[i as int] == fields@[i as int]@);
        match read_profile(fields[i].as_str()) {
            Some(p) => {
                profiles.push(p);
            },
            None => return Err(
                error::invalid_option(
                    key,
                    raw,
                    "a canonical media-encryption profile list",
                    false,
                ),
            ),
        }
        i += 1;
    }
    if (requirement == MediaEncryptionRequirement::Off) == (profiles.len() == 0) {
        Ok(MediaEncryptionPolicy { requirement, profiles })
    } else {
        Err(
            error::invalid_option(
                key,
                raw,
                "off without profiles, or optional/required with at least one profile",
                false,
            ),
        )
    }
}

} // verus!
