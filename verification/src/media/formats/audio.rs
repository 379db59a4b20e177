//! Audio formats: mapping and capability negotiation.

use vstd::prelude::*;

use crate::station::{Codec, CodecKind};

verus! {

/// Audio formats that the channel backend exposes.
#[derive(Clone, Copy, Debug, PartialEq, Eq, Hash, Structural)]
pub enum PbxAudioFormat {
    G711Ulaw,
    G711Alaw,
    G722,
    G723,
    G729,
    G726Aal2,
    Gsm,
    Slin16,
    Ilbc,
    Siren7,
    Opus,
}

/// Every format, in the order of their capability bits.
pub open spec fn all_formats() -> Seq<PbxAudioFormat> {
    seq![
        PbxAudioFormat::G711Ulaw,
        PbxAudioFormat::G711Alaw,
        PbxAudioFormat::G722,
        PbxAudioFormat::G723,
        PbxAudioFormat::G729,
        PbxAudioFormat::G726Aal2,
        PbxAudioFormat::Gsm,
        PbxAudioFormat::Slin16,
        PbxAudioFormat::Ilbc,
        PbxAudioFormat::Siren7,
        PbxAudioFormat::Opus,
    ]
}

/// The capability bit of a format.
pub open spec fn bit_of(format: PbxAudioFormat) -> u32 {
    match format {
        PbxAudioFormat::G711Ulaw => 0x1,
        PbxAudioFormat::G711Alaw => 0x2,
        PbxAudioFormat::G722 => 0x4,
        PbxAudioFormat::G723 => 0x8,
        PbxAudioFormat::G729 => 0x10,
        PbxAudioFormat::G726Aal2 => 0x20,
        PbxAudioFormat::Gsm => 0x40,
        PbxAudioFormat::Slin16 => 0x80,
        PbxAudioFormat::Ilbc => 0x100,
        PbxAudioFormat::Siren7 => 0x200,
        PbxAudioFormat::Opus => 0x400,
    }
}

/// The station codecs of a format, in preferred order.
pub open spec fn codecs_of(format: PbxAudioFormat) -> Seq<Codec> {
    match format {
        PbxAudioFormat::G711Ulaw => seq![Codec::Pcmu, Codec::G711Ulaw56k],
        PbxAudioFormat::G711Alaw => seq![Codec::Pcma, Codec::G711Alaw56k],
        PbxAudioFormat::G722 => seq![Codec::G72264k, Codec::G72256k, Codec::G72248k],
        PbxAudioFormat::G723 => seq![Codec::G7231],
        PbxAudioFormat::G729 => seq![
            Codec::G729,
            Codec::G729A,
            Codec::G729B,
            Codec::G729Ab,
            Codec::G729AnnexB,
        ],
        PbxAudioFormat::G726Aal2 => seq![Codec::G726_32k],
        PbxAudioFormat::Gsm => seq![Codec::Gsm],
        PbxAudioFormat::Slin16 => seq![Codec::Wideband256k],
        PbxAudioFormat::Ilbc => seq![Codec::Ilbc],
        PbxAudioFormat::Siren7 => seq![Codec::G7221_32k],
        PbxAudioFormat::Opus => seq![Codec::Opus],
    }
}

impl PbxAudioFormat {
    /// Every format, in the order of their capability bits.
    pub fn all() -> (r: Vec<PbxAudioFormat>)
        ensures
            r@ == all_formats(),
    {
        let r = vec![
            PbxAudioFormat::G711Ulaw,
            PbxAudioFormat::G711Alaw,
            PbxAudioFormat::G722,
            PbxAudioFormat::G723,
            PbxAudioFormat::G729,
            PbxAudioFormat::G726Aal2,
            PbxAudioFormat::Gsm,
            PbxAudioFormat::Slin16,
            PbxAudioFormat::Ilbc,
            PbxAudioFormat::Siren7,
            PbxAudioFormat::Opus,
        ];
        assert(r@ =~= all_formats());
        r
    }

    /// The capability bit of the format.
    pub fn capability_bit(self) -> (r: u32)
        ensures
            r == bit_of(self),
    {
        match self {
            PbxAudioFormat::G711Ulaw => 0x1,
            PbxAudioFormat::G711Alaw => 0x2,
            PbxAudioFormat::G722 => 0x4,
            PbxAudioFormat::G723 => 0x8,
            PbxAudioFormat::G729 => 0x10,
            PbxAudioFormat::G726Aal2 => 0x20,
            PbxAudioFormat::Gsm => 0x40,
            PbxAudioFormat::Slin16 => 0x80,
            PbxAudioFormat::Ilbc => 0x100,
            PbxAudioFormat::Siren7 => 0x200,
            PbxAudioFormat::Opus => 0x400,
        }
    }

    /// The station codecs of the format, in preferred order where the PBX does
    /// not tell their bit rates apart.
    pub fn station_codecs(self) -> (r: Vec<Codec>)
        ensures
            r@ == codecs_of(self),
    {
        let r = match self {
            PbxAudioFormat::G711Ulaw => vec![Codec::Pcmu, Codec::G711Ulaw56k],
            PbxAudioFormat::G711Alaw => vec![Codec::Pcma, Codec::G711Alaw56k],
            PbxAudioFormat::G722 => vec![Codec::G72264k, Codec::G72256k, Codec::G72248k],
            PbxAudioFormat::G723 => vec![Codec::G7231],
            PbxAudioFormat::G729 => vec![
                Codec::G729,
                Codec::G729A,
                Codec::G729B,
                Codec::G729Ab,
                Codec::G729AnnexB,
            ],
            PbxAudioFormat::G726Aal2 => vec![Codec::G726_32k],
            PbxAudioFormat::Gsm => vec![Codec::Gsm],
            PbxAudioFormat::Slin16 => vec![Codec::Wideband256k],
            PbxAudioFormat::Ilbc => vec![Codec::Ilbc],
            PbxAudioFormat::Siren7 => vec![Codec::G7221_32k],
            PbxAudioFormat::Opus => vec![Codec::Opus],
        };
        assert(r@ =~= codecs_of(self));
        r
    }
}

// ---------------------------------------------------------------------------
// Capability masks

/// The formats of a list whose bit a mask holds, in order.
pub open spec fn masked(formats: Seq<PbxAudioFormat>, mask: u32) -> Seq<PbxAudioFormat>
    decreases formats.len(),
{
    if formats.len() == 0 {
        Seq::empty()
    } else {
        let head = masked(formats.drop_last(), mask);
        if mask & bit_of(formats.last()) != 0 {
            head.push(formats.last())
        } else {
            head
        }
    }
}

/// The formats of a native capability mask, in order. Unknown bits are ignored.
pub fn pbx_audio_formats_from_mask(mask: u32) -> (r: Vec<PbxAudioFormat>)
    ensures
        r@ == masked(all_formats(), mask),
{
    let all = PbxAudioFormat::all();
    let mut r: Vec<PbxAudioFormat> = Vec::new();
    let mut i: usize = 0;
    assert(all@.take(0) =~= Seq::empty());
    while i < all.len()
        invariant
            i <= all@.len(),
            r@ == masked(all@.take(i as int), mask),
        decreases all.len() - i,
    {
        assert(all@.take(i + 1).drop_last() =~= all@.take(i as int));
        if mask & all[i].capability_bit() != 0 {
            r.push(all[i]);
        }
        i += 1;
    }
    assert(all@.take(i as int) =~= all@);
    r
}

/// A format is among those of a mask exactly if the mask holds its bit.
pub proof fn law_mask_selects_formats(mask: u32, format: PbxAudioFormat)
    ensures
        masked(all_formats(), mask).contains(format) <==> mask & bit_of(format) != 0,
{
    lemma_masked_contains(all_formats(), mask, format);
    let all = all_formats();
    assert(all.contains(format)) by {
        match format {
            PbxAudioFormat::G711Ulaw => assert(all[0] == format),
            PbxAudioFormat::G711Alaw => assert(all[1] == format),
            PbxAudioFormat::G722 => assert(all[2] == format),
            PbxAudioFormat::G723 => assert(all[3] == format),
            PbxAudioFormat::G729 => assert(all[4] == format),
            PbxAudioFormat::G726Aal2 => assert(all[5] == format),
            PbxAudioFormat::Gsm => assert(all[6] == format),
            PbxAudioFormat::Slin16 => assert(all[7] == format),
            PbxAudioFormat::Ilbc => assert(all[8] == format),
            PbxAudioFormat::Siren7 => assert(all[9] == format),
            PbxAudioFormat::Opus => assert(all[10] == format),
        }
    }
}

proof fn lemma_masked_contains(formats: Seq<PbxAudioFormat>, mask: u32, format: PbxAudioFormat)
    ensures
        masked(formats, mask).contains(format) <==> formats.contains(format) && mask & bit_of(
            format,
        ) != 0,
    decreases formats.len(),
{
    if formats.len() > 0 {
        let head = formats.drop_last();
        lemma_masked_contains(head, mask, format);
        assert(formats =~= head.push(formats.last()));
        assert(head.push(formats.last()).contains(format) <==> head.contains(format)
            || formats.last() == format) by {
            lemma_push_contains(head, formats.last(), format);
        }
        lemma_push_contains(masked(head, mask), formats.last(), format);
    }
}

proof fn lemma_push_contains<T>(s: Seq<T>, x: T, y: T)
    ensures
        s.push(x).contains(y) <==> s.contains(y) || x == y,
{
    if s.contains(y) {
        let i = choose|i: int| 0 <= i < s.len() && s[i] == y;
        assert(s.push(x)[i] == y);
    }
    if x == y {
        assert(s.push(x)[s.len() as int] == y);
    }
    if s.push(x).contains(y) && x != y {
        let i = choose|i: int| 0 <= i < s.push(x).len() && s.push(x)[i] == y;
        assert(s[i] == y);
    }
}

// ---------------------------------------------------------------------------
// Mapping

/// Why a station codec has no PBX audio format.
#[derive(Clone, Copy, Debug, PartialEq, Eq, Structural)]
pub enum AudioFormatError {
    NotAudio(Codec),
    Unsupported(Codec),
}

/// The PBX format of a station codec.
pub open spec fn format_of(codec: Codec) -> Option<PbxAudioFormat> {
    match codec {
        Codec::Pcmu | Codec::G711Ulaw56k => Some(PbxAudioFormat::G711Ulaw),
        Codec::Pcma | Codec::G711Alaw56k => Some(PbxAudioFormat::G711Alaw),
        Codec::G72264k | Codec::G72256k | Codec::G72248k => Some(PbxAudioFormat::G722),
        Codec::G7231 => Some(PbxAudioFormat::G723),
        Codec::G729 | Codec::G729A | Codec::G729B | Codec::G729Ab | Codec::G729AnnexB => Some(
            PbxAudioFormat::G729,
        ),
        Codec::G726_32k => Some(PbxAudioFormat::G726Aal2),
        Codec::Gsm => Some(PbxAudioFormat::Gsm),
        Codec::Wideband256k => Some(PbxAudioFormat::Slin16),
        Codec::Ilbc => Some(PbxAudioFormat::Ilbc),
        Codec::G7221_32k => Some(PbxAudioFormat::Siren7),
        Codec::Opus => Some(PbxAudioFormat::Opus),
        _ => None,
    }
}

/// Why the PBX has no format for an audio codec.
pub open spec fn reason_of(codec: Codec) -> Option<Seq<char>> {
    match codec {
        Codec::G728 => Some("Asterisk has no G.728 format"@),
        Codec::Is11172 | Codec::Is13818 => Some("Asterisk has no matching ISO audio format"@),
        Codec::GsmFullRate | Codec::GsmHalfRate | Codec::GsmEnhancedFullRate => Some(
            "cellular GSM variants are not Asterisk GSM 06.10"@,
        ),
        Codec::G7221_24k => Some("Asterisk Siren7 represents only G.722.1 at 32 kbit/s"@),
        Codec::Aac
        | Codec::Mp4aLatm128
        | Codec::Mp4aLatm64
        | Codec::Mp4aLatm56
        | Codec::Mp4aLatm48
        | Codec::Mp4aLatm32
        | Codec::Mp4aLatm24
        | Codec::Mp4aLatm => Some("Asterisk has no matching AAC/LATM audio format"@),
        Codec::ActiveVoice => Some("Asterisk has no ActiveVoice format"@),
        Codec::G726_24k | Codec::G726_16k => Some("Asterisk exposes only G.726 at 32 kbit/s"@),
        Codec::Isac => Some("Asterisk has no iSAC format"@),
        Codec::Amr | Codec::AmrWb => Some("Asterisk has no AMR audio format"@),
        _ => None,
    }
}

/// Explains why the PBX has no format for an audio codec.
pub fn unsupported_audio_reason(codec: Codec) -> (r: Option<&'static str>)
    ensures
        match r {
            Some(s) => reason_of(codec) == Some(s@),
            None => reason_of(codec) is None,
        },
{
    match codec {
        Codec::G728 => Some("Asterisk has no G.728 format"),
        Codec::Is11172 | Codec::Is13818 => Some("Asterisk has no matching ISO audio format"),
        Codec::GsmFullRate | Codec::GsmHalfRate | Codec::GsmEnhancedFullRate => Some(
            "cellular GSM variants are not Asterisk GSM 06.10",
        ),
        Codec::G7221_24k => Some("Asterisk Siren7 represents only G.722.1 at 32 kbit/s"),
        Codec::Aac
        | Codec::Mp4aLatm128
        | Codec::Mp4aLatm64
        | Codec::Mp4aLatm56
        | Codec::Mp4aLatm48
        | Codec::Mp4aLatm32
        | Codec::Mp4aLatm24
        | Codec::Mp4aLatm => Some("Asterisk has no matching AAC/LATM audio format"),
        Codec::ActiveVoice => Some("Asterisk has no ActiveVoice format"),
        Codec::G726_24k | Codec::G726_16k => Some("Asterisk exposes only G.726 at 32 kbit/s"),
        Codec::Isac => Some("Asterisk has no iSAC format"),
        Codec::Amr | Codec::AmrWb => Some("Asterisk has no AMR audio format"),
        _ => None,
    }
}

/// The PBX format of a station codec, or why it has none.
pub open spec fn mapped(codec: Codec) -> Result<PbxAudioFormat, AudioFormatError> {
    match format_of(codec) {
        Some(f) => Ok(f),
        None => if codec.kind_of() is Audio {
            Err(AudioFormatError::Unsupported(codec))
        } else {
            Err(AudioFormatError::NotAudio(codec))
        },
    }
}

/// Resolves a station codec without substituting another format.
pub fn pbx_audio_format(codec: Codec) -> (r: Result<PbxAudioFormat, AudioFormatError>)
    ensures
        r == mapped(codec),
{
    match codec {
        Codec::Pcmu | Codec::G711Ulaw56k => Ok(PbxAudioFormat::G711Ulaw),
        Codec::Pcma | Codec::G711Alaw56k => Ok(PbxAudioFormat::G711Alaw),
        Codec::G72264k | Codec::G72256k | Codec::G72248k => Ok(PbxAudioFormat::G722),
        Codec::G7231 => Ok(PbxAudioFormat::G723),
        Codec::G729 | Codec::G729A | Codec::G729B | Codec::G729Ab | Codec::G729AnnexB => Ok(
            PbxAudioFormat::G729,
        ),
        Codec::G726_32k => Ok(PbxAudioFormat::G726Aal2),
        Codec::Gsm => Ok(PbxAudioFormat::Gsm),
        Codec::Wideband256k => Ok(PbxAudioFormat::Slin16),
        Codec::Ilbc => Ok(PbxAudioFormat::Ilbc),
        Codec::G7221_32k => Ok(PbxAudioFormat::Siren7),
        Codec::Opus => Ok(PbxAudioFormat::Opus),
        _ => if codec.kind() == CodecKind::Audio {
            Err(AudioFormatError::Unsupported(codec))
        } else {
            Err(AudioFormatError::NotAudio(codec))
        },
    }
}

/// Every audio codec either has a PBX format or a reason why it has none, and
/// no other codec has either.
pub proof fn law_audio_codecs_are_decided(codec: Codec)
    ensures
        codec.kind_of() is Audio <==> (format_of(codec) is Some) != (reason_of(codec) is Some),
        !(format_of(codec) is Some && reason_of(codec) is Some),
{
}

/// The codecs of a format are exactly those that map to it.
pub proof fn law_station_codecs_map_back(format: PbxAudioFormat, codec: Codec)
    ensures
        codecs_of(format).contains(codec) <==> format_of(codec) == Some(format),
{
    let s = codecs_of(format);
    if format_of(codec) == Some(format) {
        match codec {
            Codec::G711Ulaw56k | Codec::G711Alaw56k | Codec::G72256k | Codec::G729A => assert(s[1]
                == codec),
            Codec::G72248k | Codec::G729B => assert(s[2] == codec),
            Codec::G729Ab => assert(s[3] == codec),
            Codec::G729AnnexB => assert(s[4] == codec),
            _ => assert(s[0] == codec),
        }
    }
}

// ---------------------------------------------------------------------------
// Negotiation

/// A codec that a station can use.
#[derive(Clone, Copy, Debug, PartialEq, Eq, Structural)]
pub struct MediaCapability {
    pub codec: Codec,
    pub max_packet_ms: u32,
}

/// The outcome of a negotiation.
#[derive(Clone, Copy, Debug, PartialEq, Eq, Structural)]
pub struct NegotiatedAudio {
    pub codec: Codec,
    pub pbx_format: PbxAudioFormat,
    pub packet_ms: u32,
    pub max_frames_per_packet: u32,
}

/// Why a negotiation fails.
#[derive(Clone, Copy, Debug, PartialEq, Eq, Structural)]
pub enum AudioNegotiationError {
    NoRepresentableConfiguredCodec,
    NoMutualCodec,
}

/// The audio packet duration that is used, in milliseconds.
pub const DEFAULT_AUDIO_PACKET_MS: u32 = 20;

/// No bound on the frames in a packet.
pub const DEFAULT_AUDIO_MAX_FRAMES_PER_PACKET: u32 = 0;

/// The codecs that a station offers and the policy allows, each once, in the
/// order in which the station offers them.
pub open spec fn offered(configured: Seq<Codec>, station: Seq<MediaCapability>) -> Seq<Codec>
    decreases station.len(),
{
    if station.len() == 0 {
        Seq::empty()
    } else {
        let head = offered(configured, station.drop_last());
        let codec = station.last().codec;
        if configured.contains(codec) && !head.contains(codec) {
            head.push(codec)
        } else {
            head
        }
    }
}

/// The codecs that are tried, in order.
pub open spec fn candidates(
    configured: Seq<Codec>,
    station: Option<Seq<MediaCapability>>,
) -> Seq<Codec> {
    match station {
        Some(capabilities) => offered(configured, capabilities),
        None => configured,
    }
}

/// The first capability of a codec, or the number of capabilities.
pub open spec fn first_capability(station: Seq<MediaCapability>, codec: Codec) -> nat
    decreases station.len(),
{
    if station.len() == 0 || station[0].codec == codec {
        0
    } else {
        1 + first_capability(station.skip(1), codec)
    }
}

/// The station takes packets of the duration that is used.
pub open spec fn packet_fits(station: Option<Seq<MediaCapability>>, codec: Codec) -> bool {
    match station {
        Some(capabilities) => {
            let i = first_capability(capabilities, codec);
            i < capabilities.len() && capabilities[i as int].max_packet_ms
                >= DEFAULT_AUDIO_PACKET_MS
        },
        None => true,
    }
}

/// A codec that both ends can use.
pub open spec fn is_mutual(
    codec: Codec,
    station: Option<Seq<MediaCapability>>,
    pbx: Seq<PbxAudioFormat>,
) -> bool {
    format_of(codec) is Some && pbx.contains(format_of(codec)->0) && packet_fits(station, codec)
}

/// The first codec of a list that both ends can use.
pub open spec fn first_mutual(
    codecs: Seq<Codec>,
    station: Option<Seq<MediaCapability>>,
    pbx: Seq<PbxAudioFormat>,
) -> Option<Codec>
    decreases codecs.len(),
{
    if codecs.len() == 0 {
        None
    } else if is_mutual(codecs[0], station, pbx) {
        Some(codecs[0])
    } else {
        first_mutual(codecs.skip(1), station, pbx)
    }
}

/// The outcome of a negotiation.
pub open spec fn negotiated(
    configured: Seq<Codec>,
    station: Option<Seq<MediaCapability>>,
    pbx: Seq<PbxAudioFormat>,
) -> Result<NegotiatedAudio, AudioNegotiationError> {
    let codecs = candidates(configured, station);
    match first_mutual(codecs, station, pbx) {
        Some(codec) => Ok(
            NegotiatedAudio {
                codec,
                pbx_format: format_of(codec)->0,
                packet_ms: DEFAULT_AUDIO_PACKET_MS,
                max_frames_per_packet: DEFAULT_AUDIO_MAX_FRAMES_PER_PACKET,
            },
        ),
        None => if exists|i: int|
            0 <= i < codecs.len() && format_of(#[trigger] codecs[i]) is Some {
            Err(AudioNegotiationError::NoMutualCodec)
        } else {
            Err(AudioNegotiationError::NoRepresentableConfiguredCodec)
        },
    }
}

/// Whether a list holds a codec.
fn holds_codec(list: &[Codec], codec: Codec) -> (r: bool)
    ensures
        r == list@.contains(codec),
{
    let mut i: usize = 0;
    while i < list.len()
        invariant
            i <= list@.len(),
            forall|j: int| 0 <= j < i ==> list@[j] != codec,
        decreases list.len() - i,
    {
        if list[i] == codec {
            return true;
        }
        i += 1;
    }
    false
}

/// Whether a list holds a format.
pub fn holds_format(list: &[PbxAudioFormat], format: PbxAudioFormat) -> (r: bool)
    ensures
        r == list@.contains(format),
{
    let mut i: usize = 0;
    while i < list.len()
        invariant
            i <= list@.len(),
            forall|j: int| 0 <= j < i ==> list@[j] != format,
        decreases list.len() - i,
    {
        if list[i] == format {
            return true;
        }
        i += 1;
    }
    false
}

/// The codecs that a station offers and the policy allows.
fn offer(configured: &[Codec], station: &[MediaCapability]) -> (r: Vec<Codec>)
    ensures
        r@ == offered(configured@, station@),
{
    let mut r: Vec<Codec> = Vec::new();
    let mut i: usize = 0;
    assert(station@.take(0) =~= Seq::empty());
    while i < station.len()
        invariant
            i <= station@.len(),
            r@ == offered(configured@, station@.take(i as int)),
        decreases station.len() - i,
    {
        assert(station@.take(i + 1).drop_last() =~= station@.take(i as int));
        let codec = station[i].codec;
        if holds_codec(configured, codec) && !holds_codec(r.as_slice(), codec) {
            r.push(codec);
        }
        i += 1;
    }
    assert(station@.take(i as int) =~= station@);
    r
}

/// Whether the station takes packets of the duration that is used.
fn fits(station: &[MediaCapability], codec: Codec) -> (r: bool)
    ensures
        r == packet_fits(Some(station@), codec),
{
    let mut i: usize = 0;
    assert(station@.skip(0) =~= station@);
    while i < station.len()
        invariant
            i <= station@.len(),
            first_capability(station@, codec) == i + first_capability(
                station@.skip(i as int),
                codec,
            ),
        decreases station.len() - i,
    {
        assert(station@.skip(i as int).skip(1) =~= station@.skip(i + 1));
        if station[i].codec == codec {
            return station[i].max_packet_ms >= DEFAULT_AUDIO_PACKET_MS;
        }
        i += 1;
    }
    false
}

/// The contents of an optional list of capabilities.
pub open spec fn capabilities_of(station: Option<&[MediaCapability]>) -> Option<
    Seq<MediaCapability>,
> {
    match station {
        Some(s) => Some(s@),
        None => None,
    }
}

/// Selects the codec of a call.
///
/// A station whose capabilities are known is served in its own order, within
/// the configured policy and by exact codec identifier. Where they are not
/// known yet, the configured order decides.
pub fn negotiate_audio(
    configured: &[Codec],
    station: Option<&[MediaCapability]>,
    pbx: &[PbxAudioFormat],
) -> (r: Result<NegotiatedAudio, AudioNegotiationError>)
    ensures
        r == negotiated(configured@, capabilities_of(station), pbx@),
{
    let codecs: Vec<Codec> = match station {
        Some(capabilities) => offer(configured, capabilities),
        None => {
            let mut all: Vec<Codec> = Vec::new();
            let mut k: usize = 0;
            while k < configured.len()
                invariant
                    k <= configured@.len(),
                    all@ == configured@.take(k as int),
                decreases configured.len() - k,
            {
                all.push(configured[k]);
                k += 1;
                assert(all@ =~= configured@.take(k as int));
            }
            assert(configured@.take(k as int) =~= configured@);
            all
        },
    };
    let ghost caps = capabilities_of(station);
    let mut representable = false;
    let mut i: usize = 0;
    assert(codecs@.skip(0) =~= codecs@);
    while i < codecs.len()
        invariant
            caps == capabilities_of(station),
            codecs@ == candidates(configured@, caps),
            i <= codecs@.len(),
            representable <==> exists|j: int|
                0 <= j < i && format_of(#[trigger] codecs@[j]) is Some,
            first_mutual(codecs@, caps, pbx@) == first_mutual(codecs@.skip(i as int), caps, pbx@),
        decreases codecs.len() - i,
    {
        let codec = codecs[i];
        assert(codecs@.skip(i as int).skip(1) =~= codecs@.skip(i + 1));
        match pbx_audio_format(codec) {
            Ok(pbx_format) => {
                representable = true;
                assert(format_of(codecs@[i as int]) is Some);
                let fit = match station {
                    Some(capabilities) => fits(capabilities, codec),
                    None => true,
                };
                if holds_format(pbx, pbx_format) && fit {
                    return Ok(
                        NegotiatedAudio {
                            codec,
                            pbx_format,
                            packet_ms: DEFAULT_AUDIO_PACKET_MS,
                            max_frames_per_packet: DEFAULT_AUDIO_MAX_FRAMES_PER_PACKET,
                        },
                    );
                }
            },
            Err(_) => {},
        }
        i += 1;
    }
    if representable {
        Err(AudioNegotiationError::NoMutualCodec)
    } else {
        Err(AudioNegotiationError::NoRepresentableConfiguredCodec)
    }
}

/// A negotiated codec is allowed by the policy, offered by a station whose
/// capabilities are known, and represented by a format that the PBX has.
pub proof fn law_negotiated_audio_is_mutual(
    configured: Seq<Codec>,
    station: Option<Seq<MediaCapability>>,
    pbx: Seq<PbxAudioFormat>,
)
    requires
        negotiated(configured, station, pbx) is Ok,
    ensures
        configured.contains(negotiated(configured, station, pbx)->Ok_0.codec),
        pbx.contains(negotiated(configured, station, pbx)->Ok_0.pbx_format),
        format_of(negotiated(configured, station, pbx)->Ok_0.codec) == Some(
            negotiated(configured, station, pbx)->Ok_0.pbx_format,
        ),
        station is Some ==> exists|i: int|
            0 <= i < station->0.len() && (#[trigger] station->0[i]).codec == negotiated(
                configured,
                station,
                pbx,
            )->Ok_0.codec && station->0[i].max_packet_ms >= DEFAULT_AUDIO_PACKET_MS,
{
    let codecs = candidates(configured, station);
    let codec = negotiated(configured, station, pbx)->Ok_0.codec;
    lemma_first_mutual(codecs, station, pbx);
    if let Some(capabilities) = station {
        lemma_offered(configured, capabilities, codec);
        lemma_first_capability(capabilities, codec);
    }
}

proof fn lemma_first_mutual(
    codecs: Seq<Codec>,
    station: Option<Seq<MediaCapability>>,
    pbx: Seq<PbxAudioFormat>,
)
    ensures
        first_mutual(codecs, station, pbx) matches Some(c) ==> codecs.contains(c) && is_mutual(
            c,
            station,
            pbx,
        ),
    decreases codecs.len(),
{
    if codecs.len() > 0 {
        assert(codecs.contains(codecs[0]));
        lemma_first_mutual(codecs.skip(1), station, pbx);
        if let Some(c) = first_mutual(codecs.skip(1), station, pbx) {
            let i = choose|i: int| 0 <= i < codecs.skip(1).len() && codecs.skip(1)[i] == c;
            assert(codecs[i + 1] == c);
        }
    }
}

proof fn lemma_offered(configured: Seq<Codec>, station: Seq<MediaCapability>, codec: Codec)
    ensures
        offered(configured, station).contains(codec) ==> configured.contains(codec),
    decreases station.len(),
{
    if station.len() > 0 {
        lemma_offered(configured, station.drop_last(), codec);
        lemma_push_contains(
            offered(configured, station.drop_last()),
            station.last().codec,
            codec,
        );
    }
}

proof fn lemma_first_capability(station: Seq<MediaCapability>, codec: Codec)
    ensures
        first_capability(station, codec) <= station.len(),
        first_capability(station, codec) < station.len() ==> station[first_capability(
            station,
            codec,
        ) as int].codec == codec,
    decreases station.len(),
{
    if station.len() > 0 && station[0].codec != codec {
        lemma_first_capability(station.skip(1), codec);
    }
}

/// A codec that a station whose capabilities are known can use with the PBX
/// makes the negotiation succeed: where the policy has the codec of a
/// capability, no capability in front is of that codec, packets of 20 ms fit
/// and the PBX has the format, a codec is chosen, and none that the station
/// offers later.
pub proof fn law_usable_capabilities_are_not_passed_over(
    configured: Seq<Codec>,
    station: Seq<MediaCapability>,
    pbx: Seq<PbxAudioFormat>,
    i: int,
)
    requires
        0 <= i < station.len(),
        configured.contains(station[i].codec),
        forall|j: int| 0 <= j < i ==> (#[trigger] station[j]).codec != station[i].codec,
        station[i].max_packet_ms >= 20,
        exists|f: PbxAudioFormat|
            #[trigger] pbx.contains(f) && codecs_of(f).contains(station[i].codec),
    ensures
        negotiated(configured, Some(station), pbx) is Ok,
        exists|k: int|
            0 <= k <= i && (#[trigger] station[k]).codec == negotiated(
                configured,
                Some(station),
                pbx,
            )->Ok_0.codec,
{
    let codec = station[i].codec;
    let codecs = offered(configured, station);
    let f = choose|f: PbxAudioFormat| #[trigger] pbx.contains(f) && codecs_of(f).contains(codec);
    law_station_codecs_map_back(f, codec);
    lemma_first_is(station, codec, i);
    let m = lemma_offered_up_to(configured, station, i);
    assert(is_mutual(codecs[m], Some(station), pbx));
    let n = lemma_mutual_up_to(codecs, Some(station), pbx, m);
    lemma_offered_place(configured, station, i, n);
}

/// While the capabilities of a station are not known, a configured codec whose
/// format the PBX has makes the negotiation succeed, with no codec that is
/// configured later.
pub proof fn law_configured_codecs_are_not_passed_over(
    configured: Seq<Codec>,
    pbx: Seq<PbxAudioFormat>,
    i: int,
)
    requires
        0 <= i < configured.len(),
        exists|f: PbxAudioFormat|
            #[trigger] pbx.contains(f) && codecs_of(f).contains(configured[i]),
    ensures
        negotiated(configured, None, pbx) is Ok,
        exists|k: int|
            0 <= k <= i && #[trigger] configured[k] == negotiated(configured, None, pbx)->Ok_0.codec,
{
    let f = choose|f: PbxAudioFormat|
        #[trigger] pbx.contains(f) && codecs_of(f).contains(configured[i]);
    law_station_codecs_map_back(f, configured[i]);
    assert(is_mutual(configured[i], None, pbx));
    let n = lemma_mutual_up_to(configured, None, pbx, i);
    assert(configured[n] == negotiated(configured, None, pbx)->Ok_0.codec);
}

/// A negotiated codec is configured, the PBX has the format that the codec is
/// of, and packets last 20 ms with no bound on their frames. Where the
/// capabilities of the station are known, the first one of the codec takes
/// such packets.
pub proof fn law_negotiated_audio_is_usable(
    configured: Seq<Codec>,
    station: Option<Seq<MediaCapability>>,
    pbx: Seq<PbxAudioFormat>,
)
    requires
        negotiated(configured, station, pbx) is Ok,
    ensures
        ({
            let n = negotiated(configured, station, pbx)->Ok_0;
            &&& configured.contains(n.codec)
            &&& pbx.contains(n.pbx_format)
            &&& codecs_of(n.pbx_format).contains(n.codec)
            &&& n.packet_ms == 20
            &&& n.max_frames_per_packet == 0
            &&& station matches Some(offer) ==> exists|i: int|
                {
                    &&& 0 <= i < offer.len()
                    &&& (#[trigger] offer[i]).codec == n.codec
                    &&& offer[i].max_packet_ms >= 20
                    &&& forall|j: int| 0 <= j < i ==> (#[trigger] offer[j]).codec != n.codec
                }
        }),
{
    let n = negotiated(configured, station, pbx)->Ok_0;
    law_negotiated_audio_is_mutual(configured, station, pbx);
    law_station_codecs_map_back(n.pbx_format, n.codec);
    lemma_first_mutual(candidates(configured, station), station, pbx);
    if let Some(offer) = station {
        lemma_first_capability(offer, n.codec);
        lemma_none_in_front(offer, n.codec);
        let i = first_capability(offer, n.codec) as int;
        assert(offer[i].codec == n.codec);
    }
}

/// A failed negotiation says whether the formats of the PBX could have helped:
/// some codec that was open to it has a PBX format, or none has.
pub proof fn law_failed_audio_negotiations_tell_why(
    configured: Seq<Codec>,
    station: Option<Seq<MediaCapability>>,
    pbx: Seq<PbxAudioFormat>,
)
    requires
        negotiated(configured, station, pbx) is Err,
    ensures
        negotiated(configured, station, pbx)->Err_0 is NoMutualCodec <==> exists|c: Codec|
            {
                &&& #[trigger] configured.contains(c)
                &&& exists|f: PbxAudioFormat| #[trigger] codecs_of(f).contains(c)
                &&& station matches Some(offer) ==> exists|i: int|
                    0 <= i < offer.len() && (#[trigger] offer[i]).codec == c
            },
{
    let codecs = candidates(configured, station);
    let e = negotiated(configured, station, pbx)->Err_0;
    if e is NoMutualCodec {
        let i = choose|i: int| 0 <= i < codecs.len() && format_of(#[trigger] codecs[i]) is Some;
        let c = codecs[i];
        let f = format_of(c)->0;
        law_station_codecs_map_back(f, c);
        assert(codecs_of(f).contains(c));
        assert(codecs.contains(c));
        if let Some(offer) = station {
            lemma_offered(configured, offer, c);
            assert(offer.take(offer.len() as int) =~= offer);
            lemma_offered_place(configured, offer, offer.len() - 1, i);
        }
        assert(configured.contains(c));
    }
    if exists|c: Codec|
        {
            &&& #[trigger] configured.contains(c)
            &&& exists|f: PbxAudioFormat| #[trigger] codecs_of(f).contains(c)
            &&& station matches Some(offer) ==> exists|i: int|
                0 <= i < offer.len() && (#[trigger] offer[i]).codec == c
        } {
        let c = choose|c: Codec|
            {
                &&& #[trigger] configured.contains(c)
                &&& exists|f: PbxAudioFormat| #[trigger] codecs_of(f).contains(c)
                &&& station matches Some(offer) ==> exists|i: int|
                    0 <= i < offer.len() && (#[trigger] offer[i]).codec == c
            };
        let f = choose|f: PbxAudioFormat| #[trigger] codecs_of(f).contains(c);
        law_station_codecs_map_back(f, c);
        if let Some(offer) = station {
            let i = choose|i: int| 0 <= i < offer.len() && (#[trigger] offer[i]).codec == c;
            let m = lemma_offered_up_to(configured, offer, i);
            assert(format_of(codecs[m]) is Some);
        } else {
            let m = choose|m: int| 0 <= m < configured.len() && configured[m] == c;
            assert(format_of(codecs[m]) is Some);
        }
    }
}

/// Which codecs are of which format: the bit rates of a format in the order of
/// preference.
pub proof fn law_codecs_of_formats()
    ensures
        codecs_of(PbxAudioFormat::G711Ulaw) == seq![Codec::Pcmu, Codec::G711Ulaw56k],
        codecs_of(PbxAudioFormat::G711Alaw) == seq![Codec::Pcma, Codec::G711Alaw56k],
        codecs_of(PbxAudioFormat::G722) == seq![Codec::G72264k, Codec::G72256k, Codec::G72248k],
        codecs_of(PbxAudioFormat::G723) == seq![Codec::G7231],
        codecs_of(PbxAudioFormat::G729) == seq![
            Codec::G729,
            Codec::G729A,
            Codec::G729B,
            Codec::G729Ab,
            Codec::G729AnnexB,
        ],
        codecs_of(PbxAudioFormat::G726Aal2) == seq![Codec::G726_32k],
        codecs_of(PbxAudioFormat::Gsm) == seq![Codec::Gsm],
        codecs_of(PbxAudioFormat::Slin16) == seq![Codec::Wideband256k],
        codecs_of(PbxAudioFormat::Ilbc) == seq![Codec::Ilbc],
        codecs_of(PbxAudioFormat::Siren7) == seq![Codec::G7221_32k],
        codecs_of(PbxAudioFormat::Opus) == seq![Codec::Opus],
{
}

/// The capability bits of the formats, from the lowest bit on in their order.
pub proof fn law_capability_bits_ascend()
    ensures
        all_formats().len() == 11,
        bit_of(PbxAudioFormat::G711Ulaw) == 1,
        bit_of(PbxAudioFormat::G711Alaw) == 2,
        bit_of(PbxAudioFormat::G722) == 4,
        bit_of(PbxAudioFormat::G723) == 8,
        bit_of(PbxAudioFormat::G729) == 16,
        bit_of(PbxAudioFormat::G726Aal2) == 32,
        bit_of(PbxAudioFormat::Gsm) == 64,
        bit_of(PbxAudioFormat::Slin16) == 128,
        bit_of(PbxAudioFormat::Ilbc) == 256,
        bit_of(PbxAudioFormat::Siren7) == 512,
        bit_of(PbxAudioFormat::Opus) == 1024,
        forall|i: int, j: int|
            0 <= i < j < all_formats().len() ==> bit_of(#[trigger] all_formats()[i]) < bit_of(
                #[trigger] all_formats()[j],
            ),
{
}

proof fn lemma_first_is(station: Seq<MediaCapability>, codec: Codec, i: int)
    requires
        0 <= i < station.len(),
        station[i].codec == codec,
        forall|j: int| 0 <= j < i ==> (#[trigger] station[j]).codec != codec,
    ensures
        first_capability(station, codec) == i,
    decreases i,
{
    if i > 0 {
        assert(station[0].codec != codec);
        let rest = station.skip(1);
        assert(rest[i - 1] == station[i]);
        assert forall|j: int| 0 <= j < i - 1 implies (#[trigger] rest[j]).codec != codec by {
            assert(rest[j] == station[j + 1]);
        }
        lemma_first_is(rest, codec, i - 1);
    }
}

proof fn lemma_none_in_front(station: Seq<MediaCapability>, codec: Codec)
    ensures
        forall|j: int|
            0 <= j < first_capability(station, codec) ==> (#[trigger] station[j]).codec != codec,
    decreases station.len(),
{
    if station.len() > 0 && station[0].codec != codec {
        let rest = station.skip(1);
        lemma_none_in_front(rest, codec);
        lemma_first_capability(station, codec);
        assert forall|j: int| 0 <= j < first_capability(station, codec) implies (
        #[trigger] station[j]).codec != codec by {
            if j > 0 {
                assert(rest[j - 1] == station[j]);
            }
        }
    }
}

/// A codec that the policy has is offered, at the latest with its capability.
proof fn lemma_offered_up_to(configured: Seq<Codec>, station: Seq<MediaCapability>, i: int) -> (m:
    int)
    requires
        0 <= i < station.len(),
        configured.contains(station[i].codec),
    ensures
        0 <= m < offered(configured, station.take(i + 1)).len(),
        offered(configured, station.take(i + 1)).len() <= offered(configured, station).len(),
        offered(configured, station)[m] == station[i].codec,
{
    let head = station.take(i + 1);
    assert(head.last() == station[i]);
    let before = offered(configured, head.drop_last());
    let codec = station[i].codec;
    lemma_push_contains(before, codec, codec);
    let all = offered(configured, head);
    assert(all.contains(codec));
    let m = choose|m: int| 0 <= m < all.len() && all[m] == codec;
    lemma_offered_prefix(configured, station, i + 1);
    m
}

proof fn lemma_offered_prefix(configured: Seq<Codec>, station: Seq<MediaCapability>, n: int)
    requires
        0 <= n <= station.len(),
    ensures
        offered(configured, station.take(n)).len() <= offered(configured, station).len(),
        forall|m: int|
            0 <= m < offered(configured, station.take(n)).len() ==> offered(
                configured,
                station.take(n),
            )[m] == #[trigger] offered(configured, station)[m],
    decreases station.len(),
{
    if n == station.len() {
        assert(station.take(n) =~= station);
    } else {
        let head = station.drop_last();
        assert(head.take(n) =~= station.take(n));
        lemma_offered_prefix(configured, head, n);
        let a = offered(configured, station.take(n));
        let b = offered(configured, head);
        let c = offered(configured, station);
        assert forall|m: int| 0 <= m < a.len() implies a[m] == #[trigger] c[m] by {
            assert(b[m] == c[m]);
        }
    }
}

/// What is offered at a place among the first capabilities is the codec of one
/// of them.
proof fn lemma_offered_place(configured: Seq<Codec>, station: Seq<MediaCapability>, i: int, n: int)
    requires
        0 <= i < station.len(),
        0 <= n < offered(configured, station.take(i + 1)).len(),
    ensures
        n < offered(configured, station).len(),
        exists|k: int|
            0 <= k <= i && (#[trigger] station[k]).codec == offered(configured, station)[n],
    decreases i,
{
    let head = station.take(i + 1);
    lemma_offered_prefix(configured, station, i + 1);
    assert(head.drop_last() =~= station.take(i));
    assert(head.last() == station[i]);
    let before = offered(configured, station.take(i));
    let all = offered(configured, head);
    assert(all[n] == offered(configured, station)[n]);
    if n < before.len() {
        assert(i > 0);
        lemma_offered_place(configured, station, i - 1, n);
    } else {
        assert(all[n] == station[i].codec);
    }
}

/// A mutual codec at a place is found there at the latest.
proof fn lemma_mutual_up_to(
    codecs: Seq<Codec>,
    station: Option<Seq<MediaCapability>>,
    pbx: Seq<PbxAudioFormat>,
    m: int,
) -> (n: int)
    requires
        0 <= m < codecs.len(),
        is_mutual(codecs[m], station, pbx),
    ensures
        0 <= n <= m,
        first_mutual(codecs, station, pbx) == Some(codecs[n]),
    decreases m,
{
    if is_mutual(codecs[0], station, pbx) {
        0
    } else {
        let rest = codecs.skip(1);
        assert(rest[m - 1] == codecs[m]);
        let n = lemma_mutual_up_to(rest, station, pbx, m - 1);
        assert(rest[n] == codecs[n + 1]);
        n + 1
    }
}

} // verus!
