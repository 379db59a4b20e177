//! Video formats: mapping and capability negotiation.

use std::sync::Arc;

use vstd::prelude::*;

use crate::media::formats::audio::MediaCapability;
use crate::station::{Codec, CodecKind};

verus! {

/// Video formats that the channel backend exposes.
#[derive(Clone, Copy, Debug, PartialEq, Eq, Hash, Structural)]
pub enum PbxVideoFormat {
    H261,
    H263,
    H263Plus,
    H264,
    H265,
}

/// Every format, in the order of their capability bits.
pub open spec fn all_formats() -> Seq<PbxVideoFormat> {
    seq![
        PbxVideoFormat::H261,
        PbxVideoFormat::H263,
        PbxVideoFormat::H263Plus,
        PbxVideoFormat::H264,
        PbxVideoFormat::H265,
    ]
}

/// The capability bit of a format.
pub open spec fn bit_of(format: PbxVideoFormat) -> u32 {
    match format {
        PbxVideoFormat::H261 => 0x1,
        PbxVideoFormat::H263 => 0x2,
        PbxVideoFormat::H263Plus => 0x4,
        PbxVideoFormat::H264 => 0x8,
        PbxVideoFormat::H265 => 0x10,
    }
}

/// The bits of every format.
pub const KNOWN_BITS: u32 = 0x1f;

/// An RTP payload number.
#[derive(Clone, Copy, Debug, PartialEq, Eq, Structural)]
pub struct RtpPayloadNumber {
    pub number: u8,
}

impl RtpPayloadNumber {
    pub fn get(self) -> (r: u8)
        ensures
            r == self.number,
    {
        self.number
    }
}

/// The RTP payload number of a format, where it has one.
pub open spec fn payload_of(format: PbxVideoFormat) -> Option<u8> {
    match format {
        PbxVideoFormat::H261 => Some(31),
        PbxVideoFormat::H263 => Some(34),
        PbxVideoFormat::H263Plus => Some(98),
        PbxVideoFormat::H264 => Some(103),
        PbxVideoFormat::H265 => None,
    }
}

impl PbxVideoFormat {
    /// Every format, in the order of their capability bits.
    pub fn all() -> (r: Vec<PbxVideoFormat>)
        ensures
            r@ == all_formats(),
    {
        let r = vec![
            PbxVideoFormat::H261,
            PbxVideoFormat::H263,
            PbxVideoFormat::H263Plus,
            PbxVideoFormat::H264,
            PbxVideoFormat::H265,
        ];
        assert(r@ =~= all_formats());
        r
    }

    /// The capability bit of the format.
    pub fn native_mask(self) -> (r: u32)
        ensures
            r == bit_of(self),
    {
        match self {
            PbxVideoFormat::H261 => 0x1,
            PbxVideoFormat::H263 => 0x2,
            PbxVideoFormat::H263Plus => 0x4,
            PbxVideoFormat::H264 => 0x8,
            PbxVideoFormat::H265 => 0x10,
        }
    }

    /// The RTP payload number of the format in a video instance of its own:
    /// the assigned one where there is one, else one that stays the same
    /// within this driver.
    pub fn payload_type(self) -> (r: Option<RtpPayloadNumber>)
        ensures
            match r {
                Some(n) => payload_of(self) == Some(n.number),
                None => payload_of(self) is None,
            },
    {
        match self {
            PbxVideoFormat::H261 => Some(RtpPayloadNumber { number: 31 }),
            PbxVideoFormat::H263 => Some(RtpPayloadNumber { number: 34 }),
            PbxVideoFormat::H263Plus => Some(RtpPayloadNumber { number: 98 }),
            PbxVideoFormat::H264 => Some(RtpPayloadNumber { number: 103 }),
            PbxVideoFormat::H265 => None,
        }
    }
}

// ---------------------------------------------------------------------------
// Capability masks

/// The formats of a list whose bit a mask holds, in order.
pub open spec fn masked(formats: Seq<PbxVideoFormat>, mask: u32) -> Seq<PbxVideoFormat>
    decreases formats.len(),
{
    if formats.len() == 0 {
        Seq::empty()
    } else {
        let head = masked(formats.drop_last(), mask);
        if mask & bit_of(formats.last()) != 0 {
            head.push(formats.last())
        } else {
            head
        }
    }
}

/// The known formats of a native capability mask and the bits that no format
/// has.
#[derive(Debug, PartialEq, Eq)]
pub struct DecodedPbxVideoFormats {
    supported: Vec<PbxVideoFormat>,
    unknown_bits: u32,
}

/// The contents of [`DecodedPbxVideoFormats`].
pub struct DecodedView {
    pub supported: Seq<PbxVideoFormat>,
    pub unknown_bits: u32,
}

impl View for DecodedPbxVideoFormats {
    type V = DecodedView;

    closed spec fn view(&self) -> DecodedView {
        DecodedView { supported: self.supported@, unknown_bits: self.unknown_bits }
    }
}

impl DecodedPbxVideoFormats {
    pub fn supported(&self) -> (r: &[PbxVideoFormat])
        ensures
            r@ == self@.supported,
    {
        self.supported.as_slice()
    }

    pub fn unknown_bits(&self) -> (r: u32)
        ensures
            r == self@.unknown_bits,
    {
        self.unknown_bits
    }

    pub fn is_exact(&self) -> (r: bool)
        ensures
            r == (self@.unknown_bits == 0),
    {
        self.unknown_bits == 0
    }
}

/// Decodes a native capability mask without losing unknown bits.
pub fn decode_pbx_video_formats(mask: u32) -> (r: DecodedPbxVideoFormats)
    ensures
        r@ == (DecodedView {
            supported: masked(all_formats(), mask),
            unknown_bits: mask & !KNOWN_BITS,
        }),
{
    DecodedPbxVideoFormats {
        supported: pbx_video_formats_from_mask(mask),
        unknown_bits: mask & !KNOWN_BITS,
    }
}

/// The formats of a native capability mask, in order. Unknown bits are ignored.
pub fn pbx_video_formats_from_mask(mask: u32) -> (r: Vec<PbxVideoFormat>)
    ensures
        r@ == masked(all_formats(), mask),
{
    let all = PbxVideoFormat::all();
    let mut r: Vec<PbxVideoFormat> = Vec::new();
    let mut i: usize = 0;
    assert(all@.take(0) =~= Seq::empty());
    while i < all.len()
        invariant
            i <= all@.len(),
            r@ == masked(all@.take(i as int), mask),
        decreases all.len() - i,
    {
        assert(all@.take(i + 1).drop_last() =~= all@.take(i as int));
        if mask & all[i].native_mask() != 0 {
            r.push(all[i]);
        }
        i += 1;
    }
    assert(all@.take(i as int) =~= all@);
    r
}

/// The bits of the formats of a list.
pub open spec fn bits_of(formats: Seq<PbxVideoFormat>) -> u32
    decreases formats.len(),
{
    if formats.len() == 0 {
        0
    } else {
        bits_of(formats.drop_last()) | bit_of(formats.last())
    }
}

proof fn lemma_bits_of_masked(formats: Seq<PbxVideoFormat>, mask: u32)
    ensures
        bits_of(masked(formats, mask)) == mask & bits_of(formats),
    decreases formats.len(),
{
    if formats.len() == 0 {
        assert(mask & 0 == 0) by (bit_vector);
    } else {
        let head = formats.drop_last();
        let b = bit_of(formats.last());
        let h = bits_of(head);
        lemma_bits_of_masked(head, mask);
        assert((mask & h) | (if mask & b != 0 {
            b
        } else {
            0
        }) == mask & (h | b)) by (bit_vector)
            requires
                b == 1 || b == 2 || b == 4 || b == 8 || b == 16,
        ;
        let taken = masked(head, mask);
        if mask & b != 0 {
            assert(taken.push(formats.last()).drop_last() =~= taken);
        } else {
            let t = bits_of(taken);
            assert(t | 0 == t) by (bit_vector);
        }
    }
}

/// The known formats and the unknown bits of a mask make up the mask again, and
/// no unknown bit is the bit of a format.
pub proof fn law_masks_are_decoded_without_loss(mask: u32)
    ensures
        bits_of(masked(all_formats(), mask)) | (mask & !KNOWN_BITS) == mask,
        bits_of(all_formats()) & (mask & !KNOWN_BITS) == 0,
{
    lemma_bits_of_masked(all_formats(), mask);
    let all = all_formats();
    assert(bits_of(all) == 0x1f) by {
        assert(all.drop_last() =~= seq![
            PbxVideoFormat::H261,
            PbxVideoFormat::H263,
            PbxVideoFormat::H263Plus,
            PbxVideoFormat::H264,
        ]);
        assert(all.drop_last().drop_last() =~= seq![
            PbxVideoFormat::H261,
            PbxVideoFormat::H263,
            PbxVideoFormat::H263Plus,
        ]);
        assert(all.drop_last().drop_last().drop_last() =~= seq![
            PbxVideoFormat::H261,
            PbxVideoFormat::H263,
        ]);
        assert(all.drop_last().drop_last().drop_last().drop_last() =~= seq![PbxVideoFormat::H261]);
        assert(all.drop_last().drop_last().drop_last().drop_last().drop_last() =~= seq![]);
        reveal_with_fuel(bits_of, 6);
        assert(0u32 | 1 | 2 | 4 | 8 | 16 == 0x1f) by (bit_vector);
    }
    assert((mask & 0x1f) | (mask & !0x1fu32) == mask) by (bit_vector);
    assert(0x1fu32 & (mask & !0x1fu32) == 0) by (bit_vector);
}

// ---------------------------------------------------------------------------
// Mapping

/// Why a station codec has no PBX video format.
#[derive(Clone, Copy, Debug, PartialEq, Eq, Structural)]
pub enum VideoFormatError {
    NotVideo(Codec),
    Unsupported(Codec),
    Unknown(u32),
}

/// The PBX format of a station codec.
pub open spec fn format_of(codec: Codec) -> Option<PbxVideoFormat> {
    match codec {
        Codec::H261 => Some(PbxVideoFormat::H261),
        Codec::H263 => Some(PbxVideoFormat::H263),
        Codec::H263Plus => Some(PbxVideoFormat::H263Plus),
        Codec::H264 => Some(PbxVideoFormat::H264),
        Codec::H265 => Some(PbxVideoFormat::H265),
        _ => None,
    }
}

/// The PBX format of a station codec, or why it has none.
pub open spec fn mapped(codec: Codec) -> Result<PbxVideoFormat, VideoFormatError> {
    match (codec, format_of(codec)) {
        (Codec::Unknown(value), _) => Err(VideoFormatError::Unknown(value)),
        (_, Some(format)) => Ok(format),
        (_, None) => if codec.kind_of() is Video {
            Err(VideoFormatError::Unsupported(codec))
        } else {
            Err(VideoFormatError::NotVideo(codec))
        },
    }
}

/// Resolves a station codec without substituting another one.
pub fn pbx_video_format(codec: Codec) -> (r: Result<PbxVideoFormat, VideoFormatError>)
    ensures
        r == mapped(codec),
{
    match codec {
        Codec::Unknown(value) => Err(VideoFormatError::Unknown(value)),
        Codec::H261 => Ok(PbxVideoFormat::H261),
        Codec::H263 => Ok(PbxVideoFormat::H263),
        Codec::H263Plus => Ok(PbxVideoFormat::H263Plus),
        Codec::H264 => Ok(PbxVideoFormat::H264),
        Codec::H265 => Ok(PbxVideoFormat::H265),
        _ => if codec.kind() == CodecKind::Video {
            Err(VideoFormatError::Unsupported(codec))
        } else {
            Err(VideoFormatError::NotVideo(codec))
        },
    }
}

/// Why the channel backend has no format for a video codec.
pub open spec fn reason_of(codec: Codec) -> Option<Seq<char>> {
    match codec {
        Codec::H264Svc | Codec::H264Fec | Codec::H264Uc => Some(
            "the channel backend has no distinct format for this H.264 capability"@,
        ),
        _ => None,
    }
}

/// Explains why the channel backend has no format for a video codec.
pub fn unsupported_video_reason(codec: Codec) -> (r: Option<&'static str>)
    ensures
        match r {
            Some(s) => reason_of(codec) == Some(s@),
            None => reason_of(codec) is None,
        },
{
    match codec {
        Codec::H264Svc | Codec::H264Fec | Codec::H264Uc => Some(
            "the channel backend has no distinct format for this H.264 capability",
        ),
        _ => None,
    }
}

/// Every video codec either has a PBX format or a reason why it has none, and
/// no other codec has either.
pub proof fn law_video_codecs_are_decided(codec: Codec)
    ensures
        codec.kind_of() is Video <==> (mapped(codec) is Ok) != (reason_of(codec) is Some),
        !(mapped(codec) is Ok && reason_of(codec) is Some),
{
}

// ---------------------------------------------------------------------------
// Negotiation

/// The directions in which media can flow, as a set of bits.
#[derive(Clone, Copy, Debug, PartialEq, Eq, Structural)]
pub struct ReceiveTransmit {
    pub bits: u32,
}

/// The bit of receiving.
pub const RECEIVE_BIT: u32 = 1;

/// The bit of transmitting.
pub const TRANSMIT_BIT: u32 = 2;

/// The bits of both directions.
pub const BOTH_BITS: u32 = 3;

impl ReceiveTransmit {
    /// The set has every direction of `other`.
    pub open spec fn covers(self, other: ReceiveTransmit) -> bool {
        self.bits & other.bits == other.bits
    }

    /// The set names at least one direction and nothing else.
    pub open spec fn is_known(self) -> bool {
        self.bits != 0 && self.bits & !BOTH_BITS == 0
    }

    pub fn empty() -> (r: ReceiveTransmit)
        ensures
            r.bits == 0,
    {
        ReceiveTransmit { bits: 0 }
    }

    pub fn receive() -> (r: ReceiveTransmit)
        ensures
            r.bits == RECEIVE_BIT,
    {
        ReceiveTransmit { bits: RECEIVE_BIT }
    }

    pub fn transmit() -> (r: ReceiveTransmit)
        ensures
            r.bits == TRANSMIT_BIT,
    {
        ReceiveTransmit { bits: TRANSMIT_BIT }
    }

    pub fn both() -> (r: ReceiveTransmit)
        ensures
            r.bits == BOTH_BITS,
    {
        ReceiveTransmit { bits: BOTH_BITS }
    }

    pub fn contains(self, other: ReceiveTransmit) -> (r: bool)
        ensures
            r == self.covers(other),
    {
        self.bits & other.bits == other.bits
    }
}

/// An operating level that a station prefers.
#[derive(Clone, Copy, Debug, PartialEq, Eq, Structural)]
pub struct VideoLevelPreference {
    pub transmit_preference: u32,
    pub format: u32,
    pub max_bit_rate: u32,
    pub min_bit_rate: u32,
    pub minimum_picture_interval: u32,
    pub service_number: u32,
}

#[derive(Clone, Copy, Debug, PartialEq, Eq, Structural)]
pub enum EncryptionCapability {
    NotCapable,
    Capable,
}

#[derive(Clone, Copy, Debug, PartialEq, Eq, Structural)]
pub enum IpAddressType {
    Ipv4,
    Ipv6,
    Ipv4AndIpv6,
}

/// A video codec that a station can use.
#[derive(Debug, PartialEq, Eq)]
pub struct VideoCapability {
    pub codec: Codec,
    pub direction: ReceiveTransmit,
    pub level_preferences: Vec<VideoLevelPreference>,
    pub codec_parameters: Vec<u32>,
    pub encryption_capability: Option<EncryptionCapability>,
    pub address_type: Option<IpAddressType>,
}

/// The media capabilities that a station registered with. Copies share one
/// snapshot.
#[derive(Debug, PartialEq, Eq)]
pub struct StationMediaCapabilities {
    audio: Arc<Vec<MediaCapability>>,
    video: Arc<Vec<VideoCapability>>,
}

impl StationMediaCapabilities {
    pub closed spec fn audio_list(&self) -> Seq<MediaCapability> {
        self.audio@
    }

    pub closed spec fn video_list(&self) -> Seq<VideoCapability> {
        self.video@
    }

    pub fn new(audio: Vec<MediaCapability>, video: Vec<VideoCapability>) -> (r: Self)
        ensures
            r.audio_list() == audio@,
            r.video_list() == video@,
    {
        StationMediaCapabilities { audio: Arc::new(audio), video: Arc::new(video) }
    }

    pub fn audio(&self) -> (r: &[MediaCapability])
        ensures
            r@ == self.audio_list(),
    {
        self.audio.as_slice()
    }

    pub fn video(&self) -> (r: &[VideoCapability])
        ensures
            r@ == self.video_list(),
    {
        self.video.as_slice()
    }
}

impl Clone for StationMediaCapabilities {
    fn clone(&self) -> (r: Self)
        ensures
            r.audio_list() == self.audio_list(),
            r.video_list() == self.video_list(),
    {
        StationMediaCapabilities { audio: self.audio.clone(), video: self.video.clone() }
    }
}

/// Why a negotiation fails.
#[derive(Clone, Copy, Debug, PartialEq, Eq, Structural)]
pub enum VideoNegotiationError {
    InvalidRequiredDirection,
    NoRepresentableConfiguredCodec,
    NoMutualCodec,
}

/// A format that both ends have, and the place of the station's capability.
#[derive(Clone, Copy, Debug, PartialEq, Eq, Structural)]
pub struct VideoMatch {
    pub pbx_format: PbxVideoFormat,
    pub capability_index: usize,
}

/// The first capability of a codec in the required directions, or the number of
/// capabilities.
pub open spec fn first_capability(
    station: Seq<VideoCapability>,
    codec: Codec,
    required: ReceiveTransmit,
) -> nat
    decreases station.len(),
{
    if station.len() == 0 || (station[0].codec == codec && station[0].direction.covers(required)) {
        0
    } else {
        1 + first_capability(station.skip(1), codec, required)
    }
}

/// A codec that both ends can use in the required directions.
pub open spec fn is_mutual(
    codec: Codec,
    station: Seq<VideoCapability>,
    pbx: Seq<PbxVideoFormat>,
    required: ReceiveTransmit,
) -> bool {
    &&& format_of(codec) is Some
    &&& pbx.contains(format_of(codec)->0)
    &&& first_capability(station, codec, required) < station.len()
}

/// The first codec of a list that both ends can use.
pub open spec fn first_mutual(
    codecs: Seq<Codec>,
    station: Seq<VideoCapability>,
    pbx: Seq<PbxVideoFormat>,
    required: ReceiveTransmit,
) -> Option<Codec>
    decreases codecs.len(),
{
    if codecs.len() == 0 {
        None
    } else if is_mutual(codecs[0], station, pbx, required) {
        Some(codecs[0])
    } else {
        first_mutual(codecs.skip(1), station, pbx, required)
    }
}

/// The outcome of a negotiation.
pub open spec fn selected(
    configured: Seq<Codec>,
    station: Seq<VideoCapability>,
    pbx: Seq<PbxVideoFormat>,
    required: ReceiveTransmit,
) -> Result<(PbxVideoFormat, nat), VideoNegotiationError> {
    if !required.is_known() {
        Err(VideoNegotiationError::InvalidRequiredDirection)
    } else {
        match first_mutual(configured, station, pbx, required) {
            Some(codec) => Ok((format_of(codec)->0, first_capability(station, codec, required))),
            None => if exists|i: int|
                0 <= i < configured.len() && format_of(#[trigger] configured[i]) is Some {
                Err(VideoNegotiationError::NoMutualCodec)
            } else {
                Err(VideoNegotiationError::NoRepresentableConfiguredCodec)
            },
        }
    }
}

/// Whether a list holds a format.
fn holds_format(list: &[PbxVideoFormat], format: PbxVideoFormat) -> (r: bool)
    ensures
        r == list@.contains(format),
{
    let mut i: usize = 0;
    while i < list.len()
        invariant
            i <= list@.len(),
            forall|j: int| 0 <= j < i ==> list@[j] != format,
        decreases list.len() - i,
    {
        if list[i] == format {
            return true;
        }
        i += 1;
    }
    false
}

/// The place of the first capability of a codec in the required directions.
fn find_capability(station: &[VideoCapability], codec: Codec, required: ReceiveTransmit) -> (r: usize)
    ensures
        r == first_capability(station@, codec, required),
        r <= station@.len(),
{
    let mut i: usize = 0;
    assert(station@.skip(0) =~= station@);
    while i < station.len()
        invariant
            i <= station@.len(),
            first_capability(station@, codec, required) == i + first_capability(
                station@.skip(i as int),
                codec,
                required,
            ),
        decreases station.len() - i,
    {
        assert(station@.skip(i as int).skip(1) =~= station@.skip(i + 1));
        if station[i].codec == codec && station[i].direction.contains(required) {
            return i;
        }
        i += 1;
    }
    i
}

/// Selects the first configured codec that the station and the PBX support.
fn select_video(
    configured: &[Codec],
    station: &[VideoCapability],
    pbx: &[PbxVideoFormat],
    required_direction: ReceiveTransmit,
) -> (r: Result<VideoMatch, VideoNegotiationError>)
    ensures
        match (r, selected(configured@, station@, pbx@, required_direction)) {
            (Ok(m), Ok(s)) => m.pbx_format == s.0 && m.capability_index == s.1 && s.1
                < station@.len(),
            (Err(e), Err(s)) => e == s,
            _ => false,
        },
{
    if required_direction.bits == 0 || required_direction.bits & !BOTH_BITS != 0 {
        return Err(VideoNegotiationError::InvalidRequiredDirection);
    }
    let mut representable = false;
    let mut i: usize = 0;
    assert(configured@.skip(0) =~= configured@);
    while i < configured.len()
        invariant
            required_direction.is_known(),
            i <= configured@.len(),
            representable <==> exists|j: int|
                0 <= j < i && format_of(#[trigger] configured@[j]) is Some,
            first_mutual(configured@, station@, pbx@, required_direction) == first_mutual(
                configured@.skip(i as int),
                station@,
                pbx@,
                required_direction,
            ),
        decreases configured.len() - i,
    {
        let codec = configured[i];
        assert(configured@.skip(i as int).skip(1) =~= configured@.skip(i + 1));
        match pbx_video_format(codec) {
            Ok(pbx_format) => {
                representable = true;
                assert(format_of(configured@[i as int]) is Some);
                if holds_format(pbx, pbx_format) {
                    let capability_index: usize = find_capability(
                        station,
                        codec,
                        required_direction,
                    );
                    if capability_index < station.len() {
                        return Ok(VideoMatch { pbx_format, capability_index });
                    }
                }
            },
            Err(_) => {},
        }
        i += 1;
    }
    if representable {
        Err(VideoNegotiationError::NoMutualCodec)
    } else {
        Err(VideoNegotiationError::NoRepresentableConfiguredCodec)
    }
}

/// A format that both ends have, with the station's complete capability.
#[derive(Clone, Copy, Debug, PartialEq, Eq)]
pub struct NegotiatedVideo<'station> {
    pub pbx_format: PbxVideoFormat,
    capability: &'station VideoCapability,
}

impl<'station> NegotiatedVideo<'station> {
    /// The PBX format.
    pub closed spec fn chosen(&self) -> PbxVideoFormat {
        self.pbx_format
    }

    /// The station's capability.
    pub closed spec fn offer(&self) -> VideoCapability {
        *self.capability
    }

    pub fn codec(&self) -> (r: Codec)
        ensures
            r == self.offer().codec,
    {
        self.capability.codec
    }

    pub fn capability(&self) -> (r: &'station VideoCapability)
        ensures
            *r == self.offer(),
    {
        self.capability
    }
}

/// Selects the first configured codec that the station and the PBX support.
///
/// The configured order decides. A station capability has to be of the exact
/// codec and to have every required direction. It is handed on whole.
pub fn negotiate_video<'station>(
    configured: &[Codec],
    station: &'station [VideoCapability],
    pbx: &[PbxVideoFormat],
    required_direction: ReceiveTransmit,
) -> (r: Result<NegotiatedVideo<'station>, VideoNegotiationError>)
    ensures
        match (r, selected(configured@, station@, pbx@, required_direction)) {
            (Ok(n), Ok(s)) => n.chosen() == s.0 && s.1 < station@.len() && n.offer()
                == station@[s.1 as int],
            (Err(e), Err(s)) => e == s,
            _ => false,
        },
{
    match select_video(configured, station, pbx, required_direction) {
        Ok(found) => Ok(
            NegotiatedVideo {
                pbx_format: found.pbx_format,
                capability: &station[found.capability_index],
            },
        ),
        Err(e) => Err(e),
    }
}

// ---------------------------------------------------------------------------
// Commands

/// A picture format by its wire number.
#[derive(Clone, Copy, Debug, PartialEq, Eq, Structural)]
pub struct VideoFormat {
    pub number: u32,
}

#[derive(Clone, Copy, Debug, PartialEq, Eq, Structural)]
pub struct MultimediaPictureFormat {
    pub format: VideoFormat,
    pub minimum_picture_interval: u32,
}

/// The codec parameters of a video command.
#[derive(Clone, Copy, Debug, PartialEq, Eq, Structural)]
pub enum MultimediaVideoCapabilityArm {
    H261 { temporal_spatial_trade_off_capability: u32, still_image_transmission: u32 },
    H263 { capability_bitfield: u32, annex_n_and_w_future_use: u32 },
    H263Plus { model_number: u32, bandwidth: u32 },
    H264 {
        profile: u32,
        level: u32,
        custom_max_mbps: u32,
        custom_max_fs: u32,
        custom_max_dpb: u32,
        custom_max_br_and_cpb: u32,
    },
}

impl MultimediaVideoCapabilityArm {
    /// The codec whose parameters these are.
    pub open spec fn codec_of(self) -> Codec {
        match self {
            MultimediaVideoCapabilityArm::H261 { .. } => Codec::H261,
            MultimediaVideoCapabilityArm::H263 { .. } => Codec::H263,
            MultimediaVideoCapabilityArm::H263Plus { .. } => Codec::H263Plus,
            MultimediaVideoCapabilityArm::H264 { .. } => Codec::H264,
        }
    }
}

/// What a video command says of the stream. Commands of this driver name one
/// picture format.
#[derive(Clone, Copy, Debug, PartialEq, Eq, Structural)]
pub struct MultimediaPayload {
    pub payload_number: RtpPayloadNumber,
    pub bit_rate: u32,
    pub picture_format: MultimediaPictureFormat,
    pub conference_service_number: u32,
    pub arm: MultimediaVideoCapabilityArm,
}

impl MultimediaPayload {
    pub fn codec(&self) -> (r: Codec)
        ensures
            r == self.arm.codec_of(),
    {
        match self.arm {
            MultimediaVideoCapabilityArm::H261 { .. } => Codec::H261,
            MultimediaVideoCapabilityArm::H263 { .. } => Codec::H263,
            MultimediaVideoCapabilityArm::H263Plus { .. } => Codec::H263Plus,
            MultimediaVideoCapabilityArm::H264 { .. } => Codec::H264,
        }
    }
}

/// Why a capability cannot be put into a command.
#[derive(Clone, Copy, Debug, PartialEq, Eq, Structural)]
pub enum VideoDescriptorError {
    UnsupportedCodec(Codec),
    MissingLevelPreference,
    MissingCodecParameters { codec: Codec, required: usize, actual: usize },
}

/// The number of parameters of a codec in a command.
pub open spec fn parameters_needed(codec: Codec) -> Option<usize> {
    match codec {
        Codec::H261 | Codec::H263 | Codec::H263Plus => Some(2),
        Codec::H264 => Some(6),
        _ => None,
    }
}

/// The parameters of a codec in a command.
pub open spec fn arm_of(codec: Codec, p: Seq<u32>) -> MultimediaVideoCapabilityArm {
    match codec {
        Codec::H261 => MultimediaVideoCapabilityArm::H261 {
            temporal_spatial_trade_off_capability: p[0],
            still_image_transmission: p[1],
        },
        Codec::H263 => MultimediaVideoCapabilityArm::H263 {
            capability_bitfield: p[0],
            annex_n_and_w_future_use: p[1],
        },
        Codec::H263Plus => MultimediaVideoCapabilityArm::H263Plus {
            model_number: p[0],
            bandwidth: p[1],
        },
        _ => MultimediaVideoCapabilityArm::H264 {
            profile: p[0],
            level: p[1],
            custom_max_mbps: p[2],
            custom_max_fs: p[3],
            custom_max_dpb: p[4],
            custom_max_br_and_cpb: p[5],
        },
    }
}

/// What a command says of a capability: its first operating level and the
/// parameters of its codec.
pub open spec fn described(c: VideoCapability, payload: RtpPayloadNumber) -> Result<
    MultimediaPayload,
    VideoDescriptorError,
> {
    if c.level_preferences@.len() == 0 {
        Err(VideoDescriptorError::MissingLevelPreference)
    } else {
        match parameters_needed(c.codec) {
            None => Err(VideoDescriptorError::UnsupportedCodec(c.codec)),
            Some(required) => if c.codec_parameters@.len() < required {
                Err(
                    VideoDescriptorError::MissingCodecParameters {
                        codec: c.codec,
                        required,
                        actual: c.codec_parameters@.len() as usize,
                    },
                )
            } else {
                let level = c.level_preferences@[0];
                Ok(
                    MultimediaPayload {
                        payload_number: payload,
                        bit_rate: level.max_bit_rate,
                        picture_format: MultimediaPictureFormat {
                            format: VideoFormat { number: level.format },
                            minimum_picture_interval: level.minimum_picture_interval,
                        },
                        conference_service_number: level.service_number,
                        arm: arm_of(c.codec, c.codec_parameters@),
                    },
                )
            },
        }
    }
}

/// A negotiated format that keeps the snapshot of the station alive.
#[derive(Debug, PartialEq, Eq)]
pub struct OwnedNegotiatedVideo {
    pub pbx_format: PbxVideoFormat,
    station: StationMediaCapabilities,
    capability_index: usize,
}

impl OwnedNegotiatedVideo {
    /// The selected capability is one of the snapshot.
    pub closed spec fn is_valid(&self) -> bool {
        self.capability_index < self.station.video_list().len()
    }

    /// The PBX format.
    pub closed spec fn chosen(&self) -> PbxVideoFormat {
        self.pbx_format
    }

    /// The station's capability.
    pub closed spec fn offer(&self) -> VideoCapability {
        self.station.video_list()[self.capability_index as int]
    }

    pub fn codec(&self) -> (r: Codec)
        requires
            self.is_valid(),
        ensures
            r == self.offer().codec,
    {
        self.capability().codec
    }

    pub fn capability(&self) -> (r: &VideoCapability)
        requires
            self.is_valid(),
        ensures
            *r == self.offer(),
    {
        &self.station.video()[self.capability_index]
    }

    /// What the commands that open reception and start transmission say of the
    /// selected capability.
    pub fn multimedia_payload(&self, payload_type: RtpPayloadNumber) -> (r: Result<
        MultimediaPayload,
        VideoDescriptorError,
    >)
        requires
            self.is_valid(),
        ensures
            r == described(self.offer(), payload_type),
    {
        let capability = self.capability();
        if capability.level_preferences.len() == 0 {
            return Err(VideoDescriptorError::MissingLevelPreference);
        }
        let level = capability.level_preferences[0];
        let required: usize = match capability.codec {
            Codec::H261 | Codec::H263 | Codec::H263Plus => 2,
            Codec::H264 => 6,
            codec => return Err(VideoDescriptorError::UnsupportedCodec(codec)),
        };
        let parameters = &capability.codec_parameters;
        if parameters.len() < required {
            return Err(
                VideoDescriptorError::MissingCodecParameters {
                    codec: capability.codec,
                    required,
                    actual: parameters.len(),
                },
            );
        }
        let arm = match capability.codec {
            Codec::H261 => MultimediaVideoCapabilityArm::H261 {
                temporal_spatial_trade_off_capability: parameters[0],
                still_image_transmission: parameters[1],
            },
            Codec::H263 => MultimediaVideoCapabilityArm::H263 {
                capability_bitfield: parameters[0],
                annex_n_and_w_future_use: parameters[1],
            },
            Codec::H263Plus => MultimediaVideoCapabilityArm::H263Plus {
                model_number: parameters[0],
                bandwidth: parameters[1],
            },
            _ => MultimediaVideoCapabilityArm::H264 {
                profile: parameters[0],
                level: parameters[1],
                custom_max_mbps: parameters[2],
                custom_max_fs: parameters[3],
                custom_max_dpb: parameters[4],
                custom_max_br_and_cpb: parameters[5],
            },
        };
        Ok(
            MultimediaPayload {
                payload_number: payload_type,
                bit_rate: level.max_bit_rate,
                picture_format: MultimediaPictureFormat {
                    format: VideoFormat { number: level.format },
                    minimum_picture_interval: level.minimum_picture_interval,
                },
                conference_service_number: level.service_number,
                arm,
            },
        )
    }
}

/// As [`negotiate_video`], with an outcome that can outlive the borrow.
pub fn negotiate_video_owned(
    configured: &[Codec],
    station: StationMediaCapabilities,
    pbx: &[PbxVideoFormat],
    required_direction: ReceiveTransmit,
) -> (r: Result<OwnedNegotiatedVideo, VideoNegotiationError>)
    ensures
        match (r, selected(configured@, station.video_list(), pbx@, required_direction)) {
            (Ok(n), Ok(s)) => {
                &&& n.is_valid()
                &&& n.chosen() == s.0
                &&& s.1 < station.video_list().len()
                &&& n.offer() == station.video_list()[s.1 as int]
            },
            (Err(e), Err(s)) => e == s,
            _ => false,
        },
{
    match select_video(configured, station.video(), pbx, required_direction) {
        Ok(found) => Ok(
            OwnedNegotiatedVideo {
                pbx_format: found.pbx_format,
                station,
                capability_index: found.capability_index,
            },
        ),
        Err(e) => Err(e),
    }
}

// ---------------------------------------------------------------------------
// Laws

proof fn lemma_first_capability(
    station: Seq<VideoCapability>,
    codec: Codec,
    required: ReceiveTransmit,
)
    ensures
        first_capability(station, codec, required) <= station.len(),
        first_capability(station, codec, required) < station.len() ==> {
            let c = station[first_capability(station, codec, required) as int];
            c.codec == codec && c.direction.covers(required)
        },
    decreases station.len(),
{
    if station.len() > 0 && !(station[0].codec == codec && station[0].direction.covers(required)) {
        lemma_first_capability(station.skip(1), codec, required);
    }
}

proof fn lemma_first_mutual(
    codecs: Seq<Codec>,
    station: Seq<VideoCapability>,
    pbx: Seq<PbxVideoFormat>,
    required: ReceiveTransmit,
)
    ensures
        first_mutual(codecs, station, pbx, required) matches Some(c) ==> codecs.contains(c)
            && is_mutual(c, station, pbx, required),
    decreases codecs.len(),
{
    if codecs.len() > 0 {
        assert(codecs.contains(codecs[0]));
        lemma_first_mutual(codecs.skip(1), station, pbx, required);
        if let Some(c) = first_mutual(codecs.skip(1), station, pbx, required) {
            let i = choose|i: int| 0 <= i < codecs.skip(1).len() && codecs.skip(1)[i] == c;
            assert(codecs[i + 1] == c);
        }
    }
}

/// A negotiated capability is one of the station's, in every required
/// direction, of a configured codec, whose own format the PBX has.
pub proof fn law_negotiated_video_is_mutual(
    configured: Seq<Codec>,
    station: Seq<VideoCapability>,
    pbx: Seq<PbxVideoFormat>,
    required: ReceiveTransmit,
)
    requires
        selected(configured, station, pbx, required) is Ok,
    ensures
        ({
            let (format, i) = selected(configured, station, pbx, required)->Ok_0;
            &&& i < station.len()
            &&& station[i as int].direction.covers(required)
            &&& configured.contains(station[i as int].codec)
            &&& format_of(station[i as int].codec) == Some(format)
            &&& pbx.contains(format)
        }),
{
    lemma_first_mutual(configured, station, pbx, required);
    let codec = first_mutual(configured, station, pbx, required)->0;
    lemma_first_capability(station, codec, required);
}

/// A command names the codec of the capability that it describes.
pub proof fn law_commands_keep_the_codec(c: VideoCapability, payload: RtpPayloadNumber)
    requires
        described(c, payload) is Ok,
    ensures
        described(c, payload)->Ok_0.arm.codec_of() == c.codec,
        described(c, payload)->Ok_0.payload_number == payload,
{
}

/// A station capability that can be used makes the negotiation succeed: where
/// it is of a configured codec, has the required directions and the PBX has the
/// format of the codec, the codec that is chosen is not configured later, and
/// its capability is the station's first of that codec in those directions.
pub proof fn law_usable_video_is_not_passed_over(
    configured: Seq<Codec>,
    station: Seq<VideoCapability>,
    pbx: Seq<PbxVideoFormat>,
    required: ReceiveTransmit,
    m: int,
    i: int,
)
    requires
        1 <= required.bits <= 3,
        0 <= m < configured.len(),
        0 <= i < station.len(),
        station[i].codec == configured[m],
        station[i].direction.bits & required.bits == required.bits,
        format_of(configured[m]) matches Some(f) && pbx.contains(f),
    ensures
        selected(configured, station, pbx, required) is Ok,
        ({
            let k = selected(configured, station, pbx, required)->Ok_0.1;
            &&& k < station.len()
            &&& exists|n: int| 0 <= n <= m && #[trigger] configured[n] == station[k as int].codec
            &&& forall|j: int|
                0 <= j < k && (#[trigger] station[j]).codec == station[k as int].codec
                    ==> station[j].direction.bits & required.bits != required.bits
        }),
{
    let bits = required.bits;
    assert(bits & !3u32 == 0) by (bit_vector)
        requires
            1 <= bits <= 3,
    ;
    assert(required.is_known());
    lemma_capability_up_to(station, configured[m], required, i);
    assert(is_mutual(configured[m], station, pbx, required));
    let n = lemma_mutual_up_to(configured, station, pbx, required, m);
    let codec = configured[n];
    lemma_first_mutual(configured, station, pbx, required);
    lemma_first_capability(station, codec, required);
    lemma_none_in_front(station, codec, required);
}

/// Directions that are required have to be of receiving or transmitting; no
/// other negotiation fails for its directions.
pub proof fn law_video_directions_are_known(
    configured: Seq<Codec>,
    station: Seq<VideoCapability>,
    pbx: Seq<PbxVideoFormat>,
    required: ReceiveTransmit,
)
    ensures
        selected(configured, station, pbx, required) == Err::<(PbxVideoFormat, nat), _>(
            VideoNegotiationError::InvalidRequiredDirection,
        ) <==> !(1 <= required.bits <= 3),
        selected(configured, station, pbx, required) == Err::<(PbxVideoFormat, nat), _>(
            VideoNegotiationError::NoRepresentableConfiguredCodec,
        ) <==> 1 <= required.bits <= 3 && forall|c: Codec| #[trigger]
            configured.contains(c) ==> format_of(c) is None,
{
    let bits = required.bits;
    assert((bits != 0 && bits & !3u32 == 0) <==> 1 <= bits <= 3) by (bit_vector);
    lemma_first_mutual(configured, station, pbx, required);
    if forall|c: Codec| #[trigger] configured.contains(c) ==> format_of(c) is None {
        assert forall|i: int| 0 <= i < configured.len() implies format_of(
            #[trigger] configured[i],
        ) is None by {
            assert(configured.contains(configured[i]));
        }
    }
}

/// Which codec is of which format, and which bit and payload number a format
/// has.
pub proof fn law_video_formats_of_codecs()
    ensures
        format_of(Codec::H261) == Some(PbxVideoFormat::H261),
        format_of(Codec::H263) == Some(PbxVideoFormat::H263),
        format_of(Codec::H263Plus) == Some(PbxVideoFormat::H263Plus),
        format_of(Codec::H264) == Some(PbxVideoFormat::H264),
        format_of(Codec::H265) == Some(PbxVideoFormat::H265),
        forall|c: Codec| #[trigger]
            format_of(c) is Some ==> c == Codec::H261 || c == Codec::H263 || c == Codec::H263Plus
                || c == Codec::H264 || c == Codec::H265,
        bit_of(PbxVideoFormat::H261) == 1,
        bit_of(PbxVideoFormat::H263) == 2,
        bit_of(PbxVideoFormat::H263Plus) == 4,
        bit_of(PbxVideoFormat::H264) == 8,
        bit_of(PbxVideoFormat::H265) == 16,
        payload_of(PbxVideoFormat::H261) == Some(31u8),
        payload_of(PbxVideoFormat::H263) == Some(34u8),
        payload_of(PbxVideoFormat::H263Plus) == Some(98u8),
        payload_of(PbxVideoFormat::H264) == Some(103u8),
        payload_of(PbxVideoFormat::H265) is None,
{
}

/// A command takes the level that the station prefers most and the parameters
/// of the codec in their order; it fails only without a level, for other
/// codecs, or with too few parameters.
pub proof fn law_commands_describe_the_capability(c: VideoCapability, payload: RtpPayloadNumber)
    ensures
        ({
            let p = c.codec_parameters@;
            let needed = if c.codec == Codec::H264 {
                6int
            } else {
                2int
            };
            let known = c.codec == Codec::H261 || c.codec == Codec::H263 || c.codec
                == Codec::H263Plus || c.codec == Codec::H264;
            match described(c, payload) {
                Ok(d) => {
                    let level = c.level_preferences@[0];
                    &&& known
                    &&& c.level_preferences@.len() > 0
                    &&& p.len() >= needed
                    &&& d.payload_number == payload
                    &&& d.bit_rate == level.max_bit_rate
                    &&& d.picture_format.format.number == level.format
                    &&& d.picture_format.minimum_picture_interval == level.minimum_picture_interval
                    &&& d.conference_service_number == level.service_number
                    &&& match d.arm {
                        MultimediaVideoCapabilityArm::H261 {
                            temporal_spatial_trade_off_capability,
                            still_image_transmission,
                        } => c.codec == Codec::H261 && temporal_spatial_trade_off_capability == p[0]
                            && still_image_transmission == p[1],
                        MultimediaVideoCapabilityArm::H263 {
                            capability_bitfield,
                            annex_n_and_w_future_use,
                        } => c.codec == Codec::H263 && capability_bitfield == p[0]
                            && annex_n_and_w_future_use == p[1],
                        MultimediaVideoCapabilityArm::H263Plus { model_number, bandwidth } => c.codec
                            == Codec::H263Plus && model_number == p[0] && bandwidth == p[1],
                        MultimediaVideoCapabilityArm::H264 {
                            profile,
                            level,
                            custom_max_mbps,
                            custom_max_fs,
                            custom_max_dpb,
                            custom_max_br_and_cpb,
                        } => c.codec == Codec::H264 && seq![
                            profile,
                            level,
                            custom_max_mbps,
                            custom_max_fs,
                            custom_max_dpb,
                            custom_max_br_and_cpb,
                        ] == p.take(6),
                    }
                },
                Err(VideoDescriptorError::MissingLevelPreference) => {
                    c.level_preferences@.len() == 0
                },
                Err(VideoDescriptorError::UnsupportedCodec(codec)) => !known && codec == c.codec
                    && c.level_preferences@.len() > 0,
                Err(VideoDescriptorError::MissingCodecParameters { codec, required, actual }) => {
                    &&& known
                    &&& codec == c.codec
                    &&& required == needed
                    &&& p.len() < needed
                    &&& actual == p.len()
                },
            }
        }),
{
    let p = c.codec_parameters@;
    if let Ok(d) = described(c, payload) {
        if c.codec == Codec::H264 {
            assert(seq![p[0], p[1], p[2], p[3], p[4], p[5]] =~= p.take(6));
        }
    }
}

proof fn lemma_capability_up_to(
    station: Seq<VideoCapability>,
    codec: Codec,
    required: ReceiveTransmit,
    i: int,
)
    requires
        0 <= i < station.len(),
        station[i].codec == codec,
        station[i].direction.covers(required),
    ensures
        first_capability(station, codec, required) <= i,
    decreases i,
{
    if i > 0 {
        assert(station.skip(1)[i - 1] == station[i]);
        lemma_capability_up_to(station.skip(1), codec, required, i - 1);
    }
}

proof fn lemma_none_in_front(
    station: Seq<VideoCapability>,
    codec: Codec,
    required: ReceiveTransmit,
)
    ensures
        forall|j: int|
            0 <= j < first_capability(station, codec, required) && (#[trigger] station[j]).codec
                == codec ==> !station[j].direction.covers(required),
    decreases station.len(),
{
    if station.len() > 0 {
        let rest = station.skip(1);
        lemma_none_in_front(rest, codec, required);
        lemma_first_capability(station, codec, required);
        assert forall|j: int|
            0 <= j < first_capability(station, codec, required) && (#[trigger] station[j]).codec
                == codec implies !station[j].direction.covers(required) by {
            if j > 0 {
                assert(rest[j - 1] == station[j]);
            }
        }
    }
}

/// A mutual codec at a place is found there at the latest.
proof fn lemma_mutual_up_to(
    codecs: Seq<Codec>,
    station: Seq<VideoCapability>,
    pbx: Seq<PbxVideoFormat>,
    required: ReceiveTransmit,
    m: int,
) -> (n: int)
    requires
        0 <= m < codecs.len(),
        is_mutual(codecs[m], station, pbx, required),
    ensures
        0 <= n <= m,
        first_mutual(codecs, station, pbx, required) == Some(codecs[n]),
    decreases m,
{
    if is_mutual(codecs[0], station, pbx, required) {
        0
    } else {
        let rest = codecs.skip(1);
        assert(rest[m - 1] == codecs[m]);
        let n = lemma_mutual_up_to(rest, station, pbx, required, m - 1);
        assert(rest[n] == codecs[n + 1]);
        n + 1
    }
}

} // verus!
