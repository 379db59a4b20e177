//! The video formats of the two sides and what they agree on.

use chan_sccp::media::formats::video::{
    decode_pbx_video_formats, negotiate_video, negotiate_video_owned, pbx_video_format,
    pbx_video_formats_from_mask, unsupported_video_reason, EncryptionCapability, IpAddressType,
    MultimediaVideoCapabilityArm, PbxVideoFormat, ReceiveTransmit, StationMediaCapabilities,
    VideoCapability, VideoDescriptorError, VideoFormat, VideoFormatError, VideoLevelPreference,
    VideoNegotiationError,
};
use chan_sccp::station::{Codec, CodecKind};

fn known_codecs() -> Vec<Codec> {
    vec![
        Codec::Pcmu,
        Codec::G711Ulaw56k,
        Codec::Pcma,
        Codec::G711Alaw56k,
        Codec::G72264k,
        Codec::G72256k,
        Codec::G72248k,
        Codec::G7231,
        Codec::G728,
        Codec::G729,
        Codec::G729A,
        Codec::G729B,
        Codec::G729Ab,
        Codec::G729AnnexB,
        Codec::G726_32k,
        Codec::G726_24k,
        Codec::G726_16k,
        Codec::Gsm,
        Codec::GsmFullRate,
        Codec::GsmHalfRate,
        Codec::GsmEnhancedFullRate,
        Codec::Wideband256k,
        Codec::Ilbc,
        Codec::G7221_32k,
        Codec::G7221_24k,
        Codec::Opus,
        Codec::Is11172,
        Codec::Is13818,
        Codec::ActiveVoice,
        Codec::Isac,
        Codec::H224,
        Codec::Aac,
        Codec::Mp4aLatm128,
        Codec::Mp4aLatm64,
        Codec::Mp4aLatm56,
        Codec::Mp4aLatm48,
        Codec::Mp4aLatm32,
        Codec::Mp4aLatm24,
        Codec::Mp4aLatm,
        Codec::Amr,
        Codec::AmrWb,
        Codec::H261,
        Codec::H263,
        Codec::H263Plus,
        Codec::H264,
        Codec::H264Svc,
        Codec::H264Fec,
        Codec::H264Uc,
        Codec::H265,
        Codec::T120,
        Codec::Data64k,
        Codec::Data56k,
        Codec::T38Fax,
        Codec::Tote,
        Codec::Xv150ModemRelay711u,
        Codec::NseVbd711u,
        Codec::Xv150ModemRelay729a,
        Codec::NseVbd729a,
        Codec::ClearChannel,
        Codec::UniversalTranscoder,
        Codec::DtmfOutOfBandRfc2833,
        Codec::DtmfPassthrough,
        Codec::DtmfDynamic,
        Codec::DtmfOutOfBand,
        Codec::DtmfInBandRfc2833,
        Codec::CfbTones,
        Codec::DtmfNoAudio,
        Codec::V150ModemRelay,
        Codec::V150Sprt,
        Codec::V150Sse,
    ]
}


fn capability(codec: Codec, direction: ReceiveTransmit, marker: u32) -> VideoCapability {
    VideoCapability {
        codec,
        direction,
        level_preferences: vec![VideoLevelPreference {
            transmit_preference: marker,
            format: marker + 1,
            max_bit_rate: marker + 2,
            min_bit_rate: marker + 3,
            minimum_picture_interval: marker + 4,
            service_number: marker + 5,
        }],
        codec_parameters: vec![marker + 6, marker + 7],
        encryption_capability: Some(EncryptionCapability::Capable),
        address_type: Some(IpAddressType::Ipv4AndIpv6),
    }
}

#[test]
fn table_maps_every_backend_video_format_exactly_once() {
    assert_eq!(
        known_codecs()
            .into_iter()
            .filter_map(|codec| pbx_video_format(codec).ok().map(|format| (codec, format)))
            .collect::<Vec<_>>(),
        [
            (Codec::H261, PbxVideoFormat::H261),
            (Codec::H263, PbxVideoFormat::H263),
            (Codec::H263Plus, PbxVideoFormat::H263Plus),
            (Codec::H264, PbxVideoFormat::H264),
            (Codec::H265, PbxVideoFormat::H265),
        ]
    );
    assert_eq!(
        known_codecs()
            .into_iter()
            .filter_map(|codec| pbx_video_format(codec).ok())
            .collect::<Vec<_>>(),
        PbxVideoFormat::all()
    );
}

#[test]
fn every_known_video_codec_is_mapped_or_explicitly_unsupported() {
    for codec in known_codecs() {
        if codec.kind() != CodecKind::Video {
            continue;
        }
        assert!(
            pbx_video_format(codec).is_ok() ^ unsupported_video_reason(codec).is_some(),
            "{codec:?} must have exactly one adapter mapping decision"
        );
    }
}

#[test]
fn format_errors_distinguish_unknown_unsupported_and_non_video_codecs() {
    assert_eq!(
        pbx_video_format(Codec::Unknown(0xfeed)),
        Err(VideoFormatError::Unknown(0xfeed))
    );
    assert_eq!(
        pbx_video_format(Codec::H264Svc),
        Err(VideoFormatError::Unsupported(Codec::H264Svc))
    );
    assert_eq!(
        pbx_video_format(Codec::Pcmu),
        Err(VideoFormatError::NotVideo(Codec::Pcmu))
    );
}

#[test]
fn native_masks_preserve_known_order_and_report_unknown_bits() {
    let known_mask = PbxVideoFormat::all()
        .into_iter()
        .fold(0, |mask, format| mask | format.native_mask());
    let decoded = decode_pbx_video_formats((1 << 4) | (1 << 1) | (1 << 12));
    assert_eq!(
        decoded.supported(),
        [PbxVideoFormat::H263, PbxVideoFormat::H265]
    );
    assert_eq!(decoded.unknown_bits(), 1 << 12);
    assert!(!decoded.is_exact());

    assert!(pbx_video_formats_from_mask(0).is_empty());
    assert_eq!(pbx_video_formats_from_mask(known_mask), PbxVideoFormat::all());
    assert!(decode_pbx_video_formats(known_mask).is_exact());
}

#[test]
fn negotiation_uses_configured_preference_then_exact_intersection() {
    let station = [
        capability(
            Codec::H263,
            ReceiveTransmit::both(),
            10,
        ),
        capability(
            Codec::H264,
            ReceiveTransmit::both(),
            20,
        ),
    ];
    let negotiated = negotiate_video(
        &[Codec::H264, Codec::H263],
        &station,
        &PbxVideoFormat::all(),
        ReceiveTransmit::transmit(),
    )
    .unwrap();
    assert_eq!(negotiated.codec(), Codec::H264);
    assert_eq!(negotiated.pbx_format, PbxVideoFormat::H264);
    assert_eq!(negotiated.capability(), &station[1]);

    let fallback = negotiate_video(
        &[Codec::H264, Codec::H263],
        &station,
        &[PbxVideoFormat::H263],
        ReceiveTransmit::receive(),
    )
    .unwrap();
    assert_eq!(fallback.codec(), Codec::H263);
}

#[test]
fn negotiation_preserves_all_typed_station_parameters() {
    let expected = capability(
        Codec::H265,
        ReceiveTransmit::both(),
        50,
    );
    let negotiated = negotiate_video(
        &[Codec::H265],
        std::slice::from_ref(&expected),
        &[PbxVideoFormat::H265],
        ReceiveTransmit::both(),
    )
    .unwrap();

    assert_eq!(negotiated.capability(), &expected);
}

#[test]
fn borrowed_and_owned_negotiation_select_the_same_shared_capability() {
    let station = StationMediaCapabilities::new(
        Vec::new(),
        vec![
            capability(Codec::H263, ReceiveTransmit::receive(), 30),
            capability(
                Codec::H265,
                ReceiveTransmit::both(),
                40,
            ),
        ],
    );
    let borrowed = negotiate_video(
        &[Codec::H265, Codec::H263],
        station.video(),
        &PbxVideoFormat::all(),
        ReceiveTransmit::transmit(),
    )
    .unwrap();
    let owned = negotiate_video_owned(
        &[Codec::H265, Codec::H263],
        station.clone(),
        &PbxVideoFormat::all(),
        ReceiveTransmit::transmit(),
    )
    .unwrap();

    assert_eq!(owned.pbx_format, borrowed.pbx_format);
    assert_eq!(owned.codec(), borrowed.codec());
    assert_eq!(owned.capability(), borrowed.capability());
    assert!(std::ptr::eq(owned.capability(), borrowed.capability()));
}

#[test]
fn negotiation_requires_exact_codec_and_requested_direction() {
    let station = [capability(Codec::H263Plus, ReceiveTransmit::receive(), 5)];
    assert_eq!(
        negotiate_video(
            &[Codec::H263],
            &station,
            &[PbxVideoFormat::H263, PbxVideoFormat::H263Plus],
            ReceiveTransmit::receive(),
        ),
        Err(VideoNegotiationError::NoMutualCodec)
    );
    assert_eq!(
        negotiate_video(
            &[Codec::H263Plus],
            &station,
            &[PbxVideoFormat::H263Plus],
            ReceiveTransmit::transmit(),
        ),
        Err(VideoNegotiationError::NoMutualCodec)
    );
}

#[test]
fn configured_h264_family_does_not_substitute_variant_capabilities() {
    let station = [capability(
        Codec::H264Svc,
        ReceiveTransmit::both(),
        15,
    )];

    assert_eq!(
        negotiate_video(
            &[Codec::H264, Codec::H264Svc, Codec::H264Fec, Codec::H264Uc,],
            &station,
            &[PbxVideoFormat::H264],
            ReceiveTransmit::receive(),
        ),
        Err(VideoNegotiationError::NoMutualCodec)
    );
}

#[test]
fn negotiation_rejects_invalid_direction_and_unrepresentable_policy() {
    assert_eq!(
        negotiate_video(
            &[Codec::H264],
            &[],
            &PbxVideoFormat::all(),
            ReceiveTransmit::empty(),
        ),
        Err(VideoNegotiationError::InvalidRequiredDirection)
    );
    assert_eq!(
        negotiate_video(
            &[Codec::H264Svc, Codec::Pcmu, Codec::Unknown(7)],
            &[],
            &PbxVideoFormat::all(),
            ReceiveTransmit::receive(),
        ),
        Err(VideoNegotiationError::NoRepresentableConfiguredCodec)
    );
}

#[test]
fn selected_operating_level_builds_a_typed_h264_payload() {
    let mut h264 = capability(
        Codec::H264,
        ReceiveTransmit::both(),
        10,
    );
    h264.codec_parameters = vec![64, 43, 40_500, 1_620, 8_100, 10_000];
    let selected = negotiate_video_owned(
        &[Codec::H264],
        StationMediaCapabilities::new(Vec::new(), vec![h264]),
        &[PbxVideoFormat::H264],
        ReceiveTransmit::both(),
    )
    .unwrap();

    let payload = selected
        .multimedia_payload(PbxVideoFormat::H264.payload_type().unwrap())
        .unwrap();
    assert_eq!(payload.payload_number.get(), 103);
    assert_eq!(payload.codec(), Codec::H264);
    assert_eq!(payload.bit_rate, 12);
    assert_eq!(
        payload.picture_format.format,
        VideoFormat { number: 11 }
    );
    assert_eq!(payload.picture_format.minimum_picture_interval, 14);
    assert_eq!(payload.conference_service_number, 15);
    assert_eq!(
        payload.arm,
        MultimediaVideoCapabilityArm::H264 {
            profile: 64,
            level: 43,
            custom_max_mbps: 40_500,
            custom_max_fs: 1_620,
            custom_max_dpb: 8_100,
            custom_max_br_and_cpb: 10_000,
        }
    );
}

#[test]
fn descriptor_construction_fails_closed_without_evidenced_parameters() {
    let selected = negotiate_video_owned(
        &[Codec::H264],
        StationMediaCapabilities::new(
            Vec::new(),
            vec![capability(
                Codec::H264,
                ReceiveTransmit::both(),
                1,
            )],
        ),
        &[PbxVideoFormat::H264],
        ReceiveTransmit::both(),
    )
    .unwrap();

    assert_eq!(
        selected.multimedia_payload(PbxVideoFormat::H264.payload_type().unwrap()),
        Err(VideoDescriptorError::MissingCodecParameters {
            codec: Codec::H264,
            required: 6,
            actual: 2,
        })
    );
    assert_eq!(PbxVideoFormat::H265.payload_type(), None);
}

#[test]
fn a_codec_without_a_command_and_a_missing_level_are_refused() {
    let select = |codec: Codec, format: PbxVideoFormat, levels: bool| {
        let mut offer = capability(codec, ReceiveTransmit::both(), 3);
        if !levels {
            offer.level_preferences.clear();
        }
        negotiate_video_owned(
            &[codec],
            StationMediaCapabilities::new(Vec::new(), vec![offer]),
            &[format],
            ReceiveTransmit::receive(),
        )
        .unwrap()
    };
    let number = PbxVideoFormat::H264.payload_type().unwrap();
    assert_eq!(
        select(Codec::H265, PbxVideoFormat::H265, true).multimedia_payload(number),
        Err(VideoDescriptorError::UnsupportedCodec(Codec::H265))
    );
    assert_eq!(
        select(Codec::H263, PbxVideoFormat::H263, false).multimedia_payload(number),
        Err(VideoDescriptorError::MissingLevelPreference)
    );
    let payload = select(Codec::H263, PbxVideoFormat::H263, true)
        .multimedia_payload(number)
        .unwrap();
    assert_eq!(payload.codec(), Codec::H263);
    assert_eq!(
        payload.arm,
        MultimediaVideoCapabilityArm::H263 {
            capability_bitfield: 9,
            annex_n_and_w_future_use: 10,
        }
    );
}
