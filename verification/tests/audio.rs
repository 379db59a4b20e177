//! The audio formats of the two sides and what they agree on.

use chan_sccp::media::formats::audio::{
    negotiate_audio, pbx_audio_format, pbx_audio_formats_from_mask, unsupported_audio_reason,
    AudioFormatError, AudioNegotiationError, MediaCapability, NegotiatedAudio, PbxAudioFormat,
};
use chan_sccp::station::{Codec, CodecKind};

fn known_codecs() -> Vec<Codec> {
    vec![
        Codec::Pcmu,
        Codec::G711Ulaw56k,
        Codec::Pcma,
        Codec::G711Alaw56k,
        Codec::G72264k,
        Codec::G72256k,
        Codec::G72248k,
        Codec::G7231,
        Codec::G728,
        Codec::G729,
        Codec::G729A,
        Codec::G729B,
        Codec::G729Ab,
        Codec::G729AnnexB,
        Codec::G726_32k,
        Codec::G726_24k,
        Codec::G726_16k,
        Codec::Gsm,
        Codec::GsmFullRate,
        Codec::GsmHalfRate,
        Codec::GsmEnhancedFullRate,
        Codec::Wideband256k,
        Codec::Ilbc,
        Codec::G7221_32k,
        Codec::G7221_24k,
        Codec::Opus,
        Codec::Is11172,
        Codec::Is13818,
        Codec::ActiveVoice,
        Codec::Isac,
        Codec::H224,
        Codec::Aac,
        Codec::Mp4aLatm128,
        Codec::Mp4aLatm64,
        Codec::Mp4aLatm56,
        Codec::Mp4aLatm48,
        Codec::Mp4aLatm32,
        Codec::Mp4aLatm24,
        Codec::Mp4aLatm,
        Codec::Amr,
        Codec::AmrWb,
        Codec::H261,
        Codec::H263,
        Codec::H263Plus,
        Codec::H264,
        Codec::H264Svc,
        Codec::H264Fec,
        Codec::H264Uc,
        Codec::H265,
        Codec::T120,
        Codec::Data64k,
        Codec::Data56k,
        Codec::T38Fax,
        Codec::Tote,
        Codec::Xv150ModemRelay711u,
        Codec::NseVbd711u,
        Codec::Xv150ModemRelay729a,
        Codec::NseVbd729a,
        Codec::ClearChannel,
        Codec::UniversalTranscoder,
        Codec::DtmfOutOfBandRfc2833,
        Codec::DtmfPassthrough,
        Codec::DtmfDynamic,
        Codec::DtmfOutOfBand,
        Codec::DtmfInBandRfc2833,
        Codec::CfbTones,
        Codec::DtmfNoAudio,
        Codec::V150ModemRelay,
        Codec::V150Sprt,
        Codec::V150Sse,
    ]
}


#[test]
fn maps_every_audio_codec_exposed_by_the_channel_backend() {
    for (codec, expected) in [
        (Codec::Pcmu, PbxAudioFormat::G711Ulaw),
        (Codec::G711Ulaw56k, PbxAudioFormat::G711Ulaw),
        (Codec::Pcma, PbxAudioFormat::G711Alaw),
        (Codec::G711Alaw56k, PbxAudioFormat::G711Alaw),
        (Codec::G72264k, PbxAudioFormat::G722),
        (Codec::G72256k, PbxAudioFormat::G722),
        (Codec::G72248k, PbxAudioFormat::G722),
        (Codec::G7231, PbxAudioFormat::G723),
        (Codec::G729, PbxAudioFormat::G729),
        (Codec::G729A, PbxAudioFormat::G729),
        (Codec::G729B, PbxAudioFormat::G729),
        (Codec::G729Ab, PbxAudioFormat::G729),
        (Codec::G729AnnexB, PbxAudioFormat::G729),
        (Codec::G726_32k, PbxAudioFormat::G726Aal2),
        (Codec::Gsm, PbxAudioFormat::Gsm),
        (Codec::Wideband256k, PbxAudioFormat::Slin16),
        (Codec::Ilbc, PbxAudioFormat::Ilbc),
        (Codec::G7221_32k, PbxAudioFormat::Siren7),
        (Codec::Opus, PbxAudioFormat::Opus),
    ] {
        assert_eq!(pbx_audio_format(codec), Ok(expected));
        assert!(expected.station_codecs().contains(&codec));
    }
}

#[test]
fn every_known_audio_codec_is_mapped_or_has_an_explicit_reason() {
    for codec in known_codecs() {
        if codec.kind() != CodecKind::Audio {
            continue;
        }
        assert!(
            pbx_audio_format(codec).is_ok() ^ unsupported_audio_reason(codec).is_some(),
            "{codec:?} must have exactly one adapter mapping decision"
        );
    }
}

#[test]
fn station_capabilities_map_without_losing_wire_variants() {
    let station = [
        Codec::Wideband256k,
        Codec::Pcmu,
        Codec::Pcma,
        Codec::G729B,
        Codec::G729Ab,
        Codec::G729,
        Codec::G729A,
        Codec::DtmfOutOfBandRfc2833,
    ];
    let mapped = station
        .into_iter()
        .filter_map(|codec| pbx_audio_format(codec).ok().map(|format| (codec, format)))
        .collect::<Vec<_>>();
    assert_eq!(
        mapped,
        [
            (Codec::Wideband256k, PbxAudioFormat::Slin16),
            (Codec::Pcmu, PbxAudioFormat::G711Ulaw),
            (Codec::Pcma, PbxAudioFormat::G711Alaw),
            (Codec::G729B, PbxAudioFormat::G729),
            (Codec::G729Ab, PbxAudioFormat::G729),
            (Codec::G729, PbxAudioFormat::G729),
            (Codec::G729A, PbxAudioFormat::G729),
        ]
    );
}

#[test]
fn never_substitutes_an_unsupported_audio_codec() {
    assert_eq!(
        pbx_audio_format(Codec::G7221_24k),
        Err(AudioFormatError::Unsupported(Codec::G7221_24k))
    );
    assert_eq!(
        pbx_audio_format(Codec::G726_24k),
        Err(AudioFormatError::Unsupported(Codec::G726_24k))
    );
}

#[test]
fn distinguishes_non_audio_and_unknown_identifiers() {
    assert_eq!(
        pbx_audio_format(Codec::H264),
        Err(AudioFormatError::NotAudio(Codec::H264))
    );
    assert_eq!(
        pbx_audio_format(Codec::Unknown(0xfeed)),
        Err(AudioFormatError::NotAudio(Codec::Unknown(0xfeed)))
    );
}

#[test]
fn negotiation_preserves_station_preference_order_within_policy() {
    let station = [
        MediaCapability {
            codec: Codec::Pcma,
            max_packet_ms: 40,
        },
        MediaCapability {
            codec: Codec::Pcmu,
            max_packet_ms: 40,
        },
    ];
    assert_eq!(
        negotiate_audio(
            &[Codec::Pcmu, Codec::Pcma],
            Some(&station),
            &PbxAudioFormat::all(),
        ),
        Ok(NegotiatedAudio {
            codec: Codec::Pcma,
            pbx_format: PbxAudioFormat::G711Alaw,
            packet_ms: 20,
            max_frames_per_packet: 0,
        })
    );
}

#[test]
fn negotiation_requires_exact_station_codec_and_pbx_format() {
    let station = [MediaCapability {
        codec: Codec::G711Ulaw56k,
        max_packet_ms: 40,
    }];
    assert_eq!(
        negotiate_audio(
            &[Codec::Pcmu, Codec::G711Ulaw56k],
            Some(&station),
            &[PbxAudioFormat::G711Ulaw],
        ),
        Ok(NegotiatedAudio {
            codec: Codec::G711Ulaw56k,
            pbx_format: PbxAudioFormat::G711Ulaw,
            packet_ms: 20,
            max_frames_per_packet: 0,
        })
    );
    assert_eq!(
        negotiate_audio(
            &[Codec::G711Ulaw56k],
            Some(&station),
            &[PbxAudioFormat::G711Alaw],
        ),
        Err(AudioNegotiationError::NoMutualCodec)
    );
}

#[test]
fn negotiation_distinguishes_unrepresentable_configuration() {
    assert_eq!(
        negotiate_audio(&[Codec::Isac, Codec::H264], None, &PbxAudioFormat::all()),
        Err(AudioNegotiationError::NoRepresentableConfiguredCodec)
    );
}

#[test]
fn negotiation_keeps_packet_duration_out_of_the_transmit_frame_count() {
    let station = [MediaCapability {
        codec: Codec::Pcmu,
        max_packet_ms: 40,
    }];
    assert_eq!(
        negotiate_audio(&[Codec::Pcmu], Some(&station), &PbxAudioFormat::all()),
        Ok(NegotiatedAudio {
            codec: Codec::Pcmu,
            pbx_format: PbxAudioFormat::G711Ulaw,
            packet_ms: 20,
            max_frames_per_packet: 0,
        })
    );
}

#[test]
fn negotiation_rejects_an_invalid_zero_packet_duration_capability() {
    let station = [MediaCapability {
        codec: Codec::Pcmu,
        max_packet_ms: 0,
    }];
    assert_eq!(
        negotiate_audio(&[Codec::Pcmu], Some(&station), &PbxAudioFormat::all(),),
        Err(AudioNegotiationError::NoMutualCodec)
    );
}

#[test]
fn native_capability_masks_preserve_known_format_order() {
    assert_eq!(
        pbx_audio_formats_from_mask((1 << 2) | (1 << 0) | (1 << 9)),
        [
            PbxAudioFormat::G711Ulaw,
            PbxAudioFormat::G722,
            PbxAudioFormat::Siren7,
        ]
    );
    assert!(pbx_audio_formats_from_mask(0).is_empty());
    assert_eq!(
        pbx_audio_formats_from_mask((1 << PbxAudioFormat::all().len()) - 1),
        PbxAudioFormat::all()
    );
}

#[test]
fn each_format_has_one_bit_and_maps_back_from_its_codecs() {
    for (index, format) in PbxAudioFormat::all().into_iter().enumerate() {
        assert_eq!(format.capability_bit(), 1 << index);
        assert_eq!(pbx_audio_formats_from_mask(1 << index), [format]);
        for codec in format.station_codecs() {
            assert_eq!(pbx_audio_format(codec), Ok(format));
        }
    }
}

#[test]
fn without_capabilities_the_configured_order_decides() {
    assert_eq!(
        negotiate_audio(
            &[Codec::H264, Codec::Opus, Codec::Pcmu],
            None,
            &[PbxAudioFormat::G711Ulaw, PbxAudioFormat::Opus],
        ),
        Ok(NegotiatedAudio {
            codec: Codec::Opus,
            pbx_format: PbxAudioFormat::Opus,
            packet_ms: 20,
            max_frames_per_packet: 0,
        })
    );
}
