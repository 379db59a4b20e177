//! The codec-preference application.

use std::cell::RefCell;

use chan_sccp::media::codec_preference::{
    normalized_context, render_audio_preferences, CodecPreferenceApplication,
    CodecPreferenceContext, CodecPreferenceError, CodecPreferenceOperation,
    CodecPreferenceProvider, CodecPreferenceProviderError,
};
use chan_sccp::media::formats::audio::PbxAudioFormat;

struct FakeNative {
    context: CodecPreferenceContext,
    replacements: RefCell<Vec<(usize, Vec<PbxAudioFormat>)>>,
    failure: Option<CodecPreferenceProviderError>,
}

impl CodecPreferenceProvider for FakeNative {
    type Channel = usize;

    fn context(
        &self,
        _channel: &usize,
    ) -> Result<CodecPreferenceContext, CodecPreferenceProviderError> {
        if let Some(error) = self.failure {
            return Err(error);
        }
        Ok(self.context.clone())
    }

    fn replace(
        &self,
        channel: &usize,
        preferences: &[PbxAudioFormat],
    ) -> Result<(), CodecPreferenceProviderError> {
        if let Some(error) = self.failure {
            return Err(error);
        }
        self.replacements
            .borrow_mut()
            .push((*channel, preferences.to_vec()));
        Ok(())
    }
}

fn fake(
    configured: Vec<PbxAudioFormat>,
    effective: Vec<PbxAudioFormat>,
) -> CodecPreferenceApplication<FakeNative> {
    CodecPreferenceApplication::new(FakeNative {
        context: CodecPreferenceContext {
            configured,
            effective,
        },
        replacements: RefCell::new(Vec::new()),
        failure: None,
    })
}

fn all() -> Vec<PbxAudioFormat> {
    PbxAudioFormat::all()
}

#[test]
fn parser_preserves_documented_bare_replacement_and_codec_order() {
    assert_eq!(
        CodecPreferenceOperation::parse("alaw").unwrap(),
        CodecPreferenceOperation::Replace(vec![PbxAudioFormat::G711Alaw])
    );
    assert_eq!(
        CodecPreferenceOperation::parse("pcmu,g722").unwrap(),
        CodecPreferenceOperation::Replace(vec![PbxAudioFormat::G711Ulaw, PbxAudioFormat::G722])
    );
}

#[test]
fn unevidenced_mutation_modes_are_rejected_explicitly() {
    for arguments in [
        "read",
        "replace,ulaw",
        "append,ulaw",
        "remove,ulaw",
        "reset",
    ] {
        assert_eq!(
            CodecPreferenceOperation::parse(arguments),
            Err(CodecPreferenceError::UnsupportedOperation)
        );
    }
}

#[test]
fn malformed_unsupported_and_secret_like_values_fail_without_echoing_input() {
    for arguments in [
        "",
        "replace",
        "append",
        "remove",
        "replace,,ulaw",
        "isac",
        "password",
        "private-key",
        "token",
        "u/law",
        "g722\0hidden",
    ] {
        let error = CodecPreferenceOperation::parse(arguments).unwrap_err();
        if !arguments.is_empty() {
            assert!(!error.message().contains(arguments));
        }
    }
}

#[test]
fn replacement_is_normalized_and_restricted_to_configured_formats() {
    let channel = 7;
    let application = fake(all(), all());
    application.execute("g722,ulaw,g722", &channel).unwrap();
    assert_eq!(
        application.provider.replacements.into_inner(),
        [(
            channel,
            vec![PbxAudioFormat::G722, PbxAudioFormat::G711Ulaw]
        )]
    );

    assert_eq!(
        fake(vec![PbxAudioFormat::G711Ulaw], vec![]).execute("alaw", &channel),
        Err(CodecPreferenceError::FormatNotConfigured)
    );
}

#[test]
fn refused_requests_leave_the_channel_alone() {
    let channel = 7;
    for (configured, arguments, error) in [
        (all(), "", CodecPreferenceError::InvalidArguments),
        (all(), "read", CodecPreferenceError::UnsupportedOperation),
        (all(), "nothing", CodecPreferenceError::UnsupportedFormat),
        (vec![], "ulaw", CodecPreferenceError::NoConfiguredFormat),
        (
            vec![PbxAudioFormat::G711Ulaw],
            "ulaw,alaw",
            CodecPreferenceError::FormatNotConfigured,
        ),
    ] {
        let application = fake(configured, vec![]);
        assert_eq!(application.execute(arguments, &channel), Err(error));
        assert!(application.provider.replacements.into_inner().is_empty());
    }
}

#[test]
fn typed_read_uses_the_normalized_effective_preferences() {
    let channel = 7;
    let application = fake(
        vec![
            PbxAudioFormat::G722,
            PbxAudioFormat::G711Ulaw,
            PbxAudioFormat::G722,
        ],
        vec![PbxAudioFormat::G711Alaw],
    );
    assert_eq!(
        application.preferences(&channel).unwrap(),
        [PbxAudioFormat::G711Alaw]
    );
}

#[test]
fn fake_native_preserves_exact_channel_format_and_failure() {
    let channel = 7;
    let application = fake(all(), all());
    application.execute("g722", &channel).unwrap();
    assert_eq!(
        application.provider.replacements.into_inner(),
        [(channel, vec![PbxAudioFormat::G722])]
    );

    let failed = CodecPreferenceApplication::new(FakeNative {
        context: CodecPreferenceContext {
            configured: all(),
            effective: all(),
        },
        replacements: RefCell::new(Vec::new()),
        failure: Some(CodecPreferenceProviderError::NativeRejected),
    });
    assert_eq!(
        failed.execute("ulaw", &channel),
        Err(CodecPreferenceError::Provider(
            CodecPreferenceProviderError::NativeRejected
        ))
    );
}

#[test]
fn rendering_uses_canonical_asterisk_audio_names() {
    assert_eq!(
        render_audio_preferences(&all()),
        "ulaw,alaw,g722,g723,g729,g726aal2,gsm,slin16,ilbc,siren7,opus"
    );
}

#[test]
fn rendered_preferences_are_read_back() {
    let formats = vec![PbxAudioFormat::Opus, PbxAudioFormat::Siren7, PbxAudioFormat::Gsm];
    assert_eq!(
        CodecPreferenceOperation::parse(&render_audio_preferences(&formats)),
        Ok(CodecPreferenceOperation::Replace(formats))
    );
}

#[test]
fn a_channel_without_configured_formats_has_no_preferences() {
    assert_eq!(
        normalized_context(Ok(CodecPreferenceContext {
            configured: vec![],
            effective: all(),
        })),
        Err(CodecPreferenceError::NoConfiguredFormat)
    );
    assert_eq!(
        normalized_context(Err(CodecPreferenceProviderError::NotPreDial)),
        Err(CodecPreferenceError::Provider(
            CodecPreferenceProviderError::NotPreDial
        ))
    );
}

#[test]
fn absent_and_unknown_names_are_told_apart() {
    assert_eq!(
        CodecPreferenceOperation::parse("ulaw,,alaw"),
        Err(CodecPreferenceError::InvalidArguments)
    );
    assert_eq!(
        CodecPreferenceOperation::parse("isac"),
        Err(CodecPreferenceError::UnsupportedFormat)
    );
    assert_eq!(
        CodecPreferenceOperation::parse("u/law"),
        Err(CodecPreferenceError::UnsupportedFormat)
    );
}
