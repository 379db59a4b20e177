//! Per-channel audio preferences set from the dialplan.
//!
//! `SCCPSetCodec(codec[,codec...])` replaces the ordered audio preferences of
//! the channel of this driver that runs it. Names stand for PBX formats;
//! repeated formats count once, where they first stand. Every requested format
//! has to be one of the configured policy. Operation words such as `read`,
//! `replace`, `append`, `remove` and `reset` are refused.

use vstd::prelude::*;

use crate::media::formats::audio;
use crate::media::formats::audio::PbxAudioFormat;
use crate::text;

verus! {

/// The most bytes of a codec name.
pub const MAX_NAME_BYTES: usize = 32;

/// Why the owner of the channels refuses.
#[derive(Clone, Copy, Debug, PartialEq, Eq, Structural)]
pub enum CodecPreferenceProviderError {
    NotDriverChannel,
    NotPreDial,
    Unavailable,
    AmbiguousChannel,
    FormatUnavailable,
    NativeRejected,
    RollbackFailed,
}

/// Why a preference is refused.
#[derive(Clone, Copy, Debug, PartialEq, Eq, Structural)]
pub enum CodecPreferenceError {
    InvalidArguments,
    UnsupportedFormat,
    FormatNotConfigured,
    NoConfiguredFormat,
    UnsupportedOperation,
    Provider(CodecPreferenceProviderError),
}

/// The diagnostic text of a refusal by the owner of the channels.
pub open spec fn provider_text(e: CodecPreferenceProviderError) -> text::Text {
    match e {
        CodecPreferenceProviderError::NotDriverChannel =>
        "the callback channel is not owned by this driver"@,
        CodecPreferenceProviderError::NotPreDial => "the channel is no longer in a pre-dial state"@,
        CodecPreferenceProviderError::Unavailable =>
        "the channel or registered station is unavailable"@,
        CodecPreferenceProviderError::AmbiguousChannel =>
        "the channel does not have one unambiguous handset appearance"@,
        CodecPreferenceProviderError::FormatUnavailable =>
        "the requested format is no longer available under current media policy"@,
        CodecPreferenceProviderError::NativeRejected =>
        "the native channel rejected the audio format"@,
        CodecPreferenceProviderError::RollbackFailed =>
        "the native update failed and the controller codec could not be restored"@,
    }
}

/// The diagnostic text of a refusal. No refusal shows what was asked for.
pub open spec fn error_text(e: CodecPreferenceError) -> text::Text {
    match e {
        CodecPreferenceError::InvalidArguments =>
        "codec preference expects a codec list or a supported operation and codec list"@,
        CodecPreferenceError::UnsupportedFormat =>
        "the requested audio format is not representable by this channel backend"@,
        CodecPreferenceError::FormatNotConfigured =>
        "the requested audio format is outside the configured channel policy"@,
        CodecPreferenceError::NoConfiguredFormat =>
        "the channel has no configured representable audio format"@,
        CodecPreferenceError::UnsupportedOperation =>
        "this codec-preference operation is not supported by the dialplan application"@,
        CodecPreferenceError::Provider(e) => provider_text(e),
    }
}

impl CodecPreferenceProviderError {
    /// The diagnostic text.
    pub fn message(&self) -> (r: String)
        ensures
            r@ == provider_text(*self),
    {
        match self {
            CodecPreferenceProviderError::NotDriverChannel => text::copy(
                "the callback channel is not owned by this driver",
            ),
            CodecPreferenceProviderError::NotPreDial => text::copy(
                "the channel is no longer in a pre-dial state",
            ),
            CodecPreferenceProviderError::Unavailable => text::copy(
                "the channel or registered station is unavailable",
            ),
            CodecPreferenceProviderError::AmbiguousChannel => text::copy(
                "the channel does not have one unambiguous handset appearance",
            ),
            CodecPreferenceProviderError::FormatUnavailable => text::copy(
                "the requested format is no longer available under current media policy",
            ),
            CodecPreferenceProviderError::NativeRejected => text::copy(
                "the native channel rejected the audio format",
            ),
            CodecPreferenceProviderError::RollbackFailed => text::copy(
                "the native update failed and the controller codec could not be restored",
            ),
        }
    }
}

impl CodecPreferenceError {
    /// The diagnostic text.
    pub fn message(&self) -> (r: String)
        ensures
            r@ == error_text(*self),
    {
        match self {
            CodecPreferenceError::InvalidArguments => text::copy(
                "codec preference expects a codec list or a supported operation and codec list",
            ),
            CodecPreferenceError::UnsupportedFormat => text::copy(
                "the requested audio format is not representable by this channel backend",
            ),
            CodecPreferenceError::FormatNotConfigured => text::copy(
                "the requested audio format is outside the configured channel policy",
            ),
            CodecPreferenceError::NoConfiguredFormat => text::copy(
                "the channel has no configured representable audio format",
            ),
            CodecPreferenceError::UnsupportedOperation => text::copy(
                "this codec-preference operation is not supported by the dialplan application",
            ),
            CodecPreferenceError::Provider(e) => e.message(),
        }
    }
}

// ---------------------------------------------------------------------------
// Names

/// A name that can be a codec name: letters, digits, hyphens and underscores of
/// bounded length.
pub open spec fn is_plausible(s: text::Text) -> bool {
    s.len() <= MAX_NAME_BYTES && forall|i: int|
        0 <= i < s.len() ==> text::is_alnum(#[trigger] s[i]) || s[i] == '-' || s[i] == '_'
}

/// The format of a name without its separators, in lower case.
pub open spec fn format_named(s: text::Text) -> Option<PbxAudioFormat> {
    if s == "ulaw"@ || s == "pcmu"@ || s == "g711ulaw"@ {
        Some(PbxAudioFormat::G711Ulaw)
    } else if s == "alaw"@ || s == "pcma"@ || s == "g711alaw"@ {
        Some(PbxAudioFormat::G711Alaw)
    } else if s == "g722"@ {
        Some(PbxAudioFormat::G722)
    } else if s == "g723"@ || s == "g7231"@ {
        Some(PbxAudioFormat::G723)
    } else if s == "g729"@ || s == "g729a"@ || s == "g729b"@ || s == "g729ab"@ {
        Some(PbxAudioFormat::G729)
    } else if s == "g726"@ || s == "g726aal2"@ || s == "g72632"@ {
        Some(PbxAudioFormat::G726Aal2)
    } else if s == "gsm"@ {
        Some(PbxAudioFormat::Gsm)
    } else if s == "slin16"@ || s == "wideband256k"@ {
        Some(PbxAudioFormat::Slin16)
    } else if s == "ilbc"@ {
        Some(PbxAudioFormat::Ilbc)
    } else if s == "siren7"@ || s == "g722132"@ {
        Some(PbxAudioFormat::Siren7)
    } else if s == "opus"@ {
        Some(PbxAudioFormat::Opus)
    } else {
        None
    }
}

/// The name that the PBX has for a format.
pub open spec fn pbx_name(format: PbxAudioFormat) -> text::Text {
    match format {
        PbxAudioFormat::G711Ulaw => "ulaw"@,
        PbxAudioFormat::G711Alaw => "alaw"@,
        PbxAudioFormat::G722 => "g722"@,
        PbxAudioFormat::G723 => "g723"@,
        PbxAudioFormat::G729 => "g729"@,
        PbxAudioFormat::G726Aal2 => "g726aal2"@,
        PbxAudioFormat::Gsm => "gsm"@,
        PbxAudioFormat::Slin16 => "slin16"@,
        PbxAudioFormat::Ilbc => "ilbc"@,
        PbxAudioFormat::Siren7 => "siren7"@,
        PbxAudioFormat::Opus => "opus"@,
    }
}

/// The name that the PBX has for a format.
pub fn audio_format_name(format: PbxAudioFormat) -> (r: &'static str)
    ensures
        r@ == pbx_name(format),
{
    match format {
        PbxAudioFormat::G711Ulaw => "ulaw",
        PbxAudioFormat::G711Alaw => "alaw",
        PbxAudioFormat::G722 => "g722",
        PbxAudioFormat::G723 => "g723",
        PbxAudioFormat::G729 => "g729",
        PbxAudioFormat::G726Aal2 => "g726aal2",
        PbxAudioFormat::Gsm => "gsm",
        PbxAudioFormat::Slin16 => "slin16",
        PbxAudioFormat::Ilbc => "ilbc",
        PbxAudioFormat::Siren7 => "siren7",
        PbxAudioFormat::Opus => "opus",
    }
}

/// The names of formats.
pub open spec fn names_of(formats: Seq<PbxAudioFormat>) -> Seq<text::Text> {
    Seq::new(formats.len(), |i: int| pbx_name(formats[i]))
}

/// The names of the formats, separated by commas.
pub fn render_audio_preferences(preferences: &[PbxAudioFormat]) -> (r: String)
    ensures
        r@ == text::joined(names_of(preferences@), ","@),
{
    let mut names: Vec<String> = Vec::new();
    let mut i: usize = 0;
    while i < preferences.len()
        invariant
            i <= preferences@.len(),
            names.deep_view() == names_of(preferences@).take(i as int),
        decreases preferences.len() - i,
    {
        let ghost before = names.deep_view();
        let name = text::copy(audio_format_name(preferences[i]));
        let ghost added = name@;
        names.push(name);
        assert(names.deep_view() =~= before.push(added));
        i += 1;
        assert(names.deep_view() =~= names_of(preferences@).take(i as int));
    }
    assert(names.deep_view().skip(0) =~= names_of(preferences@));
    text::join_from(&names, 0, ",")
}

// ---------------------------------------------------------------------------
// Requests

/// A list without repetitions, each element where it first stands.
pub open spec fn distinct(formats: Seq<PbxAudioFormat>) -> Seq<PbxAudioFormat>
    decreases formats.len(),
{
    if formats.len() == 0 {
        Seq::empty()
    } else {
        let head = distinct(formats.drop_last());
        if head.contains(formats.last()) {
            head
        } else {
            head.push(formats.last())
        }
    }
}

/// The formats of names from index `i` on, after those before.
pub open spec fn formats_from(names: Seq<text::Text>, i: int, before: Seq<PbxAudioFormat>) -> Result<
    Seq<PbxAudioFormat>,
    CodecPreferenceError,
>
    decreases names.len() - i,
{
    if i < 0 || i >= names.len() {
        Ok(before)
    } else if !is_plausible(names[i]) || format_named(text::name_of(names[i])) is None {
        Err(CodecPreferenceError::UnsupportedFormat)
    } else {
        let format = format_named(text::name_of(names[i]))->0;
        formats_from(
            names,
            i + 1,
            if before.contains(format) {
                before
            } else {
                before.push(format)
            },
        )
    }
}

/// The words that would name an operation.
pub open spec fn is_operation(s: text::Text) -> bool {
    s == "read"@ || s == "replace"@ || s == "append"@ || s == "remove"@ || s == "reset"@
}

/// The formats that the arguments ask for.
pub open spec fn requested(arguments: text::Text) -> Result<
    Seq<PbxAudioFormat>,
    CodecPreferenceError,
> {
    let parts = text::fields_of(arguments, ',');
    if exists|i: int| 0 <= i < parts.len() && (#[trigger] parts[i]).len() == 0 {
        Err(CodecPreferenceError::InvalidArguments)
    } else if is_operation(text::lower(parts[0])) {
        Err(CodecPreferenceError::UnsupportedOperation)
    } else {
        formats_from(parts, 0, Seq::empty())
    }
}

/// What is asked of a channel.
#[derive(Debug, PartialEq, Eq)]
pub enum CodecPreferenceOperation {
    Replace(Vec<PbxAudioFormat>),
}

/// The contents of the outcome of reading arguments.
pub open spec fn asked(r: Result<CodecPreferenceOperation, CodecPreferenceError>) -> Result<
    Seq<PbxAudioFormat>,
    CodecPreferenceError,
> {
    match r {
        Ok(CodecPreferenceOperation::Replace(formats)) => Ok(formats@),
        Err(e) => Err(e),
    }
}

/// Whether a name can be a codec name.
fn plausible(s: &str) -> (r: bool)
    ensures
        r == is_plausible(s@),
{
    let v = text::to_chars(s);
    if v.len() > MAX_NAME_BYTES {
        return false;
    }
    let mut i: usize = 0;
    while i < v.len()
        invariant
            v@ == s@,
            i <= v@.len(),
            forall|j: int|
                0 <= j < i ==> text::is_alnum(#[trigger] s@[j]) || s@[j] == '-' || s@[j] == '_',
        decreases v.len() - i,
    {
        if !text::alnum(v[i]) && v[i] != '-' && v[i] != '_' {
            return false;
        }
        i += 1;
    }
    true
}

/// The format of a name without its separators, in lower case.
fn read_format(s: &str) -> (r: Option<PbxAudioFormat>)
    ensures
        r == format_named(s@),
{
    if text::same(s, "ulaw") || text::same(s, "pcmu") || text::same(s, "g711ulaw") {
        Some(PbxAudioFormat::G711Ulaw)
    } else if text::same(s, "alaw") || text::same(s, "pcma") || text::same(s, "g711alaw") {
        Some(PbxAudioFormat::G711Alaw)
    } else if text::same(s, "g722") {
        Some(PbxAudioFormat::G722)
    } else if text::same(s, "g723") || text::same(s, "g7231") {
        Some(PbxAudioFormat::G723)
    } else if text::same(s, "g729") || text::same(s, "g729a") || text::same(s, "g729b")
        || text::same(s, "g729ab") {
        Some(PbxAudioFormat::G729)
    } else if text::same(s, "g726") || text::same(s, "g726aal2") || text::same(s, "g72632") {
        Some(PbxAudioFormat::G726Aal2)
    } else if text::same(s, "gsm") {
        Some(PbxAudioFormat::Gsm)
    } else if text::same(s, "slin16") || text::same(s, "wideband256k") {
        Some(PbxAudioFormat::Slin16)
    } else if text::same(s, "ilbc") {
        Some(PbxAudioFormat::Ilbc)
    } else if text::same(s, "siren7") || text::same(s, "g722132") {
        Some(PbxAudioFormat::Siren7)
    } else if text::same(s, "opus") {
        Some(PbxAudioFormat::Opus)
    } else {
        None
    }
}

/// The formats that names stand for, each once, where it first stands.
fn parse_formats(values: &Vec<String>) -> (r: Result<Vec<PbxAudioFormat>, CodecPreferenceError>)
    ensures
        match r {
            Ok(formats) => formats_from(values.deep_view(), 0, Seq::empty()) == Ok::<
                Seq<PbxAudioFormat>,
                CodecPreferenceError,
            >(formats@),
            Err(e) => formats_from(values.deep_view(), 0, Seq::empty()) == Err::<
                Seq<PbxAudioFormat>,
                CodecPreferenceError,
            >(e),
        },
{
    let mut formats: Vec<PbxAudioFormat> = Vec::new();
    let ghost names = values.deep_view();
    assert(names.len() == values@.len());
    assert(formats@ =~= Seq::empty());
    let mut i: usize = 0;
    while i < values.len()
        invariant
            names == values.deep_view(),
            names.len() == values@.len(),
            i <= values@.len(),
            formats_from(names, 0, Seq::empty()) == formats_from(names, i as int, formats@),
        decreases values.len() - i,
    {
        assert(names[i as int] == values@[i as int]@);
        if !plausible(values[i].as_str()) {
            return Err(CodecPreferenceError::UnsupportedFormat);
        }
        match read_format(text::normalize_name(values[i].as_str()).as_str()) {
            None => return Err(CodecPreferenceError::UnsupportedFormat),
            Some(format) => {
                if !audio::holds_format(formats.as_slice(), format) {
                    formats.push(format);
                }
            },
        }
        i += 1;
    }
    Ok(formats)
}

impl CodecPreferenceOperation {
    /// Reads the arguments of the application.
    pub fn parse(arguments: &str) -> (r: Result<Self, CodecPreferenceError>)
        ensures
            asked(r) == requested(arguments@),
    {
        let parts = text::fields(arguments, ',');
        let ghost all = text::fields_of(arguments@, ',');
        assert(all.len() == parts@.len());
        let mut i: usize = 0;
        while i < parts.len()
            invariant
                all == text::fields_of(arguments@, ','),
                all == parts.deep_view(),
                all.len() == parts@.len(),
                i <= parts@.len(),
                forall|j: int| 0 <= j < i ==> (#[trigger] all[j]).len() != 0,
            decreases parts.len() - i,
        {
            assert(all[i as int] == parts@[i as int]@);
            if parts[i].as_str().is_empty() {
                return Err(CodecPreferenceError::InvalidArguments);
            }
            i += 1;
        }
        assert(all[0] == parts@[0]@);
        let first = text::to_ascii_lowercase(parts[0].as_str());
        let first = first.as_str();
        if text::same(first, "read") || text::same(first, "replace") || text::same(first, "append")
            || text::same(first, "remove") || text::same(first, "reset") {
            return Err(CodecPreferenceError::UnsupportedOperation);
        }
        match parse_formats(&parts) {
            Ok(formats) => Ok(CodecPreferenceOperation::Replace(formats)),
            Err(e) => Err(e),
        }
    }
}

// ---------------------------------------------------------------------------
// Channels

/// What a channel may use and does use.
#[derive(Debug, PartialEq, Eq)]
pub struct CodecPreferenceContext {
    /// The configured formats that the channel backend and the registered
    /// station support, in configured order.
    pub configured: Vec<PbxAudioFormat>,
    /// The preferences of the channel, or the configured list where none were
    /// set.
    pub effective: Vec<PbxAudioFormat>,
}

impl Clone for CodecPreferenceContext {
    fn clone(&self) -> (r: Self)
        ensures
            r.configured@ == self.configured@,
            r.effective@ == self.effective@,
    {
        CodecPreferenceContext {
            configured: text::copy_all(&self.configured),
            effective: text::copy_all(&self.effective),
        }
    }
}

/// The owner of the channels. What it answers is its own affair: the two
/// relations only name the answers it may give.
pub trait CodecPreferenceProvider {
    /// A channel that runs the application.
    type Channel;

    /// `r` is an answer that [`CodecPreferenceProvider::context`] may give; any
    /// answer, where the owner says no more.
    open spec fn may_answer(
        &self,
        channel: Self::Channel,
        r: Result<CodecPreferenceContext, CodecPreferenceProviderError>,
    ) -> bool {
        true
    }

    /// `r` is an answer that [`CodecPreferenceProvider::replace`] may give; any
    /// answer, where the owner says no more.
    open spec fn may_replace(
        &self,
        channel: Self::Channel,
        preferences: Seq<PbxAudioFormat>,
        r: Result<(), CodecPreferenceProviderError>,
    ) -> bool {
        true
    }

    fn context(&self, channel: &Self::Channel) -> (r: Result<
        CodecPreferenceContext,
        CodecPreferenceProviderError,
    >)
        ensures
            self.may_answer(*channel, r),
    ;

    /// Takes preferences for a channel: at least one, none twice, and only such
    /// as pass every check against an answer of
    /// [`CodecPreferenceProvider::context`].
    fn replace(&self, channel: &Self::Channel, preferences: &[PbxAudioFormat]) -> (r: Result<
        (),
        CodecPreferenceProviderError,
    >)
        requires
            preferences@.len() > 0,
            no_repetition(preferences@),
            exists|c: Result<CodecPreferenceContext, CodecPreferenceProviderError>| #[trigger]
                self.may_answer(*channel, c) && request_fault(preferences@, c) is None,
        ensures
            self.may_replace(*channel, preferences@, r),
    ;
}

/// The preferences of a channel.
pub open spec fn preferred(
    context: Result<CodecPreferenceContext, CodecPreferenceProviderError>,
) -> Result<Seq<PbxAudioFormat>, CodecPreferenceError> {
    match context {
        Err(e) => Err(CodecPreferenceError::Provider(e)),
        Ok(c) => if distinct(c.configured@).len() == 0 {
            Err(CodecPreferenceError::NoConfiguredFormat)
        } else if distinct(c.effective@).len() == 0 {
            Ok(distinct(c.configured@))
        } else {
            Ok(distinct(c.effective@))
        },
    }
}

/// Why a channel may not be given these preferences.
pub open spec fn request_fault(
    formats: Seq<PbxAudioFormat>,
    context: Result<CodecPreferenceContext, CodecPreferenceProviderError>,
) -> Option<CodecPreferenceError> {
    match context {
        Err(e) => Some(CodecPreferenceError::Provider(e)),
        Ok(c) => if distinct(c.configured@).len() == 0 {
            Some(CodecPreferenceError::NoConfiguredFormat)
        } else if exists|i: int|
            0 <= i < formats.len() && !distinct(c.configured@).contains(#[trigger] formats[i]) {
            Some(CodecPreferenceError::FormatNotConfigured)
        } else {
            None
        },
    }
}

/// The outcome of setting preferences.
pub open spec fn ended(r: Result<(), CodecPreferenceProviderError>) -> Result<
    (),
    CodecPreferenceError,
> {
    match r {
        Ok(_) => Ok(()),
        Err(e) => Err(CodecPreferenceError::Provider(e)),
    }
}

/// A list without repetitions, each element where it first stands.
fn normalize(preferences: &Vec<PbxAudioFormat>) -> (r: Vec<PbxAudioFormat>)
    ensures
        r@ == distinct(preferences@),
{
    let mut r: Vec<PbxAudioFormat> = Vec::new();
    let mut i: usize = 0;
    assert(preferences@.take(0) =~= Seq::empty());
    while i < preferences.len()
        invariant
            i <= preferences@.len(),
            r@ == distinct(preferences@.take(i as int)),
        decreases preferences.len() - i,
    {
        assert(preferences@.take(i + 1).drop_last() =~= preferences@.take(i as int));
        if !audio::holds_format(r.as_slice(), preferences[i]) {
            r.push(preferences[i]);
        }
        i += 1;
    }
    assert(preferences@.take(i as int) =~= preferences@);
    r
}

/// The preferences of a channel, from what its owner answered.
pub fn normalized_context(
    context: Result<CodecPreferenceContext, CodecPreferenceProviderError>,
) -> (r: Result<Vec<PbxAudioFormat>, CodecPreferenceError>)
    ensures
        match r {
            Ok(formats) => preferred(context) == Ok::<Seq<PbxAudioFormat>, CodecPreferenceError>(
                formats@,
            ),
            Err(e) => preferred(context) == Err::<Seq<PbxAudioFormat>, CodecPreferenceError>(e),
        },
{
    let context = match context {
        Ok(context) => context,
        Err(e) => return Err(CodecPreferenceError::Provider(e)),
    };
    let configured = normalize(&context.configured);
    if configured.len() == 0 {
        return Err(CodecPreferenceError::NoConfiguredFormat);
    }
    let effective = normalize(&context.effective);
    if effective.len() == 0 {
        Ok(configured)
    } else {
        Ok(effective)
    }
}

/// Why a channel may not be given these preferences, from what its owner
/// answered.
pub fn check_request(
    formats: &Vec<PbxAudioFormat>,
    context: &Result<CodecPreferenceContext, CodecPreferenceProviderError>,
) -> (r: Option<CodecPreferenceError>)
    ensures
        r == request_fault(formats@, *context),
{
    let configured = match context {
        Ok(context) => normalize(&context.configured),
        Err(e) => return Some(CodecPreferenceError::Provider(*e)),
    };
    if configured.len() == 0 {
        return Some(CodecPreferenceError::NoConfiguredFormat);
    }
    let mut i: usize = 0;
    while i < formats.len()
        invariant
            i <= formats@.len(),
            forall|j: int| 0 <= j < i ==> configured@.contains(#[trigger] formats@[j]),
            context is Ok,
            configured@ == distinct(context->Ok_0.configured@),
            configured@.len() != 0,
        decreases formats.len() - i,
    {
        if !audio::holds_format(configured.as_slice(), formats[i]) {
            return Some(CodecPreferenceError::FormatNotConfigured);
        }
        i += 1;
    }
    None
}

/// The application over the owner of the channels.
pub struct CodecPreferenceApplication<P> {
    pub provider: P,
}

impl<P: CodecPreferenceProvider> CodecPreferenceApplication<P> {
    pub fn new(provider: P) -> (r: Self)
        ensures
            r.provider == provider,
    {
        CodecPreferenceApplication { provider }
    }

    /// The preferences of a channel.
    pub fn preferences(&self, channel: &P::Channel) -> (r: Result<
        Vec<PbxAudioFormat>,
        CodecPreferenceError,
    >)
        ensures
            exists|c: Result<CodecPreferenceContext, CodecPreferenceProviderError>|
                {
                    &&& #[trigger] self.provider.may_answer(*channel, c)
                    &&& match r {
                        Ok(formats) => preferred(c) == Ok::<
                            Seq<PbxAudioFormat>,
                            CodecPreferenceError,
                        >(formats@),
                        Err(e) => preferred(c) == Err::<Seq<PbxAudioFormat>, CodecPreferenceError>(
                            e,
                        ),
                    }
                },
    {
        normalized_context(self.provider.context(channel))
    }

    /// Sets the preferences of a channel. The owner of the channels is asked
    /// only once the arguments are in order, and is told only formats that it
    /// says are configured: what is refused changes nothing.
    pub fn execute(&self, arguments: &str, channel: &P::Channel) -> (r: Result<
        (),
        CodecPreferenceError,
    >)
        ensures
            match requested(arguments@) {
                Err(e) => r == Err::<(), CodecPreferenceError>(e),
                Ok(formats) => exists|c: Result<CodecPreferenceContext, CodecPreferenceProviderError>|
                    {
                        &&& #[trigger] self.provider.may_answer(*channel, c)
                        &&& match request_fault(formats, c) {
                            Some(e) => r == Err::<(), CodecPreferenceError>(e),
                            None => exists|x: Result<(), CodecPreferenceProviderError>|
                                #[trigger] self.provider.may_replace(*channel, formats, x) && r
                                    == ended(x),
                        }
                    },
            },
    {
        let formats = match CodecPreferenceOperation::parse(arguments) {
            Ok(CodecPreferenceOperation::Replace(formats)) => formats,
            Err(e) => return Err(e),
        };
        let context = self.provider.context(channel);
        match check_request(&formats, &context) {
            Some(e) => return Err(e),
            None => {},
        }
        proof {
            law_requests_are_lists_without_repetition(arguments@);
        }
        match self.provider.replace(channel, formats.as_slice()) {
            Ok(_) => Ok(()),
            Err(e) => Err(CodecPreferenceError::Provider(e)),
        }
    }
}

// ---------------------------------------------------------------------------
// Laws

/// No element stands twice.
pub open spec fn no_repetition(formats: Seq<PbxAudioFormat>) -> bool {
    forall|i: int, j: int|
        0 <= i < j < formats.len() ==> #[trigger] formats[i] != #[trigger] formats[j]
}

proof fn lemma_formats_are_distinct(names: Seq<text::Text>, i: int, before: Seq<PbxAudioFormat>)
    requires
        0 <= i <= names.len(),
        no_repetition(before),
        formats_from(names, i, before) is Ok,
    ensures
        no_repetition(formats_from(names, i, before)->Ok_0),
        formats_from(names, i, before)->Ok_0.len() >= before.len(),
        i < names.len() ==> formats_from(names, i, before)->Ok_0.len() > 0,
    decreases names.len() - i,
{
    if i < names.len() {
        let format = format_named(text::name_of(names[i]))->0;
        let next = if before.contains(format) {
            before
        } else {
            before.push(format)
        };
        assert(next.len() > 0);
        assert forall|a: int, b: int| 0 <= a < b < next.len() implies #[trigger] next[a]
            != #[trigger] next[b] by {
            if b == before.len() {
                assert(before[a] != format);
            }
        }
        lemma_formats_are_distinct(names, i + 1, next);
    }
}

/// An accepted request names at least one format and none twice.
pub proof fn law_requests_are_lists_without_repetition(arguments: text::Text)
    requires
        requested(arguments) is Ok,
    ensures
        requested(arguments)->Ok_0.len() > 0,
        no_repetition(requested(arguments)->Ok_0),
{
    let parts = text::fields_of(arguments, ',');
    lemma_formats_are_distinct(parts, 0, Seq::empty());
}

proof fn lemma_distinct(formats: Seq<PbxAudioFormat>)
    ensures
        no_repetition(distinct(formats)),
        forall|f: PbxAudioFormat| distinct(formats).contains(f) <==> #[trigger] formats.contains(f),
        distinct(formats).len() == 0 <==> formats.len() == 0,
    decreases formats.len(),
{
    if formats.len() > 0 {
        let head = formats.drop_last();
        let d = distinct(head);
        let last = formats.last();
        lemma_distinct(head);
        assert forall|f: PbxAudioFormat| distinct(formats).contains(f) <==> #[trigger]
            formats.contains(f) by {
            assert(head.contains(f) <==> d.contains(f));
            if d.contains(f) {
                let k = choose|k: int| 0 <= k < d.len() && d[k] == f;
                assert(distinct(formats)[k] == f);
                let m = choose|m: int| 0 <= m < head.len() && head[m] == f;
                assert(formats[m] == f);
            }
            if f == last {
                assert(formats[formats.len() - 1] == f);
                if !d.contains(last) {
                    assert(distinct(formats)[d.len() as int] == f);
                }
            }
            if formats.contains(f) && f != last {
                let m = choose|m: int| 0 <= m < formats.len() && formats[m] == f;
                assert(head[m] == f);
            }
            if distinct(formats).contains(f) && f != last {
                let k = choose|k: int| 0 <= k < distinct(formats).len() && distinct(formats)[k] == f;
                assert(d[k] == f);
            }
        }
        if d.contains(last) {
            assert(d.len() > 0);
        }
    }
}

/// The preferences of a channel are never empty, hold no format twice, and are
/// those in effect wherever any are.
pub proof fn law_preferences_are_normalized(
    context: Result<CodecPreferenceContext, CodecPreferenceProviderError>,
)
    requires
        preferred(context) is Ok,
    ensures
        preferred(context)->Ok_0.len() > 0,
        no_repetition(preferred(context)->Ok_0),
        forall|f: PbxAudioFormat|
            preferred(context)->Ok_0.contains(f) <==> if context->Ok_0.effective@.len() > 0 {
                #[trigger] context->Ok_0.effective@.contains(f)
            } else {
                #[trigger] context->Ok_0.configured@.contains(f)
            },
{
    let c = context->Ok_0;
    lemma_distinct(c.configured@);
    lemma_distinct(c.effective@);
}

proof fn lemma_pbx_names(format: PbxAudioFormat)
    ensures
        format_named(pbx_name(format)) == Some(format),
        !is_operation(pbx_name(format)),
        0 < pbx_name(format).len() <= MAX_NAME_BYTES,
        forall|i: int|
            0 <= i < pbx_name(format).len() ==> text::is_lower(#[trigger] pbx_name(format)[i])
                || text::is_digit(pbx_name(format)[i]),
{
    reveal_strlit("read");
    reveal_strlit("replace");
    reveal_strlit("append");
    reveal_strlit("remove");
    reveal_strlit("reset");
    reveal_strlit("ulaw");
    reveal_strlit("pcmu");
    reveal_strlit("g711ulaw");
    reveal_strlit("alaw");
    reveal_strlit("pcma");
    reveal_strlit("g711alaw");
    reveal_strlit("g722");
    reveal_strlit("g723");
    reveal_strlit("g7231");
    reveal_strlit("g729");
    reveal_strlit("g729a");
    reveal_strlit("g729b");
    reveal_strlit("g729ab");
    reveal_strlit("g726");
    reveal_strlit("g726aal2");
    reveal_strlit("g72632");
    reveal_strlit("gsm");
    reveal_strlit("slin16");
    reveal_strlit("wideband256k");
    reveal_strlit("ilbc");
    reveal_strlit("siren7");
    reveal_strlit("g722132");
    reveal_strlit("opus");
    let name = pbx_name(format);
    assert(name.len() == 4 ==> name[1] != "read"@[1]);
    assert(name.len() == 6 ==> name[0] != "append"@[0] && name[0] != "remove"@[0]);
    match format {
        PbxAudioFormat::G711Ulaw => {},
        PbxAudioFormat::G711Alaw => {
            assert("alaw"@[0] != "ulaw"@[0]);
            assert("alaw"@[0] != "pcmu"@[0]);
        },
        PbxAudioFormat::G722 => {
            assert("g722"@[0] != "ulaw"@[0]);
            assert("g722"@[0] != "pcmu"@[0]);
            assert("g722"@[0] != "alaw"@[0]);
            assert("g722"@[0] != "pcma"@[0]);
        },
        PbxAudioFormat::G723 => {
            assert("g723"@[0] != "ulaw"@[0]);
            assert("g723"@[0] != "pcmu"@[0]);
            assert("g723"@[0] != "alaw"@[0]);
            assert("g723"@[0] != "pcma"@[0]);
            assert("g723"@[3] != "g722"@[3]);
        },
        PbxAudioFormat::G729 => {
            assert("g729"@[0] != "ulaw"@[0]);
            assert("g729"@[0] != "pcmu"@[0]);
            assert("g729"@[0] != "alaw"@[0]);
            assert("g729"@[0] != "pcma"@[0]);
            assert("g729"@[3] != "g722"@[3]);
            assert("g729"@[3] != "g723"@[3]);
        },
        PbxAudioFormat::G726Aal2 => {
            assert("g726aal2"@[3] != "g711ulaw"@[3]);
            assert("g726aal2"@[3] != "g711alaw"@[3]);
        },
        PbxAudioFormat::Gsm => {},
        PbxAudioFormat::Slin16 => {
            assert("slin16"@[0] != "g729ab"@[0]);
            assert("slin16"@[0] != "g72632"@[0]);
        },
        PbxAudioFormat::Ilbc => {
            assert("ilbc"@[0] != "ulaw"@[0]);
            assert("ilbc"@[0] != "pcmu"@[0]);
            assert("ilbc"@[0] != "alaw"@[0]);
            assert("ilbc"@[0] != "pcma"@[0]);
            assert("ilbc"@[0] != "g722"@[0]);
            assert("ilbc"@[0] != "g723"@[0]);
            assert("ilbc"@[0] != "g729"@[0]);
            assert("ilbc"@[0] != "g726"@[0]);
        },
        PbxAudioFormat::Siren7 => {
            assert("siren7"@[0] != "g729ab"@[0]);
            assert("siren7"@[0] != "g72632"@[0]);
            assert("siren7"@[1] != "slin16"@[1]);
        },
        PbxAudioFormat::Opus => {
            assert("opus"@[0] != "ulaw"@[0]);
            assert("opus"@[0] != "pcmu"@[0]);
            assert("opus"@[0] != "alaw"@[0]);
            assert("opus"@[0] != "pcma"@[0]);
            assert("opus"@[0] != "g722"@[0]);
            assert("opus"@[0] != "g723"@[0]);
            assert("opus"@[0] != "g729"@[0]);
            assert("opus"@[0] != "g726"@[0]);
            assert("opus"@[0] != "ilbc"@[0]);
        },
    }
}

proof fn lemma_plain_name(s: text::Text)
    requires
        forall|i: int|
            0 <= i < s.len() ==> text::is_lower(#[trigger] s[i]) || text::is_digit(s[i]),
    ensures
        text::name_of(s) == s,
        text::lower(s) == s,
        text::trimmed(s) == s,
        !s.contains(','),
    decreases s.len(),
{
    assert(text::lower(s) =~= s);
    if s.len() > 0 {
        assert(!text::is_space(s[0]));
        assert(!text::is_space(s.last()));
        lemma_plain_name(s.drop_last());
        assert(s.drop_last().push(s.last()) =~= s);
    }
}

proof fn lemma_names_read_back(formats: Seq<PbxAudioFormat>, i: int)
    requires
        0 <= i <= formats.len(),
        no_repetition(formats),
    ensures
        formats_from(names_of(formats), i, formats.take(i)) == Ok::<
            Seq<PbxAudioFormat>,
            CodecPreferenceError,
        >(formats),
    decreases formats.len() - i,
{
    if i < formats.len() {
        let name = pbx_name(formats[i]);
        lemma_pbx_names(formats[i]);
        lemma_plain_name(name);
        let before = formats.take(i);
        if before.contains(formats[i]) {
            let k = choose|k: int| 0 <= k < before.len() && before[k] == formats[i];
            assert(formats[k] != formats[i]);
        }
        assert(before.push(formats[i]) =~= formats.take(i + 1));
        lemma_names_read_back(formats, i + 1);
    } else {
        assert(formats.take(i) =~= formats);
    }
}

/// What is rendered of a list of preferences asks for exactly that list.
pub proof fn law_rendered_preferences_read_back(formats: Seq<PbxAudioFormat>)
    requires
        formats.len() > 0,
        no_repetition(formats),
    ensures
        requested(text::joined(names_of(formats), ","@)) == Ok::<
            Seq<PbxAudioFormat>,
            CodecPreferenceError,
        >(formats),
{
    let names = names_of(formats);
    assert forall|i: int| 0 <= i < names.len() implies !(#[trigger] names[i]).contains(',')
        && text::trimmed(names[i]) == names[i] && names[i].len() > 0 by {
        lemma_pbx_names(formats[i]);
        lemma_plain_name(names[i]);
    }
    reveal_strlit(",");
    assert(","@ =~= seq![',']);
    text::law_joined_pieces_split_back(names, ',');
    let parts = text::fields_of(text::joined(names, ","@), ',');
    assert(parts =~= names);
    lemma_pbx_names(formats[0]);
    lemma_plain_name(names[0]);
    lemma_names_read_back(formats, 0);
    assert(formats.take(0) =~= Seq::empty());
}

} // verus!
