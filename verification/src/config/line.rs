//! Line sections.

use vstd::prelude::*;

use crate::config::error;
use crate::config::error::ConfigError;
use crate::config::general;
use crate::config::network;
use crate::config::option;
use crate::config::option::Options;
use crate::config::option::Scope;
use crate::config::option::Setting;
use crate::config::policy;
use crate::config::policy::GeneralConfig;
use crate::config::policy::LineConferenceConfig;
use crate::config::policy::LineConfig;
use crate::config::policy::LineDialToneConfig;
use crate::config::policy::LineFeatureConfig;
use crate::config::policy::LineHotlineConfig;
use crate::config::policy::LineMediaConfig;
use crate::config::policy::LineMobilityConfig;
use crate::config::policy::LineParkingConfig;
use crate::config::policy::LineRegistrationConfig;
use crate::config::policy::PickupConfig;
use crate::config::policy::RegistrationExtension;
use crate::config::policy::VideoMode;
use crate::config::policy::VoicemailDefaults;
use crate::config::registration;
use crate::config::rules;
use crate::config::rules::LayerRules;
use crate::config::section;
use crate::config::section::RawSection;
use crate::config::setting;
use crate::config::value;
use crate::config::variable;
use crate::station::AudioProcessingPolicy;
use crate::station::Codec;
use crate::station::EchoCancellation;
use crate::station::SilenceSuppression;
use crate::station::Tone;
use crate::text;

verus! {

/// A line with its features.
pub struct ParsedLine {
    pub line: LineConfig,
    pub features: LineFeatureConfig,
}

pub struct ParsedLineView {
    pub line: policy::LineConfigView,
    pub features: policy::LineFeatureConfigView,
}

impl DeepView for ParsedLine {
    type V = ParsedLineView;

    open spec fn deep_view(&self) -> ParsedLineView {
        ParsedLineView { line: self.line.deep_view(), features: self.features.deep_view() }
    }
}

// ---------------------------------------------------------------------------
// Caller identity

/// A text without leading quotes.
pub open spec fn unquoted_start(s: text::Text) -> text::Text
    decreases s.len(),
{
    if s.len() > 0 && s[0] == '"' {
        unquoted_start(s.skip(1))
    } else {
        s
    }
}

/// A text without trailing quotes.
pub open spec fn unquoted_end(s: text::Text) -> text::Text
    decreases s.len(),
{
    if s.len() > 0 && s.last() == '"' {
        unquoted_end(s.drop_last())
    } else {
        s
    }
}

/// A text without quotes at either end.
pub open spec fn bare(s: text::Text) -> text::Text {
    unquoted_end(unquoted_start(s))
}

/// Removes quotes at both ends.
fn trim_quotes(s: &str) -> (r: String)
    ensures
        r@ == bare(s@),
{
    let v = text::to_chars(s);
    let mut a: usize = 0;
    assert(s@.skip(0) =~= s@);
    while a < v.len() && v[a] == '"'
        invariant
            v@ == s@,
            a <= v.len(),
            unquoted_start(s@.skip(a as int)) == unquoted_start(s@),
        decreases v.len() - a,
    {
        assert(s@.skip(a as int).skip(1) =~= s@.skip(a + 1));
        a += 1;
    }
    assert(unquoted_start(s@) == s@.skip(a as int));
    let mut b: usize = v.len();
    assert(s@.subrange(a as int, b as int) =~= s@.skip(a as int));
    while a < b && v[b - 1] == '"'
        invariant
            v@ == s@,
            a <= b <= v.len(),
            unquoted_end(s@.subrange(a as int, b as int)) == unquoted_end(s@.skip(a as int)),
        decreases b,
    {
        assert(s@.subrange(a as int, b as int).drop_last() =~= s@.subrange(a as int, b - 1));
        b -= 1;
    }
    text::from_chars(&v, a, b)
}

/// A caller's name and number: a name before a number in angle brackets, or
/// one text for both.
pub open spec fn caller_of(raw: text::Text) -> (text::Text, text::Text) {
    let value = text::trimmed(raw);
    match text::cut_last(value, '<') {
        Some((name, number)) => if number.len() > 0 && number.last() == '>' {
            (bare(text::trimmed(name)), text::trimmed(number.drop_last()))
        } else {
            (value, value)
        },
        None => (value, value),
    }
}

/// Reads a caller's name and number.
pub fn parse_caller_id(raw: &str) -> (r: (String, String))
    ensures
        r.0@ == caller_of(raw@).0,
        r.1@ == caller_of(raw@).1,
{
    let value = text::trim(raw);
    match text::rsplit_once(value.as_str(), '<') {
        Some((name, number)) => {
            let c = text::to_chars(number.as_str());
            if c.len() > 0 && c[c.len() - 1] == '>' {
                let inner = text::from_chars(&c, 0, c.len() - 1);
                assert(inner@ =~= number@.drop_last());
                return (
                    trim_quotes(text::trim(name.as_str()).as_str()),
                    text::trim(inner.as_str()),
                );
            }
        },
        None => {},
    }
    (text::copy(value.as_str()), value)
}

// ---------------------------------------------------------------------------
// Refusals

/// Why one setting of a line or device is refused, channel variables being
/// judged against those before.
pub open spec fn entry_fault(o: option::OptionsView, i: int, w: rules::LayerRulesView) -> Option<
    error::ErrorView,
> {
    let v = o.section.values[i];
    if o.settings[i] == Setting::SetVariable {
        value::refusal_of(
            variable::variables_after(
                value::variables_upto(o, i, w),
                section::place(v),
                v.value,
                w,
            ),
        )
    } else {
        value::entry_fault(o, i, w)
    }
}

/// The first refusal from one setting on.
pub open spec fn first_fault(o: option::OptionsView, i: int, w: rules::LayerRulesView) -> Option<
    error::ErrorView,
>
    decreases o.settings.len() - i,
{
    if i >= o.settings.len() {
        None
    } else {
        match entry_fault(o, i, w) {
            Some(e) => Some(e),
            None => first_fault(o, i + 1, w),
        }
    }
}

/// Judges every setting of a line section, in order.
fn check_entries(o: &Options, with: &LayerRules) -> (r: Option<ConfigError>)
    requires
        o.deep_view().matched(),
    ensures
        error::refusal(r) == first_fault(o.deep_view(), 0, with.deep_view()),
{
    let mut variables: Vec<policy::ChannelVariable> = Vec::new();
    let mut i: usize = 0;
    assert(variables.deep_view() =~= Seq::empty());
    while i < o.settings.len()
        invariant
            o.deep_view().matched(),
            i <= o.settings@.len(),
            variables.deep_view() == value::variables_upto(
                o.deep_view(),
                i as int,
                with.deep_view(),
            ),
            first_fault(o.deep_view(), 0, with.deep_view()) == first_fault(
                o.deep_view(),
                i as int,
                with.deep_view(),
            ),
        decreases o.settings.len() - i,
    {
        let v = &o.section.values[i];
        assert(o.deep_view().section.values[i as int] == v.deep_view());
        let fault = if o.settings[i] == Setting::SetVariable {
            variable::push_channel_variable(
                &mut variables,
                v.diagnostic_key().as_str(),
                v.value.as_str(),
                with,
            )
        } else {
            value::check_entry(o, i, with)
        };
        match fault {
            Some(e) => return Some(e),
            None => {},
        }
        i += 1;
    }
    None
}

// ---------------------------------------------------------------------------
// Registration

/// The registration extensions of a line: those it sets, or its name.
pub open spec fn registered(
    o: option::OptionsView,
    contexts: Seq<text::Text>,
) -> Result<Seq<policy::RegistrationExtensionView>, error::ErrorView> {
    let s = o.section;
    match network::over(value::extensions_at(o, Setting::RegistrationExtension), None) {
        Some(list) => if contexts.len() == 0 {
            Err(
                error::invalid(
                    section::key_place(s, "regexten"@),
                    network::over(section::value_of(s, "regexten"@), ""@),
                    "at least one general regcontext when regexten is configured"@,
                    false,
                ),
            )
        } else {
            Ok(list)
        },
        None => {
            let own = seq![policy::RegistrationExtensionView { extension: s.name, context: None }];
            if contexts.len() == 0 {
                Ok(own)
            } else {
                match registration::identifier_fault(
                    section::section_place(s),
                    s.name,
                    "a logical line name usable as a registration extension"@,
                ) {
                    Some(e) => Err(e),
                    None => Ok(own),
                }
            }
        },
    }
}

/// The registration extensions of a line.
fn get_registered(o: &Options, contexts: &Vec<String>) -> (r: Result<
    Vec<RegistrationExtension>,
    ConfigError,
>)
    requires
        o.deep_view().matched(),
    ensures
        error::outcome(r) == registered(o.deep_view(), contexts.deep_view()),
{
    assert(contexts.deep_view().len() == contexts@.len());
    let set = match value::get_extensions(o, Setting::RegistrationExtension) {
        Some(x) => x,
        None => None,
    };
    match set {
        Some(list) => {
            if contexts.len() == 0 {
                let raw = match o.section.value("regexten") {
                    Some(raw) => raw,
                    None => text::copy(""),
                };
                return Err(
                    error::invalid_option(
                        o.section.diagnostic_key("regexten").as_str(),
                        raw.as_str(),
                        "at least one general regcontext when regexten is configured",
                        false,
                    ),
                );
            }
            Ok(list)
        },
        None => {
            if contexts.len() > 0 {
                match registration::validate_registration_identifier(
                    o.section.section_location().as_str(),
                    o.section.name.as_str(),
                    "a logical line name usable as a registration extension",
                ) {
                    Some(e) => return Err(e),
                    None => {},
                }
            }
            let own = RegistrationExtension {
                extension: text::copy(o.section.name.as_str()),
                context: None,
            };
            let r = vec![own];
            assert(r.deep_view() =~= seq![
                policy::RegistrationExtensionView {
                    extension: o.deep_view().section.name,
                    context: None,
                },
            ]);
            Ok(r)
        },
    }
}

// ---------------------------------------------------------------------------
// Conference dialing

/// The conference dialing of a line.
pub open spec fn conference_of(o: option::OptionsView) -> policy::LineConferenceConfigView {
    policy::LineConferenceConfigView {
        enabled: value::flag_at(o, Setting::ConferenceEnabled),
        destination: network::over(
            value::empty_optional_at(o, Setting::ConferenceNumber),
            None,
        ),
        application_options: value::app_options_at(o, Setting::ConferenceOptions),
    }
}

/// Why the conference dialing of a line contradicts itself.
pub open spec fn conference_fault(o: option::OptionsView) -> Option<error::ErrorView> {
    let c = conference_of(o);
    if c.enabled == Some(false) && (c.destination is Some || c.application_options is Some) {
        Some(
            error::refused(
                o.section.name + ".meetme"@,
                "disabled with conference destination or options"@,
            ),
        )
    } else if c.enabled == Some(true) && c.destination is None {
        Some(
            error::refused(
                o.section.name + ".meetmenum"@,
                "conference dialing is enabled without a destination"@,
            ),
        )
    } else {
        None
    }
}

/// A name with an ending.
pub fn name_with(name: &str, ending: &str) -> (r: String)
    ensures
        r@ == name@ + ending@,
{
    let mut r = text::copy(name);
    r.append(ending);
    r
}

/// The conference dialing of a line.
fn get_conference(o: &Options) -> (r: LineConferenceConfig)
    requires
        o.deep_view().matched(),
    ensures
        r.deep_view() == conference_of(o.deep_view()),
{
    LineConferenceConfig {
        enabled: value::get_flag(o, Setting::ConferenceEnabled),
        destination: match value::get_empty_optional(o, Setting::ConferenceNumber) {
            Some(x) => x,
            None => None,
        },
        application_options: value::get_app_options(o, Setting::ConferenceOptions),
    }
}

/// Refuses conference dialing that contradicts itself.
fn check_conference(o: &Options) -> (r: Option<ConfigError>)
    requires
        o.deep_view().matched(),
    ensures
        error::refusal(r) == conference_fault(o.deep_view()),
{
    let c = get_conference(o);
    match c.enabled {
        Some(false) => {
            if c.destination.is_some() || c.application_options.is_some() {
                return Some(
                    error::invalid_value(
                        name_with(o.section.name.as_str(), ".meetme").as_str(),
                        "disabled with conference destination or options",
                    ),
                );
            }
            None
        },
        Some(true) => {
            if c.destination.is_none() {
                return Some(
                    error::invalid_value(
                        name_with(o.section.name.as_str(), ".meetmenum").as_str(),
                        "conference dialing is enabled without a destination",
                    ),
                );
            }
            None
        },
        None => None,
    }
}

// ---------------------------------------------------------------------------
// The whole section

/// The call pickup of a line.
pub open spec fn pickup_of(o: option::OptionsView) -> policy::PickupConfigView {
    policy::PickupConfigView {
        call_groups: network::over(value::groups_at(o, Setting::CallGroup), Seq::empty()),
        pickup_groups: network::over(value::groups_at(o, Setting::PickupGroup), Seq::empty()),
        named_call_groups: network::over(
            value::names_at(o, Setting::NamedCallGroup),
            Seq::empty(),
        ),
        named_pickup_groups: network::over(
            value::names_at(o, Setting::NamedPickupGroup),
            Seq::empty(),
        ),
        directed: network::over(value::flag_at(o, Setting::DirectedPickup), true),
        directed_context: network::over(
            value::optional_at(o, Setting::DirectedPickupContext),
            None,
        ),
        answer_directed: network::over(value::flag_at(o, Setting::PickupModeAnswer), true),
    }
}

/// The audio processing of a line, over the general one.
pub open spec fn processing_of(o: option::OptionsView, base: AudioProcessingPolicy) -> AudioProcessingPolicy {
    AudioProcessingPolicy {
        echo_cancellation: match value::flag_at(o, Setting::EchoCancel) {
            Some(on) => if on {
                EchoCancellation::On
            } else {
                EchoCancellation::Off
            },
            None => base.echo_cancellation,
        },
        silence_suppression: match value::flag_at(o, Setting::SilenceSuppression) {
            Some(on) => if on {
                SilenceSuppression::On
            } else {
                SilenceSuppression::Off
            },
            None => base.silence_suppression,
        },
    }
}

/// The features of a line.
pub open spec fn features_of(
    o: option::OptionsView,
    g: policy::GeneralConfigView,
    w: rules::LayerRulesView,
    extensions: Seq<policy::RegistrationExtensionView>,
    codecs: Seq<Codec>,
) -> policy::LineFeatureConfigView {
    policy::LineFeatureConfigView {
        incoming_limit: network::over(value::incoming_at(o, Setting::IncomingLimit), 6) as u32,
        voicemail: policy::VoicemailDefaultsView {
            number: network::over(value::voicemail_at(o, Setting::VoicemailNumber, w), None),
            transfer_destination: network::over(
                value::voicemail_at(o, Setting::VoicemailTransfer, w),
                None,
            ),
        },
        pickup: pickup_of(o),
        parking: policy::LineParkingConfigView {
            lot: network::over(value::empty_optional_at(o, Setting::ParkingLot), None),
        },
        conference: conference_of(o),
        hotline: policy::LineHotlineConfigView {
            destination: network::over(value::hotline_at(o, Setting::AdhocNumber, w), None),
        },
        dial_tones: policy::LineDialToneConfigView {
            initial: network::over(
                value::tone_at(o, Setting::InitialDialtoneTone, w),
                Tone::InsideDial,
            ),
            secondary_prefix: network::over(
                value::prefix_at(o, Setting::SecondaryDialtoneDigits),
                None,
            ),
            secondary: network::over(
                value::tone_at(o, Setting::SecondaryDialtoneTone, w),
                Tone::OutsideDial,
            ),
        },
        mobility: policy::LineMobilityConfigView {
            pin: network::over(value::pin_at(o, Setting::Pin), None),
        },
        registration: policy::LineRegistrationConfigView { extensions },
        media: policy::LineMediaConfigView {
            codecs,
            audio_encryption: network::over(
                value::encryption_at(o, Setting::AudioEncryption),
                g.audio_encryption,
            ),
            video_mode: network::over(
                value::video_mode_at(o, Setting::VideoMode),
                VideoMode::Auto,
            ),
            audio_processing: processing_of(o, g.audio_processing),
        },
    }
}

/// The caller identity of a line: what it sets, or its name.
pub open spec fn line_caller(s: section::RawSectionView) -> (text::Text, text::Text) {
    match section::value_of(s, "callerid"@) {
        Some(raw) => caller_of(raw),
        None => (s.name, s.name),
    }
}

/// The identity of a line.
pub open spec fn identity_of(
    o: option::OptionsView,
    g: policy::GeneralConfigView,
    w: rules::LayerRulesView,
    context: text::Text,
) -> policy::LineConfigView {
    let s = o.section;
    policy::LineConfigView {
        number: s.name,
        label: network::over(section::value_of(s, "label"@), s.name),
        context,
        caller_name: line_caller(s).0,
        caller_number: line_caller(s).1,
        mailbox: network::over(value::mailbox_at(o, Setting::Mailbox), None),
        language: network::over(value::language_at(o, Setting::Language, w), g.language),
        account_code: network::over(
            value::account_at(o, Setting::AccountCode, w),
            g.account_code,
        ),
        channel_variables: value::variables_upto(o, o.settings.len() as int, w),
    }
}

/// What the options of a line section say, once each of them is in order.
pub open spec fn line_of(
    o: option::OptionsView,
    g: policy::GeneralConfigView,
    w: rules::LayerRulesView,
) -> Result<ParsedLineView, error::ErrorView> {
    let s = o.section;
    match registered(o, g.registration.contexts) {
        Err(e) => Err(e),
        Ok(extensions) => match conference_fault(o) {
            Some(e) => Err(e),
            None => match (
                general::codecs_of(o, s.name + ".codecs"@, g.codecs),
                setting::required_setting(
                    s.name + ".context"@,
                    network::over(section::value_of(s, "context"@), "from-sccp"@),
                ),
            ) {
                (Err(e), _) => Err(e),
                (_, Err(e)) => Err(e),
                (Ok(codecs), Ok(context)) => Ok(
                    ParsedLineView {
                        line: identity_of(o, g, w, context),
                        features: features_of(o, g, w, extensions, codecs),
                    },
                ),
            },
        },
    }
}

/// What a line section says.
pub open spec fn line_setting(
    s: section::RawSectionView,
    g: policy::GeneralConfigView,
    w: rules::LayerRulesView,
) -> Result<ParsedLineView, error::ErrorView> {
    match option::decoded(Scope::Line, s) {
        Err(e) => Err(e),
        Ok(o) => match first_fault(o, 0, w) {
            Some(e) => Err(e),
            None => line_of(o, g, w),
        },
    }
}

/// The call pickup of a line.
fn get_pickup(o: &Options) -> (r: PickupConfig)
    requires
        o.deep_view().matched(),
    ensures
        r.deep_view() == pickup_of(o.deep_view()),
{
    let none: Vec<String> = Vec::new();
    assert(none.deep_view() =~= Seq::empty());
    let r = PickupConfig {
        call_groups: match value::get_groups(o, Setting::CallGroup) {
            Some(x) => x,
            None => Vec::new(),
        },
        pickup_groups: match value::get_groups(o, Setting::PickupGroup) {
            Some(x) => x,
            None => Vec::new(),
        },
        named_call_groups: match value::get_names(o, Setting::NamedCallGroup) {
            Some(x) => x,
            None => text::copy_list(&none),
        },
        named_pickup_groups: match value::get_names(o, Setting::NamedPickupGroup) {
            Some(x) => x,
            None => text::copy_list(&none),
        },
        directed: general::pick(value::get_flag(o, Setting::DirectedPickup), true),
        directed_context: match value::get_optional(o, Setting::DirectedPickupContext) {
            Some(x) => x,
            None => None,
        },
        answer_directed: general::pick(value::get_flag(o, Setting::PickupModeAnswer), true),
    };
    r
}

/// The audio processing of a line.
fn get_processing(o: &Options, base: AudioProcessingPolicy) -> (r: AudioProcessingPolicy)
    requires
        o.deep_view().matched(),
    ensures
        r == processing_of(o.deep_view(), base),
{
    AudioProcessingPolicy {
        echo_cancellation: match value::get_flag(o, Setting::EchoCancel) {
            Some(on) => if on {
                EchoCancellation::On
            } else {
                EchoCancellation::Off
            },
            None => base.echo_cancellation,
        },
        silence_suppression: match value::get_flag(o, Setting::SilenceSuppression) {
            Some(on) => if on {
                SilenceSuppression::On
            } else {
                SilenceSuppression::Off
            },
            None => base.silence_suppression,
        },
    }
}

/// The features of a line.
fn build_features(
    o: &Options,
    g: &GeneralConfig,
    with: &LayerRules,
    extensions: Vec<RegistrationExtension>,
    codecs: Vec<Codec>,
) -> (r: LineFeatureConfig)
    requires
        o.deep_view().matched(),
    ensures
        r.deep_view() == features_of(
            o.deep_view(),
            g.deep_view(),
            with.deep_view(),
            extensions.deep_view(),
            codecs@,
        ),
{
    LineFeatureConfig {
        incoming_limit: general::pick(
            value::get_incoming(o, Setting::IncomingLimit),
            6,
        ) as u32,
        voicemail: VoicemailDefaults {
            number: match value::get_voicemail(o, Setting::VoicemailNumber, with) {
                Some(x) => x,
                None => None,
            },
            transfer_destination: match value::get_voicemail(
                o,
                Setting::VoicemailTransfer,
                with,
            ) {
                Some(x) => x,
                None => None,
            },
        },
        pickup: get_pickup(o),
        parking: LineParkingConfig {
            lot: match value::get_empty_optional(o, Setting::ParkingLot) {
                Some(x) => x,
                None => None,
            },
        },
        conference: get_conference(o),
        hotline: LineHotlineConfig {
            destination: match value::get_hotline(o, Setting::AdhocNumber, with) {
                Some(x) => x,
                None => None,
            },
        },
        dial_tones: LineDialToneConfig {
            initial: general::pick(
                value::get_tone(o, Setting::InitialDialtoneTone, with),
                Tone::InsideDial,
            ),
            secondary_prefix: match value::get_prefix(o, Setting::SecondaryDialtoneDigits) {
                Some(x) => x,
                None => None,
            },
            secondary: general::pick(
                value::get_tone(o, Setting::SecondaryDialtoneTone, with),
                Tone::OutsideDial,
            ),
        },
        mobility: LineMobilityConfig {
            pin: match value::get_pin(o, Setting::Pin) {
                Some(x) => x,
                None => None,
            },
        },
        registration: LineRegistrationConfig { extensions },
        media: LineMediaConfig {
            codecs,
            audio_encryption: match value::get_encryption(o, Setting::AudioEncryption) {
                Some(x) => x,
                None => g.audio_encryption.clone(),
            },
            video_mode: general::pick(
                value::get_video_mode(o, Setting::VideoMode),
                VideoMode::Auto,
            ),
            audio_processing: get_processing(o, g.audio_processing),
        },
    }
}

/// The identity of a line.
fn build_identity(o: &Options, g: &GeneralConfig, with: &LayerRules, context: String) -> (r:
    LineConfig)
    requires
        o.deep_view().matched(),
    ensures
        r.deep_view() == identity_of(o.deep_view(), g.deep_view(), with.deep_view(), context@),
{
    let name = o.section.name.as_str();
    let (caller_name, caller_number) = match o.section.value("callerid") {
        Some(raw) => parse_caller_id(raw.as_str()),
        None => (text::copy(name), text::copy(name)),
    };
    LineConfig {
        number: text::copy(name),
        label: match o.section.value("label") {
            Some(label) => label,
            None => text::copy(name),
        },
        context,
        caller_name,
        caller_number,
        mailbox: match value::get_mailbox(o, Setting::Mailbox) {
            Some(x) => x,
            None => None,
        },
        language: match value::get_language(o, Setting::Language, with) {
            Some(x) => x,
            None => text::copy(g.language.as_str()),
        },
        account_code: match value::get_account(o, Setting::AccountCode, with) {
            Some(x) => x,
            None => text::copy_option(&g.account_code),
        },
        channel_variables: value::get_variables(o, with),
    }
}

/// Reads a line section over the general configuration.
pub fn parse_line(s: &RawSection, g: &GeneralConfig, with: &LayerRules) -> (r: Result<
    ParsedLine,
    ConfigError,
>)
    ensures
        error::outcome(r) == line_setting(s.deep_view(), g.deep_view(), with.deep_view()),
{
    let o = match option::deserialize_entries(Scope::Line, s) {
        Ok(o) => o,
        Err(e) => return Err(e),
    };
    match check_entries(&o, with) {
        Some(e) => return Err(e),
        None => {},
    }
    let extensions = match get_registered(&o, &g.registration.contexts) {
        Ok(x) => x,
        Err(e) => return Err(e),
    };
    match check_conference(&o) {
        Some(e) => return Err(e),
        None => {},
    }
    let name = o.section.name.as_str();
    let codecs = match general::get_preferences(
        &o,
        name_with(name, ".codecs").as_str(),
        &g.codecs,
    ) {
        Ok(x) => x,
        Err(e) => return Err(e),
    };
    let raw = match o.section.value("context") {
        Some(raw) => raw,
        None => text::copy("from-sccp"),
    };
    let context = match setting::parse_required_setting(
        name_with(name, ".context").as_str(),
        raw.as_str(),
    ) {
        Ok(x) => x,
        Err(e) => return Err(e),
    };
    Ok(
        ParsedLine {
            line: build_identity(&o, g, with, context),
            features: build_features(&o, g, with, extensions, codecs),
        },
    )
}

} // verus!
