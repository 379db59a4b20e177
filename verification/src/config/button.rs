//! Station buttons.

use vstd::prelude::*;

use crate::config::error;
use crate::config::error::ConfigError;
use crate::config::policy;
use crate::config::policy::FeatureArgument;
use crate::config::policy::LineConfig;
use crate::config::setting;
use crate::number;
use crate::station;
use crate::station::AddonModuleDefinition;
use crate::station::AppearanceRingMode;
use crate::station::BlfSpeedDialDefinition;
use crate::station::ButtonDefinition;
use crate::station::ButtonType;
use crate::station::CallerIdentity;
use crate::station::DeviceType;
use crate::station::FeatureDefinition;
use crate::station::LineAppearance;
use crate::station::ServiceDefinition;
use crate::station::SpeedDialDefinition;
use crate::station::Tone;
use crate::text;

verus! {

// ---------------------------------------------------------------------------
// Instances

/// The last instance of each kind of button on a device.
#[derive(Clone, Copy, Debug, PartialEq, Eq, Structural)]
pub struct ButtonInstances {
    pub line: u32,
    pub speed_dial: u32,
    pub feature: u32,
    pub service: u32,
}

impl DeepView for ButtonInstances {
    type V = ButtonInstances;

    open spec fn deep_view(&self) -> ButtonInstances {
        *self
    }
}

/// The instance behind another; the numbers wrap around.
pub open spec fn next(n: u32) -> u32 {
    if n == u32::MAX {
        0
    } else {
        (n + 1) as u32
    }
}

impl ButtonInstances {
    /// No button yet.
    #[verifier::allow_in_spec]
    pub fn none() -> ButtonInstances
        returns
            (ButtonInstances { line: 0, speed_dial: 0, feature: 0, service: 0 }),
    {
        ButtonInstances { line: 0, speed_dial: 0, feature: 0, service: 0 }
    }

    /// The instance behind another.
    pub fn next(counter: u32) -> (r: u32)
        ensures
            r == self::next(counter),
    {
        if counter == u32::MAX {
            0
        } else {
            counter + 1
        }
    }
}

/// A button with the argument of its feature, and the instances up to it.
pub struct ParsedButton {
    pub definition: ButtonDefinition,
    pub feature_argument: Option<FeatureArgument>,
    pub instances: ButtonInstances,
}

pub struct ParsedButtonView {
    pub definition: station::ButtonDefinitionView,
    pub feature_argument: Option<policy::FeatureArgumentView>,
    pub instances: ButtonInstances,
}

impl DeepView for ParsedButton {
    type V = ParsedButtonView;

    open spec fn deep_view(&self) -> ParsedButtonView {
        ParsedButtonView {
            definition: self.definition.deep_view(),
            feature_argument: self.feature_argument.deep_view(),
            instances: self.instances,
        }
    }
}

// ---------------------------------------------------------------------------
// Names

/// The feature that a reduced name stands for.
pub open spec fn named_feature(name: text::Text) -> Option<ButtonType> {
    if name == "redial"@ || name == "lastnumberredial"@ {
        Some(ButtonType::LastNumberRedial)
    } else if name == "hold"@ {
        Some(ButtonType::Hold)
    } else if name == "transfer"@ {
        Some(ButtonType::Transfer)
    } else if name == "forwardall"@ || name == "cfwdall"@ {
        Some(ButtonType::ForwardAll)
    } else if name == "forwardbusy"@ || name == "cfwdbusy"@ {
        Some(ButtonType::ForwardBusy)
    } else if name == "forwardnoanswer"@ || name == "cfwdnoanswer"@ {
        Some(ButtonType::ForwardNoAnswer)
    } else if name == "video"@ {
        Some(ButtonType::Video)
    } else if name == "voicemail"@ {
        Some(ButtonType::Voicemail)
    } else if name == "answerrelease"@ {
        Some(ButtonType::AnswerRelease)
    } else if name == "autoanswer"@ {
        Some(ButtonType::AutoAnswer)
    } else if name == "select"@ {
        Some(ButtonType::Select)
    } else if name == "feature"@ {
        Some(ButtonType::Feature)
    } else if name == "maliciouscall"@ {
        Some(ButtonType::MaliciousCall)
    } else if name == "meetme"@ || name == "meetmeconference"@ {
        Some(ButtonType::MeetMeConference)
    } else if name == "conference"@ {
        Some(ButtonType::Conference)
    } else if name == "park"@ || name == "callpark"@ {
        Some(ButtonType::CallPark)
    } else if name == "pickup"@ || name == "callpickup"@ {
        Some(ButtonType::CallPickup)
    } else if name == "grouppickup"@ || name == "groupcallpickup"@ {
        Some(ButtonType::GroupCallPickup)
    } else if name == "mobility"@ {
        Some(ButtonType::Mobility)
    } else if name == "dnd"@ || name == "donotdisturb"@ {
        Some(ButtonType::DoNotDisturb)
    } else if name == "conferencelist"@ {
        Some(ButtonType::ConferenceList)
    } else if name == "removelastparticipant"@ {
        Some(ButtonType::RemoveLastParticipant)
    } else if name == "qualityreport"@ || name == "qualityreporttool"@ {
        Some(ButtonType::QualityReportTool)
    } else if name == "callback"@ {
        Some(ButtonType::Callback)
    } else if name == "otherpickup"@ {
        Some(ButtonType::OtherPickup)
    } else if name == "videomode"@ {
        Some(ButtonType::VideoMode)
    } else if name == "newcall"@ {
        Some(ButtonType::NewCall)
    } else if name == "endcall"@ {
        Some(ButtonType::EndCall)
    } else if name == "huntgrouplogin"@ {
        Some(ButtonType::HuntGroupLogin)
    } else if name == "queue"@ || name == "queuing"@ {
        Some(ButtonType::Queuing)
    } else if name == "parkinglot"@ {
        Some(ButtonType::ParkingLot)
    } else if name == "messages"@ {
        Some(ButtonType::Messages)
    } else if name == "directory"@ {
        Some(ButtonType::Directory)
    } else if name == "application"@ {
        Some(ButtonType::Application)
    } else if name == "headset"@ {
        Some(ButtonType::Headset)
    } else if name == "echocancellation"@ || name == "acousticechocancellation"@ {
        Some(ButtonType::AcousticEchoCancellation)
    } else {
        None
    }
}

/// The feature that a reduced name stands for.
fn read_named_feature(n: &str) -> (r: Option<ButtonType>)
    ensures
        r == named_feature(n@),
{
    if text::same(n, "redial") || text::same(n, "lastnumberredial") {
        Some(ButtonType::LastNumberRedial)
    } else if text::same(n, "hold") {
        Some(ButtonType::Hold)
    } else if text::same(n, "transfer") {
        Some(ButtonType::Transfer)
    } else if text::same(n, "forwardall") || text::same(n, "cfwdall") {
        Some(ButtonType::ForwardAll)
    } else if text::same(n, "forwardbusy") || text::same(n, "cfwdbusy") {
        Some(ButtonType::ForwardBusy)
    } else if text::same(n, "forwardnoanswer") || text::same(n, "cfwdnoanswer") {
        Some(ButtonType::ForwardNoAnswer)
    } else if text::same(n, "video") {
        Some(ButtonType::Video)
    } else if text::same(n, "voicemail") {
        Some(ButtonType::Voicemail)
    } else if text::same(n, "answerrelease") {
        Some(ButtonType::AnswerRelease)
    } else if text::same(n, "autoanswer") {
        Some(ButtonType::AutoAnswer)
    } else if text::same(n, "select") {
        Some(ButtonType::Select)
    } else if text::same(n, "feature") {
        Some(ButtonType::Feature)
    } else if text::same(n, "maliciouscall") {
        Some(ButtonType::MaliciousCall)
    } else if text::same(n, "meetme") || text::same(n, "meetmeconference") {
        Some(ButtonType::MeetMeConference)
    } else if text::same(n, "conference") {
        Some(ButtonType::Conference)
    } else if text::same(n, "park") || text::same(n, "callpark") {
        Some(ButtonType::CallPark)
    } else if text::same(n, "pickup") || text::same(n, "callpickup") {
        Some(ButtonType::CallPickup)
    } else if text::same(n, "grouppickup") || text::same(n, "groupcallpickup") {
        Some(ButtonType::GroupCallPickup)
    } else if text::same(n, "mobility") {
        Some(ButtonType::Mobility)
    } else if text::same(n, "dnd") || text::same(n, "donotdisturb") {
        Some(ButtonType::DoNotDisturb)
    } else if text::same(n, "conferencelist") {
        Some(ButtonType::ConferenceList)
    } else if text::same(n, "removelastparticipant") {
        Some(ButtonType::RemoveLastParticipant)
    } else if text::same(n, "qualityreport") || text::same(n, "qualityreporttool") {
        Some(ButtonType::QualityReportTool)
    } else if text::same(n, "callback") {
        Some(ButtonType::Callback)
    } else if text::same(n, "otherpickup") {
        Some(ButtonType::OtherPickup)
    } else if text::same(n, "videomode") {
        Some(ButtonType::VideoMode)
    } else if text::same(n, "newcall") {
        Some(ButtonType::NewCall)
    } else if text::same(n, "endcall") {
        Some(ButtonType::EndCall)
    } else if text::same(n, "huntgrouplogin") {
        Some(ButtonType::HuntGroupLogin)
    } else if text::same(n, "queue") || text::same(n, "queuing") {
        Some(ButtonType::Queuing)
    } else if text::same(n, "parkinglot") {
        Some(ButtonType::ParkingLot)
    } else if text::same(n, "messages") {
        Some(ButtonType::Messages)
    } else if text::same(n, "directory") {
        Some(ButtonType::Directory)
    } else if text::same(n, "application") {
        Some(ButtonType::Application)
    } else if text::same(n, "headset") {
        Some(ButtonType::Headset)
    } else if text::same(n, "echocancellation") || text::same(n, "acousticechocancellation") {
        Some(ButtonType::AcousticEchoCancellation)
    } else {
        None
    }
}

/// The add-on module that a reduced name stands for.
pub open spec fn named_addon(name: text::Text) -> Option<DeviceType> {
    if name == "7914"@ || name == "cisco7914"@ || name == "ciscoaddon7914"@ {
        Some(DeviceType::CiscoAddon7914)
    } else if name == "791512"@ || name == "cisco791512"@ || name == "ciscoaddon791512"@ {
        Some(DeviceType::CiscoAddon7915_12)
    } else if name == "791524"@ || name == "cisco791524"@ || name == "ciscoaddon791524"@ {
        Some(DeviceType::CiscoAddon7915_24)
    } else if name == "791612"@ || name == "cisco791612"@ || name == "ciscoaddon791612"@ {
        Some(DeviceType::CiscoAddon7916_12)
    } else if name == "791624"@ || name == "cisco791624"@ || name == "ciscoaddon791624"@ {
        Some(DeviceType::CiscoAddon7916_24)
    } else if name == "spa500s"@ || name == "addonspa500s"@ {
        Some(DeviceType::AddonSpa500s)
    } else if name == "spa500ds"@ || name == "addonspa500ds"@ {
        Some(DeviceType::AddonSpa500ds)
    } else if name == "spa932ds"@ || name == "addonspa932ds"@ {
        Some(DeviceType::AddonSpa932ds)
    } else {
        None
    }
}

/// The add-on module that a reduced name stands for.
fn read_named_addon(n: &str) -> (r: Option<DeviceType>)
    ensures
        r == named_addon(n@),
{
    if text::same(n, "7914") || text::same(n, "cisco7914") || text::same(n, "ciscoaddon7914") {
        Some(DeviceType::CiscoAddon7914)
    } else if text::same(n, "791512") || text::same(n, "cisco791512") || text::same(n, "ciscoaddon791512") {
        Some(DeviceType::CiscoAddon7915_12)
    } else if text::same(n, "791524") || text::same(n, "cisco791524") || text::same(n, "ciscoaddon791524") {
        Some(DeviceType::CiscoAddon7915_24)
    } else if text::same(n, "791612") || text::same(n, "cisco791612") || text::same(n, "ciscoaddon791612") {
        Some(DeviceType::CiscoAddon7916_12)
    } else if text::same(n, "791624") || text::same(n, "cisco791624") || text::same(n, "ciscoaddon791624") {
        Some(DeviceType::CiscoAddon7916_24)
    } else if text::same(n, "spa500s") || text::same(n, "addonspa500s") {
        Some(DeviceType::AddonSpa500s)
    } else if text::same(n, "spa500ds") || text::same(n, "addonspa500ds") {
        Some(DeviceType::AddonSpa500ds)
    } else if text::same(n, "spa932ds") || text::same(n, "addonspa932ds") {
        Some(DeviceType::AddonSpa932ds)
    } else {
        None
    }
}

/// A feature by its name.
pub open spec fn feature_setting(raw: text::Text) -> Result<ButtonType, error::ErrorView> {
    match named_feature(text::name_of(raw)) {
        Some(x) => Ok(x),
        None => Err(error::refused("button.feature"@, raw)),
    }
}

/// Reads a feature.
pub fn parse_feature(raw: &str) -> (r: Result<ButtonType, ConfigError>)
    ensures
        error::outcome(r) == feature_setting(raw@),
{
    match read_named_feature(text::normalize_name(raw).as_str()) {
        Some(x) => Ok(x),
        None => Err(error::invalid_value("button.feature", raw)),
    }
}

/// An add-on module by its name.
pub open spec fn addon_setting(raw: text::Text) -> Result<DeviceType, error::ErrorView> {
    match named_addon(text::name_of(raw)) {
        Some(x) => Ok(x),
        None => Err(error::refused("button.addon.type"@, raw)),
    }
}

/// Reads an add-on module.
pub fn parse_addon_type(raw: &str) -> (r: Result<DeviceType, ConfigError>)
    ensures
        error::outcome(r) == addon_setting(raw@),
{
    match read_named_addon(text::normalize_name(raw).as_str()) {
        Some(x) => Ok(x),
        None => Err(error::invalid_value("button.addon.type", raw)),
    }
}

// ---------------------------------------------------------------------------
// Fields

/// The refusal of a button.
pub open spec fn button_fault(raw: text::Text) -> error::ErrorView {
    error::refused("button"@, raw)
}

/// A field that must not be empty.
pub open spec fn field_setting(field: text::Text, raw: text::Text) -> Result<
    text::Text,
    error::ErrorView,
> {
    if text::trimmed(field).len() == 0 {
        Err(button_fault(raw))
    } else {
        Ok(text::trimmed(field))
    }
}

/// Refuses a button.
fn invalid_button(raw: &str) -> (r: ConfigError)
    ensures
        r@ == button_fault(raw@),
{
    error::invalid_value("button", raw)
}

/// Reads a field that must not be empty.
fn required_button_field(field: &str, raw: &str) -> (r: Result<String, ConfigError>)
    ensures
        error::outcome(r) == field_setting(field@, raw@),
{
    let field = text::trim(field);
    if field.as_str().is_empty() {
        Err(invalid_button(raw))
    } else {
        Ok(field)
    }
}

/// A hint: an extension and a context around one at sign.
pub open spec fn hint_setting(field: text::Text, raw: text::Text) -> Result<
    text::Text,
    error::ErrorView,
> {
    match field_setting(field, raw) {
        Err(e) => Err(e),
        Ok(hint) => match text::cut(hint, '@') {
            None => Err(error::refused("button.blf.hint"@, hint)),
            Some((extension, context)) => if text::trimmed(extension).len() == 0 || text::trimmed(
                context,
            ).len() == 0 || context.contains('@') {
                Err(error::refused("button.blf.hint"@, hint))
            } else {
                Ok(hint)
            },
        },
    }
}

/// Reads a hint.
fn parse_blf_hint(field: &str, raw: &str) -> (r: Result<String, ConfigError>)
    ensures
        error::outcome(r) == hint_setting(field@, raw@),
{
    let hint = match required_button_field(field, raw) {
        Ok(x) => x,
        Err(e) => return Err(e),
    };
    match text::split_once(hint.as_str(), '@') {
        None => return Err(error::invalid_value("button.blf.hint", hint.as_str())),
        Some((extension, context)) => {
            if text::trim(extension.as_str()).as_str().is_empty() || text::trim(
                context.as_str(),
            ).as_str().is_empty() || text::contains_char(context.as_str(), '@') {
                return Err(error::invalid_value("button.blf.hint", hint.as_str()));
            }
        },
    }
    Ok(hint)
}

// ---------------------------------------------------------------------------
// Line appearances

/// The index of the line of a number.
pub open spec fn line_index(lines: Seq<policy::LineConfigView>, number: text::Text) -> Option<nat>
    decreases lines.len(),
{
    if lines.len() == 0 {
        None
    } else if lines.last().number == number {
        Some((lines.len() - 1) as nat)
    } else {
        line_index(lines.drop_last(), number)
    }
}

/// Finds the line of a number.
pub fn find_line(lines: &Vec<LineConfig>, number: &str) -> (r: Option<usize>)
    ensures
        match r {
            Some(i) => line_index(lines.deep_view(), number@) == Some(i as nat) && i < lines@.len(),
            None => line_index(lines.deep_view(), number@) is None,
        },
{
    let ghost all = lines.deep_view();
    let mut i: usize = lines.len();
    assert(all.take(i as int) =~= all);
    while i > 0
        invariant
            all == lines.deep_view(),
            i <= lines@.len(),
            line_index(all, number@) == line_index(all.take(i as int), number@),
        decreases i,
    {
        i -= 1;
        assert(all.take(i + 1).drop_last() =~= all.take(i as int));
        assert(all.take(i + 1).last() == lines@[i as int].deep_view());
        if text::same(lines[i].number.as_str(), number) {
            return Some(i);
        }
    }
    None
}

/// A ringing mode by its reduced name.
pub open spec fn ring_of(name: text::Text) -> Option<AppearanceRingMode> {
    if name == "normal"@ {
        Some(AppearanceRingMode::Normal)
    } else if name == "silent"@ {
        Some(AppearanceRingMode::Silent)
    } else if name == "disabled"@ || name == "off"@ {
        Some(AppearanceRingMode::Disabled)
    } else {
        None
    }
}

/// The appearance of a line before its options.
pub open spec fn plain_appearance(instance: u32, line: policy::LineConfigView) -> station::LineAppearanceView {
    station::LineAppearanceView {
        instance,
        number: line.number,
        display_name: line.label,
        label: None,
        caller_id: station::CallerIdentityView { name: None, number: None },
        ring_mode: AppearanceRingMode::Normal,
        subscription_identity: None,
        privacy: false,
        initial_tone: Tone::InsideDial,
    }
}

/// An appearance with one more option.
pub open spec fn with_option(
    a: station::LineAppearanceView,
    key: text::Text,
    value: text::Text,
) -> Result<station::LineAppearanceView, error::ErrorView> {
    if key == "label"@ {
        Ok(station::LineAppearanceView { label: Some(value), ..a })
    } else if key == "callername"@ {
        Ok(
            station::LineAppearanceView {
                caller_id: station::CallerIdentityView { name: Some(value), ..a.caller_id },
                ..a
            },
        )
    } else if key == "callernumber"@ {
        Ok(
            station::LineAppearanceView {
                caller_id: station::CallerIdentityView { number: Some(value), ..a.caller_id },
                ..a
            },
        )
    } else if key == "ring"@ || key == "ringmode"@ {
        match ring_of(text::name_of(value)) {
            Some(ring_mode) => Ok(station::LineAppearanceView { ring_mode, ..a }),
            None => Err(error::refused("button.line.ring"@, value)),
        }
    } else if key == "subscription"@ || key == "subscriptionidentity"@ {
        Ok(station::LineAppearanceView { subscription_identity: Some(value), ..a })
    } else if key == "privacy"@ {
        match setting::bool_setting("button.line.privacy"@, value) {
            Ok(privacy) => Ok(station::LineAppearanceView { privacy, ..a }),
            Err(e) => Err(e),
        }
    } else {
        Err(error::refused("button.line."@ + key, value))
    }
}

/// The name and value of one appearance option.
pub open spec fn option_of(field: text::Text, raw: text::Text) -> Result<
    (text::Text, text::Text),
    error::ErrorView,
> {
    match text::cut(field, '=') {
        None => Err(button_fault(raw)),
        Some((key, value)) => match (field_setting(key, raw), field_setting(value, raw)) {
            (Err(e), _) => Err(e),
            (_, Err(e)) => Err(e),
            (Ok(k), Ok(v)) => Ok((text::name_of(k), v)),
        },
    }
}

/// An appearance with the options of the fields from one on.
pub open spec fn with_options(
    raw: text::Text,
    fields: Seq<text::Text>,
    i: int,
    seen: Seq<text::Text>,
    a: station::LineAppearanceView,
) -> Result<station::LineAppearanceView, error::ErrorView>
    decreases fields.len() - i,
{
    if i >= fields.len() {
        Ok(a)
    } else {
        match option_of(fields[i], raw) {
            Err(e) => Err(e),
            Ok((key, value)) => if seen.contains(key) {
                Err(error::refused("button.line."@ + key, raw))
            } else {
                match with_option(a, key, value) {
                    Err(e) => Err(e),
                    Ok(next) => with_options(raw, fields, i + 1, seen.push(key), next),
                }
            },
        }
    }
}

/// A line button: the number of a line, and options.
pub open spec fn line_button(
    raw: text::Text,
    device: text::Text,
    lines: Seq<policy::LineConfigView>,
    at: ButtonInstances,
) -> Result<ParsedButtonView, error::ErrorView> {
    let fields = text::fields_of(raw, ',');
    match field_setting(fields[0], "line"@) {
        Err(e) => Err(e),
        Ok(number) => match line_index(lines, number) {
            None => Err(error::ErrorView::UnknownLine { device, line: number }),
            Some(i) => match with_options(
                raw,
                fields,
                1,
                Seq::empty(),
                plain_appearance(next(at.line), lines[i as int]),
            ) {
                Err(e) => Err(e),
                Ok(a) => Ok(
                    ParsedButtonView {
                        definition: station::ButtonDefinitionView::Line(a),
                        feature_argument: None,
                        instances: ButtonInstances { line: next(at.line), ..at },
                    },
                ),
            },
        },
    }
}

/// Reads a ringing mode.
fn read_ring(name: &str) -> (r: Option<AppearanceRingMode>)
    ensures
        r == ring_of(name@),
{
    if text::same(name, "normal") {
        Some(AppearanceRingMode::Normal)
    } else if text::same(name, "silent") {
        Some(AppearanceRingMode::Silent)
    } else if text::same(name, "disabled") || text::same(name, "off") {
        Some(AppearanceRingMode::Disabled)
    } else {
        None
    }
}

/// Adds one option to an appearance.
fn apply_option(a: LineAppearance, key: &str, value: &str) -> (r: Result<
    LineAppearance,
    ConfigError,
>)
    ensures
        error::outcome(r) == with_option(a.deep_view(), key@, value@),
{
    let mut a = a;
    if text::same(key, "label") {
        a.label = Some(text::copy(value));
        Ok(a)
    } else if text::same(key, "callername") {
        a.caller_id = CallerIdentity { name: Some(text::copy(value)), number: a.caller_id.number };
        Ok(a)
    } else if text::same(key, "callernumber") {
        a.caller_id = CallerIdentity { name: a.caller_id.name, number: Some(text::copy(value)) };
        Ok(a)
    } else if text::same(key, "ring") || text::same(key, "ringmode") {
        match read_ring(text::normalize_name(value).as_str()) {
            Some(ring_mode) => {
                a.ring_mode = ring_mode;
                Ok(a)
            },
            None => Err(error::invalid_value("button.line.ring", value)),
        }
    } else if text::same(key, "subscription") || text::same(key, "subscriptionidentity") {
        a.subscription_identity = Some(text::copy(value));
        Ok(a)
    } else if text::same(key, "privacy") {
        match setting::parse_bool("button.line.privacy", value) {
            Ok(privacy) => {
                a.privacy = privacy;
                Ok(a)
            },
            Err(e) => Err(e),
        }
    } else {
        let mut at = text::copy("button.line.");
        at.append(key);
        Err(error::invalid_value(at.as_str(), value))
    }
}

/// The name and value of one appearance option.
fn read_option(field: &str, raw: &str) -> (r: Result<(String, String), ConfigError>)
    ensures
        match option_of(field@, raw@) {
            Ok((k, v)) => r is Ok && r->Ok_0.0@ == k && r->Ok_0.1@ == v,
            Err(e) => r is Err && r->Err_0@ == e,
        },
{
    match text::split_once(field, '=') {
        None => Err(invalid_button(raw)),
        Some((key, value)) => {
            let k = match required_button_field(key.as_str(), raw) {
                Ok(k) => k,
                Err(e) => return Err(e),
            };
            match required_button_field(value.as_str(), raw) {
                Ok(v) => Ok((text::normalize_name(k.as_str()), v)),
                Err(e) => Err(e),
            }
        },
    }
}

/// Reads a line button.
pub fn parse_line_button(raw: &str, device: &str, lines: &Vec<LineConfig>, at: ButtonInstances) -> (r:
    Result<ParsedButton, ConfigError>)
    ensures
        error::outcome(r) == line_button(raw@, device@, lines.deep_view(), at),
{
    let fields = text::fields(raw, ',');
    let ghost all = fields.deep_view();
    assert(all[0] == fields@[0]@);
    let number = match required_button_field(fields[0].as_str(), "line") {
        Ok(x) => x,
        Err(e) => return Err(e),
    };
    let index = match find_line(lines, number.as_str()) {
        Some(i) => i,
        None => return Err(
            ConfigError::UnknownLine { device: text::copy(device), line: number },
        ),
    };
    assert(lines.deep_view()[index as int] == lines@[index as int].deep_view());
    let instance = ButtonInstances::next(at.line);
    let mut a = LineAppearance {
        instance,
        number: text::copy(lines[index].number.as_str()),
        display_name: text::copy(lines[index].label.as_str()),
        label: None,
        caller_id: CallerIdentity { name: None, number: None },
        ring_mode: AppearanceRingMode::Normal,
        subscription_identity: None,
        privacy: false,
        initial_tone: Tone::InsideDial,
    };
    let ghost whole = with_options(raw@, all, 1, Seq::empty(), a.deep_view());
    assert(a.deep_view() == plain_appearance(instance, lines@[index as int].deep_view()));
    assert(line_button(raw@, device@, lines.deep_view(), at) == (match whole {
        Err(e) => Err(e),
        Ok(x) => Ok(
            ParsedButtonView {
                definition: station::ButtonDefinitionView::Line(x),
                feature_argument: None,
                instances: ButtonInstances { line: instance, ..at },
            },
        ),
    }));
    let mut seen: Vec<String> = Vec::new();
    let mut i: usize = 1;
    assert(seen.deep_view() =~= Seq::empty());
    while i < fields.len()
        invariant
            all == fields.deep_view(),
            1 <= i <= fields@.len(),
            whole == with_options(raw@, all, i as int, seen.deep_view(), a.deep_view()),
            line_button(raw@, device@, lines.deep_view(), at) == (match whole {
                Err(e) => Err(e),
                Ok(x) => Ok(
                    ParsedButtonView {
                        definition: station::ButtonDefinitionView::Line(x),
                        feature_argument: None,
                        instances: ButtonInstances { line: instance, ..at },
                    },
                ),
            }),
        decreases fields.len() - i,
    {
        assert(all[i as int] == fields@[i as int]@);
        let (key, value) = match read_option(fields[i].as_str(), raw) {
            Ok(x) => x,
            Err(e) => return Err(e),
        };
        if text::is_in(key.as_str(), &seen) {
            let mut place = text::copy("button.line.");
            place.append(key.as_str());
            return Err(error::invalid_value(place.as_str(), raw));
        }
        a = match apply_option(a, key.as_str(), value.as_str()) {
            Ok(x) => x,
            Err(e) => return Err(e),
        };
        let ghost before = seen.deep_view();
        seen.push(key);
        assert(seen.deep_view() =~= before.push(key@));
        i += 1;
    }
    Ok(
        ParsedButton {
            definition: ButtonDefinition::Line(a),
            feature_argument: None,
            instances: ButtonInstances { line: instance, ..at },
        },
    )
}

// ---------------------------------------------------------------------------
// Buttons

/// A button without an argument.
pub open spec fn bare_button(definition: station::ButtonDefinitionView, instances: ButtonInstances) -> ParsedButtonView {
    ParsedButtonView { definition, feature_argument: None, instances }
}

/// A speed dial: a label, a number and, where it watches one, a hint.
pub open spec fn speed_dial(raw: text::Text, fields: Seq<text::Text>, at: ButtonInstances) -> Result<
    ParsedButtonView,
    error::ErrorView,
> {
    let instance = next(at.speed_dial);
    let instances = ButtonInstances { speed_dial: instance, ..at };
    match (field_setting(fields[1], raw), field_setting(fields[2], raw)) {
        (Err(e), _) => Err(e),
        (_, Err(e)) => Err(e),
        (Ok(label), Ok(number)) => if fields.len() == 4 {
            match hint_setting(fields[3], raw) {
                Err(e) => Err(e),
                Ok(hint) => Ok(
                    bare_button(
                        station::ButtonDefinitionView::BlfSpeedDial(
                            station::BlfSpeedDialDefinitionView {
                                instance,
                                number,
                                display_name: label,
                                hint,
                            },
                        ),
                        instances,
                    ),
                ),
            }
        } else {
            Ok(
                bare_button(
                    station::ButtonDefinitionView::SpeedDial(
                        station::SpeedDialDefinitionView { instance, number, display_name: label },
                    ),
                    instances,
                ),
            )
        },
    }
}

/// A feature: a label, a name and, behind them, an argument.
pub open spec fn feature_button(raw: text::Text, fields: Seq<text::Text>, at: ButtonInstances) -> Result<
    ParsedButtonView,
    error::ErrorView,
> {
    let instance = next(at.feature);
    match (field_setting(fields[1], raw), field_setting(fields[2], raw)) {
        (Err(e), _) => Err(e),
        (_, Err(e)) => Err(e),
        (Ok(label), Ok(name)) => match feature_setting(name) {
            Err(e) => Err(e),
            Ok(feature) => {
                let definition = station::ButtonDefinitionView::Feature(
                    station::FeatureDefinitionView { instance, label, feature },
                );
                let instances = ButtonInstances { feature: instance, ..at };
                if fields.len() > 3 {
                    match field_setting(text::joined(fields.skip(3), ","@), raw) {
                        Err(e) => Err(e),
                        Ok(argument) => Ok(
                            ParsedButtonView {
                                definition,
                                feature_argument: Some(
                                    policy::FeatureArgumentView { instance, argument },
                                ),
                                instances,
                            },
                        ),
                    }
                } else {
                    Ok(bare_button(definition, instances))
                }
            },
        },
    }
}

/// A service: a label and an address, commas included.
pub open spec fn service_button(raw: text::Text, fields: Seq<text::Text>, at: ButtonInstances) -> Result<
    ParsedButtonView,
    error::ErrorView,
> {
    let instance = next(at.service);
    match (
        field_setting(fields[1], raw),
        field_setting(text::joined(fields.skip(2), ","@), raw),
    ) {
        (Err(e), _) => Err(e),
        (_, Err(e)) => Err(e),
        (Ok(label), Ok(url)) => Ok(
            bare_button(
                station::ButtonDefinitionView::Service(
                    station::ServiceDefinitionView { instance, label, url },
                ),
                ButtonInstances { service: instance, ..at },
            ),
        ),
    }
}

/// An add-on module: a slot from 1 to 56 and a type.
pub open spec fn addon_button(raw: text::Text, fields: Seq<text::Text>, at: ButtonInstances) -> Result<
    ParsedButtonView,
    error::ErrorView,
> {
    match field_setting(fields[1], raw) {
        Err(e) => Err(e),
        Ok(field) => match setting::number_setting(
            "button.addon.slot"@,
            field,
            field,
            0,
            0xffff_ffff,
            "u32"@,
        ) {
            Err(e) => Err(e),
            Ok(slot) => if !(1 <= slot <= 56) {
                Err(error::refused("button.addon.slot"@, number::decimal(slot as nat)))
            } else {
                match field_setting(fields[2], raw) {
                    Err(e) => Err(e),
                    Ok(name) => match addon_setting(name) {
                        Err(e) => Err(e),
                        Ok(device_type) => Ok(
                            bare_button(
                                station::ButtonDefinitionView::AddonModule(
                                    AddonModuleDefinition { slot: slot as u32, device_type },
                                ),
                                at,
                            ),
                        ),
                    },
                }
            },
        },
    }
}

/// A button: its kind, and what the kind asks for.
pub open spec fn button_setting(
    raw: text::Text,
    device: text::Text,
    lines: Seq<policy::LineConfigView>,
    at: ButtonInstances,
) -> Result<ParsedButtonView, error::ErrorView> {
    let fields = text::fields_of(raw, ',');
    let kind = text::name_of(fields[0]);
    let n = fields.len();
    if fields[0].len() == 0 {
        Err(button_fault(raw))
    } else if kind == "line"@ && n >= 2 {
        line_button(text::joined(fields.skip(1), ","@), device, lines, at)
    } else if kind == "speeddial"@ && (n == 3 || n == 4) {
        speed_dial(raw, fields, at)
    } else if (kind == "blf"@ || kind == "blfspeeddial"@) && n == 4 {
        speed_dial(raw, fields, at)
    } else if kind == "feature"@ && n >= 3 {
        feature_button(raw, fields, at)
    } else if kind == "service"@ && n >= 3 {
        service_button(raw, fields, at)
    } else if (kind == "empty"@ || kind == "unused"@) && n == 1 {
        Ok(bare_button(station::ButtonDefinitionView::Unused, at))
    } else if (kind == "addon"@ || kind == "addonmodule"@) && n == 3 {
        addon_button(raw, fields, at)
    } else {
        Err(button_fault(raw))
    }
}

/// Reads a speed dial.
fn parse_speed_dial(raw: &str, fields: &Vec<String>, at: ButtonInstances) -> (r: Result<
    ParsedButton,
    ConfigError,
>)
    requires
        fields@.len() == 3 || fields@.len() == 4,
    ensures
        error::outcome(r) == speed_dial(raw@, fields.deep_view(), at),
{
    let ghost all = fields.deep_view();
    assert(all[1] == fields@[1]@ && all[2] == fields@[2]@);
    let label = match required_button_field(fields[1].as_str(), raw) {
        Ok(x) => x,
        Err(e) => return Err(e),
    };
    let number = match required_button_field(fields[2].as_str(), raw) {
        Ok(x) => x,
        Err(e) => return Err(e),
    };
    let instance = ButtonInstances::next(at.speed_dial);
    let instances = ButtonInstances { speed_dial: instance, ..at };
    let definition = if fields.len() == 4 {
        assert(all[3] == fields@[3]@);
        let hint = match parse_blf_hint(fields[3].as_str(), raw) {
            Ok(x) => x,
            Err(e) => return Err(e),
        };
        ButtonDefinition::BlfSpeedDial(
            BlfSpeedDialDefinition { instance, number, display_name: label, hint },
        )
    } else {
        ButtonDefinition::SpeedDial(SpeedDialDefinition { instance, number, display_name: label })
    };
    Ok(ParsedButton { definition, feature_argument: None, instances })
}

/// Reads a feature button.
fn parse_feature_button(raw: &str, fields: &Vec<String>, at: ButtonInstances) -> (r: Result<
    ParsedButton,
    ConfigError,
>)
    requires
        fields@.len() >= 3,
    ensures
        error::outcome(r) == feature_button(raw@, fields.deep_view(), at),
{
    let ghost all = fields.deep_view();
    assert(all[1] == fields@[1]@ && all[2] == fields@[2]@);
    let label = match required_button_field(fields[1].as_str(), raw) {
        Ok(x) => x,
        Err(e) => return Err(e),
    };
    let name = match required_button_field(fields[2].as_str(), raw) {
        Ok(x) => x,
        Err(e) => return Err(e),
    };
    let feature = match parse_feature(name.as_str()) {
        Ok(x) => x,
        Err(e) => return Err(e),
    };
    let instance = ButtonInstances::next(at.feature);
    let instances = ButtonInstances { feature: instance, ..at };
    let definition = ButtonDefinition::Feature(FeatureDefinition { instance, label, feature });
    if fields.len() > 3 {
        let argument = text::join_from(fields, 3, ",");
        match required_button_field(argument.as_str(), raw) {
            Ok(argument) => Ok(
                ParsedButton {
                    definition,
                    feature_argument: Some(FeatureArgument { instance, argument }),
                    instances,
                },
            ),
            Err(e) => Err(e),
        }
    } else {
        Ok(ParsedButton { definition, feature_argument: None, instances })
    }
}

/// Reads a service button.
fn parse_service_button(raw: &str, fields: &Vec<String>, at: ButtonInstances) -> (r: Result<
    ParsedButton,
    ConfigError,
>)
    requires
        fields@.len() >= 3,
    ensures
        error::outcome(r) == service_button(raw@, fields.deep_view(), at),
{
    let ghost all = fields.deep_view();
    assert(all[1] == fields@[1]@);
    let label = match required_button_field(fields[1].as_str(), raw) {
        Ok(x) => x,
        Err(e) => return Err(e),
    };
    let url = text::join_from(fields, 2, ",");
    let url = match required_button_field(url.as_str(), raw) {
        Ok(x) => x,
        Err(e) => return Err(e),
    };
    let instance = ButtonInstances::next(at.service);
    Ok(
        ParsedButton {
            definition: ButtonDefinition::Service(ServiceDefinition { instance, label, url }),
            feature_argument: None,
            instances: ButtonInstances { service: instance, ..at },
        },
    )
}

/// Reads an add-on module.
fn parse_addon_button(raw: &str, fields: &Vec<String>, at: ButtonInstances) -> (r: Result<
    ParsedButton,
    ConfigError,
>)
    requires
        fields@.len() == 3,
    ensures
        error::outcome(r) == addon_button(raw@, fields.deep_view(), at),
{
    let ghost all = fields.deep_view();
    assert(all[1] == fields@[1]@ && all[2] == fields@[2]@);
    let field = match required_button_field(fields[1].as_str(), raw) {
        Ok(x) => x,
        Err(e) => return Err(e),
    };
    let slot = match setting::parse_number(
        "button.addon.slot",
        field.as_str(),
        field.as_str(),
        0,
        0xffff_ffff,
        "u32",
    ) {
        Ok(x) => x,
        Err(e) => return Err(e),
    };
    if !(1 <= slot && slot <= 56) {
        return Err(error::invalid_value("button.addon.slot", number::to_decimal(slot).as_str()));
    }
    let name = match required_button_field(fields[2].as_str(), raw) {
        Ok(x) => x,
        Err(e) => return Err(e),
    };
    let device_type = match parse_addon_type(name.as_str()) {
        Ok(x) => x,
        Err(e) => return Err(e),
    };
    Ok(
        ParsedButton {
            definition: ButtonDefinition::AddonModule(
                AddonModuleDefinition { slot: slot as u32, device_type },
            ),
            feature_argument: None,
            instances: at,
        },
    )
}

/// Reads a button.
pub fn parse_button(raw: &str, device: &str, lines: &Vec<LineConfig>, at: ButtonInstances) -> (r:
    Result<ParsedButton, ConfigError>)
    ensures
        error::outcome(r) == button_setting(raw@, device@, lines.deep_view(), at),
{
    let fields = text::fields(raw, ',');
    assert(fields.deep_view()[0] == fields@[0]@);
    assert(fields.deep_view().len() == fields@.len());
    if fields[0].as_str().is_empty() {
        return Err(invalid_button(raw));
    }
    let name = text::normalize_name(fields[0].as_str());
    let kind = name.as_str();
    let n: usize = fields.len();
    if text::same(kind, "line") && n >= 2 {
        parse_line_button(text::join_from(&fields, 1, ",").as_str(), device, lines, at)
    } else if text::same(kind, "speeddial") && (n == 3 || n == 4) {
        parse_speed_dial(raw, &fields, at)
    } else if (text::same(kind, "blf") || text::same(kind, "blfspeeddial")) && n == 4 {
        parse_speed_dial(raw, &fields, at)
    } else if text::same(kind, "feature") && n >= 3 {
        parse_feature_button(raw, &fields, at)
    } else if text::same(kind, "service") && n >= 3 {
        parse_service_button(raw, &fields, at)
    } else if (text::same(kind, "empty") || text::same(kind, "unused")) && n == 1 {
        Ok(
            ParsedButton {
                definition: ButtonDefinition::Unused,
                feature_argument: None,
                instances: at,
            },
        )
    } else if (text::same(kind, "addon") || text::same(kind, "addonmodule")) && n == 3 {
        parse_addon_button(raw, &fields, at)
    } else {
        Err(invalid_button(raw))
    }
}

} // verus!
