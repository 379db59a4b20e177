//! Station vocabulary: the codecs, tones, keys and buttons of a handset.
//!
//! These are the plain values that configuration and media policy decide on.
//! A device identity, a date template and a tone chosen by number are carried
//! as the text or number that names them; the station protocol layer owns
//! their meaning on the wire.

use vstd::prelude::*;

use crate::address;
use crate::text;

verus! {

/// A codec identifier of a station.
#[derive(Clone, Copy, Debug, PartialEq, Eq, Structural)]
#[allow(non_camel_case_types)]
pub enum Codec {
    Pcmu,
    G711Ulaw56k,
    Pcma,
    G711Alaw56k,
    G72264k,
    G72256k,
    G72248k,
    G7231,
    G728,
    G729,
    G729A,
    G729B,
    G729Ab,
    G729AnnexB,
    G726_32k,
    G726_24k,
    G726_16k,
    Gsm,
    GsmFullRate,
    GsmHalfRate,
    GsmEnhancedFullRate,
    Wideband256k,
    Ilbc,
    G7221_32k,
    G7221_24k,
    Opus,
    Is11172,
    Is13818,
    ActiveVoice,
    Isac,
    H224,
    Aac,
    Mp4aLatm128,
    Mp4aLatm64,
    Mp4aLatm56,
    Mp4aLatm48,
    Mp4aLatm32,
    Mp4aLatm24,
    Mp4aLatm,
    Amr,
    AmrWb,
    H261,
    H263,
    H263Plus,
    H264,
    H264Svc,
    H264Fec,
    H264Uc,
    H265,
    T120,
    Data64k,
    Data56k,
    T38Fax,
    Tote,
    Xv150ModemRelay711u,
    NseVbd711u,
    Xv150ModemRelay729a,
    NseVbd729a,
    ClearChannel,
    UniversalTranscoder,
    DtmfOutOfBandRfc2833,
    DtmfPassthrough,
    DtmfDynamic,
    DtmfOutOfBand,
    DtmfInBandRfc2833,
    CfbTones,
    DtmfNoAudio,
    V150ModemRelay,
    V150Sprt,
    V150Sse,
    /// A codec identifier outside the catalog.
    Unknown(u32),
}

impl DeepView for Codec {
    type V = Codec;

    open spec fn deep_view(&self) -> Codec {
        *self
    }
}

/// What a codec carries.
#[derive(Clone, Copy, Debug, PartialEq, Eq, Structural)]
pub enum CodecKind {
    Audio,
    Video,
    Other,
}

impl DeepView for CodecKind {
    type V = CodecKind;

    open spec fn deep_view(&self) -> CodecKind {
        *self
    }
}

/// A tone that a station can play.
#[derive(Clone, Copy, Debug, PartialEq, Eq, Structural)]
pub enum Tone {
    Silence,
    Dtmf1,
    Dtmf2,
    Dtmf3,
    Dtmf4,
    Dtmf5,
    Dtmf6,
    Dtmf7,
    Dtmf8,
    Dtmf9,
    Dtmf0,
    DtmfStar,
    DtmfPound,
    DtmfA,
    DtmfB,
    DtmfC,
    DtmfD,
    InsideDial,
    OutsideDial,
    LineBusy,
    Alerting,
    Reorder,
    RecorderWarning,
    RecorderDetected,
    Reverting,
    ReceiverOffHook,
    PartialDial,
    NoSuchNumber,
    BusyVerification,
    CallWaiting,
    Confirmation,
    CampOn,
    RecallDial,
    ZipZip,
    Zip,
    BeepBonk,
    Music,
    Hold,
    Test,
    MonitorWarning,
    AddCallWaiting,
    PriorityCallWaiting,
    BargeIn,
    DistinctAlert,
    PriorityAlert,
    ReminderRing,
    PrecedenceRingback,
    Preemption,
    NoTone,
    MeetMeGreeting,
    MeetMeNumberInvalid,
    MeetMeNumberFailed,
    MeetMeEnterPin,
    MeetMeInvalidPin,
    MeetMeFailedPin,
    MeetMeCfbFailed,
    MeetMeEnterAccessCode,
    MeetMeAccessCodeInvalid,
    MeetMeAccessCodeFailed,
    /// A tone chosen by its station code.
    Code(u8),
}

impl DeepView for Tone {
    type V = Tone;

    open spec fn deep_view(&self) -> Tone {
        *self
    }
}

/// The call state that selects a set of soft keys.
#[derive(Clone, Copy, Debug, PartialEq, Eq, Structural)]
pub enum KeyMode {
    OnHook,
    Connected,
    OnHold,
    RingIn,
    OffHook,
    ConnectedTransfer,
    DigitsFollowing,
    ConnectedConference,
    RingOut,
    OffHookFeature,
    InUseHint,
    OnHookStealable,
    HoldConference,
    Empty,
}

impl DeepView for KeyMode {
    type V = KeyMode;

    open spec fn deep_view(&self) -> KeyMode {
        *self
    }
}

/// An action behind a soft key.
#[derive(Clone, Copy, Debug, PartialEq, Eq, Structural)]
pub enum SoftKey {
    Redial,
    NewCall,
    Hold,
    Transfer,
    ForwardAll,
    ForwardBusy,
    ForwardNoAnswer,
    Backspace,
    EndCall,
    Resume,
    Answer,
    Info,
    Conference,
    Park,
    Join,
    MeetMe,
    Pickup,
    GroupPickup,
    Monitor,
    Callback,
    Barge,
    DoNotDisturb,
    ConferenceList,
    Select,
    Private,
    TransferToVoicemail,
    DirectTransfer,
    ImmediateDivert,
    VideoMode,
    Intercept,
    Empty,
    Dial,
}

impl DeepView for SoftKey {
    type V = SoftKey;

    open spec fn deep_view(&self) -> SoftKey {
        *self
    }
}

/// The feature behind a feature button.
#[derive(Clone, Copy, Debug, PartialEq, Eq, Structural)]
pub enum ButtonType {
    LastNumberRedial,
    Hold,
    Transfer,
    ForwardAll,
    ForwardBusy,
    ForwardNoAnswer,
    Video,
    Voicemail,
    AnswerRelease,
    AutoAnswer,
    Select,
    Feature,
    MaliciousCall,
    MeetMeConference,
    Conference,
    CallPark,
    CallPickup,
    GroupCallPickup,
    Mobility,
    DoNotDisturb,
    ConferenceList,
    RemoveLastParticipant,
    QualityReportTool,
    Callback,
    OtherPickup,
    VideoMode,
    NewCall,
    EndCall,
    HuntGroupLogin,
    Queuing,
    ParkingLot,
    Messages,
    Directory,
    Application,
    Headset,
    AcousticEchoCancellation,
}

impl DeepView for ButtonType {
    type V = ButtonType;

    open spec fn deep_view(&self) -> ButtonType {
        *self
    }
}

/// The model of an expansion module.
#[derive(Clone, Copy, Debug, PartialEq, Eq, Structural)]
#[allow(non_camel_case_types)]
pub enum DeviceType {
    CiscoAddon7914,
    CiscoAddon7915_12,
    CiscoAddon7915_24,
    CiscoAddon7916_12,
    CiscoAddon7916_24,
    AddonSpa500s,
    AddonSpa500ds,
    AddonSpa932ds,
}

impl DeepView for DeviceType {
    type V = DeviceType;

    open spec fn deep_view(&self) -> DeviceType {
        *self
    }
}

/// A physical ringer cadence.
#[derive(Clone, Copy, Debug, PartialEq, Eq, Structural)]
pub enum RingerMode {
    Off,
    Inside,
    Outside,
    Feature,
    Silent,
    Urgent,
    Bellcore1,
    Bellcore2,
    Bellcore3,
    Bellcore4,
    Bellcore5,
}

impl DeepView for RingerMode {
    type V = RingerMode;

    open spec fn deep_view(&self) -> RingerMode {
        *self
    }
}

/// How a station sends digits during a call.
#[derive(Clone, Copy, Debug, PartialEq, Eq, Structural)]
pub enum DtmfMode {
    Auto,
    Rfc2833,
    Skinny,
}

impl DeepView for DtmfMode {
    type V = DtmfMode;

    open spec fn deep_view(&self) -> DtmfMode {
        *self
    }
}

/// How a lamp is lit.
#[derive(Clone, Copy, Debug, PartialEq, Eq, Structural)]
pub enum LampMode {
    Off,
    On,
    Wink,
    Flash,
    Blink,
}

impl DeepView for LampMode {
    type V = LampMode;

    open spec fn deep_view(&self) -> LampMode {
        *self
    }
}

/// The character set of stations without Unicode.
#[derive(Clone, Copy, Debug, PartialEq, Eq, Structural)]
#[allow(non_camel_case_types)]
pub enum LegacyCodePage {
    Iso8859_1,
    Ascii,
}

impl DeepView for LegacyCodePage {
    type V = LegacyCodePage;

    open spec fn deep_view(&self) -> LegacyCodePage {
        *self
    }
}

/// How one appearance of a line rings.
#[derive(Clone, Copy, Debug, PartialEq, Eq, Structural)]
pub enum AppearanceRingMode {
    Normal,
    Silent,
    Disabled,
}

impl DeepView for AppearanceRingMode {
    type V = AppearanceRingMode;

    open spec fn deep_view(&self) -> AppearanceRingMode {
        *self
    }
}

#[derive(Clone, Copy, Debug, PartialEq, Eq, Structural)]
pub enum EchoCancellation {
    On,
    Off,
}

impl DeepView for EchoCancellation {
    type V = EchoCancellation;

    open spec fn deep_view(&self) -> EchoCancellation {
        *self
    }
}

#[derive(Clone, Copy, Debug, PartialEq, Eq, Structural)]
pub enum SilenceSuppression {
    On,
    Off,
}

impl DeepView for SilenceSuppression {
    type V = SilenceSuppression;

    open spec fn deep_view(&self) -> SilenceSuppression {
        *self
    }
}

/// Station-side audio processing.
#[derive(Clone, Copy, Debug, PartialEq, Eq, Structural)]
pub struct AudioProcessingPolicy {
    pub echo_cancellation: EchoCancellation,
    pub silence_suppression: SilenceSuppression,
}

impl DeepView for AudioProcessingPolicy {
    type V = AudioProcessingPolicy;

    open spec fn deep_view(&self) -> AudioProcessingPolicy {
        *self
    }
}

/// The transport that a station must register over.
#[derive(Clone, Copy, Debug, PartialEq, Eq, Structural)]
pub enum StationTransportRequirement {
    Clear,
    Secure,
    Either,
}

impl DeepView for StationTransportRequirement {
    type V = StationTransportRequirement;

    open spec fn deep_view(&self) -> StationTransportRequirement {
        *self
    }
}

/// Marking of the signalling connection.
#[derive(Clone, Copy, Debug, PartialEq, Eq, Structural)]
pub struct SignalingQos {
    pub dscp: u8,
    pub cos: u8,
}

impl DeepView for SignalingQos {
    type V = SignalingQos;

    open spec fn deep_view(&self) -> SignalingQos {
        *self
    }
}

/// Presentation policy of one station.
#[derive(Clone, Copy, Debug, PartialEq, Eq, Structural)]
pub struct StationUiPolicy {
    pub placed_calls_redial_menu: bool,
    pub hinted_ringing_notification: bool,
    pub speed_dial_await_further_digits: bool,
    pub mwi_lamp_mode: LampMode,
    pub mwi_on_call: bool,
    pub legacy_code_page: LegacyCodePage,
}

impl DeepView for StationUiPolicy {
    type V = StationUiPolicy;

    open spec fn deep_view(&self) -> StationUiPolicy {
        *self
    }
}

/// The identity of a station.
#[derive(Debug, PartialEq, Eq)]
pub struct DeviceId {
    pub name: String,
}

/// The contents of [`DeviceId`].
pub struct DeviceIdView {
    pub name: text::Text,
}

impl DeepView for DeviceId {
    type V = DeviceIdView;

    open spec fn deep_view(&self) -> DeviceIdView {
        DeviceIdView {
            name: self.name@,
        }
    }
}

impl Clone for DeviceId {
    fn clone(&self) -> (r: Self)
        ensures
            r.deep_view() == self.deep_view(),
    {
        DeviceId {
            name: text::copy(self.name.as_str()),
        }
    }
}

/// A station's date-field order and separator.
#[derive(Debug, PartialEq, Eq)]
pub struct DateTemplate {
    pub template: String,
}

/// The contents of [`DateTemplate`].
pub struct DateTemplateView {
    pub template: text::Text,
}

impl DeepView for DateTemplate {
    type V = DateTemplateView;

    open spec fn deep_view(&self) -> DateTemplateView {
        DateTemplateView {
            template: self.template@,
        }
    }
}

impl Clone for DateTemplate {
    fn clone(&self) -> (r: Self)
        ensures
            r.deep_view() == self.deep_view(),
    {
        DateTemplate {
            template: text::copy(self.template.as_str()),
        }
    }
}

/// Caller identity that one appearance presents.
#[derive(Debug, PartialEq, Eq)]
pub struct CallerIdentity {
    pub name: Option<String>,
    pub number: Option<String>,
}

/// The contents of [`CallerIdentity`].
pub struct CallerIdentityView {
    pub name: Option<text::Text>,
    pub number: Option<text::Text>,
}

impl DeepView for CallerIdentity {
    type V = CallerIdentityView;

    open spec fn deep_view(&self) -> CallerIdentityView {
        CallerIdentityView {
            name: self.name.deep_view(),
            number: self.number.deep_view(),
        }
    }
}

impl Clone for CallerIdentity {
    fn clone(&self) -> (r: Self)
        ensures
            r.deep_view() == self.deep_view(),
    {
        CallerIdentity {
            name: text::copy_option(&self.name),
            number: text::copy_option(&self.number),
        }
    }
}

/// A line on a button of a station.
#[derive(Debug, PartialEq, Eq)]
pub struct LineAppearance {
    pub instance: u32,
    pub number: String,
    pub display_name: String,
    pub label: Option<String>,
    pub caller_id: CallerIdentity,
    pub ring_mode: AppearanceRingMode,
    pub subscription_identity: Option<String>,
    pub privacy: bool,
    pub initial_tone: Tone,
}

/// The contents of [`LineAppearance`].
pub struct LineAppearanceView {
    pub instance: u32,
    pub number: text::Text,
    pub display_name: text::Text,
    pub label: Option<text::Text>,
    pub caller_id: CallerIdentityView,
    pub ring_mode: AppearanceRingMode,
    pub subscription_identity: Option<text::Text>,
    pub privacy: bool,
    pub initial_tone: Tone,
}

impl DeepView for LineAppearance {
    type V = LineAppearanceView;

    open spec fn deep_view(&self) -> LineAppearanceView {
        LineAppearanceView {
            instance: self.instance,
            number: self.number@,
            display_name: self.display_name@,
            label: self.label.deep_view(),
            caller_id: self.caller_id.deep_view(),
            ring_mode: self.ring_mode,
            subscription_identity: self.subscription_identity.deep_view(),
            privacy: self.privacy,
            initial_tone: self.initial_tone,
        }
    }
}

impl Clone for LineAppearance {
    fn clone(&self) -> (r: Self)
        ensures
            r.deep_view() == self.deep_view(),
    {
        LineAppearance {
            instance: self.instance,
            number: text::copy(self.number.as_str()),
            display_name: text::copy(self.display_name.as_str()),
            label: text::copy_option(&self.label),
            caller_id: self.caller_id.clone(),
            ring_mode: self.ring_mode,
            subscription_identity: text::copy_option(&self.subscription_identity),
            privacy: self.privacy,
            initial_tone: self.initial_tone,
        }
    }
}

/// A speed-dial button.
#[derive(Debug, PartialEq, Eq)]
pub struct SpeedDialDefinition {
    pub instance: u32,
    pub number: String,
    pub display_name: String,
}

/// The contents of [`SpeedDialDefinition`].
pub struct SpeedDialDefinitionView {
    pub instance: u32,
    pub number: text::Text,
    pub display_name: text::Text,
}

impl DeepView for SpeedDialDefinition {
    type V = SpeedDialDefinitionView;

    open spec fn deep_view(&self) -> SpeedDialDefinitionView {
        SpeedDialDefinitionView {
            instance: self.instance,
            number: self.number@,
            display_name: self.display_name@,
        }
    }
}

impl Clone for SpeedDialDefinition {
    fn clone(&self) -> (r: Self)
        ensures
            r.deep_view() == self.deep_view(),
    {
        SpeedDialDefinition {
            instance: self.instance,
            number: text::copy(self.number.as_str()),
            display_name: text::copy(self.display_name.as_str()),
        }
    }
}

/// A speed-dial button that shows the state of a hint.
#[derive(Debug, PartialEq, Eq)]
pub struct BlfSpeedDialDefinition {
    pub instance: u32,
    pub number: String,
    pub display_name: String,
    pub hint: String,
}

/// The contents of [`BlfSpeedDialDefinition`].
pub struct BlfSpeedDialDefinitionView {
    pub instance: u32,
    pub number: text::Text,
    pub display_name: text::Text,
    pub hint: text::Text,
}

impl DeepView for BlfSpeedDialDefinition {
    type V = BlfSpeedDialDefinitionView;

    open spec fn deep_view(&self) -> BlfSpeedDialDefinitionView {
        BlfSpeedDialDefinitionView {
            instance: self.instance,
            number: self.number@,
            display_name: self.display_name@,
            hint: self.hint@,
        }
    }
}

impl Clone for BlfSpeedDialDefinition {
    fn clone(&self) -> (r: Self)
        ensures
            r.deep_view() == self.deep_view(),
    {
        BlfSpeedDialDefinition {
            instance: self.instance,
            number: text::copy(self.number.as_str()),
            display_name: text::copy(self.display_name.as_str()),
            hint: text::copy(self.hint.as_str()),
        }
    }
}

/// A feature button.
#[derive(Debug, PartialEq, Eq)]
pub struct FeatureDefinition {
    pub instance: u32,
    pub label: String,
    pub feature: ButtonType,
}

/// The contents of [`FeatureDefinition`].
pub struct FeatureDefinitionView {
    pub instance: u32,
    pub label: text::Text,
    pub feature: ButtonType,
}

impl DeepView for FeatureDefinition {
    type V = FeatureDefinitionView;

    open spec fn deep_view(&self) -> FeatureDefinitionView {
        FeatureDefinitionView {
            instance: self.instance,
            label: self.label@,
            feature: self.feature,
        }
    }
}

impl Clone for FeatureDefinition {
    fn clone(&self) -> (r: Self)
        ensures
            r.deep_view() == self.deep_view(),
    {
        FeatureDefinition {
            instance: self.instance,
            label: text::copy(self.label.as_str()),
            feature: self.feature,
        }
    }
}

/// A service button.
#[derive(Debug, PartialEq, Eq)]
pub struct ServiceDefinition {
    pub instance: u32,
    pub label: String,
    pub url: String,
}

/// The contents of [`ServiceDefinition`].
pub struct ServiceDefinitionView {
    pub instance: u32,
    pub label: text::Text,
    pub url: text::Text,
}

impl DeepView for ServiceDefinition {
    type V = ServiceDefinitionView;

    open spec fn deep_view(&self) -> ServiceDefinitionView {
        ServiceDefinitionView {
            instance: self.instance,
            label: self.label@,
            url: self.url@,
        }
    }
}

impl Clone for ServiceDefinition {
    fn clone(&self) -> (r: Self)
        ensures
            r.deep_view() == self.deep_view(),
    {
        ServiceDefinition {
            instance: self.instance,
            label: text::copy(self.label.as_str()),
            url: text::copy(self.url.as_str()),
        }
    }
}

/// An expansion module.
#[derive(Clone, Copy, Debug, PartialEq, Eq, Structural)]
pub struct AddonModuleDefinition {
    pub slot: u32,
    pub device_type: DeviceType,
}

impl DeepView for AddonModuleDefinition {
    type V = AddonModuleDefinition;

    open spec fn deep_view(&self) -> AddonModuleDefinition {
        *self
    }
}

/// A physical station button.
#[derive(Debug, PartialEq, Eq)]
pub enum ButtonDefinition {
    Line(LineAppearance),
    SpeedDial(SpeedDialDefinition),
    BlfSpeedDial(BlfSpeedDialDefinition),
    Feature(FeatureDefinition),
    Service(ServiceDefinition),
    AddonModule(AddonModuleDefinition),
    Unused,
}

/// The contents of [`ButtonDefinition`].
pub enum ButtonDefinitionView {
    Line(LineAppearanceView),
    SpeedDial(SpeedDialDefinitionView),
    BlfSpeedDial(BlfSpeedDialDefinitionView),
    Feature(FeatureDefinitionView),
    Service(ServiceDefinitionView),
    AddonModule(AddonModuleDefinition),
    Unused,
}

impl DeepView for ButtonDefinition {
    type V = ButtonDefinitionView;

    open spec fn deep_view(&self) -> ButtonDefinitionView {
        match self {
            ButtonDefinition::Line(b) => ButtonDefinitionView::Line(b.deep_view()),
            ButtonDefinition::SpeedDial(b) => ButtonDefinitionView::SpeedDial(b.deep_view()),
            ButtonDefinition::BlfSpeedDial(b) => ButtonDefinitionView::BlfSpeedDial(b.deep_view()),
            ButtonDefinition::Feature(b) => ButtonDefinitionView::Feature(b.deep_view()),
            ButtonDefinition::Service(b) => ButtonDefinitionView::Service(b.deep_view()),
            ButtonDefinition::AddonModule(b) => ButtonDefinitionView::AddonModule(*b),
            ButtonDefinition::Unused => ButtonDefinitionView::Unused,
        }
    }
}

impl Clone for ButtonDefinition {
    fn clone(&self) -> (r: Self)
        ensures
            r.deep_view() == self.deep_view(),
    {
        match self {
            ButtonDefinition::Line(b) => ButtonDefinition::Line(b.clone()),
            ButtonDefinition::SpeedDial(b) => ButtonDefinition::SpeedDial(b.clone()),
            ButtonDefinition::BlfSpeedDial(b) => ButtonDefinition::BlfSpeedDial(b.clone()),
            ButtonDefinition::Feature(b) => ButtonDefinition::Feature(b.clone()),
            ButtonDefinition::Service(b) => ButtonDefinition::Service(b.clone()),
            ButtonDefinition::AddonModule(b) => ButtonDefinition::AddonModule(*b),
            ButtonDefinition::Unused => ButtonDefinition::Unused,
        }
    }
}

/// A list with the same contents.
pub fn copy_button_definitions(list: &Vec<ButtonDefinition>) -> (r: Vec<ButtonDefinition>)
    ensures
        r.deep_view() == list.deep_view(),
{
    let mut r: Vec<ButtonDefinition> = Vec::new();
    let mut i: usize = 0;
    while i < list.len()
        invariant
            i <= list@.len(),
            r.deep_view() == list.deep_view().take(i as int),
        decreases list.len() - i,
    {
        let ghost before = r.deep_view();
        let x = list[i].clone();
        r.push(x);
        i += 1;
        assert(r.deep_view() =~= before.push(x.deep_view()));
        assert(r.deep_view() =~= list.deep_view().take(i as int));
    }
    assert(list.deep_view().take(i as int) =~= list.deep_view());
    r
}

/// A signalling server that stations may use. A port is not zero.
#[derive(Debug, PartialEq, Eq)]
pub struct SignalingServerRoute {
    pub priority: u8,
    pub name: String,
    pub address: address::IpAddr,
    pub clear_port: Option<u16>,
    pub secure_port: Option<u16>,
}

/// The contents of [`SignalingServerRoute`].
pub struct SignalingServerRouteView {
    pub priority: u8,
    pub name: text::Text,
    pub address: address::IpAddr,
    pub clear_port: Option<u16>,
    pub secure_port: Option<u16>,
}

impl DeepView for SignalingServerRoute {
    type V = SignalingServerRouteView;

    open spec fn deep_view(&self) -> SignalingServerRouteView {
        SignalingServerRouteView {
            priority: self.priority,
            name: self.name@,
            address: self.address,
            clear_port: self.clear_port,
            secure_port: self.secure_port,
        }
    }
}

impl Clone for SignalingServerRoute {
    fn clone(&self) -> (r: Self)
        ensures
            r.deep_view() == self.deep_view(),
    {
        SignalingServerRoute {
            priority: self.priority,
            name: text::copy(self.name.as_str()),
            address: self.address,
            clear_port: self.clear_port,
            secure_port: self.secure_port,
        }
    }
}

/// A list with the same contents.
pub fn copy_signaling_server_routes(list: &Vec<SignalingServerRoute>) -> (r: Vec<SignalingServerRoute>)
    ensures
        r.deep_view() == list.deep_view(),
{
    let mut r: Vec<SignalingServerRoute> = Vec::new();
    let mut i: usize = 0;
    while i < list.len()
        invariant
            i <= list@.len(),
            r.deep_view() == list.deep_view().take(i as int),
        decreases list.len() - i,
    {
        let ghost before = r.deep_view();
        let x = list[i].clone();
        r.push(x);
        i += 1;
        assert(r.deep_view() =~= before.push(x.deep_view()));
        assert(r.deep_view() =~= list.deep_view().take(i as int));
    }
    assert(list.deep_view().take(i as int) =~= list.deep_view());
    r
}

/// The soft keys of one key mode, in order.
#[derive(Debug, PartialEq, Eq)]
pub struct KeySet {
    pub mode: KeyMode,
    pub actions: Vec<SoftKey>,
}

/// The contents of [`KeySet`].
pub struct KeySetView {
    pub mode: KeyMode,
    pub actions: Seq<SoftKey>,
}

impl DeepView for KeySet {
    type V = KeySetView;

    open spec fn deep_view(&self) -> KeySetView {
        KeySetView {
            mode: self.mode,
            actions: self.actions@,
        }
    }
}

impl Clone for KeySet {
    fn clone(&self) -> (r: Self)
        ensures
            r.deep_view() == self.deep_view(),
    {
        KeySet {
            mode: self.mode,
            actions: text::copy_all(&self.actions),
        }
    }
}

/// A list with the same contents.
pub fn copy_key_sets(list: &Vec<KeySet>) -> (r: Vec<KeySet>)
    ensures
        r.deep_view() == list.deep_view(),
{
    let mut r: Vec<KeySet> = Vec::new();
    let mut i: usize = 0;
    while i < list.len()
        invariant
            i <= list@.len(),
            r.deep_view() == list.deep_view().take(i as int),
        decreases list.len() - i,
    {
        let ghost before = r.deep_view();
        let x = list[i].clone();
        r.push(x);
        i += 1;
        assert(r.deep_view() =~= before.push(x.deep_view()));
        assert(r.deep_view() =~= list.deep_view().take(i as int));
    }
    assert(list.deep_view().take(i as int) =~= list.deep_view());
    r
}

/// What a station is provisioned with.
#[derive(Debug, PartialEq, Eq)]
pub struct DeviceDefinition {
    pub id: DeviceId,
    pub description: String,
    pub transport: StationTransportRequirement,
    pub signaling_qos: Option<SignalingQos>,
    pub buttons: Vec<ButtonDefinition>,
    pub soft_keys: Vec<KeySet>,
    pub ui: StationUiPolicy,
}

/// The contents of [`DeviceDefinition`].
pub struct DeviceDefinitionView {
    pub id: DeviceIdView,
    pub description: text::Text,
    pub transport: StationTransportRequirement,
    pub signaling_qos: Option<SignalingQos>,
    pub buttons: Seq<ButtonDefinitionView>,
    pub soft_keys: Seq<KeySetView>,
    pub ui: StationUiPolicy,
}

impl DeepView for DeviceDefinition {
    type V = DeviceDefinitionView;

    open spec fn deep_view(&self) -> DeviceDefinitionView {
        DeviceDefinitionView {
            id: self.id.deep_view(),
            description: self.description@,
            transport: self.transport,
            signaling_qos: self.signaling_qos,
            buttons: self.buttons.deep_view(),
            soft_keys: self.soft_keys.deep_view(),
            ui: self.ui,
        }
    }
}

impl Clone for DeviceDefinition {
    fn clone(&self) -> (r: Self)
        ensures
            r.deep_view() == self.deep_view(),
    {
        DeviceDefinition {
            id: self.id.clone(),
            description: text::copy(self.description.as_str()),
            transport: self.transport,
            signaling_qos: self.signaling_qos,
            buttons: copy_button_definitions(&self.buttons),
            soft_keys: copy_key_sets(&self.soft_keys),
            ui: self.ui,
        }
    }
}

impl Codec {
    /// What the codec carries.
    pub open spec fn kind_of(self) -> CodecKind {
        match self {
            Codec::Pcmu
            | Codec::G711Ulaw56k
            | Codec::Pcma
            | Codec::G711Alaw56k
            | Codec::G72264k
            | Codec::G72256k
            | Codec::G72248k
            | Codec::G7231
            | Codec::G728
            | Codec::G729
            | Codec::G729A
            | Codec::G729B
            | Codec::G729Ab
            | Codec::G729AnnexB
            | Codec::G726_32k
            | Codec::G726_24k
            | Codec::G726_16k
            | Codec::Gsm
            | Codec::GsmFullRate
            | Codec::GsmHalfRate
            | Codec::GsmEnhancedFullRate
            | Codec::Wideband256k
            | Codec::Ilbc
            | Codec::G7221_32k
            | Codec::G7221_24k
            | Codec::Opus
            | Codec::Is11172
            | Codec::Is13818
            | Codec::ActiveVoice
            | Codec::Isac
            | Codec::Aac
            | Codec::Mp4aLatm128
            | Codec::Mp4aLatm64
            | Codec::Mp4aLatm56
            | Codec::Mp4aLatm48
            | Codec::Mp4aLatm32
            | Codec::Mp4aLatm24
            | Codec::Mp4aLatm
            | Codec::Amr
            | Codec::AmrWb => CodecKind::Audio,
            Codec::H261
            | Codec::H263
            | Codec::H263Plus
            | Codec::H264
            | Codec::H264Svc
            | Codec::H264Fec
            | Codec::H264Uc
            | Codec::H265 => CodecKind::Video,
            _ => CodecKind::Other,
        }
    }

    /// What the codec carries.
    pub fn kind(self) -> (r: CodecKind)
        ensures
            r == self.kind_of(),
    {
        match self {
            Codec::Pcmu
            | Codec::G711Ulaw56k
            | Codec::Pcma
            | Codec::G711Alaw56k
            | Codec::G72264k
            | Codec::G72256k
            | Codec::G72248k
            | Codec::G7231
            | Codec::G728
            | Codec::G729
            | Codec::G729A
            | Codec::G729B
            | Codec::G729Ab
            | Codec::G729AnnexB
            | Codec::G726_32k
            | Codec::G726_24k
            | Codec::G726_16k
            | Codec::Gsm
            | Codec::GsmFullRate
            | Codec::GsmHalfRate
            | Codec::GsmEnhancedFullRate
            | Codec::Wideband256k
            | Codec::Ilbc
            | Codec::G7221_32k
            | Codec::G7221_24k
            | Codec::Opus
            | Codec::Is11172
            | Codec::Is13818
            | Codec::ActiveVoice
            | Codec::Isac
            | Codec::Aac
            | Codec::Mp4aLatm128
            | Codec::Mp4aLatm64
            | Codec::Mp4aLatm56
            | Codec::Mp4aLatm48
            | Codec::Mp4aLatm32
            | Codec::Mp4aLatm24
            | Codec::Mp4aLatm
            | Codec::Amr
            | Codec::AmrWb => CodecKind::Audio,
            Codec::H261
            | Codec::H263
            | Codec::H263Plus
            | Codec::H264
            | Codec::H264Svc
            | Codec::H264Fec
            | Codec::H264Uc
            | Codec::H265 => CodecKind::Video,
            _ => CodecKind::Other,
        }
    }
}

impl DeviceId {
    /// The text of the identity.
    pub fn as_str(&self) -> (r: &str)
        ensures
            r@ == self.deep_view().name,
    {
        self.name.as_str()
    }
}

impl DateTemplate {
    /// The text of the template.
    pub fn as_str(&self) -> (r: &str)
        ensures
            r@ == self.deep_view().template,
    {
        self.template.as_str()
    }
}

} // verus!
