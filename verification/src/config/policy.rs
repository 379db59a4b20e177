//! The typed policy that a configuration resolves to.
//!
//! Types that carry private values (destinations, credentials, account codes,
//! channel variables) have no `Debug` form.

use vstd::prelude::*;
use vstd::utf8::*;

use crate::address;
use crate::address::{IpAddr, Ipv4Addr, Ipv6Addr, SocketAddr};
use crate::station;
use crate::station::{
    AudioProcessingPolicy, ButtonDefinition, ButtonDefinitionView, Codec, DateTemplate,
    DateTemplateView, DeviceId, DeviceIdView, DtmfMode, KeySet, KeySetView, LampMode,
    LegacyCodePage, LineAppearance, LineAppearanceView, RingerMode, SignalingServerRoute,
    SignalingServerRouteView, Tone,
};
use crate::text;

verus! {

/// Which of several answerable calls is answered first.
#[derive(Clone, Copy, Debug, PartialEq, Eq, Structural)]
pub enum CallAnswerOrder {
    OldestFirst,
    LastFirst,
}

impl DeepView for CallAnswerOrder {
    type V = CallAnswerOrder;

    open spec fn deep_view(&self) -> CallAnswerOrder {
        *self
    }
}

/// The digit that ends dialing.
#[derive(Clone, Copy, Debug, PartialEq, Eq, Structural)]
pub struct DialTerminatorConfig {
    pub character: char,
    pub record: bool,
}

impl DeepView for DialTerminatorConfig {
    type V = DialTerminatorConfig;

    open spec fn deep_view(&self) -> DialTerminatorConfig {
        *self
    }
}

/// Dialplan contexts that are filled while lines are registered.
#[derive(Debug, PartialEq, Eq)]
pub struct RegistrationConfig {
    /// Context names, in order.
    pub contexts: Vec<String>,
}

/// The contents of [`RegistrationConfig`].
pub struct RegistrationConfigView {
    pub contexts: Seq<text::Text>,
}

impl DeepView for RegistrationConfig {
    type V = RegistrationConfigView;

    open spec fn deep_view(&self) -> RegistrationConfigView {
        RegistrationConfigView {
            contexts: self.contexts.deep_view(),
        }
    }
}

impl Clone for RegistrationConfig {
    fn clone(&self) -> (r: Self)
        ensures
            r.deep_view() == self.deep_view(),
    {
        RegistrationConfig {
            contexts: text::copy_list(&self.contexts),
        }
    }
}

/// Whether a station on another server moves back to this one.
#[derive(Clone, Copy, Debug, PartialEq, Eq, Structural)]
pub enum FallbackDecision {
    Reject,
    Accept,
    DeviceIdOdd,
    DeviceIdEven,
}

impl DeepView for FallbackDecision {
    type V = FallbackDecision;

    open spec fn deep_view(&self) -> FallbackDecision {
        *self
    }
}

#[derive(Clone, Copy, Debug, PartialEq, Eq, Structural)]
pub struct FallbackRegistrationConfig {
    pub decision: FallbackDecision,
    pub backoff_seconds: u32,
    pub server_priority: u8,
}

impl DeepView for FallbackRegistrationConfig {
    type V = FallbackRegistrationConfig;

    open spec fn deep_view(&self) -> FallbackRegistrationConfig {
        *self
    }
}

/// Realtime families of devices and lines.
#[derive(Debug, PartialEq, Eq)]
pub struct RealtimeTableConfig {
    pub device_family: String,
    pub line_family: String,
}

/// The contents of [`RealtimeTableConfig`].
pub struct RealtimeTableConfigView {
    pub device_family: text::Text,
    pub line_family: text::Text,
}

impl DeepView for RealtimeTableConfig {
    type V = RealtimeTableConfigView;

    open spec fn deep_view(&self) -> RealtimeTableConfigView {
        RealtimeTableConfigView {
            device_family: self.device_family@,
            line_family: self.line_family@,
        }
    }
}

impl Clone for RealtimeTableConfig {
    fn clone(&self) -> (r: Self)
        ensures
            r.deep_view() == self.deep_view(),
    {
        RealtimeTableConfig {
            device_family: text::copy(self.device_family.as_str()),
            line_family: text::copy(self.line_family.as_str()),
        }
    }
}

#[derive(Clone, Copy, Debug, PartialEq, Eq, Structural)]
pub enum AclAction {
    Deny,
    Permit,
}

impl DeepView for AclAction {
    type V = AclAction;

    open spec fn deep_view(&self) -> AclAction {
        *self
    }
}

/// A network: an address whose bits behind the prefix are zero.
#[derive(Clone, Copy, Debug, PartialEq, Eq, Structural)]
pub struct IpNetwork {
    pub address: IpAddr,
    pub prefix: u8,
}

impl DeepView for IpNetwork {
    type V = IpNetwork;

    open spec fn deep_view(&self) -> IpNetwork {
        *self
    }
}

#[derive(Clone, Copy, Debug, PartialEq, Eq, Structural)]
pub struct AclRule {
    pub action: AclAction,
    pub network: IpNetwork,
}

impl DeepView for AclRule {
    type V = AclRule;

    open spec fn deep_view(&self) -> AclRule {
        *self
    }
}

#[derive(Debug, PartialEq, Eq)]
pub struct AccessControlList {
    /// First to last. An empty list filters nothing.
    pub rules: Vec<AclRule>,
}

/// The contents of [`AccessControlList`].
pub struct AccessControlListView {
    pub rules: Seq<AclRule>,
}

impl DeepView for AccessControlList {
    type V = AccessControlListView;

    open spec fn deep_view(&self) -> AccessControlListView {
        AccessControlListView {
            rules: self.rules@,
        }
    }
}

impl Clone for AccessControlList {
    fn clone(&self) -> (r: Self)
        ensures
            r.deep_view() == self.deep_view(),
    {
        AccessControlList {
            rules: text::copy_all(&self.rules),
        }
    }
}

#[derive(Clone, Copy, Debug, PartialEq, Eq, Structural)]
pub enum NatMode {
    Auto,
    Off,
    AutoOff,
    On,
    AutoOn,
}

impl DeepView for NatMode {
    type V = NatMode;

    open spec fn deep_view(&self) -> NatMode {
        *self
    }
}

/// Where the outside sees this server.
#[derive(Debug, PartialEq, Eq)]
pub enum ExternalAddress {
    Address(IpAddr),
    Hostname { name: String, refresh_seconds: u32 },
}

/// The contents of [`ExternalAddress`].
pub enum ExternalAddressView {
    Address(IpAddr),
    Hostname { name: text::Text, refresh_seconds: u32 },
}

impl DeepView for ExternalAddress {
    type V = ExternalAddressView;

    open spec fn deep_view(&self) -> ExternalAddressView {
        match self {
            ExternalAddress::Address(a) => ExternalAddressView::Address(*a),
            ExternalAddress::Hostname { name, refresh_seconds } => ExternalAddressView::Hostname {
                name: name@,
                refresh_seconds: *refresh_seconds,
            },
        }
    }
}

impl Clone for ExternalAddress {
    fn clone(&self) -> (r: Self)
        ensures
            r.deep_view() == self.deep_view(),
    {
        match self {
            ExternalAddress::Address(a) => ExternalAddress::Address(*a),
            ExternalAddress::Hostname { name, refresh_seconds } => ExternalAddress::Hostname {
                name: text::copy(name.as_str()),
                refresh_seconds: *refresh_seconds,
            },
        }
    }
}

#[derive(Clone, Copy, Debug, PartialEq, Eq)]
pub struct AdvertisedAddresses {
    pub ipv4: Option<Ipv4Addr>,
    pub ipv6: Option<Ipv6Addr>,
}

impl DeepView for AdvertisedAddresses {
    type V = AdvertisedAddresses;

    open spec fn deep_view(&self) -> AdvertisedAddresses {
        *self
    }
}

#[derive(Debug, PartialEq, Eq)]
pub struct NetworkPolicy {
    pub acl: AccessControlList,
    pub local_networks: Vec<IpNetwork>,
    pub external: Option<ExternalAddress>,
    pub advertised: AdvertisedAddresses,
    pub nat: NatMode,
}

/// The contents of [`NetworkPolicy`].
pub struct NetworkPolicyView {
    pub acl: AccessControlListView,
    pub local_networks: Seq<IpNetwork>,
    pub external: Option<ExternalAddressView>,
    pub advertised: AdvertisedAddresses,
    pub nat: NatMode,
}

impl DeepView for NetworkPolicy {
    type V = NetworkPolicyView;

    open spec fn deep_view(&self) -> NetworkPolicyView {
        NetworkPolicyView {
            acl: self.acl.deep_view(),
            local_networks: self.local_networks@,
            external: self.external.deep_view(),
            advertised: self.advertised,
            nat: self.nat,
        }
    }
}

impl Clone for NetworkPolicy {
    fn clone(&self) -> (r: Self)
        ensures
            r.deep_view() == self.deep_view(),
    {
        NetworkPolicy {
            acl: self.acl.clone(),
            local_networks: text::copy_all(&self.local_networks),
            external: match &self.external {
                Some(x) => Some(x.clone()),
                None => None,
            },
            advertised: self.advertised,
            nat: self.nat,
        }
    }
}

/// A differentiated-services code point.
#[derive(Clone, Copy, Debug, PartialEq, Eq, Structural)]
pub struct Dscp {
    pub value: u8,
}

impl DeepView for Dscp {
    type V = Dscp;

    open spec fn deep_view(&self) -> Dscp {
        *self
    }
}

/// A class-of-service priority.
#[derive(Clone, Copy, Debug, PartialEq, Eq, Structural)]
pub struct Cos {
    pub value: u8,
}

impl DeepView for Cos {
    type V = Cos;

    open spec fn deep_view(&self) -> Cos {
        *self
    }
}

#[derive(Clone, Copy, Debug, PartialEq, Eq, Structural)]
pub struct QosClass {
    pub dscp: Dscp,
    pub cos: Cos,
}

impl DeepView for QosClass {
    type V = QosClass;

    open spec fn deep_view(&self) -> QosClass {
        *self
    }
}

#[derive(Clone, Copy, Debug, PartialEq, Eq, Structural)]
pub struct QosPolicy {
    pub signaling: QosClass,
    pub audio: QosClass,
    pub video: QosClass,
}

impl DeepView for QosPolicy {
    type V = QosPolicy;

    open spec fn deep_view(&self) -> QosPolicy {
        *self
    }
}

/// The files of a TLS identity.
#[derive(PartialEq, Eq)]
pub enum TlsCredentials {
    CombinedPem(String),
    SplitPem { certificate: String, private_key: String, trust_store: Option<String> },
}

/// The contents of [`TlsCredentials`].
pub enum TlsCredentialsView {
    CombinedPem(text::Text),
    SplitPem { certificate: text::Text, private_key: text::Text, trust_store: Option<text::Text> },
}

impl DeepView for TlsCredentials {
    type V = TlsCredentialsView;

    open spec fn deep_view(&self) -> TlsCredentialsView {
        match self {
            TlsCredentials::CombinedPem(p) => TlsCredentialsView::CombinedPem(p@),
            TlsCredentials::SplitPem {
                certificate,
                private_key,
                trust_store,
            } => TlsCredentialsView::SplitPem {
                certificate: certificate@,
                private_key: private_key@,
                trust_store: trust_store.deep_view(),
            },
        }
    }
}

impl Clone for TlsCredentials {
    fn clone(&self) -> (r: Self)
        ensures
            r.deep_view() == self.deep_view(),
    {
        match self {
            TlsCredentials::CombinedPem(p) => TlsCredentials::CombinedPem(text::copy(p.as_str())),
            TlsCredentials::SplitPem {
                certificate,
                private_key,
                trust_store,
            } => TlsCredentials::SplitPem {
                certificate: text::copy(certificate.as_str()),
                private_key: text::copy(private_key.as_str()),
                trust_store: text::copy_option(trust_store),
            },
        }
    }
}

/// How diagnostics show the files of an identity: which they are, and none of
/// their paths.
pub open spec fn credentials_shown(c: TlsCredentialsView) -> text::Text {
    match c {
        TlsCredentialsView::CombinedPem(_) => "CombinedPem(<redacted>)"@,
        TlsCredentialsView::SplitPem { certificate: _, private_key: _, trust_store: None } =>
            "SplitPem { certificate: \"<redacted>\", private_key: \"<redacted>\", trust_store: None }"@,
        TlsCredentialsView::SplitPem { certificate: _, private_key: _, trust_store: Some(_) } =>
            "SplitPem { certificate: \"<redacted>\", private_key: \"<redacted>\", trust_store: Some(\"<redacted>\") }"@,
    }
}

impl TlsCredentials {
    /// Shows which files an identity has.
    pub fn diagnostic(&self) -> (r: String)
        ensures
            r@ == credentials_shown(self.deep_view()),
    {
        match self {
            TlsCredentials::CombinedPem(_) => text::copy("CombinedPem(<redacted>)"),
            TlsCredentials::SplitPem { certificate: _, private_key: _, trust_store } => {
                match trust_store {
                    None => text::copy(
                        "SplitPem { certificate: \"<redacted>\", private_key: \"<redacted>\", trust_store: None }",
                    ),
                    Some(_) => text::copy(
                        "SplitPem { certificate: \"<redacted>\", private_key: \"<redacted>\", trust_store: Some(\"<redacted>\") }",
                    ),
                }
            },
        }
    }
}

#[derive(PartialEq, Eq)]
pub struct TlsListener {
    pub bind: SocketAddr,
    pub credentials: TlsCredentials,
}

/// The contents of [`TlsListener`].
pub struct TlsListenerView {
    pub bind: SocketAddr,
    pub credentials: TlsCredentialsView,
}

impl DeepView for TlsListener {
    type V = TlsListenerView;

    open spec fn deep_view(&self) -> TlsListenerView {
        TlsListenerView {
            bind: self.bind,
            credentials: self.credentials.deep_view(),
        }
    }
}

impl Clone for TlsListener {
    fn clone(&self) -> (r: Self)
        ensures
            r.deep_view() == self.deep_view(),
    {
        TlsListener {
            bind: self.bind,
            credentials: self.credentials.clone(),
        }
    }
}

/// How diagnostics show a listener.
pub open spec fn listener_shown(l: TlsListenerView) -> text::Text {
    "TlsListener { bind: "@ + address::socket_text(l.bind) + ", credentials: "@ + credentials_shown(
        l.credentials,
    ) + " }"@
}

impl TlsListener {
    /// Shows where a listener is bound and which files its identity has.
    pub fn diagnostic(&self) -> (r: String)
        ensures
            r@ == listener_shown(self.deep_view()),
    {
        let mut r = text::copy("TlsListener { bind: ");
        r.append(address::socket_to_string(self.bind).as_str());
        r.append(", credentials: ");
        r.append(self.credentials.diagnostic().as_str());
        r.append(" }");
        r
    }
}

#[derive(PartialEq, Eq)]
pub struct ListenerPolicy {
    pub clear: SocketAddr,
    pub tls: Option<TlsListener>,
}

/// The contents of [`ListenerPolicy`].
pub struct ListenerPolicyView {
    pub clear: SocketAddr,
    pub tls: Option<TlsListenerView>,
}

impl DeepView for ListenerPolicy {
    type V = ListenerPolicyView;

    open spec fn deep_view(&self) -> ListenerPolicyView {
        ListenerPolicyView {
            clear: self.clear,
            tls: self.tls.deep_view(),
        }
    }
}

impl Clone for ListenerPolicy {
    fn clone(&self) -> (r: Self)
        ensures
            r.deep_view() == self.deep_view(),
    {
        ListenerPolicy {
            clear: self.clear,
            tls: match &self.tls {
                Some(x) => Some(x.clone()),
                None => None,
            },
        }
    }
}

#[derive(Clone, Copy, Debug, PartialEq, Eq, Structural)]
pub enum TransportRequirement {
    Clear,
    Tls,
    Either,
}

impl DeepView for TransportRequirement {
    type V = TransportRequirement;

    open spec fn deep_view(&self) -> TransportRequirement {
        *self
    }
}

#[derive(Debug, PartialEq, Eq)]
pub struct DeviceNetworkPolicy {
    pub acl: AccessControlList,
    pub permitted_hosts: Vec<String>,
    pub nat: NatMode,
    pub qos: QosPolicy,
    pub transport: TransportRequirement,
}

/// The contents of [`DeviceNetworkPolicy`].
pub struct DeviceNetworkPolicyView {
    pub acl: AccessControlListView,
    pub permitted_hosts: Seq<text::Text>,
    pub nat: NatMode,
    pub qos: QosPolicy,
    pub transport: TransportRequirement,
}

impl DeepView for DeviceNetworkPolicy {
    type V = DeviceNetworkPolicyView;

    open spec fn deep_view(&self) -> DeviceNetworkPolicyView {
        DeviceNetworkPolicyView {
            acl: self.acl.deep_view(),
            permitted_hosts: self.permitted_hosts.deep_view(),
            nat: self.nat,
            qos: self.qos,
            transport: self.transport,
        }
    }
}

impl Clone for DeviceNetworkPolicy {
    fn clone(&self) -> (r: Self)
        ensures
            r.deep_view() == self.deep_view(),
    {
        DeviceNetworkPolicy {
            acl: self.acl.clone(),
            permitted_hosts: text::copy_list(&self.permitted_hosts),
            nat: self.nat,
            qos: self.qos,
            transport: self.transport,
        }
    }
}

#[derive(Clone, Copy, Debug, PartialEq, Eq, Structural)]
pub enum DndMode {
    Off,
    Silent,
    Reject,
}

impl DeepView for DndMode {
    type V = DndMode;

    open spec fn deep_view(&self) -> DndMode {
        *self
    }
}

/// What a do-not-disturb button does.
#[derive(Clone, Copy, Debug, PartialEq, Eq, Structural)]
pub enum DndButtonMode {
    Cycle,
    Silent,
    Reject,
}

impl DeepView for DndButtonMode {
    type V = DndButtonMode;

    open spec fn deep_view(&self) -> DndButtonMode {
        *self
    }
}

/// Where calls are forwarded to.
#[derive(PartialEq, Eq)]
pub struct ForwardingDestination {
    pub destination: String,
}

/// The contents of [`ForwardingDestination`].
pub struct ForwardingDestinationView {
    pub destination: text::Text,
}

impl DeepView for ForwardingDestination {
    type V = ForwardingDestinationView;

    open spec fn deep_view(&self) -> ForwardingDestinationView {
        ForwardingDestinationView {
            destination: self.destination@,
        }
    }
}

impl Clone for ForwardingDestination {
    fn clone(&self) -> (r: Self)
        ensures
            r.deep_view() == self.deep_view(),
    {
        ForwardingDestination {
            destination: text::copy(self.destination.as_str()),
        }
    }
}

impl ForwardingDestination {
    /// The text of the destination.
    pub fn as_str(&self) -> (r: &str)
        ensures
            r@ == self.deep_view().destination,
    {
        self.destination.as_str()
    }
}

/// Where voicemail is reached.
#[derive(PartialEq, Eq)]
pub struct VoicemailDestination {
    pub destination: String,
}

/// The contents of [`VoicemailDestination`].
pub struct VoicemailDestinationView {
    pub destination: text::Text,
}

impl DeepView for VoicemailDestination {
    type V = VoicemailDestinationView;

    open spec fn deep_view(&self) -> VoicemailDestinationView {
        VoicemailDestinationView {
            destination: self.destination@,
        }
    }
}

impl Clone for VoicemailDestination {
    fn clone(&self) -> (r: Self)
        ensures
            r.deep_view() == self.deep_view(),
    {
        VoicemailDestination {
            destination: text::copy(self.destination.as_str()),
        }
    }
}

impl VoicemailDestination {
    /// The text of the destination.
    pub fn as_str(&self) -> (r: &str)
        ensures
            r@ == self.deep_view().destination,
    {
        self.destination.as_str()
    }
}

/// Where a hotline dials.
#[derive(PartialEq, Eq)]
pub struct HotlineDestination {
    pub destination: String,
}

/// The contents of [`HotlineDestination`].
pub struct HotlineDestinationView {
    pub destination: text::Text,
}

impl DeepView for HotlineDestination {
    type V = HotlineDestinationView;

    open spec fn deep_view(&self) -> HotlineDestinationView {
        HotlineDestinationView {
            destination: self.destination@,
        }
    }
}

impl Clone for HotlineDestination {
    fn clone(&self) -> (r: Self)
        ensures
            r.deep_view() == self.deep_view(),
    {
        HotlineDestination {
            destination: text::copy(self.destination.as_str()),
        }
    }
}

impl HotlineDestination {
    /// The text of the destination.
    pub fn as_str(&self) -> (r: &str)
        ensures
            r@ == self.deep_view().destination,
    {
        self.destination.as_str()
    }
}

#[derive(PartialEq, Eq)]
pub struct ForwardingDefaults {
    pub all_enabled: bool,
    pub busy_enabled: bool,
    pub no_answer_enabled: bool,
    pub no_answer_timeout_seconds: u32,
    pub all: Option<ForwardingDestination>,
    pub busy: Option<ForwardingDestination>,
    pub no_answer: Option<ForwardingDestination>,
}

/// The contents of [`ForwardingDefaults`].
pub struct ForwardingDefaultsView {
    pub all_enabled: bool,
    pub busy_enabled: bool,
    pub no_answer_enabled: bool,
    pub no_answer_timeout_seconds: u32,
    pub all: Option<ForwardingDestinationView>,
    pub busy: Option<ForwardingDestinationView>,
    pub no_answer: Option<ForwardingDestinationView>,
}

impl DeepView for ForwardingDefaults {
    type V = ForwardingDefaultsView;

    open spec fn deep_view(&self) -> ForwardingDefaultsView {
        ForwardingDefaultsView {
            all_enabled: self.all_enabled,
            busy_enabled: self.busy_enabled,
            no_answer_enabled: self.no_answer_enabled,
            no_answer_timeout_seconds: self.no_answer_timeout_seconds,
            all: self.all.deep_view(),
            busy: self.busy.deep_view(),
            no_answer: self.no_answer.deep_view(),
        }
    }
}

impl Clone for ForwardingDefaults {
    fn clone(&self) -> (r: Self)
        ensures
            r.deep_view() == self.deep_view(),
    {
        ForwardingDefaults {
            all_enabled: self.all_enabled,
            busy_enabled: self.busy_enabled,
            no_answer_enabled: self.no_answer_enabled,
            no_answer_timeout_seconds: self.no_answer_timeout_seconds,
            all: match &self.all {
                Some(x) => Some(x.clone()),
                None => None,
            },
            busy: match &self.busy {
                Some(x) => Some(x.clone()),
                None => None,
            },
            no_answer: match &self.no_answer {
                Some(x) => Some(x.clone()),
                None => None,
            },
        }
    }
}

/// The initial state of one feature button.
#[derive(Clone, Copy, Debug, PartialEq, Eq, Structural)]
pub struct FeatureButtonDefault {
    pub instance: u32,
    pub enabled: bool,
}

impl DeepView for FeatureButtonDefault {
    type V = FeatureButtonDefault;

    open spec fn deep_view(&self) -> FeatureButtonDefault {
        *self
    }
}

#[derive(PartialEq, Eq)]
pub struct DeviceFeatureDefaults {
    pub forwarding: ForwardingDefaults,
    pub dnd_enabled: bool,
    pub dnd: DndMode,
    pub privacy_enabled: bool,
    pub privacy: bool,
    /// One entry for each feature button, in button order.
    pub buttons: Vec<FeatureButtonDefault>,
}

/// The contents of [`DeviceFeatureDefaults`].
pub struct DeviceFeatureDefaultsView {
    pub forwarding: ForwardingDefaultsView,
    pub dnd_enabled: bool,
    pub dnd: DndMode,
    pub privacy_enabled: bool,
    pub privacy: bool,
    pub buttons: Seq<FeatureButtonDefault>,
}

impl DeepView for DeviceFeatureDefaults {
    type V = DeviceFeatureDefaultsView;

    open spec fn deep_view(&self) -> DeviceFeatureDefaultsView {
        DeviceFeatureDefaultsView {
            forwarding: self.forwarding.deep_view(),
            dnd_enabled: self.dnd_enabled,
            dnd: self.dnd,
            privacy_enabled: self.privacy_enabled,
            privacy: self.privacy,
            buttons: self.buttons@,
        }
    }
}

impl Clone for DeviceFeatureDefaults {
    fn clone(&self) -> (r: Self)
        ensures
            r.deep_view() == self.deep_view(),
    {
        DeviceFeatureDefaults {
            forwarding: self.forwarding.clone(),
            dnd_enabled: self.dnd_enabled,
            dnd: self.dnd,
            privacy_enabled: self.privacy_enabled,
            privacy: self.privacy,
            buttons: text::copy_all(&self.buttons),
        }
    }
}

#[derive(PartialEq, Eq)]
pub struct VoicemailDefaults {
    pub number: Option<VoicemailDestination>,
    pub transfer_destination: Option<VoicemailDestination>,
}

/// The contents of [`VoicemailDefaults`].
pub struct VoicemailDefaultsView {
    pub number: Option<VoicemailDestinationView>,
    pub transfer_destination: Option<VoicemailDestinationView>,
}

impl DeepView for VoicemailDefaults {
    type V = VoicemailDefaultsView;

    open spec fn deep_view(&self) -> VoicemailDefaultsView {
        VoicemailDefaultsView {
            number: self.number.deep_view(),
            transfer_destination: self.transfer_destination.deep_view(),
        }
    }
}

impl Clone for VoicemailDefaults {
    fn clone(&self) -> (r: Self)
        ensures
            r.deep_view() == self.deep_view(),
    {
        VoicemailDefaults {
            number: match &self.number {
                Some(x) => Some(x.clone()),
                None => None,
            },
            transfer_destination: match &self.transfer_destination {
                Some(x) => Some(x.clone()),
                None => None,
            },
        }
    }
}

#[derive(Debug, PartialEq, Eq)]
pub struct PickupConfig {
    /// Ascending.
    pub call_groups: Vec<u8>,
    /// Ascending.
    pub pickup_groups: Vec<u8>,
    /// Ascending.
    pub named_call_groups: Vec<String>,
    /// Ascending.
    pub named_pickup_groups: Vec<String>,
    pub directed: bool,
    /// Absent to use the context of the line.
    pub directed_context: Option<String>,
    pub answer_directed: bool,
}

/// The contents of [`PickupConfig`].
pub struct PickupConfigView {
    pub call_groups: Seq<u8>,
    pub pickup_groups: Seq<u8>,
    pub named_call_groups: Seq<text::Text>,
    pub named_pickup_groups: Seq<text::Text>,
    pub directed: bool,
    pub directed_context: Option<text::Text>,
    pub answer_directed: bool,
}

impl DeepView for PickupConfig {
    type V = PickupConfigView;

    open spec fn deep_view(&self) -> PickupConfigView {
        PickupConfigView {
            call_groups: self.call_groups@,
            pickup_groups: self.pickup_groups@,
            named_call_groups: self.named_call_groups.deep_view(),
            named_pickup_groups: self.named_pickup_groups.deep_view(),
            directed: self.directed,
            directed_context: self.directed_context.deep_view(),
            answer_directed: self.answer_directed,
        }
    }
}

impl Clone for PickupConfig {
    fn clone(&self) -> (r: Self)
        ensures
            r.deep_view() == self.deep_view(),
    {
        PickupConfig {
            call_groups: text::copy_all(&self.call_groups),
            pickup_groups: text::copy_all(&self.pickup_groups),
            named_call_groups: text::copy_list(&self.named_call_groups),
            named_pickup_groups: text::copy_list(&self.named_pickup_groups),
            directed: self.directed,
            directed_context: text::copy_option(&self.directed_context),
            answer_directed: self.answer_directed,
        }
    }
}

#[derive(Clone, Copy, Debug, PartialEq, Eq, Structural)]
pub enum ParkingRetrievalBehavior {
    /// Retrieve the call of a lot that holds one; else show the menu.
    RetrieveSingle,
    /// Show the menu even where the lot holds one call.
    AlwaysShowMenu,
}

impl DeepView for ParkingRetrievalBehavior {
    type V = ParkingRetrievalBehavior;

    open spec fn deep_view(&self) -> ParkingRetrievalBehavior {
        *self
    }
}

#[derive(Debug, PartialEq, Eq)]
pub struct ParkingLotButtonConfig {
    pub lot: String,
    pub retrieval: ParkingRetrievalBehavior,
}

/// The contents of [`ParkingLotButtonConfig`].
pub struct ParkingLotButtonConfigView {
    pub lot: text::Text,
    pub retrieval: ParkingRetrievalBehavior,
}

impl DeepView for ParkingLotButtonConfig {
    type V = ParkingLotButtonConfigView;

    open spec fn deep_view(&self) -> ParkingLotButtonConfigView {
        ParkingLotButtonConfigView {
            lot: self.lot@,
            retrieval: self.retrieval,
        }
    }
}

impl Clone for ParkingLotButtonConfig {
    fn clone(&self) -> (r: Self)
        ensures
            r.deep_view() == self.deep_view(),
    {
        ParkingLotButtonConfig {
            lot: text::copy(self.lot.as_str()),
            retrieval: self.retrieval,
        }
    }
}

/// The parking settings of one feature button.
#[derive(Debug, PartialEq, Eq)]
pub struct ParkingButton {
    pub instance: u32,
    pub button: ParkingLotButtonConfig,
}

/// The contents of [`ParkingButton`].
pub struct ParkingButtonView {
    pub instance: u32,
    pub button: ParkingLotButtonConfigView,
}

impl DeepView for ParkingButton {
    type V = ParkingButtonView;

    open spec fn deep_view(&self) -> ParkingButtonView {
        ParkingButtonView {
            instance: self.instance,
            button: self.button.deep_view(),
        }
    }
}

impl Clone for ParkingButton {
    fn clone(&self) -> (r: Self)
        ensures
            r.deep_view() == self.deep_view(),
    {
        ParkingButton {
            instance: self.instance,
            button: self.button.clone(),
        }
    }
}

/// A list with the same contents.
pub fn copy_parking_buttons(list: &Vec<ParkingButton>) -> (r: Vec<ParkingButton>)
    ensures
        r.deep_view() == list.deep_view(),
{
    let mut r: Vec<ParkingButton> = Vec::new();
    let mut i: usize = 0;
    while i < list.len()
        invariant
            i <= list@.len(),
            r.deep_view() == list.deep_view().take(i as int),
        decreases list.len() - i,
    {
        let ghost before = r.deep_view();
        let x = list[i].clone();
        r.push(x);
        i += 1;
        assert(r.deep_view() =~= before.push(x.deep_view()));
        assert(r.deep_view() =~= list.deep_view().take(i as int));
    }
    assert(list.deep_view().take(i as int) =~= list.deep_view());
    r
}

#[derive(Debug, PartialEq, Eq)]
pub struct DeviceParkingConfig {
    pub enabled: bool,
    pub feature_buttons: Vec<ParkingButton>,
}

/// The contents of [`DeviceParkingConfig`].
pub struct DeviceParkingConfigView {
    pub enabled: bool,
    pub feature_buttons: Seq<ParkingButtonView>,
}

impl DeepView for DeviceParkingConfig {
    type V = DeviceParkingConfigView;

    open spec fn deep_view(&self) -> DeviceParkingConfigView {
        DeviceParkingConfigView {
            enabled: self.enabled,
            feature_buttons: self.feature_buttons.deep_view(),
        }
    }
}

impl Clone for DeviceParkingConfig {
    fn clone(&self) -> (r: Self)
        ensures
            r.deep_view() == self.deep_view(),
    {
        DeviceParkingConfig {
            enabled: self.enabled,
            feature_buttons: copy_parking_buttons(&self.feature_buttons),
        }
    }
}

#[derive(Debug, PartialEq, Eq)]
pub struct LineParkingConfig {
    pub lot: Option<String>,
}

/// The contents of [`LineParkingConfig`].
pub struct LineParkingConfigView {
    pub lot: Option<text::Text>,
}

impl DeepView for LineParkingConfig {
    type V = LineParkingConfigView;

    open spec fn deep_view(&self) -> LineParkingConfigView {
        LineParkingConfigView {
            lot: self.lot.deep_view(),
        }
    }
}

impl Clone for LineParkingConfig {
    fn clone(&self) -> (r: Self)
        ensures
            r.deep_view() == self.deep_view(),
    {
        LineParkingConfig {
            lot: text::copy_option(&self.lot),
        }
    }
}

#[derive(Debug, PartialEq, Eq)]
pub struct ConferenceDialingConfig {
    pub enabled: bool,
    pub application_options: String,
}

/// The contents of [`ConferenceDialingConfig`].
pub struct ConferenceDialingConfigView {
    pub enabled: bool,
    pub application_options: text::Text,
}

impl DeepView for ConferenceDialingConfig {
    type V = ConferenceDialingConfigView;

    open spec fn deep_view(&self) -> ConferenceDialingConfigView {
        ConferenceDialingConfigView {
            enabled: self.enabled,
            application_options: self.application_options@,
        }
    }
}

impl Clone for ConferenceDialingConfig {
    fn clone(&self) -> (r: Self)
        ensures
            r.deep_view() == self.deep_view(),
    {
        ConferenceDialingConfig {
            enabled: self.enabled,
            application_options: text::copy(self.application_options.as_str()),
        }
    }
}

#[derive(Debug, PartialEq, Eq)]
pub struct DeviceConferenceConfig {
    pub allowed: bool,
    /// Absent to play none.
    pub music_on_hold_class: Option<String>,
    pub play_general_announcements: bool,
    pub play_participant_announcements: bool,
    pub mute_on_entry: bool,
    pub show_conference_list: bool,
    pub dialing: ConferenceDialingConfig,
}

/// The contents of [`DeviceConferenceConfig`].
pub struct DeviceConferenceConfigView {
    pub allowed: bool,
    pub music_on_hold_class: Option<text::Text>,
    pub play_general_announcements: bool,
    pub play_participant_announcements: bool,
    pub mute_on_entry: bool,
    pub show_conference_list: bool,
    pub dialing: ConferenceDialingConfigView,
}

impl DeepView for DeviceConferenceConfig {
    type V = DeviceConferenceConfigView;

    open spec fn deep_view(&self) -> DeviceConferenceConfigView {
        DeviceConferenceConfigView {
            allowed: self.allowed,
            music_on_hold_class: self.music_on_hold_class.deep_view(),
            play_general_announcements: self.play_general_announcements,
            play_participant_announcements: self.play_participant_announcements,
            mute_on_entry: self.mute_on_entry,
            show_conference_list: self.show_conference_list,
            dialing: self.dialing.deep_view(),
        }
    }
}

impl Clone for DeviceConferenceConfig {
    fn clone(&self) -> (r: Self)
        ensures
            r.deep_view() == self.deep_view(),
    {
        DeviceConferenceConfig {
            allowed: self.allowed,
            music_on_hold_class: text::copy_option(&self.music_on_hold_class),
            play_general_announcements: self.play_general_announcements,
            play_participant_announcements: self.play_participant_announcements,
            mute_on_entry: self.mute_on_entry,
            show_conference_list: self.show_conference_list,
            dialing: self.dialing.clone(),
        }
    }
}

#[derive(Debug, PartialEq, Eq)]
pub struct LineConferenceConfig {
    /// Absent to follow the device.
    pub enabled: Option<bool>,
    pub destination: Option<String>,
    /// Absent to follow the device; empty text is an answer.
    pub application_options: Option<String>,
}

/// The contents of [`LineConferenceConfig`].
pub struct LineConferenceConfigView {
    pub enabled: Option<bool>,
    pub destination: Option<text::Text>,
    pub application_options: Option<text::Text>,
}

impl DeepView for LineConferenceConfig {
    type V = LineConferenceConfigView;

    open spec fn deep_view(&self) -> LineConferenceConfigView {
        LineConferenceConfigView {
            enabled: self.enabled,
            destination: self.destination.deep_view(),
            application_options: self.application_options.deep_view(),
        }
    }
}

impl Clone for LineConferenceConfig {
    fn clone(&self) -> (r: Self)
        ensures
            r.deep_view() == self.deep_view(),
    {
        LineConferenceConfig {
            enabled: self.enabled,
            destination: text::copy_option(&self.destination),
            application_options: text::copy_option(&self.application_options),
        }
    }
}

#[derive(Debug, PartialEq, Eq)]
pub struct ResolvedConferenceDialing {
    pub enabled: bool,
    pub destination: Option<String>,
    pub application_options: String,
}

/// The contents of [`ResolvedConferenceDialing`].
pub struct ResolvedConferenceDialingView {
    pub enabled: bool,
    pub destination: Option<text::Text>,
    pub application_options: text::Text,
}

impl DeepView for ResolvedConferenceDialing {
    type V = ResolvedConferenceDialingView;

    open spec fn deep_view(&self) -> ResolvedConferenceDialingView {
        ResolvedConferenceDialingView {
            enabled: self.enabled,
            destination: self.destination.deep_view(),
            application_options: self.application_options@,
        }
    }
}

impl Clone for ResolvedConferenceDialing {
    fn clone(&self) -> (r: Self)
        ensures
            r.deep_view() == self.deep_view(),
    {
        ResolvedConferenceDialing {
            enabled: self.enabled,
            destination: text::copy_option(&self.destination),
            application_options: text::copy(self.application_options.as_str()),
        }
    }
}

#[derive(Clone, Copy, Debug, PartialEq, Eq, Structural)]
pub struct AutoAnswerConfig {
    pub ring_time_seconds: u32,
    pub tone: Tone,
}

impl DeepView for AutoAnswerConfig {
    type V = AutoAnswerConfig;

    open spec fn deep_view(&self) -> AutoAnswerConfig {
        *self
    }
}

#[derive(PartialEq, Eq)]
pub struct GuestHotlineConfig {
    pub enabled: bool,
    pub extension: Option<HotlineDestination>,
    pub context: String,
    pub label: String,
}

/// The contents of [`GuestHotlineConfig`].
pub struct GuestHotlineConfigView {
    pub enabled: bool,
    pub extension: Option<HotlineDestinationView>,
    pub context: text::Text,
    pub label: text::Text,
}

impl DeepView for GuestHotlineConfig {
    type V = GuestHotlineConfigView;

    open spec fn deep_view(&self) -> GuestHotlineConfigView {
        GuestHotlineConfigView {
            enabled: self.enabled,
            extension: self.extension.deep_view(),
            context: self.context@,
            label: self.label@,
        }
    }
}

impl Clone for GuestHotlineConfig {
    fn clone(&self) -> (r: Self)
        ensures
            r.deep_view() == self.deep_view(),
    {
        GuestHotlineConfig {
            enabled: self.enabled,
            extension: match &self.extension {
                Some(x) => Some(x.clone()),
                None => None,
            },
            context: text::copy(self.context.as_str()),
            label: text::copy(self.label.as_str()),
        }
    }
}

#[derive(PartialEq, Eq)]
pub struct LineHotlineConfig {
    pub destination: Option<HotlineDestination>,
}

/// The contents of [`LineHotlineConfig`].
pub struct LineHotlineConfigView {
    pub destination: Option<HotlineDestinationView>,
}

impl DeepView for LineHotlineConfig {
    type V = LineHotlineConfigView;

    open spec fn deep_view(&self) -> LineHotlineConfigView {
        LineHotlineConfigView {
            destination: self.destination.deep_view(),
        }
    }
}

impl Clone for LineHotlineConfig {
    fn clone(&self) -> (r: Self)
        ensures
            r.deep_view() == self.deep_view(),
    {
        LineHotlineConfig {
            destination: match &self.destination {
                Some(x) => Some(x.clone()),
                None => None,
            },
        }
    }
}

/// Tones while a line collects digits.
#[derive(Debug, PartialEq, Eq)]
pub struct LineDialToneConfig {
    pub initial: Tone,
    /// Absent to play no secondary tone.
    pub secondary_prefix: Option<String>,
    pub secondary: Tone,
}

/// The contents of [`LineDialToneConfig`].
pub struct LineDialToneConfigView {
    pub initial: Tone,
    pub secondary_prefix: Option<text::Text>,
    pub secondary: Tone,
}

impl DeepView for LineDialToneConfig {
    type V = LineDialToneConfigView;

    open spec fn deep_view(&self) -> LineDialToneConfigView {
        LineDialToneConfigView {
            initial: self.initial,
            secondary_prefix: self.secondary_prefix.deep_view(),
            secondary: self.secondary,
        }
    }
}

impl Clone for LineDialToneConfig {
    fn clone(&self) -> (r: Self)
        ensures
            r.deep_view() == self.deep_view(),
    {
        LineDialToneConfig {
            initial: self.initial,
            secondary_prefix: text::copy_option(&self.secondary_prefix),
            secondary: self.secondary,
        }
    }
}

/// A line's PIN for handset login: one to seven decimal digits.
#[derive(PartialEq, Eq)]
pub struct MobilityPin {
    digits: String,
}

/// A PIN has at most this many digits.
pub const MAX_MOBILITY_PIN_DIGITS: usize = 7;

/// The contents of [`MobilityPin`].
pub struct MobilityPinView {
    pub digits: text::Text,
}

impl DeepView for MobilityPin {
    type V = MobilityPinView;

    closed spec fn deep_view(&self) -> MobilityPinView {
        MobilityPinView { digits: self.digits@ }
    }
}

/// A text that can be a PIN.
pub open spec fn is_pin(s: text::Text) -> bool {
    s.len() > 0 && text::byte_len(s) <= MAX_MOBILITY_PIN_DIGITS && text::all_digits(s)
}

/// The byte at an index, zero behind the end.
spec fn byte_at(s: Seq<u8>, i: int) -> u8 {
    if 0 <= i < s.len() {
        s[i]
    } else {
        0
    }
}

/// Digits are one byte each.
proof fn lemma_digit_bytes(s: text::Text)
    requires
        text::all_digits(s),
    ensures
        is_ascii_chars(s),
        encode_utf8(s).len() == s.len(),
{
    assert forall|i: int| 0 <= i < s.len() implies 0 <= (#[trigger] s[i] as nat) < 128 by {
        assert(text::is_digit(s[i]));
    }
    is_ascii_chars_encode_utf8(s);
}

impl MobilityPin {
    #[verifier::type_invariant]
    spec fn well_formed(self) -> bool {
        is_pin(self.digits@) && self.digits@.len() <= MAX_MOBILITY_PIN_DIGITS
    }

    /// The PIN of the digits, if they are one to seven decimal digits.
    pub fn new(digits: &str) -> (r: Option<MobilityPin>)
        ensures
            r is Some == is_pin(digits@),
            r is Some ==> r->0.deep_view().digits == digits@,
    {
        if digits.is_empty() || !text::only_digits(digits) {
            return None;
        }
        proof {
            lemma_digit_bytes(digits@);
        }
        let v = text::to_chars(digits);
        if v.len() > MAX_MOBILITY_PIN_DIGITS {
            return None;
        }
        Some(MobilityPin { digits: text::copy(digits) })
    }

    /// Verifies a candidate without returning early for a byte or a length that
    /// differs.
    pub fn verify(&self, candidate: &str) -> (r: bool)
        ensures
            r == (candidate@ == self.deep_view().digits),
    {
        proof {
            use_type_invariant(self);
            lemma_digit_bytes(self.digits@);
        }
        let expected = self.digits.as_str().as_bytes();
        let actual = candidate.as_bytes();
        let ghost e = encode_utf8(self.digits@);
        let ghost a = encode_utf8(candidate@);
        let mut difference: usize = expected.len() ^ actual.len();
        proof {
            lemma_xor(expected.len(), actual.len());
        }
        let mut index: usize = 0;
        while index < MAX_MOBILITY_PIN_DIGITS
            invariant
                expected@ == e,
                actual@ == a,
                index <= MAX_MOBILITY_PIN_DIGITS,
                difference == 0 <==> e.len() == a.len() && forall|j: int|
                    0 <= j < index ==> #[trigger] byte_at(e, j) == byte_at(a, j),
            decreases MAX_MOBILITY_PIN_DIGITS - index,
        {
            let x: u8 = if index < expected.len() {
                expected[index]
            } else {
                0
            };
            let y: u8 = if index < actual.len() {
                actual[index]
            } else {
                0
            };
            assert(x == byte_at(e, index as int));
            assert(y == byte_at(a, index as int));
            proof {
                lemma_mix(difference, x, y);
            }
            difference = difference | ((x ^ y) as usize);
            index += 1;
        }
        proof {
            if difference == 0 {
                assert forall|j: int| 0 <= j < e.len() implies e[j] == a[j] by {
                    assert(byte_at(e, j) == byte_at(a, j));
                }
                assert(e =~= a);
                encode_utf8_decode_utf8(candidate@);
                encode_utf8_decode_utf8(self.digits@);
            }
        }
        difference == 0
    }

    /// The number of digits.
    pub fn digits(&self) -> (r: usize)
        ensures
            r == self.deep_view().digits.len(),
            1 <= r <= MAX_MOBILITY_PIN_DIGITS,
    {
        proof {
            use_type_invariant(self);
            lemma_digit_bytes(self.digits@);
        }
        self.digits.as_str().len()
    }

    /// How diagnostics show a PIN.
    pub fn diagnostic(&self) -> (r: String)
        ensures
            r@ == "MobilityPin(<redacted>)"@,
    {
        text::copy("MobilityPin(<redacted>)")
    }
}

impl Clone for MobilityPin {
    fn clone(&self) -> (r: Self)
        ensures
            r.deep_view() == self.deep_view(),
    {
        proof {
            use_type_invariant(self);
        }
        MobilityPin { digits: text::copy(self.digits.as_str()) }
    }
}

/// Lengths are equal where their bits do not differ.
proof fn lemma_xor(x: usize, y: usize)
    ensures
        x ^ y == 0 <==> x == y,
{
    assert(x ^ y == 0 <==> x == y) by (bit_vector);
}

/// A difference stays zero where it was zero and the bytes are equal.
proof fn lemma_mix(d: usize, x: u8, y: u8)
    ensures
        d | ((x ^ y) as usize) == 0 <==> d == 0 && x == y,
{
    assert(d | ((x ^ y) as usize) == 0 <==> d == 0 && x == y) by (bit_vector);
}

#[derive(PartialEq, Eq)]
pub struct LineMobilityConfig {
    pub pin: Option<MobilityPin>,
}

/// The contents of [`LineMobilityConfig`].
pub struct LineMobilityConfigView {
    pub pin: Option<MobilityPinView>,
}

impl DeepView for LineMobilityConfig {
    type V = LineMobilityConfigView;

    open spec fn deep_view(&self) -> LineMobilityConfigView {
        LineMobilityConfigView {
            pin: self.pin.deep_view(),
        }
    }
}

impl Clone for LineMobilityConfig {
    fn clone(&self) -> (r: Self)
        ensures
            r.deep_view() == self.deep_view(),
    {
        LineMobilityConfig {
            pin: match &self.pin {
                Some(x) => Some(x.clone()),
                None => None,
            },
        }
    }
}

#[derive(Debug, PartialEq, Eq)]
pub struct RegistrationExtension {
    pub extension: String,
    /// Absent to use every general context.
    pub context: Option<String>,
}

/// The contents of [`RegistrationExtension`].
pub struct RegistrationExtensionView {
    pub extension: text::Text,
    pub context: Option<text::Text>,
}

impl DeepView for RegistrationExtension {
    type V = RegistrationExtensionView;

    open spec fn deep_view(&self) -> RegistrationExtensionView {
        RegistrationExtensionView {
            extension: self.extension@,
            context: self.context.deep_view(),
        }
    }
}

impl Clone for RegistrationExtension {
    fn clone(&self) -> (r: Self)
        ensures
            r.deep_view() == self.deep_view(),
    {
        RegistrationExtension {
            extension: text::copy(self.extension.as_str()),
            context: text::copy_option(&self.context),
        }
    }
}

/// A list with the same contents.
pub fn copy_registration_extensions(list: &Vec<RegistrationExtension>) -> (r: Vec<RegistrationExtension>)
    ensures
        r.deep_view() == list.deep_view(),
{
    let mut r: Vec<RegistrationExtension> = Vec::new();
    let mut i: usize = 0;
    while i < list.len()
        invariant
            i <= list@.len(),
            r.deep_view() == list.deep_view().take(i as int),
        decreases list.len() - i,
    {
        let ghost before = r.deep_view();
        let x = list[i].clone();
        r.push(x);
        i += 1;
        assert(r.deep_view() =~= before.push(x.deep_view()));
        assert(r.deep_view() =~= list.deep_view().take(i as int));
    }
    assert(list.deep_view().take(i as int) =~= list.deep_view());
    r
}

#[derive(Debug, PartialEq, Eq)]
pub struct LineRegistrationConfig {
    pub extensions: Vec<RegistrationExtension>,
}

/// The contents of [`LineRegistrationConfig`].
pub struct LineRegistrationConfigView {
    pub extensions: Seq<RegistrationExtensionView>,
}

impl DeepView for LineRegistrationConfig {
    type V = LineRegistrationConfigView;

    open spec fn deep_view(&self) -> LineRegistrationConfigView {
        LineRegistrationConfigView {
            extensions: self.extensions.deep_view(),
        }
    }
}

impl Clone for LineRegistrationConfig {
    fn clone(&self) -> (r: Self)
        ensures
            r.deep_view() == self.deep_view(),
    {
        LineRegistrationConfig {
            extensions: copy_registration_extensions(&self.extensions),
        }
    }
}

/// An extension in a context.
#[derive(Debug, PartialEq, Eq)]
pub struct RegistrationTarget {
    pub extension: String,
    pub context: String,
}

/// The contents of [`RegistrationTarget`].
pub struct RegistrationTargetView {
    pub extension: text::Text,
    pub context: text::Text,
}

impl DeepView for RegistrationTarget {
    type V = RegistrationTargetView;

    open spec fn deep_view(&self) -> RegistrationTargetView {
        RegistrationTargetView {
            extension: self.extension@,
            context: self.context@,
        }
    }
}

impl Clone for RegistrationTarget {
    fn clone(&self) -> (r: Self)
        ensures
            r.deep_view() == self.deep_view(),
    {
        RegistrationTarget {
            extension: text::copy(self.extension.as_str()),
            context: text::copy(self.context.as_str()),
        }
    }
}

#[derive(Clone, Copy, Debug, PartialEq, Eq, Structural)]
pub enum VideoMode {
    Off,
    User,
    Auto,
}

impl DeepView for VideoMode {
    type V = VideoMode;

    open spec fn deep_view(&self) -> VideoMode {
        *self
    }
}

#[derive(Clone, Copy, Debug, PartialEq, Eq, Structural)]
pub enum JitterBufferImplementation {
    Fixed,
    Adaptive,
}

impl DeepView for JitterBufferImplementation {
    type V = JitterBufferImplementation;

    open spec fn deep_view(&self) -> JitterBufferImplementation {
        *self
    }
}

#[derive(Clone, Copy, Debug, PartialEq, Eq, Structural)]
pub struct JitterBufferConfig {
    pub enabled: bool,
    pub forced: bool,
    pub log_frames: bool,
    pub max_size_ms: u32,
    pub resync_threshold_ms: u32,
    pub implementation: JitterBufferImplementation,
}

impl DeepView for JitterBufferConfig {
    type V = JitterBufferConfig;

    open spec fn deep_view(&self) -> JitterBufferConfig {
        *self
    }
}

#[derive(Clone, Copy, Debug, PartialEq, Eq, Structural)]
pub enum MediaEncryptionRequirement {
    Off,
    Optional,
    Required,
}

impl DeepView for MediaEncryptionRequirement {
    type V = MediaEncryptionRequirement;

    open spec fn deep_view(&self) -> MediaEncryptionRequirement {
        *self
    }
}

#[derive(Clone, Copy, Debug, PartialEq, Eq, Structural)]
#[allow(non_camel_case_types)]
pub enum MediaEncryptionProfile {
    Aes128HmacSha1_80,
    Aes128HmacSha1_32,
    AeadAes128Gcm,
    AeadAes256Gcm,
}

impl DeepView for MediaEncryptionProfile {
    type V = MediaEncryptionProfile;

    open spec fn deep_view(&self) -> MediaEncryptionProfile {
        *self
    }
}

#[derive(Debug, PartialEq, Eq)]
pub struct MediaEncryptionPolicy {
    pub requirement: MediaEncryptionRequirement,
    /// In order of preference; none where encryption is off.
    pub profiles: Vec<MediaEncryptionProfile>,
}

/// The contents of [`MediaEncryptionPolicy`].
pub struct MediaEncryptionPolicyView {
    pub requirement: MediaEncryptionRequirement,
    pub profiles: Seq<MediaEncryptionProfile>,
}

impl DeepView for MediaEncryptionPolicy {
    type V = MediaEncryptionPolicyView;

    open spec fn deep_view(&self) -> MediaEncryptionPolicyView {
        MediaEncryptionPolicyView {
            requirement: self.requirement,
            profiles: self.profiles@,
        }
    }
}

impl Clone for MediaEncryptionPolicy {
    fn clone(&self) -> (r: Self)
        ensures
            r.deep_view() == self.deep_view(),
    {
        MediaEncryptionPolicy {
            requirement: self.requirement,
            profiles: text::copy_all(&self.profiles),
        }
    }
}

#[derive(Debug, PartialEq, Eq)]
pub struct DeviceMediaConfig {
    pub codecs: Vec<Codec>,
    pub audio_encryption: MediaEncryptionPolicy,
    pub dtmf_mode: DtmfMode,
    pub direct_media: bool,
    pub early_media: bool,
}

/// The contents of [`DeviceMediaConfig`].
pub struct DeviceMediaConfigView {
    pub codecs: Seq<Codec>,
    pub audio_encryption: MediaEncryptionPolicyView,
    pub dtmf_mode: DtmfMode,
    pub direct_media: bool,
    pub early_media: bool,
}

impl DeepView for DeviceMediaConfig {
    type V = DeviceMediaConfigView;

    open spec fn deep_view(&self) -> DeviceMediaConfigView {
        DeviceMediaConfigView {
            codecs: self.codecs@,
            audio_encryption: self.audio_encryption.deep_view(),
            dtmf_mode: self.dtmf_mode,
            direct_media: self.direct_media,
            early_media: self.early_media,
        }
    }
}

impl Clone for DeviceMediaConfig {
    fn clone(&self) -> (r: Self)
        ensures
            r.deep_view() == self.deep_view(),
    {
        DeviceMediaConfig {
            codecs: text::copy_all(&self.codecs),
            audio_encryption: self.audio_encryption.clone(),
            dtmf_mode: self.dtmf_mode,
            direct_media: self.direct_media,
            early_media: self.early_media,
        }
    }
}

#[derive(Debug, PartialEq, Eq)]
pub struct LineMediaConfig {
    pub codecs: Vec<Codec>,
    pub audio_encryption: MediaEncryptionPolicy,
    pub video_mode: VideoMode,
    pub audio_processing: AudioProcessingPolicy,
}

/// The contents of [`LineMediaConfig`].
pub struct LineMediaConfigView {
    pub codecs: Seq<Codec>,
    pub audio_encryption: MediaEncryptionPolicyView,
    pub video_mode: VideoMode,
    pub audio_processing: AudioProcessingPolicy,
}

impl DeepView for LineMediaConfig {
    type V = LineMediaConfigView;

    open spec fn deep_view(&self) -> LineMediaConfigView {
        LineMediaConfigView {
            codecs: self.codecs@,
            audio_encryption: self.audio_encryption.deep_view(),
            video_mode: self.video_mode,
            audio_processing: self.audio_processing,
        }
    }
}

impl Clone for LineMediaConfig {
    fn clone(&self) -> (r: Self)
        ensures
            r.deep_view() == self.deep_view(),
    {
        LineMediaConfig {
            codecs: text::copy_all(&self.codecs),
            audio_encryption: self.audio_encryption.clone(),
            video_mode: self.video_mode,
            audio_processing: self.audio_processing,
        }
    }
}

#[derive(Debug, PartialEq, Eq)]
pub struct ResolvedMediaConfig {
    pub codecs: Vec<Codec>,
    pub audio_encryption: MediaEncryptionPolicy,
    pub dtmf_mode: DtmfMode,
    pub direct_media: bool,
    pub early_media: bool,
    pub video_mode: VideoMode,
    pub audio_processing: AudioProcessingPolicy,
}

/// The contents of [`ResolvedMediaConfig`].
pub struct ResolvedMediaConfigView {
    pub codecs: Seq<Codec>,
    pub audio_encryption: MediaEncryptionPolicyView,
    pub dtmf_mode: DtmfMode,
    pub direct_media: bool,
    pub early_media: bool,
    pub video_mode: VideoMode,
    pub audio_processing: AudioProcessingPolicy,
}

impl DeepView for ResolvedMediaConfig {
    type V = ResolvedMediaConfigView;

    open spec fn deep_view(&self) -> ResolvedMediaConfigView {
        ResolvedMediaConfigView {
            codecs: self.codecs@,
            audio_encryption: self.audio_encryption.deep_view(),
            dtmf_mode: self.dtmf_mode,
            direct_media: self.direct_media,
            early_media: self.early_media,
            video_mode: self.video_mode,
            audio_processing: self.audio_processing,
        }
    }
}

impl Clone for ResolvedMediaConfig {
    fn clone(&self) -> (r: Self)
        ensures
            r.deep_view() == self.deep_view(),
    {
        ResolvedMediaConfig {
            codecs: text::copy_all(&self.codecs),
            audio_encryption: self.audio_encryption.clone(),
            dtmf_mode: self.dtmf_mode,
            direct_media: self.direct_media,
            early_media: self.early_media,
            video_mode: self.video_mode,
            audio_processing: self.audio_processing,
        }
    }
}

#[derive(Clone, Copy, Debug, PartialEq, Eq, Structural)]
pub enum RedialMode {
    LastNumber,
    PlacedCallsMenu,
}

impl DeepView for RedialMode {
    type V = RedialMode;

    open spec fn deep_view(&self) -> RedialMode {
        *self
    }
}

#[derive(Clone, Copy, Debug, PartialEq, Eq, Structural)]
pub struct DeviceCallUiConfig {
    pub redial_mode: RedialMode,
    pub hinted_ringing_notification: bool,
    pub mwi_lamp_mode: LampMode,
    pub mwi_on_call: bool,
    pub legacy_code_page: LegacyCodePage,
}

impl DeepView for DeviceCallUiConfig {
    type V = DeviceCallUiConfig;

    open spec fn deep_view(&self) -> DeviceCallUiConfig {
        *self
    }
}

#[derive(PartialEq, Eq)]
pub struct LineFeatureConfig {
    pub incoming_limit: u32,
    pub voicemail: VoicemailDefaults,
    pub pickup: PickupConfig,
    pub parking: LineParkingConfig,
    pub conference: LineConferenceConfig,
    pub hotline: LineHotlineConfig,
    pub dial_tones: LineDialToneConfig,
    pub mobility: LineMobilityConfig,
    pub registration: LineRegistrationConfig,
    pub media: LineMediaConfig,
}

/// The contents of [`LineFeatureConfig`].
pub struct LineFeatureConfigView {
    pub incoming_limit: u32,
    pub voicemail: VoicemailDefaultsView,
    pub pickup: PickupConfigView,
    pub parking: LineParkingConfigView,
    pub conference: LineConferenceConfigView,
    pub hotline: LineHotlineConfigView,
    pub dial_tones: LineDialToneConfigView,
    pub mobility: LineMobilityConfigView,
    pub registration: LineRegistrationConfigView,
    pub media: LineMediaConfigView,
}

impl DeepView for LineFeatureConfig {
    type V = LineFeatureConfigView;

    open spec fn deep_view(&self) -> LineFeatureConfigView {
        LineFeatureConfigView {
            incoming_limit: self.incoming_limit,
            voicemail: self.voicemail.deep_view(),
            pickup: self.pickup.deep_view(),
            parking: self.parking.deep_view(),
            conference: self.conference.deep_view(),
            hotline: self.hotline.deep_view(),
            dial_tones: self.dial_tones.deep_view(),
            mobility: self.mobility.deep_view(),
            registration: self.registration.deep_view(),
            media: self.media.deep_view(),
        }
    }
}

impl Clone for LineFeatureConfig {
    fn clone(&self) -> (r: Self)
        ensures
            r.deep_view() == self.deep_view(),
    {
        LineFeatureConfig {
            incoming_limit: self.incoming_limit,
            voicemail: self.voicemail.clone(),
            pickup: self.pickup.clone(),
            parking: self.parking.clone(),
            conference: self.conference.clone(),
            hotline: self.hotline.clone(),
            dial_tones: self.dial_tones.clone(),
            mobility: self.mobility.clone(),
            registration: self.registration.clone(),
            media: self.media.clone(),
        }
    }
}

/// A variable set on every channel of a device or line.
#[derive(PartialEq, Eq)]
pub struct ChannelVariable {
    pub name: String,
    pub value: String,
}

/// The contents of [`ChannelVariable`].
pub struct ChannelVariableView {
    pub name: text::Text,
    pub value: text::Text,
}

impl DeepView for ChannelVariable {
    type V = ChannelVariableView;

    open spec fn deep_view(&self) -> ChannelVariableView {
        ChannelVariableView {
            name: self.name@,
            value: self.value@,
        }
    }
}

impl Clone for ChannelVariable {
    fn clone(&self) -> (r: Self)
        ensures
            r.deep_view() == self.deep_view(),
    {
        ChannelVariable {
            name: text::copy(self.name.as_str()),
            value: text::copy(self.value.as_str()),
        }
    }
}

/// A list with the same contents.
pub fn copy_channel_variables(list: &Vec<ChannelVariable>) -> (r: Vec<ChannelVariable>)
    ensures
        r.deep_view() == list.deep_view(),
{
    let mut r: Vec<ChannelVariable> = Vec::new();
    let mut i: usize = 0;
    while i < list.len()
        invariant
            i <= list@.len(),
            r.deep_view() == list.deep_view().take(i as int),
        decreases list.len() - i,
    {
        let ghost before = r.deep_view();
        let x = list[i].clone();
        r.push(x);
        i += 1;
        assert(r.deep_view() =~= before.push(x.deep_view()));
        assert(r.deep_view() =~= list.deep_view().take(i as int));
    }
    assert(list.deep_view().take(i as int) =~= list.deep_view());
    r
}

/// The argument of one feature button.
#[derive(Debug, PartialEq, Eq)]
pub struct FeatureArgument {
    pub instance: u32,
    pub argument: String,
}

/// The contents of [`FeatureArgument`].
pub struct FeatureArgumentView {
    pub instance: u32,
    pub argument: text::Text,
}

impl DeepView for FeatureArgument {
    type V = FeatureArgumentView;

    open spec fn deep_view(&self) -> FeatureArgumentView {
        FeatureArgumentView {
            instance: self.instance,
            argument: self.argument@,
        }
    }
}

impl Clone for FeatureArgument {
    fn clone(&self) -> (r: Self)
        ensures
            r.deep_view() == self.deep_view(),
    {
        FeatureArgument {
            instance: self.instance,
            argument: text::copy(self.argument.as_str()),
        }
    }
}

/// A list with the same contents.
pub fn copy_feature_arguments(list: &Vec<FeatureArgument>) -> (r: Vec<FeatureArgument>)
    ensures
        r.deep_view() == list.deep_view(),
{
    let mut r: Vec<FeatureArgument> = Vec::new();
    let mut i: usize = 0;
    while i < list.len()
        invariant
            i <= list@.len(),
            r.deep_view() == list.deep_view().take(i as int),
        decreases list.len() - i,
    {
        let ghost before = r.deep_view();
        let x = list[i].clone();
        r.push(x);
        i += 1;
        assert(r.deep_view() =~= before.push(x.deep_view()));
        assert(r.deep_view() =~= list.deep_view().take(i as int));
    }
    assert(list.deep_view().take(i as int) =~= list.deep_view());
    r
}

#[derive(PartialEq, Eq)]
pub struct DeviceConfig {
    pub id: DeviceId,
    pub description: String,
    /// Line names in line-instance order.
    pub lines: Vec<String>,
    /// Station buttons in order.
    pub buttons: Vec<station::ButtonDefinition>,
    pub feature_arguments: Vec<FeatureArgument>,
    pub channel_variables: Vec<ChannelVariable>,
    pub soft_key_profile: String,
    pub feature_defaults: DeviceFeatureDefaults,
    pub parking: DeviceParkingConfig,
    pub conference: DeviceConferenceConfig,
    pub call_ui: DeviceCallUiConfig,
    pub allow_overlap: bool,
    pub media: DeviceMediaConfig,
    pub network: DeviceNetworkPolicy,
}

/// The contents of [`DeviceConfig`].
pub struct DeviceConfigView {
    pub id: DeviceIdView,
    pub description: text::Text,
    pub lines: Seq<text::Text>,
    pub buttons: Seq<station::ButtonDefinitionView>,
    pub feature_arguments: Seq<FeatureArgumentView>,
    pub channel_variables: Seq<ChannelVariableView>,
    pub soft_key_profile: text::Text,
    pub feature_defaults: DeviceFeatureDefaultsView,
    pub parking: DeviceParkingConfigView,
    pub conference: DeviceConferenceConfigView,
    pub call_ui: DeviceCallUiConfig,
    pub allow_overlap: bool,
    pub media: DeviceMediaConfigView,
    pub network: DeviceNetworkPolicyView,
}

impl DeepView for DeviceConfig {
    type V = DeviceConfigView;

    open spec fn deep_view(&self) -> DeviceConfigView {
        DeviceConfigView {
            id: self.id.deep_view(),
            description: self.description@,
            lines: self.lines.deep_view(),
            buttons: self.buttons.deep_view(),
            feature_arguments: self.feature_arguments.deep_view(),
            channel_variables: self.channel_variables.deep_view(),
            soft_key_profile: self.soft_key_profile@,
            feature_defaults: self.feature_defaults.deep_view(),
            parking: self.parking.deep_view(),
            conference: self.conference.deep_view(),
            call_ui: self.call_ui,
            allow_overlap: self.allow_overlap,
            media: self.media.deep_view(),
            network: self.network.deep_view(),
        }
    }
}

impl Clone for DeviceConfig {
    fn clone(&self) -> (r: Self)
        ensures
            r.deep_view() == self.deep_view(),
    {
        DeviceConfig {
            id: self.id.clone(),
            description: text::copy(self.description.as_str()),
            lines: text::copy_list(&self.lines),
            buttons: station::copy_button_definitions(&self.buttons),
            feature_arguments: copy_feature_arguments(&self.feature_arguments),
            channel_variables: copy_channel_variables(&self.channel_variables),
            soft_key_profile: text::copy(self.soft_key_profile.as_str()),
            feature_defaults: self.feature_defaults.clone(),
            parking: self.parking.clone(),
            conference: self.conference.clone(),
            call_ui: self.call_ui,
            allow_overlap: self.allow_overlap,
            media: self.media.clone(),
            network: self.network.clone(),
        }
    }
}

#[derive(PartialEq, Eq)]
pub struct LineConfig {
    pub number: String,
    pub label: String,
    pub context: String,
    pub caller_name: String,
    pub caller_number: String,
    pub mailbox: Option<String>,
    pub language: String,
    pub account_code: Option<String>,
    pub channel_variables: Vec<ChannelVariable>,
}

/// The contents of [`LineConfig`].
pub struct LineConfigView {
    pub number: text::Text,
    pub label: text::Text,
    pub context: text::Text,
    pub caller_name: text::Text,
    pub caller_number: text::Text,
    pub mailbox: Option<text::Text>,
    pub language: text::Text,
    pub account_code: Option<text::Text>,
    pub channel_variables: Seq<ChannelVariableView>,
}

impl DeepView for LineConfig {
    type V = LineConfigView;

    open spec fn deep_view(&self) -> LineConfigView {
        LineConfigView {
            number: self.number@,
            label: self.label@,
            context: self.context@,
            caller_name: self.caller_name@,
            caller_number: self.caller_number@,
            mailbox: self.mailbox.deep_view(),
            language: self.language@,
            account_code: self.account_code.deep_view(),
            channel_variables: self.channel_variables.deep_view(),
        }
    }
}

impl Clone for LineConfig {
    fn clone(&self) -> (r: Self)
        ensures
            r.deep_view() == self.deep_view(),
    {
        LineConfig {
            number: text::copy(self.number.as_str()),
            label: text::copy(self.label.as_str()),
            context: text::copy(self.context.as_str()),
            caller_name: text::copy(self.caller_name.as_str()),
            caller_number: text::copy(self.caller_number.as_str()),
            mailbox: text::copy_option(&self.mailbox),
            language: text::copy(self.language.as_str()),
            account_code: text::copy_option(&self.account_code),
            channel_variables: copy_channel_variables(&self.channel_variables),
        }
    }
}

/// A line on a device.
#[derive(PartialEq, Eq)]
pub struct LineBinding {
    pub device_id: DeviceId,
    pub line_instance: u32,
    pub appearance: LineAppearance,
    pub line: LineConfig,
}

/// The contents of [`LineBinding`].
pub struct LineBindingView {
    pub device_id: DeviceIdView,
    pub line_instance: u32,
    pub appearance: LineAppearanceView,
    pub line: LineConfigView,
}

impl DeepView for LineBinding {
    type V = LineBindingView;

    open spec fn deep_view(&self) -> LineBindingView {
        LineBindingView {
            device_id: self.device_id.deep_view(),
            line_instance: self.line_instance,
            appearance: self.appearance.deep_view(),
            line: self.line.deep_view(),
        }
    }
}

impl Clone for LineBinding {
    fn clone(&self) -> (r: Self)
        ensures
            r.deep_view() == self.deep_view(),
    {
        LineBinding {
            device_id: self.device_id.clone(),
            line_instance: self.line_instance,
            appearance: self.appearance.clone(),
            line: self.line.clone(),
        }
    }
}

/// A reusable set of soft keys.
#[derive(Debug, PartialEq, Eq)]
pub struct SoftKeyProfile {
    pub name: String,
    /// One set for each key mode.
    pub sets: Vec<station::KeySet>,
}

/// The contents of [`SoftKeyProfile`].
pub struct SoftKeyProfileView {
    pub name: text::Text,
    pub sets: Seq<station::KeySetView>,
}

impl DeepView for SoftKeyProfile {
    type V = SoftKeyProfileView;

    open spec fn deep_view(&self) -> SoftKeyProfileView {
        SoftKeyProfileView {
            name: self.name@,
            sets: self.sets.deep_view(),
        }
    }
}

impl Clone for SoftKeyProfile {
    fn clone(&self) -> (r: Self)
        ensures
            r.deep_view() == self.deep_view(),
    {
        SoftKeyProfile {
            name: text::copy(self.name.as_str()),
            sets: station::copy_key_sets(&self.sets),
        }
    }
}

/// A list with the same contents.
pub fn copy_soft_key_profiles(list: &Vec<SoftKeyProfile>) -> (r: Vec<SoftKeyProfile>)
    ensures
        r.deep_view() == list.deep_view(),
{
    let mut r: Vec<SoftKeyProfile> = Vec::new();
    let mut i: usize = 0;
    while i < list.len()
        invariant
            i <= list@.len(),
            r.deep_view() == list.deep_view().take(i as int),
        decreases list.len() - i,
    {
        let ghost before = r.deep_view();
        let x = list[i].clone();
        r.push(x);
        i += 1;
        assert(r.deep_view() =~= before.push(x.deep_view()));
        assert(r.deep_view() =~= list.deep_view().take(i as int));
    }
    assert(list.deep_view().take(i as int) =~= list.deep_view());
    r
}

/// Timing of a station, in milliseconds.
#[derive(Clone, Copy, Debug, PartialEq, Eq, Structural)]
pub struct GeneralTimingPolicy {
    pub keepalive: u64,
    pub secondary_keepalive: u64,
    pub first_digit_timeout: u64,
    pub interdigit_timeout: u64,
    pub call_waiting_repeat: u64,
}

impl DeepView for GeneralTimingPolicy {
    type V = GeneralTimingPolicy;

    open spec fn deep_view(&self) -> GeneralTimingPolicy {
        *self
    }
}

/// Presentation defaults of a station.
#[derive(Debug, PartialEq, Eq)]
pub struct GeneralStationPolicy {
    pub timezone_offset_minutes: i16,
    pub date_template: DateTemplate,
    pub ring_type: RingerMode,
    pub call_waiting_tone: Option<Tone>,
}

/// The contents of [`GeneralStationPolicy`].
pub struct GeneralStationPolicyView {
    pub timezone_offset_minutes: i16,
    pub date_template: DateTemplateView,
    pub ring_type: RingerMode,
    pub call_waiting_tone: Option<Tone>,
}

impl DeepView for GeneralStationPolicy {
    type V = GeneralStationPolicyView;

    open spec fn deep_view(&self) -> GeneralStationPolicyView {
        GeneralStationPolicyView {
            timezone_offset_minutes: self.timezone_offset_minutes,
            date_template: self.date_template.deep_view(),
            ring_type: self.ring_type,
            call_waiting_tone: self.call_waiting_tone,
        }
    }
}

impl Clone for GeneralStationPolicy {
    fn clone(&self) -> (r: Self)
        ensures
            r.deep_view() == self.deep_view(),
    {
        GeneralStationPolicy {
            timezone_offset_minutes: self.timezone_offset_minutes,
            date_template: self.date_template.clone(),
            ring_type: self.ring_type,
            call_waiting_tone: self.call_waiting_tone,
        }
    }
}

/// General policy.
#[derive(PartialEq, Eq)]
pub struct GeneralConfig {
    pub bind: SocketAddr,
    pub advertised_address: Ipv4Addr,
    pub server_name: String,
    pub language: String,
    pub account_code: Option<String>,
    pub keepalive_seconds: u32,
    pub secondary_keepalive_seconds: u32,
    pub signaling_servers: Vec<station::SignalingServerRoute>,
    pub first_digit_timeout_ms: u64,
    pub interdigit_timeout_ms: u64,
    pub dial_terminator: DialTerminatorConfig,
    pub simulate_enbloc: bool,
    pub speed_dial_await_further_digits: bool,
    pub allow_overlap: bool,
    pub transfer_on_hangup: bool,
    pub call_answer_order: CallAnswerOrder,
    pub timezone_offset_minutes: i16,
    pub date_template: DateTemplate,
    pub ring_type: RingerMode,
    pub call_waiting_tone: Option<Tone>,
    pub call_waiting_interval_seconds: u32,
    pub codecs: Vec<Codec>,
    pub audio_encryption: MediaEncryptionPolicy,
    pub conference_dialing: ConferenceDialingConfig,
    pub auto_answer: AutoAnswerConfig,
    pub remote_hangup_tone: Option<Tone>,
    pub guest_hotline: GuestHotlineConfig,
    pub direct_media: bool,
    pub early_media: bool,
    pub audio_processing: AudioProcessingPolicy,
    pub jitter_buffer: JitterBufferConfig,
    pub registration: RegistrationConfig,
    pub fallback_registration: FallbackRegistrationConfig,
    pub network: NetworkPolicy,
    pub qos: QosPolicy,
    pub listeners: ListenerPolicy,
    pub realtime_tables: Option<RealtimeTableConfig>,
}

/// The contents of [`GeneralConfig`].
pub struct GeneralConfigView {
    pub bind: SocketAddr,
    pub advertised_address: Ipv4Addr,
    pub server_name: text::Text,
    pub language: text::Text,
    pub account_code: Option<text::Text>,
    pub keepalive_seconds: u32,
    pub secondary_keepalive_seconds: u32,
    pub signaling_servers: Seq<station::SignalingServerRouteView>,
    pub first_digit_timeout_ms: u64,
    pub interdigit_timeout_ms: u64,
    pub dial_terminator: DialTerminatorConfig,
    pub simulate_enbloc: bool,
    pub speed_dial_await_further_digits: bool,
    pub allow_overlap: bool,
    pub transfer_on_hangup: bool,
    pub call_answer_order: CallAnswerOrder,
    pub timezone_offset_minutes: i16,
    pub date_template: DateTemplateView,
    pub ring_type: RingerMode,
    pub call_waiting_tone: Option<Tone>,
    pub call_waiting_interval_seconds: u32,
    pub codecs: Seq<Codec>,
    pub audio_encryption: MediaEncryptionPolicyView,
    pub conference_dialing: ConferenceDialingConfigView,
    pub auto_answer: AutoAnswerConfig,
    pub remote_hangup_tone: Option<Tone>,
    pub guest_hotline: GuestHotlineConfigView,
    pub direct_media: bool,
    pub early_media: bool,
    pub audio_processing: AudioProcessingPolicy,
    pub jitter_buffer: JitterBufferConfig,
    pub registration: RegistrationConfigView,
    pub fallback_registration: FallbackRegistrationConfig,
    pub network: NetworkPolicyView,
    pub qos: QosPolicy,
    pub listeners: ListenerPolicyView,
    pub realtime_tables: Option<RealtimeTableConfigView>,
}

impl DeepView for GeneralConfig {
    type V = GeneralConfigView;

    open spec fn deep_view(&self) -> GeneralConfigView {
        GeneralConfigView {
            bind: self.bind,
            advertised_address: self.advertised_address,
            server_name: self.server_name@,
            language: self.language@,
            account_code: self.account_code.deep_view(),
            keepalive_seconds: self.keepalive_seconds,
            secondary_keepalive_seconds: self.secondary_keepalive_seconds,
            signaling_servers: self.signaling_servers.deep_view(),
            first_digit_timeout_ms: self.first_digit_timeout_ms,
            interdigit_timeout_ms: self.interdigit_timeout_ms,
            dial_terminator: self.dial_terminator,
            simulate_enbloc: self.simulate_enbloc,
            speed_dial_await_further_digits: self.speed_dial_await_further_digits,
            allow_overlap: self.allow_overlap,
            transfer_on_hangup: self.transfer_on_hangup,
            call_answer_order: self.call_answer_order,
            timezone_offset_minutes: self.timezone_offset_minutes,
            date_template: self.date_template.deep_view(),
            ring_type: self.ring_type,
            call_waiting_tone: self.call_waiting_tone,
            call_waiting_interval_seconds: self.call_waiting_interval_seconds,
            codecs: self.codecs@,
            audio_encryption: self.audio_encryption.deep_view(),
            conference_dialing: self.conference_dialing.deep_view(),
            auto_answer: self.auto_answer,
            remote_hangup_tone: self.remote_hangup_tone,
            guest_hotline: self.guest_hotline.deep_view(),
            direct_media: self.direct_media,
            early_media: self.early_media,
            audio_processing: self.audio_processing,
            jitter_buffer: self.jitter_buffer,
            registration: self.registration.deep_view(),
            fallback_registration: self.fallback_registration,
            network: self.network.deep_view(),
            qos: self.qos,
            listeners: self.listeners.deep_view(),
            realtime_tables: self.realtime_tables.deep_view(),
        }
    }
}

impl Clone for GeneralConfig {
    fn clone(&self) -> (r: Self)
        ensures
            r.deep_view() == self.deep_view(),
    {
        GeneralConfig {
            bind: self.bind,
            advertised_address: self.advertised_address,
            server_name: text::copy(self.server_name.as_str()),
            language: text::copy(self.language.as_str()),
            account_code: text::copy_option(&self.account_code),
            keepalive_seconds: self.keepalive_seconds,
            secondary_keepalive_seconds: self.secondary_keepalive_seconds,
            signaling_servers: station::copy_signaling_server_routes(&self.signaling_servers),
            first_digit_timeout_ms: self.first_digit_timeout_ms,
            interdigit_timeout_ms: self.interdigit_timeout_ms,
            dial_terminator: self.dial_terminator,
            simulate_enbloc: self.simulate_enbloc,
            speed_dial_await_further_digits: self.speed_dial_await_further_digits,
            allow_overlap: self.allow_overlap,
            transfer_on_hangup: self.transfer_on_hangup,
            call_answer_order: self.call_answer_order,
            timezone_offset_minutes: self.timezone_offset_minutes,
            date_template: self.date_template.clone(),
            ring_type: self.ring_type,
            call_waiting_tone: self.call_waiting_tone,
            call_waiting_interval_seconds: self.call_waiting_interval_seconds,
            codecs: text::copy_all(&self.codecs),
            audio_encryption: self.audio_encryption.clone(),
            conference_dialing: self.conference_dialing.clone(),
            auto_answer: self.auto_answer,
            remote_hangup_tone: self.remote_hangup_tone,
            guest_hotline: self.guest_hotline.clone(),
            direct_media: self.direct_media,
            early_media: self.early_media,
            audio_processing: self.audio_processing,
            jitter_buffer: self.jitter_buffer,
            registration: self.registration.clone(),
            fallback_registration: self.fallback_registration,
            network: self.network.clone(),
            qos: self.qos,
            listeners: self.listeners.clone(),
            realtime_tables: match &self.realtime_tables {
                Some(x) => Some(x.clone()),
                None => None,
            },
        }
    }
}

} // verus!
