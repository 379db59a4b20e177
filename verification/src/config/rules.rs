//! What the telephone and call layers accept.
//!
//! The station protocol decides which device names, date templates and device
//! definitions it takes, and the call layer bounds the texts that it carries.
//! Their verdicts come in as plain values.

use vstd::prelude::*;

use crate::config::policy;
use crate::config::policy::ChannelVariable;
use crate::station::Tone;
use crate::text;

verus! {

/// The bounds of the call layer.
#[derive(Clone, Copy, Debug, PartialEq, Eq, Structural)]
pub struct CallLimits {
    /// Bytes of a forwarding or voicemail destination.
    pub destination_bytes: usize,
    /// Bytes of a hotline destination, context or label.
    pub hotline_bytes: usize,
    pub language_bytes: usize,
    pub account_code_bytes: usize,
    /// Channel variables of one line or device.
    pub channel_variables: usize,
    /// Bytes of all names and values of those variables.
    pub channel_variable_bytes: usize,
    /// Signaling servers of one configuration.
    pub signaling_servers: usize,
}

/// A text that a layer refuses, and why.
#[derive(Debug, PartialEq, Eq)]
pub struct Refusal {
    pub text: String,
    pub reason: String,
}

pub struct RefusalView {
    pub text: text::Text,
    pub reason: text::Text,
}

impl DeepView for Refusal {
    type V = RefusalView;

    open spec fn deep_view(&self) -> RefusalView {
        RefusalView { text: self.text@, reason: self.reason@ }
    }
}

/// The tone that a number stands for in the station protocol.
#[derive(Clone, Copy, Debug, PartialEq, Eq, Structural)]
pub struct ToneCode {
    pub code: u8,
    pub tone: Tone,
}

/// The verdicts of the layers.
#[derive(PartialEq, Eq)]
pub struct LayerRules {
    pub limits: CallLimits,
    /// Section names that are no device identifier.
    pub refused_devices: Vec<String>,
    /// Date templates that the station protocol refuses.
    pub refused_dates: Vec<Refusal>,
    /// Devices, by name, whose definition the station protocol refuses.
    pub refused_definitions: Vec<Refusal>,
    /// Channel variables that the call layer refuses.
    pub refused_variables: Vec<ChannelVariable>,
    /// The tones that the station protocol gives numbers.
    pub tones: Vec<ToneCode>,
}

pub struct LayerRulesView {
    pub limits: CallLimits,
    pub refused_devices: Seq<text::Text>,
    pub refused_dates: Seq<RefusalView>,
    pub refused_definitions: Seq<RefusalView>,
    pub refused_variables: Seq<policy::ChannelVariableView>,
    pub tones: Seq<ToneCode>,
}

impl DeepView for LayerRules {
    type V = LayerRulesView;

    open spec fn deep_view(&self) -> LayerRulesView {
        LayerRulesView {
            limits: self.limits,
            refused_devices: self.refused_devices.deep_view(),
            refused_dates: self.refused_dates.deep_view(),
            refused_definitions: self.refused_definitions.deep_view(),
            refused_variables: self.refused_variables.deep_view(),
            tones: self.tones@,
        }
    }
}

/// Why a text is refused, by the first entry that names it.
pub open spec fn reason_for(list: Seq<RefusalView>, t: text::Text) -> Option<text::Text>
    decreases list.len(),
{
    if list.len() == 0 {
        None
    } else if list[0].text == t {
        Some(list[0].reason)
    } else {
        reason_for(list.skip(1), t)
    }
}

/// Finds why a text is refused.
pub fn find_reason(list: &Vec<Refusal>, t: &str) -> (r: Option<String>)
    ensures
        r.deep_view() == reason_for(list.deep_view(), t@),
{
    let ghost all = list.deep_view();
    let mut i: usize = 0;
    assert(all.skip(0) =~= all);
    while i < list.len()
        invariant
            all == list.deep_view(),
            i <= list@.len(),
            reason_for(all, t@) == reason_for(all.skip(i as int), t@),
        decreases list.len() - i,
    {
        assert(all.skip(i as int)[0] == list@[i as int].deep_view());
        if text::same(list[i].text.as_str(), t) {
            return Some(text::copy(list[i].reason.as_str()));
        }
        assert(all.skip(i as int).skip(1) =~= all.skip(i + 1));
        i += 1;
    }
    None
}

/// Whether a list holds a variable.
pub fn holds_variable(list: &Vec<ChannelVariable>, name: &str, value: &str) -> (r: bool)
    ensures
        r == list.deep_view().contains(
            policy::ChannelVariableView { name: name@, value: value@ },
        ),
{
    let ghost all = list.deep_view();
    let ghost x = policy::ChannelVariableView { name: name@, value: value@ };
    let mut i: usize = 0;
    while i < list.len()
        invariant
            all == list.deep_view(),
            x == (policy::ChannelVariableView { name: name@, value: value@ }),
            i <= list@.len(),
            forall|j: int| 0 <= j < i ==> all[j] != x,
        decreases list.len() - i,
    {
        assert(all[i as int] == list@[i as int].deep_view());
        if text::same(list[i].name.as_str(), name) && text::same(list[i].value.as_str(), value) {
            return true;
        }
        i += 1;
    }
    false
}

} // verus!
