//! Tones by name and by number.

use vstd::prelude::*;

use crate::config::error;
use crate::config::error::ConfigError;
use crate::config::rules;
use crate::config::rules::LayerRules;
use crate::config::rules::ToneCode;
use crate::number;
use crate::station::Tone;
use crate::text;

verus! {

/// The tone that a reduced name stands for.
pub open spec fn named_tone(name: text::Text) -> Option<Tone> {
    if name == "silence"@ {
        Some(Tone::Silence)
    } else if name == "dtmf1"@ {
        Some(Tone::Dtmf1)
    } else if name == "dtmf2"@ {
        Some(Tone::Dtmf2)
    } else if name == "dtmf3"@ {
        Some(Tone::Dtmf3)
    } else if name == "dtmf4"@ {
        Some(Tone::Dtmf4)
    } else if name == "dtmf5"@ {
        Some(Tone::Dtmf5)
    } else if name == "dtmf6"@ {
        Some(Tone::Dtmf6)
    } else if name == "dtmf7"@ {
        Some(Tone::Dtmf7)
    } else if name == "dtmf8"@ {
        Some(Tone::Dtmf8)
    } else if name == "dtmf9"@ {
        Some(Tone::Dtmf9)
    } else if name == "dtmf0"@ {
        Some(Tone::Dtmf0)
    } else if name == "dtmfstar"@ {
        Some(Tone::DtmfStar)
    } else if name == "dtmfpound"@ {
        Some(Tone::DtmfPound)
    } else if name == "dtmfa"@ {
        Some(Tone::DtmfA)
    } else if name == "dtmfb"@ {
        Some(Tone::DtmfB)
    } else if name == "dtmfc"@ {
        Some(Tone::DtmfC)
    } else if name == "dtmfd"@ {
        Some(Tone::DtmfD)
    } else if name == "insidedial"@ || name == "insidedialtone"@ {
        Some(Tone::InsideDial)
    } else if name == "outsidedial"@ || name == "outsidedialtone"@ {
        Some(Tone::OutsideDial)
    } else if name == "linebusy"@ || name == "linebusytone"@ {
        Some(Tone::LineBusy)
    } else if name == "alerting"@ || name == "alertingtone"@ {
        Some(Tone::Alerting)
    } else if name == "reorder"@ || name == "reordertone"@ {
        Some(Tone::Reorder)
    } else if name == "recorderwarning"@ || name == "recorderwarningtone"@ {
        Some(Tone::RecorderWarning)
    } else if name == "recorderdetected"@ || name == "recorderdetectedtone"@ {
        Some(Tone::RecorderDetected)
    } else if name == "reverting"@ || name == "revertingtone"@ {
        Some(Tone::Reverting)
    } else if name == "receiveroffhook"@ || name == "receiveroffhooktone"@ {
        Some(Tone::ReceiverOffHook)
    } else if name == "partialdial"@ || name == "partialdialtone"@ {
        Some(Tone::PartialDial)
    } else if name == "nosuchnumber"@ || name == "nosuchnumbertone"@ {
        Some(Tone::NoSuchNumber)
    } else if name == "busyverification"@ || name == "busyverificationtone"@ {
        Some(Tone::BusyVerification)
    } else if name == "callwaiting"@ || name == "callwaitingtone"@ {
        Some(Tone::CallWaiting)
    } else if name == "confirmation"@ || name == "confirmationtone"@ {
        Some(Tone::Confirmation)
    } else if name == "campon"@ || name == "camponindicationtone"@ {
        Some(Tone::CampOn)
    } else if name == "recalldial"@ || name == "recalldialtone"@ {
        Some(Tone::RecallDial)
    } else if name == "zipzip"@ {
        Some(Tone::ZipZip)
    } else if name == "zip"@ {
        Some(Tone::Zip)
    } else if name == "beepbonk"@ {
        Some(Tone::BeepBonk)
    } else if name == "music"@ || name == "musictone"@ {
        Some(Tone::Music)
    } else if name == "hold"@ || name == "holdtone"@ {
        Some(Tone::Hold)
    } else if name == "test"@ || name == "testtone"@ {
        Some(Tone::Test)
    } else if name == "monitorwarning"@ || name == "dtmonitorwarningtone"@ {
        Some(Tone::MonitorWarning)
    } else if name == "addcallwaiting"@ {
        Some(Tone::AddCallWaiting)
    } else if name == "prioritycallwaiting"@ || name == "prioritycallwait"@ {
        Some(Tone::PriorityCallWaiting)
    } else if name == "bargein"@ || name == "bargin"@ {
        Some(Tone::BargeIn)
    } else if name == "distinctalert"@ {
        Some(Tone::DistinctAlert)
    } else if name == "priorityalert"@ {
        Some(Tone::PriorityAlert)
    } else if name == "reminderring"@ {
        Some(Tone::ReminderRing)
    } else if name == "precedenceringback"@ {
        Some(Tone::PrecedenceRingback)
    } else if name == "preemption"@ || name == "preemptiontone"@ {
        Some(Tone::Preemption)
    } else if name == "notone"@ {
        Some(Tone::NoTone)
    } else if name == "meetmegreeting"@ || name == "meetmegreetingtone"@ {
        Some(Tone::MeetMeGreeting)
    } else if name == "meetmenumberinvalid"@ || name == "meetmenumberinvalidtone"@ {
        Some(Tone::MeetMeNumberInvalid)
    } else if name == "meetmenumberfailed"@ || name == "meetmenumberfailedtone"@ {
        Some(Tone::MeetMeNumberFailed)
    } else if name == "meetmeenterpin"@ || name == "meetmeenterpintone"@ {
        Some(Tone::MeetMeEnterPin)
    } else if name == "meetmeinvalidpin"@ || name == "meetmeinvalidpintone"@ {
        Some(Tone::MeetMeInvalidPin)
    } else if name == "meetmefailedpin"@ || name == "meetmefailedpintone"@ {
        Some(Tone::MeetMeFailedPin)
    } else if name == "meetmecfbfailed"@ || name == "meetmecfbfailedtone"@ {
        Some(Tone::MeetMeCfbFailed)
    } else if name == "meetmeenteraccesscode"@ || name == "meetmeenteraccesscodetone"@ {
        Some(Tone::MeetMeEnterAccessCode)
    } else if name == "meetmeaccesscodeinvalid"@ || name == "meetmeaccesscodeinvalidtone"@ {
        Some(Tone::MeetMeAccessCodeInvalid)
    } else if name == "meetmeaccesscodefailed"@ || name == "meetmeaccesscodefailedtone"@ {
        Some(Tone::MeetMeAccessCodeFailed)
    } else {
        None
    }
}

/// The tone that a reduced name stands for.
fn read_named_tone(n: &str) -> (r: Option<Tone>)
    ensures
        r == named_tone(n@),
{
    if text::same(n, "silence") {
        Some(Tone::Silence)
    } else if text::same(n, "dtmf1") {
        Some(Tone::Dtmf1)
    } else if text::same(n, "dtmf2") {
        Some(Tone::Dtmf2)
    } else if text::same(n, "dtmf3") {
        Some(Tone::Dtmf3)
    } else if text::same(n, "dtmf4") {
        Some(Tone::Dtmf4)
    } else if text::same(n, "dtmf5") {
        Some(Tone::Dtmf5)
    } else if text::same(n, "dtmf6") {
        Some(Tone::Dtmf6)
    } else if text::same(n, "dtmf7") {
        Some(Tone::Dtmf7)
    } else if text::same(n, "dtmf8") {
        Some(Tone::Dtmf8)
    } else if text::same(n, "dtmf9") {
        Some(Tone::Dtmf9)
    } else if text::same(n, "dtmf0") {
        Some(Tone::Dtmf0)
    } else if text::same(n, "dtmfstar") {
        Some(Tone::DtmfStar)
    } else if text::same(n, "dtmfpound") {
        Some(Tone::DtmfPound)
    } else if text::same(n, "dtmfa") {
        Some(Tone::DtmfA)
    } else if text::same(n, "dtmfb") {
        Some(Tone::DtmfB)
    } else if text::same(n, "dtmfc") {
        Some(Tone::DtmfC)
    } else if text::same(n, "dtmfd") {
        Some(Tone::DtmfD)
    } else if text::same(n, "insidedial") || text::same(n, "insidedialtone") {
        Some(Tone::InsideDial)
    } else if text::same(n, "outsidedial") || text::same(n, "outsidedialtone") {
        Some(Tone::OutsideDial)
    } else if text::same(n, "linebusy") || text::same(n, "linebusytone") {
        Some(Tone::LineBusy)
    } else if text::same(n, "alerting") || text::same(n, "alertingtone") {
        Some(Tone::Alerting)
    } else if text::same(n, "reorder") || text::same(n, "reordertone") {
        Some(Tone::Reorder)
    } else if text::same(n, "recorderwarning") || text::same(n, "recorderwarningtone") {
        Some(Tone::RecorderWarning)
    } else if text::same(n, "recorderdetected") || text::same(n, "recorderdetectedtone") {
        Some(Tone::RecorderDetected)
    } else if text::same(n, "reverting") || text::same(n, "revertingtone") {
        Some(Tone::Reverting)
    } else if text::same(n, "receiveroffhook") || text::same(n, "receiveroffhooktone") {
        Some(Tone::ReceiverOffHook)
    } else if text::same(n, "partialdial") || text::same(n, "partialdialtone") {
        Some(Tone::PartialDial)
    } else if text::same(n, "nosuchnumber") || text::same(n, "nosuchnumbertone") {
        Some(Tone::NoSuchNumber)
    } else if text::same(n, "busyverification") || text::same(n, "busyverificationtone") {
        Some(Tone::BusyVerification)
    } else if text::same(n, "callwaiting") || text::same(n, "callwaitingtone") {
        Some(Tone::CallWaiting)
    } else if text::same(n, "confirmation") || text::same(n, "confirmationtone") {
        Some(Tone::Confirmation)
    } else if text::same(n, "campon") || text::same(n, "camponindicationtone") {
        Some(Tone::CampOn)
    } else if text::same(n, "recalldial") || text::same(n, "recalldialtone") {
        Some(Tone::RecallDial)
    } else if text::same(n, "zipzip") {
        Some(Tone::ZipZip)
    } else if text::same(n, "zip") {
        Some(Tone::Zip)
    } else if text::same(n, "beepbonk") {
        Some(Tone::BeepBonk)
    } else if text::same(n, "music") || text::same(n, "musictone") {
        Some(Tone::Music)
    } else if text::same(n, "hold") || text::same(n, "holdtone") {
        Some(Tone::Hold)
    } else if text::same(n, "test") || text::same(n, "testtone") {
        Some(Tone::Test)
    } else if text::same(n, "monitorwarning") || text::same(n, "dtmonitorwarningtone") {
        Some(Tone::MonitorWarning)
    } else if text::same(n, "addcallwaiting") {
        Some(Tone::AddCallWaiting)
    } else if text::same(n, "prioritycallwaiting") || text::same(n, "prioritycallwait") {
        Some(Tone::PriorityCallWaiting)
    } else if text::same(n, "bargein") || text::same(n, "bargin") {
        Some(Tone::BargeIn)
    } else if text::same(n, "distinctalert") {
        Some(Tone::DistinctAlert)
    } else if text::same(n, "priorityalert") {
        Some(Tone::PriorityAlert)
    } else if text::same(n, "reminderring") {
        Some(Tone::ReminderRing)
    } else if text::same(n, "precedenceringback") {
        Some(Tone::PrecedenceRingback)
    } else if text::same(n, "preemption") || text::same(n, "preemptiontone") {
        Some(Tone::Preemption)
    } else if text::same(n, "notone") {
        Some(Tone::NoTone)
    } else if text::same(n, "meetmegreeting") || text::same(n, "meetmegreetingtone") {
        Some(Tone::MeetMeGreeting)
    } else if text::same(n, "meetmenumberinvalid") || text::same(n, "meetmenumberinvalidtone") {
        Some(Tone::MeetMeNumberInvalid)
    } else if text::same(n, "meetmenumberfailed") || text::same(n, "meetmenumberfailedtone") {
        Some(Tone::MeetMeNumberFailed)
    } else if text::same(n, "meetmeenterpin") || text::same(n, "meetmeenterpintone") {
        Some(Tone::MeetMeEnterPin)
    } else if text::same(n, "meetmeinvalidpin") || text::same(n, "meetmeinvalidpintone") {
        Some(Tone::MeetMeInvalidPin)
    } else if text::same(n, "meetmefailedpin") || text::same(n, "meetmefailedpintone") {
        Some(Tone::MeetMeFailedPin)
    } else if text::same(n, "meetmecfbfailed") || text::same(n, "meetmecfbfailedtone") {
        Some(Tone::MeetMeCfbFailed)
    } else if text::same(n, "meetmeenteraccesscode") || text::same(n, "meetmeenteraccesscodetone") {
        Some(Tone::MeetMeEnterAccessCode)
    } else if text::same(n, "meetmeaccesscodeinvalid") || text::same(n, "meetmeaccesscodeinvalidtone") {
        Some(Tone::MeetMeAccessCodeInvalid)
    } else if text::same(n, "meetmeaccesscodefailed") || text::same(n, "meetmeaccesscodefailedtone") {
        Some(Tone::MeetMeAccessCodeFailed)
    } else {
        None
    }
}

/// The tone of a number, by the first entry that gives it one. A number that
/// has no tone stands for itself.
pub open spec fn numbered_tone(list: Seq<rules::ToneCode>, code: u8) -> Tone
    decreases list.len(),
{
    if list.len() == 0 {
        Tone::Code(code)
    } else if list[0].code == code {
        list[0].tone
    } else {
        numbered_tone(list.skip(1), code)
    }
}

/// Finds the tone of a number.
fn find_tone(list: &Vec<ToneCode>, code: u8) -> (r: Tone)
    ensures
        r == numbered_tone(list@, code),
{
    let mut i: usize = 0;
    assert(list@.skip(0) =~= list@);
    while i < list.len()
        invariant
            i <= list@.len(),
            numbered_tone(list@, code) == numbered_tone(list@.skip(i as int), code),
        decreases list.len() - i,
    {
        if list[i].code == code {
            return list[i].tone;
        }
        assert(list@.skip(i as int).skip(1) =~= list@.skip(i + 1));
        i += 1;
    }
    Tone::Code(code)
}

/// A tone: a number below 256, decimal or hexadecimal, or a name.
pub open spec fn tone_setting(key: text::Text, raw: text::Text, w: rules::LayerRulesView) -> Result<
    Tone,
    error::ErrorView,
> {
    let value = text::trimmed(raw);
    match number::marked(value, 255) {
        Some(code) => Ok(numbered_tone(w.tones, code as u8)),
        None => match named_tone(text::name_of(value)) {
            Some(tone) => Ok(tone),
            None => Err(error::refused(key, raw)),
        },
    }
}

/// Reads a tone.
pub fn parse_tone(key: &str, raw: &str, with: &LayerRules) -> (r: Result<Tone, ConfigError>)
    ensures
        error::outcome(r) == tone_setting(key@, raw@, with.deep_view()),
{
    let value = text::trim(raw);
    match number::read_marked(value.as_str(), 255) {
        Some(code) => return Ok(find_tone(&with.tones, code as u8)),
        None => {},
    }
    match read_named_tone(text::normalize_name(value.as_str()).as_str()) {
        Some(tone) => Ok(tone),
        None => Err(error::invalid_value(key, raw)),
    }
}

/// A tone, or none by the number zero.
pub open spec fn optional_tone_setting(
    key: text::Text,
    raw: text::Text,
    w: rules::LayerRulesView,
) -> Result<Option<Tone>, error::ErrorView> {
    if text::trimmed(raw) == "0"@ {
        Ok(None)
    } else {
        match tone_setting(key, raw, w) {
            Ok(t) => Ok(Some(t)),
            Err(e) => Err(e),
        }
    }
}

/// Reads a tone, or none by the number zero.
pub fn parse_optional_tone(key: &str, raw: &str, with: &LayerRules) -> (r: Result<
    Option<Tone>,
    ConfigError,
>)
    ensures
        error::outcome(r) == optional_tone_setting(key@, raw@, with.deep_view()),
{
    if text::same(text::trim(raw).as_str(), "0") {
        return Ok(None);
    }
    match parse_tone(key, raw, with) {
        Ok(t) => Ok(Some(t)),
        Err(e) => Err(e),
    }
}

} // verus!
