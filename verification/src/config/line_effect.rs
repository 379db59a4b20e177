//! What the options of a line do, option by option: which field a setting sets,
//! and what stands where an option is not set.

use vstd::prelude::*;

use crate::config::codec;
use crate::config::effect;
use crate::config::effect::{says, unset};
use crate::config::error;
use crate::config::group;
use crate::config::line;
use crate::config::network;
use crate::config::option;
use crate::config::option::{Scope, Setting};
use crate::config::policy;
use crate::config::policy::VideoMode;
use crate::config::registration;
use crate::config::rules;
use crate::config::section;
use crate::config::setting;
use crate::config::spelling;
use crate::config::tone;
use crate::config::value;
use crate::number;
use crate::station::Tone;
use crate::text;

verus! {

/// The option that a name in lower case stands for.
#[verifier::opaque]
spec fn meaning_of(n: text::Text) -> Option<Setting> {
    option::line_named(n)
}

/// The options of an accepted section.
#[verifier::opaque]
spec fn is_accepted(s: section::RawSectionView, g: policy::GeneralConfigView, w: rules::LayerRulesView, o: option::OptionsView) -> bool {
    &&& option::decoded(Scope::Line, s) == Ok::<option::OptionsView, error::ErrorView>(o)
    &&& o.matched()
    &&& o.section == s
    &&& line::first_fault(o, 0, w) is None
    &&& line::line_of(o, g, w) is Ok
    &&& line::line_of(o, g, w) == line::line_setting(s, g, w)
}

/// What the options of an accepted section say.
#[verifier::opaque]
spec fn said(o: option::OptionsView, g: policy::GeneralConfigView, w: rules::LayerRulesView) -> line::ParsedLineView {
    line::line_of(o, g, w)->Ok_0
}

/// A setting that its option is found by, and that is not refused.
#[verifier::opaque]
spec fn is_set(o: option::OptionsView, g: policy::GeneralConfigView, w: rules::LayerRulesView, k: Setting, x: section::RawValueView) -> bool {
    &&& line::line_of(o, g, w) is Ok
    &&& !value::repeats(k) ==> {
        &&& value::found(o, k) == Some(x)
        &&& value::value_fault(k, section::place(x), x.value, w) is None
    }
}

/// An option that is not set.
#[verifier::opaque]
spec fn is_absent(o: option::OptionsView, g: policy::GeneralConfigView, w: rules::LayerRulesView, k: Setting) -> bool {
    line::line_of(o, g, w) is Ok && value::found(o, k) is None
}

/// The names of the options.
proof fn lemma_forth(n: text::Text)
    ensures
        n == "type"@ ==> meaning_of(n) == Some(Setting::Type),
        n == "label"@ ==> meaning_of(n) == Some(Setting::Label),
        n == "context"@ ==> meaning_of(n) == Some(Setting::Context),
        n == "callerid"@ ==> meaning_of(n) == Some(Setting::CallerId),
        n == "incoming_limit"@ || n == "incominglimit"@ ==> meaning_of(n) == Some(Setting::IncomingLimit),
        n == "language"@ ==> meaning_of(n) == Some(Setting::Language),
        n == "accountcode"@ ==> meaning_of(n) == Some(Setting::AccountCode),
        n == "setvar"@ ==> meaning_of(n) == Some(Setting::SetVariable),
        n == "mailbox"@ ==> meaning_of(n) == Some(Setting::Mailbox),
        n == "vmnum"@ || n == "voicemail_number"@ || n == "voicemailnumber"@ ==> meaning_of(n) == Some(Setting::VoicemailNumber),
        n == "transfertovoicemail"@ || n == "trnsfvm"@ || n == "voicemail_transfer"@ || n == "voicemailtransfer"@ ==> meaning_of(n) == Some(Setting::VoicemailTransfer),
        n == "call_group"@ || n == "callgroup"@ ==> meaning_of(n) == Some(Setting::CallGroup),
        n == "pickup_group"@ || n == "pickupgroup"@ ==> meaning_of(n) == Some(Setting::PickupGroup),
        n == "named_call_group"@ || n == "namedcallgroup"@ ==> meaning_of(n) == Some(Setting::NamedCallGroup),
        n == "named_pickup_group"@ || n == "namedpickupgroup"@ ==> meaning_of(n) == Some(Setting::NamedPickupGroup),
        n == "directed_pickup"@ || n == "directedpickup"@ ==> meaning_of(n) == Some(Setting::DirectedPickup),
        n == "directed_pickup_context"@ || n == "directedpickupcontext"@ ==> meaning_of(n) == Some(Setting::DirectedPickupContext),
        n == "directedpickupmodeanswer"@ || n == "pickup_mode_answer"@ || n == "pickupmodeanswer"@ ==> meaning_of(n) == Some(Setting::PickupModeAnswer),
        n == "parkinglot"@ ==> meaning_of(n) == Some(Setting::ParkingLot),
        n == "meetme"@ ==> meaning_of(n) == Some(Setting::ConferenceEnabled),
        n == "meetmenum"@ ==> meaning_of(n) == Some(Setting::ConferenceNumber),
        n == "meetmeopts"@ ==> meaning_of(n) == Some(Setting::ConferenceOptions),
        n == "adhoc_number"@ || n == "adhocnumber"@ ==> meaning_of(n) == Some(Setting::AdhocNumber),
        n == "initial_dialtone_tone"@ ==> meaning_of(n) == Some(Setting::InitialDialtoneTone),
        n == "secondary_dialtone_digits"@ ==> meaning_of(n) == Some(Setting::SecondaryDialtoneDigits),
        n == "secondary_dialtone_tone"@ ==> meaning_of(n) == Some(Setting::SecondaryDialtoneTone),
        n == "pin"@ ==> meaning_of(n) == Some(Setting::Pin),
        n == "regexten"@ ==> meaning_of(n) == Some(Setting::RegistrationExtension),
        n == "allow"@ ==> meaning_of(n) == Some(Setting::Allow),
        n == "disallow"@ ==> meaning_of(n) == Some(Setting::Disallow),
        n == "video_mode"@ || n == "videomode"@ ==> meaning_of(n) == Some(Setting::VideoMode),
        n == "audio_encryption"@ || n == "audioencryption"@ ==> meaning_of(n) == Some(Setting::AudioEncryption),
        n == "echocancel"@ ==> meaning_of(n) == Some(Setting::EchoCancel),
        n == "silencesuppression"@ ==> meaning_of(n) == Some(Setting::SilenceSuppression),
{
    reveal(meaning_of);
    spelling::lemma_line_spellings();
}

/// The options go by no other names.
proof fn lemma_back(n: text::Text)
    ensures
        meaning_of(n) == Some(Setting::Type) ==> n == "type"@,
        meaning_of(n) == Some(Setting::Label) ==> n == "label"@,
        meaning_of(n) == Some(Setting::Context) ==> n == "context"@,
        meaning_of(n) == Some(Setting::CallerId) ==> n == "callerid"@,
        meaning_of(n) == Some(Setting::IncomingLimit) ==> n == "incoming_limit"@ || n == "incominglimit"@,
        meaning_of(n) == Some(Setting::Language) ==> n == "language"@,
        meaning_of(n) == Some(Setting::AccountCode) ==> n == "accountcode"@,
        meaning_of(n) == Some(Setting::SetVariable) ==> n == "setvar"@,
        meaning_of(n) == Some(Setting::Mailbox) ==> n == "mailbox"@,
        meaning_of(n) == Some(Setting::VoicemailNumber) ==> n == "vmnum"@ || n == "voicemail_number"@ || n == "voicemailnumber"@,
        meaning_of(n) == Some(Setting::VoicemailTransfer) ==> n == "transfertovoicemail"@ || n == "trnsfvm"@ || n == "voicemail_transfer"@ || n == "voicemailtransfer"@,
        meaning_of(n) == Some(Setting::CallGroup) ==> n == "call_group"@ || n == "callgroup"@,
        meaning_of(n) == Some(Setting::PickupGroup) ==> n == "pickup_group"@ || n == "pickupgroup"@,
        meaning_of(n) == Some(Setting::NamedCallGroup) ==> n == "named_call_group"@ || n == "namedcallgroup"@,
        meaning_of(n) == Some(Setting::NamedPickupGroup) ==> n == "named_pickup_group"@ || n == "namedpickupgroup"@,
        meaning_of(n) == Some(Setting::DirectedPickup) ==> n == "directed_pickup"@ || n == "directedpickup"@,
        meaning_of(n) == Some(Setting::DirectedPickupContext) ==> n == "directed_pickup_context"@ || n == "directedpickupcontext"@,
        meaning_of(n) == Some(Setting::PickupModeAnswer) ==> n == "directedpickupmodeanswer"@ || n == "pickup_mode_answer"@ || n == "pickupmodeanswer"@,
        meaning_of(n) == Some(Setting::ParkingLot) ==> n == "parkinglot"@,
        meaning_of(n) == Some(Setting::ConferenceEnabled) ==> n == "meetme"@,
        meaning_of(n) == Some(Setting::ConferenceNumber) ==> n == "meetmenum"@,
        meaning_of(n) == Some(Setting::ConferenceOptions) ==> n == "meetmeopts"@,
        meaning_of(n) == Some(Setting::AdhocNumber) ==> n == "adhoc_number"@ || n == "adhocnumber"@,
        meaning_of(n) == Some(Setting::InitialDialtoneTone) ==> n == "initial_dialtone_tone"@,
        meaning_of(n) == Some(Setting::SecondaryDialtoneDigits) ==> n == "secondary_dialtone_digits"@,
        meaning_of(n) == Some(Setting::SecondaryDialtoneTone) ==> n == "secondary_dialtone_tone"@,
        meaning_of(n) == Some(Setting::Pin) ==> n == "pin"@,
        meaning_of(n) == Some(Setting::RegistrationExtension) ==> n == "regexten"@,
        meaning_of(n) == Some(Setting::Allow) ==> n == "allow"@,
        meaning_of(n) == Some(Setting::Disallow) ==> n == "disallow"@,
        meaning_of(n) == Some(Setting::VideoMode) ==> n == "video_mode"@ || n == "videomode"@,
        meaning_of(n) == Some(Setting::AudioEncryption) ==> n == "audio_encryption"@ || n == "audioencryption"@,
        meaning_of(n) == Some(Setting::EchoCancel) ==> n == "echocancel"@,
        meaning_of(n) == Some(Setting::SilenceSuppression) ==> n == "silencesuppression"@,
{
    reveal(meaning_of);
}

/// What an accepted section is made of.
proof fn lemma_accepted(s: section::RawSectionView, g: policy::GeneralConfigView, w: rules::LayerRulesView) -> (o: option::OptionsView)
    requires
        line::line_setting(s, g, w) is Ok,
    ensures
        is_accepted(s, g, w, o),
        said(o, g, w) == line::line_setting(s, g, w)->Ok_0,
        forall|i: int|
            0 <= i < s.values.len() ==> meaning_of(text::lower((#[trigger] s.values[i]).key))
                == Some(o.settings[i]),
        forall|i: int|
            0 <= i < s.values.len() ==> is_set(o, g, w, #[trigger] o.settings[i], s.values[i]),
{
    reveal(is_accepted);
    reveal(said);
    reveal(meaning_of);
    reveal(is_set);
    effect::lemma_decoded(Scope::Line, s);
    let o = option::decoded(Scope::Line, s)->Ok_0;
    assert forall|i: int| 0 <= i < s.values.len() implies is_set(
        o,
        g, w,
        #[trigger] o.settings[i],
        s.values[i],
    ) by {
        if !value::repeats(o.settings[i]) {
            effect::lemma_none_refused(o, w, i, 0);
            effect::lemma_found_is(o, w, i);
        }
    }
    o
}

/// An option that excludes the option of a setting is not set beside it.
proof fn lemma_no_twin(
    s: section::RawSectionView,
    g: policy::GeneralConfigView, w: rules::LayerRulesView,
    o: option::OptionsView,
    i: int,
    x: Setting,
)
    requires
        is_accepted(s, g, w, o),
        0 <= i < s.values.len(),
        !value::repeats(o.settings[i]),
        !value::repeats(x),
        value::excludes(o.settings[i], x),
        value::excludes(x, o.settings[i]),
        x != o.settings[i],
        x != Setting::SetVariable,
    ensures
        is_absent(o, g, w, x),
{
    reveal(is_accepted);
    reveal(is_absent);
    assert forall|j: int| 0 <= j < o.settings.len() implies #[trigger] o.settings[j] != x by {
        if o.settings[j] == x {
            effect::lemma_none_refused(o, w, i, 0);
            effect::lemma_none_refused(o, w, j, 0);
            if j < i {
                assert(value::is_excluded(o.settings, i));
            } else {
                assert(value::excludes(o.settings[j], o.settings[i]));
                assert(value::is_excluded(o.settings, j));
            }
        }
    }
    effect::lemma_not_found(o, x);
}

/// An option whose names no setting has is not set.
proof fn lemma_absent(s: section::RawSectionView, g: policy::GeneralConfigView, w: rules::LayerRulesView, o: option::OptionsView, x: Setting)
    requires
        is_accepted(s, g, w, o),
        forall|i: int|
            0 <= i < s.values.len() ==> meaning_of(text::lower((#[trigger] s.values[i]).key))
                != Some(x),
    ensures
        is_absent(o, g, w, x),
{
    reveal(is_accepted);
    reveal(is_absent);
    reveal(meaning_of);
    effect::lemma_decoded(Scope::Line, s);
    assert forall|i: int| 0 <= i < o.settings.len() implies #[trigger] o.settings[i] != x by {
        assert(option::line_named(text::lower(s.values[i].key)) == Some(o.settings[i]));
    }
    effect::lemma_not_found(o, x);
}

// ---------------------------------------------------------------------------
// Identity

/// Identity: a setting sets its own field, under each name of its option.
pub proof fn law_line_identity_are_set(
    s: section::RawSectionView,
    g: policy::GeneralConfigView,
    w: rules::LayerRulesView,
    i: int,
)
    requires
        line::line_setting(s, g, w) is Ok,
        0 <= i < s.values.len(),
    ensures
        ({
            let r = line::line_setting(s, g, w)->Ok_0;
            let k = text::lower(s.values[i].key);
            let v = s.values[i].value;
            let p = section::place(s.values[i]);
            &&& k == "mailbox"@ ==> {
                &&& value::value_in(setting::mailbox_setting(p, v)) == Some(r.line.mailbox)
            }
            &&& k == "language"@ ==> {
                &&& r.line.language == text::trimmed(v)
            }
            &&& k == "accountcode"@ ==> {
                &&& r.line.account_code == if text::trimmed(v).len() == 0 { None::<text::Text> } else { Some(text::trimmed(v)) }
            }
            &&& k == "incoming_limit"@ || k == "incominglimit"@ ==> {
                &&& number::unsigned(text::trimmed(v), 10) == Some(r.features.incoming_limit as nat)
                &&& 0 <= r.features.incoming_limit <= 255
            }
            &&& k == "vmnum"@ || k == "voicemail_number"@ || k == "voicemailnumber"@ ==> {
                &&& value::value_in(value::voicemail_setting(p, v, w)) == Some(r.features.voicemail.number)
            }
            &&& k == "transfertovoicemail"@ || k == "trnsfvm"@ || k == "voicemail_transfer"@ || k == "voicemailtransfer"@ ==> {
                &&& value::value_in(value::voicemail_setting(p, v, w)) == Some(r.features.voicemail.transfer_destination)
            }
            &&& k == "pin"@ ==> {
                &&& value::value_in(setting::pin_setting(p, v)) == Some(r.features.mobility.pin)
            }
            &&& k == "adhoc_number"@ || k == "adhocnumber"@ ==> {
                &&& value::value_in(value::hotline_destination_setting(p, v, w)) == Some(r.features.hotline.destination)
            }
            &&& k == "regexten"@ ==> {
                &&& value::value_in(registration::extensions_setting(p, v)) matches Some(Some(list)) ==> r.features.registration.extensions == list
            }
        }),
{
    let o = lemma_accepted(s, g, w);
    lemma_identity_of(s, g, w, o, i);
}

proof fn lemma_identity_of(
    s: section::RawSectionView,
    g: policy::GeneralConfigView,
    w: rules::LayerRulesView,
    o: option::OptionsView,
    i: int,
)
    requires
        is_accepted(s, g, w, o),
        0 <= i < s.values.len(),
        meaning_of(text::lower(s.values[i].key)) == Some(o.settings[i]),
        is_set(o, g, w, o.settings[i], s.values[i]),
    ensures
        ({
            let r = said(o, g, w);
            let k = text::lower(s.values[i].key);
            let v = s.values[i].value;
            let p = section::place(s.values[i]);
            &&& k == "mailbox"@ ==> {
                &&& value::value_in(setting::mailbox_setting(p, v)) == Some(r.line.mailbox)
            }
            &&& k == "language"@ ==> {
                &&& r.line.language == text::trimmed(v)
            }
            &&& k == "accountcode"@ ==> {
                &&& r.line.account_code == if text::trimmed(v).len() == 0 { None::<text::Text> } else { Some(text::trimmed(v)) }
            }
            &&& k == "incoming_limit"@ || k == "incominglimit"@ ==> {
                &&& number::unsigned(text::trimmed(v), 10) == Some(r.features.incoming_limit as nat)
                &&& 0 <= r.features.incoming_limit <= 255
            }
            &&& k == "vmnum"@ || k == "voicemail_number"@ || k == "voicemailnumber"@ ==> {
                &&& value::value_in(value::voicemail_setting(p, v, w)) == Some(r.features.voicemail.number)
            }
            &&& k == "transfertovoicemail"@ || k == "trnsfvm"@ || k == "voicemail_transfer"@ || k == "voicemailtransfer"@ ==> {
                &&& value::value_in(value::voicemail_setting(p, v, w)) == Some(r.features.voicemail.transfer_destination)
            }
            &&& k == "pin"@ ==> {
                &&& value::value_in(setting::pin_setting(p, v)) == Some(r.features.mobility.pin)
            }
            &&& k == "adhoc_number"@ || k == "adhocnumber"@ ==> {
                &&& value::value_in(value::hotline_destination_setting(p, v, w)) == Some(r.features.hotline.destination)
            }
            &&& k == "regexten"@ ==> {
                &&& value::value_in(registration::extensions_setting(p, v)) matches Some(Some(list)) ==> r.features.registration.extensions == list
            }
        }),
{
    let k = text::lower(s.values[i].key);
    lemma_identity_forth(k);
    lemma_identity_said(s, g, w, o);
    if k == "mailbox"@ {
        lemma_mailbox(o, g, w, s.values[i]);
    }
    if k == "language"@ {
        lemma_language(o, g, w, s.values[i]);
    }
    if k == "accountcode"@ {
        lemma_account_code(o, g, w, s.values[i]);
    }
    if k == "incoming_limit"@ || k == "incominglimit"@ {
        lemma_incoming_limit(o, g, w, s.values[i]);
    }
    if k == "vmnum"@ || k == "voicemail_number"@ || k == "voicemailnumber"@ {
        lemma_voicemail_number(o, g, w, s.values[i]);
    }
    if k == "transfertovoicemail"@ || k == "trnsfvm"@ || k == "voicemail_transfer"@ || k == "voicemailtransfer"@ {
        lemma_voicemail_transfer(o, g, w, s.values[i]);
    }
    if k == "pin"@ {
        lemma_pin(o, g, w, s.values[i]);
    }
    if k == "adhoc_number"@ || k == "adhocnumber"@ {
        lemma_adhoc_number(o, g, w, s.values[i]);
    }
    if k == "regexten"@ {
        lemma_registration_extension(o, g, w, s.values[i]);
    }
}

proof fn lemma_identity_forth(n: text::Text)
    ensures
        n == "mailbox"@ ==> meaning_of(n) == Some(Setting::Mailbox),
        n == "language"@ ==> meaning_of(n) == Some(Setting::Language),
        n == "accountcode"@ ==> meaning_of(n) == Some(Setting::AccountCode),
        n == "incoming_limit"@ || n == "incominglimit"@ ==> meaning_of(n) == Some(Setting::IncomingLimit),
        n == "vmnum"@ || n == "voicemail_number"@ || n == "voicemailnumber"@ ==> meaning_of(n) == Some(Setting::VoicemailNumber),
        n == "transfertovoicemail"@ || n == "trnsfvm"@ || n == "voicemail_transfer"@ || n == "voicemailtransfer"@ ==> meaning_of(n) == Some(Setting::VoicemailTransfer),
        n == "pin"@ ==> meaning_of(n) == Some(Setting::Pin),
        n == "adhoc_number"@ || n == "adhocnumber"@ ==> meaning_of(n) == Some(Setting::AdhocNumber),
        n == "regexten"@ ==> meaning_of(n) == Some(Setting::RegistrationExtension),
{
    lemma_forth(n);
}

/// Where these fields come from.
proof fn lemma_identity_said(s: section::RawSectionView, g: policy::GeneralConfigView, w: rules::LayerRulesView, o: option::OptionsView)
    requires
        is_accepted(s, g, w, o),
    ensures
        said(o, g, w).line.mailbox == network::over(value::mailbox_at(o, Setting::Mailbox), None),
        said(o, g, w).line.language == network::over(value::language_at(o, Setting::Language, w), g.language),
        said(o, g, w).line.account_code == network::over(value::account_at(o, Setting::AccountCode, w), g.account_code),
        said(o, g, w).features.incoming_limit == network::over(value::incoming_at(o, Setting::IncomingLimit), 6) as u32,
        said(o, g, w).features.voicemail.number == network::over(value::voicemail_at(o, Setting::VoicemailNumber, w), None),
        said(o, g, w).features.voicemail.transfer_destination == network::over(value::voicemail_at(o, Setting::VoicemailTransfer, w), None),
        said(o, g, w).features.mobility.pin == network::over(value::pin_at(o, Setting::Pin), None),
        said(o, g, w).features.hotline.destination == network::over(value::hotline_at(o, Setting::AdhocNumber, w), None),
{
    reveal(is_accepted);
    reveal(said);
}

proof fn lemma_mailbox(o: option::OptionsView, g: policy::GeneralConfigView, w: rules::LayerRulesView, x: section::RawValueView)
    requires
        is_set(o, g, w, Setting::Mailbox, x),
        said(o, g, w).line.mailbox == network::over(value::mailbox_at(o, Setting::Mailbox), None),
    ensures
        ({
            let r = said(o, g, w);
            let v = x.value;
            let p = section::place(x);
            &&& value::value_in(setting::mailbox_setting(p, v)) == Some(r.line.mailbox)
        }),
{
    reveal(is_set);
}

proof fn lemma_language(o: option::OptionsView, g: policy::GeneralConfigView, w: rules::LayerRulesView, x: section::RawValueView)
    requires
        is_set(o, g, w, Setting::Language, x),
        said(o, g, w).line.language == network::over(value::language_at(o, Setting::Language, w), g.language),
    ensures
        ({
            let r = said(o, g, w);
            let v = x.value;
            let p = section::place(x);
            &&& r.line.language == text::trimmed(v)
        }),
{
    reveal(is_set);
}

proof fn lemma_account_code(o: option::OptionsView, g: policy::GeneralConfigView, w: rules::LayerRulesView, x: section::RawValueView)
    requires
        is_set(o, g, w, Setting::AccountCode, x),
        said(o, g, w).line.account_code == network::over(value::account_at(o, Setting::AccountCode, w), g.account_code),
    ensures
        ({
            let r = said(o, g, w);
            let v = x.value;
            let p = section::place(x);
            &&& r.line.account_code == if text::trimmed(v).len() == 0 { None::<text::Text> } else { Some(text::trimmed(v)) }
        }),
{
    reveal(is_set);
}

proof fn lemma_incoming_limit(o: option::OptionsView, g: policy::GeneralConfigView, w: rules::LayerRulesView, x: section::RawValueView)
    requires
        is_set(o, g, w, Setting::IncomingLimit, x),
        said(o, g, w).features.incoming_limit == network::over(value::incoming_at(o, Setting::IncomingLimit), 6) as u32,
    ensures
        ({
            let r = said(o, g, w);
            let v = x.value;
            let p = section::place(x);
            &&& number::unsigned(text::trimmed(v), 10) == Some(r.features.incoming_limit as nat)
            &&& 0 <= r.features.incoming_limit <= 255
        }),
{
    reveal(is_set);
}

proof fn lemma_voicemail_number(o: option::OptionsView, g: policy::GeneralConfigView, w: rules::LayerRulesView, x: section::RawValueView)
    requires
        is_set(o, g, w, Setting::VoicemailNumber, x),
        said(o, g, w).features.voicemail.number == network::over(value::voicemail_at(o, Setting::VoicemailNumber, w), None),
    ensures
        ({
            let r = said(o, g, w);
            let v = x.value;
            let p = section::place(x);
            &&& value::value_in(value::voicemail_setting(p, v, w)) == Some(r.features.voicemail.number)
        }),
{
    reveal(is_set);
}

proof fn lemma_voicemail_transfer(o: option::OptionsView, g: policy::GeneralConfigView, w: rules::LayerRulesView, x: section::RawValueView)
    requires
        is_set(o, g, w, Setting::VoicemailTransfer, x),
        said(o, g, w).features.voicemail.transfer_destination == network::over(value::voicemail_at(o, Setting::VoicemailTransfer, w), None),
    ensures
        ({
            let r = said(o, g, w);
            let v = x.value;
            let p = section::place(x);
            &&& value::value_in(value::voicemail_setting(p, v, w)) == Some(r.features.voicemail.transfer_destination)
        }),
{
    reveal(is_set);
}

proof fn lemma_pin(o: option::OptionsView, g: policy::GeneralConfigView, w: rules::LayerRulesView, x: section::RawValueView)
    requires
        is_set(o, g, w, Setting::Pin, x),
        said(o, g, w).features.mobility.pin == network::over(value::pin_at(o, Setting::Pin), None),
    ensures
        ({
            let r = said(o, g, w);
            let v = x.value;
            let p = section::place(x);
            &&& value::value_in(setting::pin_setting(p, v)) == Some(r.features.mobility.pin)
        }),
{
    reveal(is_set);
}

proof fn lemma_adhoc_number(o: option::OptionsView, g: policy::GeneralConfigView, w: rules::LayerRulesView, x: section::RawValueView)
    requires
        is_set(o, g, w, Setting::AdhocNumber, x),
        said(o, g, w).features.hotline.destination == network::over(value::hotline_at(o, Setting::AdhocNumber, w), None),
    ensures
        ({
            let r = said(o, g, w);
            let v = x.value;
            let p = section::place(x);
            &&& value::value_in(value::hotline_destination_setting(p, v, w)) == Some(r.features.hotline.destination)
        }),
{
    reveal(is_set);
}

proof fn lemma_registration_extension(o: option::OptionsView, g: policy::GeneralConfigView, w: rules::LayerRulesView, x: section::RawValueView)
    requires
        is_set(o, g, w, Setting::RegistrationExtension, x),
    ensures
        ({
            let r = said(o, g, w);
            let v = x.value;
            let p = section::place(x);
            &&& value::value_in(registration::extensions_setting(p, v)) matches Some(Some(list)) ==> r.features.registration.extensions == list
        }),
{
    reveal(said);
    reveal(is_set);
}

/// Identity: what stands where an option is not set.
pub proof fn law_line_identity_have_defaults(s: section::RawSectionView, g: policy::GeneralConfigView, w: rules::LayerRulesView)
    requires
        line::line_setting(s, g, w) is Ok,
    ensures
        ({
            let r = line::line_setting(s, g, w)->Ok_0;
            &&& unset(s, "mailbox"@) ==> (r.line.mailbox is None)
            &&& unset(s, "language"@) ==> (r.line.language == g.language)
            &&& unset(s, "accountcode"@) ==> (r.line.account_code == g.account_code)
            &&& unset(s, "incoming_limit"@) && unset(s, "incominglimit"@) ==> (r.features.incoming_limit == 6)
            &&& unset(s, "vmnum"@) && unset(s, "voicemail_number"@) && unset(s, "voicemailnumber"@) ==> (r.features.voicemail.number is None)
            &&& unset(s, "transfertovoicemail"@) && unset(s, "trnsfvm"@) && unset(s, "voicemail_transfer"@) && unset(s, "voicemailtransfer"@) ==> (r.features.voicemail.transfer_destination is None)
            &&& unset(s, "pin"@) ==> (r.features.mobility.pin is None)
            &&& unset(s, "adhoc_number"@) && unset(s, "adhocnumber"@) ==> (r.features.hotline.destination is None)
        }),
{
    let o = lemma_accepted(s, g, w);
    lemma_identity_without(s, g, w, o);
}

proof fn lemma_identity_without(s: section::RawSectionView, g: policy::GeneralConfigView, w: rules::LayerRulesView, o: option::OptionsView)
    requires
        is_accepted(s, g, w, o),
    ensures
        ({
            let r = said(o, g, w);
            &&& unset(s, "mailbox"@) ==> (r.line.mailbox is None)
            &&& unset(s, "language"@) ==> (r.line.language == g.language)
            &&& unset(s, "accountcode"@) ==> (r.line.account_code == g.account_code)
            &&& unset(s, "incoming_limit"@) && unset(s, "incominglimit"@) ==> (r.features.incoming_limit == 6)
            &&& unset(s, "vmnum"@) && unset(s, "voicemail_number"@) && unset(s, "voicemailnumber"@) ==> (r.features.voicemail.number is None)
            &&& unset(s, "transfertovoicemail"@) && unset(s, "trnsfvm"@) && unset(s, "voicemail_transfer"@) && unset(s, "voicemailtransfer"@) ==> (r.features.voicemail.transfer_destination is None)
            &&& unset(s, "pin"@) ==> (r.features.mobility.pin is None)
            &&& unset(s, "adhoc_number"@) && unset(s, "adhocnumber"@) ==> (r.features.hotline.destination is None)
        }),
{
    lemma_identity_said(s, g, w, o);
    if unset(s, "mailbox"@) {
        lemma_without_mailbox(s, g, w, o);
    }
    if unset(s, "language"@) {
        lemma_without_language(s, g, w, o);
    }
    if unset(s, "accountcode"@) {
        lemma_without_account_code(s, g, w, o);
    }
    if unset(s, "incoming_limit"@) && unset(s, "incominglimit"@) {
        lemma_without_incoming_limit(s, g, w, o);
    }
    if unset(s, "vmnum"@) && unset(s, "voicemail_number"@) && unset(s, "voicemailnumber"@) {
        lemma_without_voicemail_number(s, g, w, o);
    }
    if unset(s, "transfertovoicemail"@) && unset(s, "trnsfvm"@) && unset(s, "voicemail_transfer"@) && unset(s, "voicemailtransfer"@) {
        lemma_without_voicemail_transfer(s, g, w, o);
    }
    if unset(s, "pin"@) {
        lemma_without_pin(s, g, w, o);
    }
    if unset(s, "adhoc_number"@) && unset(s, "adhocnumber"@) {
        lemma_without_adhoc_number(s, g, w, o);
    }
}

proof fn lemma_without_mailbox(s: section::RawSectionView, g: policy::GeneralConfigView, w: rules::LayerRulesView, o: option::OptionsView)
    requires
        is_accepted(s, g, w, o),
        unset(s, "mailbox"@),
        said(o, g, w).line.mailbox == network::over(value::mailbox_at(o, Setting::Mailbox), None),
    ensures
        ({
            let r = said(o, g, w);
            r.line.mailbox is None
        }),
{
    assert forall|i: int| 0 <= i < s.values.len() implies meaning_of(
        text::lower((#[trigger] s.values[i]).key),
    ) != Some(Setting::Mailbox) by {
        lemma_back(text::lower(s.values[i].key));
    }
    lemma_absent(s, g, w, o, Setting::Mailbox);
    reveal(is_absent);
}

proof fn lemma_without_language(s: section::RawSectionView, g: policy::GeneralConfigView, w: rules::LayerRulesView, o: option::OptionsView)
    requires
        is_accepted(s, g, w, o),
        unset(s, "language"@),
        said(o, g, w).line.language == network::over(value::language_at(o, Setting::Language, w), g.language),
    ensures
        ({
            let r = said(o, g, w);
            r.line.language == g.language
        }),
{
    assert forall|i: int| 0 <= i < s.values.len() implies meaning_of(
        text::lower((#[trigger] s.values[i]).key),
    ) != Some(Setting::Language) by {
        lemma_back(text::lower(s.values[i].key));
    }
    lemma_absent(s, g, w, o, Setting::Language);
    reveal(is_absent);
}

proof fn lemma_without_account_code(s: section::RawSectionView, g: policy::GeneralConfigView, w: rules::LayerRulesView, o: option::OptionsView)
    requires
        is_accepted(s, g, w, o),
        unset(s, "accountcode"@),
        said(o, g, w).line.account_code == network::over(value::account_at(o, Setting::AccountCode, w), g.account_code),
    ensures
        ({
            let r = said(o, g, w);
            r.line.account_code == g.account_code
        }),
{
    assert forall|i: int| 0 <= i < s.values.len() implies meaning_of(
        text::lower((#[trigger] s.values[i]).key),
    ) != Some(Setting::AccountCode) by {
        lemma_back(text::lower(s.values[i].key));
    }
    lemma_absent(s, g, w, o, Setting::AccountCode);
    reveal(is_absent);
}

proof fn lemma_without_incoming_limit(s: section::RawSectionView, g: policy::GeneralConfigView, w: rules::LayerRulesView, o: option::OptionsView)
    requires
        is_accepted(s, g, w, o),
        unset(s, "incoming_limit"@),
        unset(s, "incominglimit"@),
        said(o, g, w).features.incoming_limit == network::over(value::incoming_at(o, Setting::IncomingLimit), 6) as u32,
    ensures
        ({
            let r = said(o, g, w);
            r.features.incoming_limit == 6
        }),
{
    assert forall|i: int| 0 <= i < s.values.len() implies meaning_of(
        text::lower((#[trigger] s.values[i]).key),
    ) != Some(Setting::IncomingLimit) by {
        lemma_back(text::lower(s.values[i].key));
    }
    lemma_absent(s, g, w, o, Setting::IncomingLimit);
    reveal(is_absent);
}

proof fn lemma_without_voicemail_number(s: section::RawSectionView, g: policy::GeneralConfigView, w: rules::LayerRulesView, o: option::OptionsView)
    requires
        is_accepted(s, g, w, o),
        unset(s, "vmnum"@),
        unset(s, "voicemail_number"@),
        unset(s, "voicemailnumber"@),
        said(o, g, w).features.voicemail.number == network::over(value::voicemail_at(o, Setting::VoicemailNumber, w), None),
    ensures
        ({
            let r = said(o, g, w);
            r.features.voicemail.number is None
        }),
{
    assert forall|i: int| 0 <= i < s.values.len() implies meaning_of(
        text::lower((#[trigger] s.values[i]).key),
    ) != Some(Setting::VoicemailNumber) by {
        lemma_back(text::lower(s.values[i].key));
    }
    lemma_absent(s, g, w, o, Setting::VoicemailNumber);
    reveal(is_absent);
}

proof fn lemma_without_voicemail_transfer(s: section::RawSectionView, g: policy::GeneralConfigView, w: rules::LayerRulesView, o: option::OptionsView)
    requires
        is_accepted(s, g, w, o),
        unset(s, "transfertovoicemail"@),
        unset(s, "trnsfvm"@),
        unset(s, "voicemail_transfer"@),
        unset(s, "voicemailtransfer"@),
        said(o, g, w).features.voicemail.transfer_destination == network::over(value::voicemail_at(o, Setting::VoicemailTransfer, w), None),
    ensures
        ({
            let r = said(o, g, w);
            r.features.voicemail.transfer_destination is None
        }),
{
    assert forall|i: int| 0 <= i < s.values.len() implies meaning_of(
        text::lower((#[trigger] s.values[i]).key),
    ) != Some(Setting::VoicemailTransfer) by {
        lemma_back(text::lower(s.values[i].key));
    }
    lemma_absent(s, g, w, o, Setting::VoicemailTransfer);
    reveal(is_absent);
}

proof fn lemma_without_pin(s: section::RawSectionView, g: policy::GeneralConfigView, w: rules::LayerRulesView, o: option::OptionsView)
    requires
        is_accepted(s, g, w, o),
        unset(s, "pin"@),
        said(o, g, w).features.mobility.pin == network::over(value::pin_at(o, Setting::Pin), None),
    ensures
        ({
            let r = said(o, g, w);
            r.features.mobility.pin is None
        }),
{
    assert forall|i: int| 0 <= i < s.values.len() implies meaning_of(
        text::lower((#[trigger] s.values[i]).key),
    ) != Some(Setting::Pin) by {
        lemma_back(text::lower(s.values[i].key));
    }
    lemma_absent(s, g, w, o, Setting::Pin);
    reveal(is_absent);
}

proof fn lemma_without_adhoc_number(s: section::RawSectionView, g: policy::GeneralConfigView, w: rules::LayerRulesView, o: option::OptionsView)
    requires
        is_accepted(s, g, w, o),
        unset(s, "adhoc_number"@),
        unset(s, "adhocnumber"@),
        said(o, g, w).features.hotline.destination == network::over(value::hotline_at(o, Setting::AdhocNumber, w), None),
    ensures
        ({
            let r = said(o, g, w);
            r.features.hotline.destination is None
        }),
{
    assert forall|i: int| 0 <= i < s.values.len() implies meaning_of(
        text::lower((#[trigger] s.values[i]).key),
    ) != Some(Setting::AdhocNumber) by {
        lemma_back(text::lower(s.values[i].key));
    }
    lemma_absent(s, g, w, o, Setting::AdhocNumber);
    reveal(is_absent);
}

// ---------------------------------------------------------------------------
// Pickup, parking and conferences

/// Pickup, parking and conferences: a setting sets its own field, under each name of its option.
pub proof fn law_line_pickup_are_set(
    s: section::RawSectionView,
    g: policy::GeneralConfigView,
    w: rules::LayerRulesView,
    i: int,
)
    requires
        line::line_setting(s, g, w) is Ok,
        0 <= i < s.values.len(),
    ensures
        ({
            let r = line::line_setting(s, g, w)->Ok_0;
            let k = text::lower(s.values[i].key);
            let v = s.values[i].value;
            let p = section::place(s.values[i]);
            &&& k == "call_group"@ || k == "callgroup"@ ==> {
                &&& value::value_in(group::numeric_setting(p, v)) == Some(r.features.pickup.call_groups)
            }
            &&& k == "pickup_group"@ || k == "pickupgroup"@ ==> {
                &&& value::value_in(group::numeric_setting(p, v)) == Some(r.features.pickup.pickup_groups)
            }
            &&& k == "named_call_group"@ || k == "namedcallgroup"@ ==> {
                &&& value::value_in(group::named_setting(p, v)) == Some(r.features.pickup.named_call_groups)
            }
            &&& k == "named_pickup_group"@ || k == "namedpickupgroup"@ ==> {
                &&& value::value_in(group::named_setting(p, v)) == Some(r.features.pickup.named_pickup_groups)
            }
            &&& k == "directed_pickup"@ || k == "directedpickup"@ ==> {
                &&& says(v, r.features.pickup.directed)
            }
            &&& k == "directed_pickup_context"@ || k == "directedpickupcontext"@ ==> {
                &&& value::value_in(setting::optional_setting(p, v)) == Some(r.features.pickup.directed_context)
            }
            &&& k == "directedpickupmodeanswer"@ || k == "pickup_mode_answer"@ || k == "pickupmodeanswer"@ ==> {
                &&& says(v, r.features.pickup.answer_directed)
            }
            &&& k == "parkinglot"@ ==> {
                &&& value::value_in(setting::empty_optional_setting(p, v)) == Some(r.features.parking.lot)
            }
            &&& k == "meetme"@ ==> {
                &&& r.features.conference.enabled is Some
                &&& says(v, r.features.conference.enabled->0)
            }
            &&& k == "meetmenum"@ ==> {
                &&& value::value_in(setting::empty_optional_setting(p, v)) == Some(r.features.conference.destination)
            }
            &&& k == "meetmeopts"@ ==> {
                &&& r.features.conference.application_options == Some(text::trimmed(v))
            }
        }),
{
    let o = lemma_accepted(s, g, w);
    lemma_pickup_of(s, g, w, o, i);
}

proof fn lemma_pickup_of(
    s: section::RawSectionView,
    g: policy::GeneralConfigView,
    w: rules::LayerRulesView,
    o: option::OptionsView,
    i: int,
)
    requires
        is_accepted(s, g, w, o),
        0 <= i < s.values.len(),
        meaning_of(text::lower(s.values[i].key)) == Some(o.settings[i]),
        is_set(o, g, w, o.settings[i], s.values[i]),
    ensures
        ({
            let r = said(o, g, w);
            let k = text::lower(s.values[i].key);
            let v = s.values[i].value;
            let p = section::place(s.values[i]);
            &&& k == "call_group"@ || k == "callgroup"@ ==> {
                &&& value::value_in(group::numeric_setting(p, v)) == Some(r.features.pickup.call_groups)
            }
            &&& k == "pickup_group"@ || k == "pickupgroup"@ ==> {
                &&& value::value_in(group::numeric_setting(p, v)) == Some(r.features.pickup.pickup_groups)
            }
            &&& k == "named_call_group"@ || k == "namedcallgroup"@ ==> {
                &&& value::value_in(group::named_setting(p, v)) == Some(r.features.pickup.named_call_groups)
            }
            &&& k == "named_pickup_group"@ || k == "namedpickupgroup"@ ==> {
                &&& value::value_in(group::named_setting(p, v)) == Some(r.features.pickup.named_pickup_groups)
            }
            &&& k == "directed_pickup"@ || k == "directedpickup"@ ==> {
                &&& says(v, r.features.pickup.directed)
            }
            &&& k == "directed_pickup_context"@ || k == "directedpickupcontext"@ ==> {
                &&& value::value_in(setting::optional_setting(p, v)) == Some(r.features.pickup.directed_context)
            }
            &&& k == "directedpickupmodeanswer"@ || k == "pickup_mode_answer"@ || k == "pickupmodeanswer"@ ==> {
                &&& says(v, r.features.pickup.answer_directed)
            }
            &&& k == "parkinglot"@ ==> {
                &&& value::value_in(setting::empty_optional_setting(p, v)) == Some(r.features.parking.lot)
            }
            &&& k == "meetme"@ ==> {
                &&& r.features.conference.enabled is Some
                &&& says(v, r.features.conference.enabled->0)
            }
            &&& k == "meetmenum"@ ==> {
                &&& value::value_in(setting::empty_optional_setting(p, v)) == Some(r.features.conference.destination)
            }
            &&& k == "meetmeopts"@ ==> {
                &&& r.features.conference.application_options == Some(text::trimmed(v))
            }
        }),
{
    let k = text::lower(s.values[i].key);
    lemma_pickup_forth(k);
    lemma_pickup_said(s, g, w, o);
    if k == "call_group"@ || k == "callgroup"@ {
        lemma_call_group(o, g, w, s.values[i]);
    }
    if k == "pickup_group"@ || k == "pickupgroup"@ {
        lemma_pickup_group(o, g, w, s.values[i]);
    }
    if k == "named_call_group"@ || k == "namedcallgroup"@ {
        lemma_named_call_group(o, g, w, s.values[i]);
    }
    if k == "named_pickup_group"@ || k == "namedpickupgroup"@ {
        lemma_named_pickup_group(o, g, w, s.values[i]);
    }
    if k == "directed_pickup"@ || k == "directedpickup"@ {
        lemma_directed_pickup(o, g, w, s.values[i]);
    }
    if k == "directed_pickup_context"@ || k == "directedpickupcontext"@ {
        lemma_directed_pickup_context(o, g, w, s.values[i]);
    }
    if k == "directedpickupmodeanswer"@ || k == "pickup_mode_answer"@ || k == "pickupmodeanswer"@ {
        lemma_pickup_mode_answer(o, g, w, s.values[i]);
    }
    if k == "parkinglot"@ {
        lemma_parking_lot(o, g, w, s.values[i]);
    }
    if k == "meetme"@ {
        lemma_conference_enabled(o, g, w, s.values[i]);
    }
    if k == "meetmenum"@ {
        lemma_conference_number(o, g, w, s.values[i]);
    }
    if k == "meetmeopts"@ {
        lemma_conference_options(o, g, w, s.values[i]);
    }
}

proof fn lemma_pickup_forth(n: text::Text)
    ensures
        n == "call_group"@ || n == "callgroup"@ ==> meaning_of(n) == Some(Setting::CallGroup),
        n == "pickup_group"@ || n == "pickupgroup"@ ==> meaning_of(n) == Some(Setting::PickupGroup),
        n == "named_call_group"@ || n == "namedcallgroup"@ ==> meaning_of(n) == Some(Setting::NamedCallGroup),
        n == "named_pickup_group"@ || n == "namedpickupgroup"@ ==> meaning_of(n) == Some(Setting::NamedPickupGroup),
        n == "directed_pickup"@ || n == "directedpickup"@ ==> meaning_of(n) == Some(Setting::DirectedPickup),
        n == "directed_pickup_context"@ || n == "directedpickupcontext"@ ==> meaning_of(n) == Some(Setting::DirectedPickupContext),
        n == "directedpickupmodeanswer"@ || n == "pickup_mode_answer"@ || n == "pickupmodeanswer"@ ==> meaning_of(n) == Some(Setting::PickupModeAnswer),
        n == "parkinglot"@ ==> meaning_of(n) == Some(Setting::ParkingLot),
        n == "meetme"@ ==> meaning_of(n) == Some(Setting::ConferenceEnabled),
        n == "meetmenum"@ ==> meaning_of(n) == Some(Setting::ConferenceNumber),
        n == "meetmeopts"@ ==> meaning_of(n) == Some(Setting::ConferenceOptions),
{
    lemma_forth(n);
}

/// Where these fields come from.
proof fn lemma_pickup_said(s: section::RawSectionView, g: policy::GeneralConfigView, w: rules::LayerRulesView, o: option::OptionsView)
    requires
        is_accepted(s, g, w, o),
    ensures
        said(o, g, w).features.pickup.call_groups == network::over(value::groups_at(o, Setting::CallGroup), Seq::empty()),
        said(o, g, w).features.pickup.pickup_groups == network::over(value::groups_at(o, Setting::PickupGroup), Seq::empty()),
        said(o, g, w).features.pickup.named_call_groups == network::over(value::names_at(o, Setting::NamedCallGroup), Seq::empty()),
        said(o, g, w).features.pickup.named_pickup_groups == network::over(value::names_at(o, Setting::NamedPickupGroup), Seq::empty()),
        said(o, g, w).features.pickup.directed == network::over(value::flag_at(o, Setting::DirectedPickup), true),
        said(o, g, w).features.pickup.directed_context == network::over(value::optional_at(o, Setting::DirectedPickupContext), None),
        said(o, g, w).features.pickup.answer_directed == network::over(value::flag_at(o, Setting::PickupModeAnswer), true),
        said(o, g, w).features.parking.lot == network::over(value::empty_optional_at(o, Setting::ParkingLot), None),
        said(o, g, w).features.conference.enabled == value::flag_at(o, Setting::ConferenceEnabled),
        said(o, g, w).features.conference.destination == network::over(value::empty_optional_at(o, Setting::ConferenceNumber), None),
        said(o, g, w).features.conference.application_options == value::app_options_at(o, Setting::ConferenceOptions),
{
    reveal(is_accepted);
    reveal(said);
}

proof fn lemma_call_group(o: option::OptionsView, g: policy::GeneralConfigView, w: rules::LayerRulesView, x: section::RawValueView)
    requires
        is_set(o, g, w, Setting::CallGroup, x),
        said(o, g, w).features.pickup.call_groups == network::over(value::groups_at(o, Setting::CallGroup), Seq::empty()),
    ensures
        ({
            let r = said(o, g, w);
            let v = x.value;
            let p = section::place(x);
            &&& value::value_in(group::numeric_setting(p, v)) == Some(r.features.pickup.call_groups)
        }),
{
    reveal(is_set);
}

proof fn lemma_pickup_group(o: option::OptionsView, g: policy::GeneralConfigView, w: rules::LayerRulesView, x: section::RawValueView)
    requires
        is_set(o, g, w, Setting::PickupGroup, x),
        said(o, g, w).features.pickup.pickup_groups == network::over(value::groups_at(o, Setting::PickupGroup), Seq::empty()),
    ensures
        ({
            let r = said(o, g, w);
            let v = x.value;
            let p = section::place(x);
            &&& value::value_in(group::numeric_setting(p, v)) == Some(r.features.pickup.pickup_groups)
        }),
{
    reveal(is_set);
}

proof fn lemma_named_call_group(o: option::OptionsView, g: policy::GeneralConfigView, w: rules::LayerRulesView, x: section::RawValueView)
    requires
        is_set(o, g, w, Setting::NamedCallGroup, x),
        said(o, g, w).features.pickup.named_call_groups == network::over(value::names_at(o, Setting::NamedCallGroup), Seq::empty()),
    ensures
        ({
            let r = said(o, g, w);
            let v = x.value;
            let p = section::place(x);
            &&& value::value_in(group::named_setting(p, v)) == Some(r.features.pickup.named_call_groups)
        }),
{
    reveal(is_set);
}

proof fn lemma_named_pickup_group(o: option::OptionsView, g: policy::GeneralConfigView, w: rules::LayerRulesView, x: section::RawValueView)
    requires
        is_set(o, g, w, Setting::NamedPickupGroup, x),
        said(o, g, w).features.pickup.named_pickup_groups == network::over(value::names_at(o, Setting::NamedPickupGroup), Seq::empty()),
    ensures
        ({
            let r = said(o, g, w);
            let v = x.value;
            let p = section::place(x);
            &&& value::value_in(group::named_setting(p, v)) == Some(r.features.pickup.named_pickup_groups)
        }),
{
    reveal(is_set);
}

proof fn lemma_directed_pickup(o: option::OptionsView, g: policy::GeneralConfigView, w: rules::LayerRulesView, x: section::RawValueView)
    requires
        is_set(o, g, w, Setting::DirectedPickup, x),
        said(o, g, w).features.pickup.directed == network::over(value::flag_at(o, Setting::DirectedPickup), true),
    ensures
        ({
            let r = said(o, g, w);
            let v = x.value;
            let p = section::place(x);
            &&& says(v, r.features.pickup.directed)
        }),
{
    reveal(is_set);
}

proof fn lemma_directed_pickup_context(o: option::OptionsView, g: policy::GeneralConfigView, w: rules::LayerRulesView, x: section::RawValueView)
    requires
        is_set(o, g, w, Setting::DirectedPickupContext, x),
        said(o, g, w).features.pickup.directed_context == network::over(value::optional_at(o, Setting::DirectedPickupContext), None),
    ensures
        ({
            let r = said(o, g, w);
            let v = x.value;
            let p = section::place(x);
            &&& value::value_in(setting::optional_setting(p, v)) == Some(r.features.pickup.directed_context)
        }),
{
    reveal(is_set);
}

proof fn lemma_pickup_mode_answer(o: option::OptionsView, g: policy::GeneralConfigView, w: rules::LayerRulesView, x: section::RawValueView)
    requires
        is_set(o, g, w, Setting::PickupModeAnswer, x),
        said(o, g, w).features.pickup.answer_directed == network::over(value::flag_at(o, Setting::PickupModeAnswer), true),
    ensures
        ({
            let r = said(o, g, w);
            let v = x.value;
            let p = section::place(x);
            &&& says(v, r.features.pickup.answer_directed)
        }),
{
    reveal(is_set);
}

proof fn lemma_parking_lot(o: option::OptionsView, g: policy::GeneralConfigView, w: rules::LayerRulesView, x: section::RawValueView)
    requires
        is_set(o, g, w, Setting::ParkingLot, x),
        said(o, g, w).features.parking.lot == network::over(value::empty_optional_at(o, Setting::ParkingLot), None),
    ensures
        ({
            let r = said(o, g, w);
            let v = x.value;
            let p = section::place(x);
            &&& value::value_in(setting::empty_optional_setting(p, v)) == Some(r.features.parking.lot)
        }),
{
    reveal(is_set);
}

proof fn lemma_conference_enabled(o: option::OptionsView, g: policy::GeneralConfigView, w: rules::LayerRulesView, x: section::RawValueView)
    requires
        is_set(o, g, w, Setting::ConferenceEnabled, x),
        said(o, g, w).features.conference.enabled == value::flag_at(o, Setting::ConferenceEnabled),
    ensures
        ({
            let r = said(o, g, w);
            let v = x.value;
            let p = section::place(x);
            &&& r.features.conference.enabled is Some
            &&& says(v, r.features.conference.enabled->0)
        }),
{
    reveal(is_set);
}

proof fn lemma_conference_number(o: option::OptionsView, g: policy::GeneralConfigView, w: rules::LayerRulesView, x: section::RawValueView)
    requires
        is_set(o, g, w, Setting::ConferenceNumber, x),
        said(o, g, w).features.conference.destination == network::over(value::empty_optional_at(o, Setting::ConferenceNumber), None),
    ensures
        ({
            let r = said(o, g, w);
            let v = x.value;
            let p = section::place(x);
            &&& value::value_in(setting::empty_optional_setting(p, v)) == Some(r.features.conference.destination)
        }),
{
    reveal(is_set);
}

proof fn lemma_conference_options(o: option::OptionsView, g: policy::GeneralConfigView, w: rules::LayerRulesView, x: section::RawValueView)
    requires
        is_set(o, g, w, Setting::ConferenceOptions, x),
        said(o, g, w).features.conference.application_options == value::app_options_at(o, Setting::ConferenceOptions),
    ensures
        ({
            let r = said(o, g, w);
            let v = x.value;
            let p = section::place(x);
            &&& r.features.conference.application_options == Some(text::trimmed(v))
        }),
{
    reveal(is_set);
}

/// Pickup, parking and conferences: what stands where an option is not set.
pub proof fn law_line_pickup_have_defaults(s: section::RawSectionView, g: policy::GeneralConfigView, w: rules::LayerRulesView)
    requires
        line::line_setting(s, g, w) is Ok,
    ensures
        ({
            let r = line::line_setting(s, g, w)->Ok_0;
            &&& unset(s, "call_group"@) && unset(s, "callgroup"@) ==> (r.features.pickup.call_groups.len() == 0)
            &&& unset(s, "pickup_group"@) && unset(s, "pickupgroup"@) ==> (r.features.pickup.pickup_groups.len() == 0)
            &&& unset(s, "named_call_group"@) && unset(s, "namedcallgroup"@) ==> (r.features.pickup.named_call_groups.len() == 0)
            &&& unset(s, "named_pickup_group"@) && unset(s, "namedpickupgroup"@) ==> (r.features.pickup.named_pickup_groups.len() == 0)
            &&& unset(s, "directed_pickup"@) && unset(s, "directedpickup"@) ==> (r.features.pickup.directed)
            &&& unset(s, "directed_pickup_context"@) && unset(s, "directedpickupcontext"@) ==> (r.features.pickup.directed_context is None)
            &&& unset(s, "directedpickupmodeanswer"@) && unset(s, "pickup_mode_answer"@) && unset(s, "pickupmodeanswer"@) ==> (r.features.pickup.answer_directed)
            &&& unset(s, "parkinglot"@) ==> (r.features.parking.lot is None)
            &&& unset(s, "meetme"@) ==> (r.features.conference.enabled is None)
            &&& unset(s, "meetmenum"@) ==> (r.features.conference.destination is None)
            &&& unset(s, "meetmeopts"@) ==> (r.features.conference.application_options is None)
        }),
{
    let o = lemma_accepted(s, g, w);
    lemma_pickup_without(s, g, w, o);
}

proof fn lemma_pickup_without(s: section::RawSectionView, g: policy::GeneralConfigView, w: rules::LayerRulesView, o: option::OptionsView)
    requires
        is_accepted(s, g, w, o),
    ensures
        ({
            let r = said(o, g, w);
            &&& unset(s, "call_group"@) && unset(s, "callgroup"@) ==> (r.features.pickup.call_groups.len() == 0)
            &&& unset(s, "pickup_group"@) && unset(s, "pickupgroup"@) ==> (r.features.pickup.pickup_groups.len() == 0)
            &&& unset(s, "named_call_group"@) && unset(s, "namedcallgroup"@) ==> (r.features.pickup.named_call_groups.len() == 0)
            &&& unset(s, "named_pickup_group"@) && unset(s, "namedpickupgroup"@) ==> (r.features.pickup.named_pickup_groups.len() == 0)
            &&& unset(s, "directed_pickup"@) && unset(s, "directedpickup"@) ==> (r.features.pickup.directed)
            &&& unset(s, "directed_pickup_context"@) && unset(s, "directedpickupcontext"@) ==> (r.features.pickup.directed_context is None)
            &&& unset(s, "directedpickupmodeanswer"@) && unset(s, "pickup_mode_answer"@) && unset(s, "pickupmodeanswer"@) ==> (r.features.pickup.answer_directed)
            &&& unset(s, "parkinglot"@) ==> (r.features.parking.lot is None)
            &&& unset(s, "meetme"@) ==> (r.features.conference.enabled is None)
            &&& unset(s, "meetmenum"@) ==> (r.features.conference.destination is None)
            &&& unset(s, "meetmeopts"@) ==> (r.features.conference.application_options is None)
        }),
{
    lemma_pickup_said(s, g, w, o);
    if unset(s, "call_group"@) && unset(s, "callgroup"@) {
        lemma_without_call_group(s, g, w, o);
    }
    if unset(s, "pickup_group"@) && unset(s, "pickupgroup"@) {
        lemma_without_pickup_group(s, g, w, o);
    }
    if unset(s, "named_call_group"@) && unset(s, "namedcallgroup"@) {
        lemma_without_named_call_group(s, g, w, o);
    }
    if unset(s, "named_pickup_group"@) && unset(s, "namedpickupgroup"@) {
        lemma_without_named_pickup_group(s, g, w, o);
    }
    if unset(s, "directed_pickup"@) && unset(s, "directedpickup"@) {
        lemma_without_directed_pickup(s, g, w, o);
    }
    if unset(s, "directed_pickup_context"@) && unset(s, "directedpickupcontext"@) {
        lemma_without_directed_pickup_context(s, g, w, o);
    }
    if unset(s, "directedpickupmodeanswer"@) && unset(s, "pickup_mode_answer"@) && unset(s, "pickupmodeanswer"@) {
        lemma_without_pickup_mode_answer(s, g, w, o);
    }
    if unset(s, "parkinglot"@) {
        lemma_without_parking_lot(s, g, w, o);
    }
    if unset(s, "meetme"@) {
        lemma_without_conference_enabled(s, g, w, o);
    }
    if unset(s, "meetmenum"@) {
        lemma_without_conference_number(s, g, w, o);
    }
    if unset(s, "meetmeopts"@) {
        lemma_without_conference_options(s, g, w, o);
    }
}

proof fn lemma_without_call_group(s: section::RawSectionView, g: policy::GeneralConfigView, w: rules::LayerRulesView, o: option::OptionsView)
    requires
        is_accepted(s, g, w, o),
        unset(s, "call_group"@),
        unset(s, "callgroup"@),
        said(o, g, w).features.pickup.call_groups == network::over(value::groups_at(o, Setting::CallGroup), Seq::empty()),
    ensures
        ({
            let r = said(o, g, w);
            r.features.pickup.call_groups.len() == 0
        }),
{
    assert forall|i: int| 0 <= i < s.values.len() implies meaning_of(
        text::lower((#[trigger] s.values[i]).key),
    ) != Some(Setting::CallGroup) by {
        lemma_back(text::lower(s.values[i].key));
    }
    lemma_absent(s, g, w, o, Setting::CallGroup);
    reveal(is_absent);
}

proof fn lemma_without_pickup_group(s: section::RawSectionView, g: policy::GeneralConfigView, w: rules::LayerRulesView, o: option::OptionsView)
    requires
        is_accepted(s, g, w, o),
        unset(s, "pickup_group"@),
        unset(s, "pickupgroup"@),
        said(o, g, w).features.pickup.pickup_groups == network::over(value::groups_at(o, Setting::PickupGroup), Seq::empty()),
    ensures
        ({
            let r = said(o, g, w);
            r.features.pickup.pickup_groups.len() == 0
        }),
{
    assert forall|i: int| 0 <= i < s.values.len() implies meaning_of(
        text::lower((#[trigger] s.values[i]).key),
    ) != Some(Setting::PickupGroup) by {
        lemma_back(text::lower(s.values[i].key));
    }
    lemma_absent(s, g, w, o, Setting::PickupGroup);
    reveal(is_absent);
}

proof fn lemma_without_named_call_group(s: section::RawSectionView, g: policy::GeneralConfigView, w: rules::LayerRulesView, o: option::OptionsView)
    requires
        is_accepted(s, g, w, o),
        unset(s, "named_call_group"@),
        unset(s, "namedcallgroup"@),
        said(o, g, w).features.pickup.named_call_groups == network::over(value::names_at(o, Setting::NamedCallGroup), Seq::empty()),
    ensures
        ({
            let r = said(o, g, w);
            r.features.pickup.named_call_groups.len() == 0
        }),
{
    assert forall|i: int| 0 <= i < s.values.len() implies meaning_of(
        text::lower((#[trigger] s.values[i]).key),
    ) != Some(Setting::NamedCallGroup) by {
        lemma_back(text::lower(s.values[i].key));
    }
    lemma_absent(s, g, w, o, Setting::NamedCallGroup);
    reveal(is_absent);
}

proof fn lemma_without_named_pickup_group(s: section::RawSectionView, g: policy::GeneralConfigView, w: rules::LayerRulesView, o: option::OptionsView)
    requires
        is_accepted(s, g, w, o),
        unset(s, "named_pickup_group"@),
        unset(s, "namedpickupgroup"@),
        said(o, g, w).features.pickup.named_pickup_groups == network::over(value::names_at(o, Setting::NamedPickupGroup), Seq::empty()),
    ensures
        ({
            let r = said(o, g, w);
            r.features.pickup.named_pickup_groups.len() == 0
        }),
{
    assert forall|i: int| 0 <= i < s.values.len() implies meaning_of(
        text::lower((#[trigger] s.values[i]).key),
    ) != Some(Setting::NamedPickupGroup) by {
        lemma_back(text::lower(s.values[i].key));
    }
    lemma_absent(s, g, w, o, Setting::NamedPickupGroup);
    reveal(is_absent);
}

proof fn lemma_without_directed_pickup(s: section::RawSectionView, g: policy::GeneralConfigView, w: rules::LayerRulesView, o: option::OptionsView)
    requires
        is_accepted(s, g, w, o),
        unset(s, "directed_pickup"@),
        unset(s, "directedpickup"@),
        said(o, g, w).features.pickup.directed == network::over(value::flag_at(o, Setting::DirectedPickup), true),
    ensures
        ({
            let r = said(o, g, w);
            r.features.pickup.directed
        }),
{
    assert forall|i: int| 0 <= i < s.values.len() implies meaning_of(
        text::lower((#[trigger] s.values[i]).key),
    ) != Some(Setting::DirectedPickup) by {
        lemma_back(text::lower(s.values[i].key));
    }
    lemma_absent(s, g, w, o, Setting::DirectedPickup);
    reveal(is_absent);
}

proof fn lemma_without_directed_pickup_context(s: section::RawSectionView, g: policy::GeneralConfigView, w: rules::LayerRulesView, o: option::OptionsView)
    requires
        is_accepted(s, g, w, o),
        unset(s, "directed_pickup_context"@),
        unset(s, "directedpickupcontext"@),
        said(o, g, w).features.pickup.directed_context == network::over(value::optional_at(o, Setting::DirectedPickupContext), None),
    ensures
        ({
            let r = said(o, g, w);
            r.features.pickup.directed_context is None
        }),
{
    assert forall|i: int| 0 <= i < s.values.len() implies meaning_of(
        text::lower((#[trigger] s.values[i]).key),
    ) != Some(Setting::DirectedPickupContext) by {
        lemma_back(text::lower(s.values[i].key));
    }
    lemma_absent(s, g, w, o, Setting::DirectedPickupContext);
    reveal(is_absent);
}

proof fn lemma_without_pickup_mode_answer(s: section::RawSectionView, g: policy::GeneralConfigView, w: rules::LayerRulesView, o: option::OptionsView)
    requires
        is_accepted(s, g, w, o),
        unset(s, "directedpickupmodeanswer"@),
        unset(s, "pickup_mode_answer"@),
        unset(s, "pickupmodeanswer"@),
        said(o, g, w).features.pickup.answer_directed == network::over(value::flag_at(o, Setting::PickupModeAnswer), true),
    ensures
        ({
            let r = said(o, g, w);
            r.features.pickup.answer_directed
        }),
{
    assert forall|i: int| 0 <= i < s.values.len() implies meaning_of(
        text::lower((#[trigger] s.values[i]).key),
    ) != Some(Setting::PickupModeAnswer) by {
        lemma_back(text::lower(s.values[i].key));
    }
    lemma_absent(s, g, w, o, Setting::PickupModeAnswer);
    reveal(is_absent);
}

proof fn lemma_without_parking_lot(s: section::RawSectionView, g: policy::GeneralConfigView, w: rules::LayerRulesView, o: option::OptionsView)
    requires
        is_accepted(s, g, w, o),
        unset(s, "parkinglot"@),
        said(o, g, w).features.parking.lot == network::over(value::empty_optional_at(o, Setting::ParkingLot), None),
    ensures
        ({
            let r = said(o, g, w);
            r.features.parking.lot is None
        }),
{
    assert forall|i: int| 0 <= i < s.values.len() implies meaning_of(
        text::lower((#[trigger] s.values[i]).key),
    ) != Some(Setting::ParkingLot) by {
        lemma_back(text::lower(s.values[i].key));
    }
    lemma_absent(s, g, w, o, Setting::ParkingLot);
    reveal(is_absent);
}

proof fn lemma_without_conference_enabled(s: section::RawSectionView, g: policy::GeneralConfigView, w: rules::LayerRulesView, o: option::OptionsView)
    requires
        is_accepted(s, g, w, o),
        unset(s, "meetme"@),
        said(o, g, w).features.conference.enabled == value::flag_at(o, Setting::ConferenceEnabled),
    ensures
        ({
            let r = said(o, g, w);
            r.features.conference.enabled is None
        }),
{
    assert forall|i: int| 0 <= i < s.values.len() implies meaning_of(
        text::lower((#[trigger] s.values[i]).key),
    ) != Some(Setting::ConferenceEnabled) by {
        lemma_back(text::lower(s.values[i].key));
    }
    lemma_absent(s, g, w, o, Setting::ConferenceEnabled);
    reveal(is_absent);
}

proof fn lemma_without_conference_number(s: section::RawSectionView, g: policy::GeneralConfigView, w: rules::LayerRulesView, o: option::OptionsView)
    requires
        is_accepted(s, g, w, o),
        unset(s, "meetmenum"@),
        said(o, g, w).features.conference.destination == network::over(value::empty_optional_at(o, Setting::ConferenceNumber), None),
    ensures
        ({
            let r = said(o, g, w);
            r.features.conference.destination is None
        }),
{
    assert forall|i: int| 0 <= i < s.values.len() implies meaning_of(
        text::lower((#[trigger] s.values[i]).key),
    ) != Some(Setting::ConferenceNumber) by {
        lemma_back(text::lower(s.values[i].key));
    }
    lemma_absent(s, g, w, o, Setting::ConferenceNumber);
    reveal(is_absent);
}

proof fn lemma_without_conference_options(s: section::RawSectionView, g: policy::GeneralConfigView, w: rules::LayerRulesView, o: option::OptionsView)
    requires
        is_accepted(s, g, w, o),
        unset(s, "meetmeopts"@),
        said(o, g, w).features.conference.application_options == value::app_options_at(o, Setting::ConferenceOptions),
    ensures
        ({
            let r = said(o, g, w);
            r.features.conference.application_options is None
        }),
{
    assert forall|i: int| 0 <= i < s.values.len() implies meaning_of(
        text::lower((#[trigger] s.values[i]).key),
    ) != Some(Setting::ConferenceOptions) by {
        lemma_back(text::lower(s.values[i].key));
    }
    lemma_absent(s, g, w, o, Setting::ConferenceOptions);
    reveal(is_absent);
}

// ---------------------------------------------------------------------------
// Media and tones

/// Media and tones: a setting sets its own field, under each name of its option.
pub proof fn law_line_media_are_set(
    s: section::RawSectionView,
    g: policy::GeneralConfigView,
    w: rules::LayerRulesView,
    i: int,
)
    requires
        line::line_setting(s, g, w) is Ok,
        0 <= i < s.values.len(),
    ensures
        ({
            let r = line::line_setting(s, g, w)->Ok_0;
            let k = text::lower(s.values[i].key);
            let v = s.values[i].value;
            let p = section::place(s.values[i]);
            &&& k == "initial_dialtone_tone"@ ==> {
                &&& value::value_in(tone::tone_setting(p, v, w)) == Some(r.features.dial_tones.initial)
            }
            &&& k == "secondary_dialtone_digits"@ ==> {
                &&& value::value_in(setting::prefix_setting(p, v)) == Some(r.features.dial_tones.secondary_prefix)
            }
            &&& k == "secondary_dialtone_tone"@ ==> {
                &&& value::value_in(tone::tone_setting(p, v, w)) == Some(r.features.dial_tones.secondary)
            }
            &&& k == "audio_encryption"@ || k == "audioencryption"@ ==> {
                &&& value::value_in(codec::encryption_setting(p, v)) == Some(r.features.media.audio_encryption)
            }
            &&& k == "video_mode"@ || k == "videomode"@ ==> {
                &&& value::value_in(setting::video_mode_setting(p, v)) == Some(r.features.media.video_mode)
            }
            &&& k == "echocancel"@ ==> {
                &&& says(v, r.features.media.audio_processing.echo_cancellation is On)
            }
            &&& k == "silencesuppression"@ ==> {
                &&& says(v, r.features.media.audio_processing.silence_suppression is On)
            }
        }),
{
    let o = lemma_accepted(s, g, w);
    lemma_media_of(s, g, w, o, i);
}

proof fn lemma_media_of(
    s: section::RawSectionView,
    g: policy::GeneralConfigView,
    w: rules::LayerRulesView,
    o: option::OptionsView,
    i: int,
)
    requires
        is_accepted(s, g, w, o),
        0 <= i < s.values.len(),
        meaning_of(text::lower(s.values[i].key)) == Some(o.settings[i]),
        is_set(o, g, w, o.settings[i], s.values[i]),
    ensures
        ({
            let r = said(o, g, w);
            let k = text::lower(s.values[i].key);
            let v = s.values[i].value;
            let p = section::place(s.values[i]);
            &&& k == "initial_dialtone_tone"@ ==> {
                &&& value::value_in(tone::tone_setting(p, v, w)) == Some(r.features.dial_tones.initial)
            }
            &&& k == "secondary_dialtone_digits"@ ==> {
                &&& value::value_in(setting::prefix_setting(p, v)) == Some(r.features.dial_tones.secondary_prefix)
            }
            &&& k == "secondary_dialtone_tone"@ ==> {
                &&& value::value_in(tone::tone_setting(p, v, w)) == Some(r.features.dial_tones.secondary)
            }
            &&& k == "audio_encryption"@ || k == "audioencryption"@ ==> {
                &&& value::value_in(codec::encryption_setting(p, v)) == Some(r.features.media.audio_encryption)
            }
            &&& k == "video_mode"@ || k == "videomode"@ ==> {
                &&& value::value_in(setting::video_mode_setting(p, v)) == Some(r.features.media.video_mode)
            }
            &&& k == "echocancel"@ ==> {
                &&& says(v, r.features.media.audio_processing.echo_cancellation is On)
            }
            &&& k == "silencesuppression"@ ==> {
                &&& says(v, r.features.media.audio_processing.silence_suppression is On)
            }
        }),
{
    let k = text::lower(s.values[i].key);
    lemma_media_forth(k);
    lemma_media_said(s, g, w, o);
    if k == "initial_dialtone_tone"@ {
        lemma_initial_dialtone_tone(o, g, w, s.values[i]);
    }
    if k == "secondary_dialtone_digits"@ {
        lemma_secondary_dialtone_digits(o, g, w, s.values[i]);
    }
    if k == "secondary_dialtone_tone"@ {
        lemma_secondary_dialtone_tone(o, g, w, s.values[i]);
    }
    if k == "audio_encryption"@ || k == "audioencryption"@ {
        lemma_audio_encryption(o, g, w, s.values[i]);
    }
    if k == "video_mode"@ || k == "videomode"@ {
        lemma_video_mode(o, g, w, s.values[i]);
    }
    if k == "echocancel"@ {
        lemma_echo_cancel(o, g, w, s.values[i]);
    }
    if k == "silencesuppression"@ {
        lemma_silence_suppression(o, g, w, s.values[i]);
    }
}

proof fn lemma_media_forth(n: text::Text)
    ensures
        n == "initial_dialtone_tone"@ ==> meaning_of(n) == Some(Setting::InitialDialtoneTone),
        n == "secondary_dialtone_digits"@ ==> meaning_of(n) == Some(Setting::SecondaryDialtoneDigits),
        n == "secondary_dialtone_tone"@ ==> meaning_of(n) == Some(Setting::SecondaryDialtoneTone),
        n == "audio_encryption"@ || n == "audioencryption"@ ==> meaning_of(n) == Some(Setting::AudioEncryption),
        n == "video_mode"@ || n == "videomode"@ ==> meaning_of(n) == Some(Setting::VideoMode),
        n == "echocancel"@ ==> meaning_of(n) == Some(Setting::EchoCancel),
        n == "silencesuppression"@ ==> meaning_of(n) == Some(Setting::SilenceSuppression),
{
    lemma_forth(n);
}

/// Where these fields come from.
proof fn lemma_media_said(s: section::RawSectionView, g: policy::GeneralConfigView, w: rules::LayerRulesView, o: option::OptionsView)
    requires
        is_accepted(s, g, w, o),
    ensures
        said(o, g, w).features.dial_tones.initial == network::over(value::tone_at(o, Setting::InitialDialtoneTone, w), Tone::InsideDial),
        said(o, g, w).features.dial_tones.secondary_prefix == network::over(value::prefix_at(o, Setting::SecondaryDialtoneDigits), None),
        said(o, g, w).features.dial_tones.secondary == network::over(value::tone_at(o, Setting::SecondaryDialtoneTone, w), Tone::OutsideDial),
        said(o, g, w).features.media.audio_encryption == network::over(value::encryption_at(o, Setting::AudioEncryption), g.audio_encryption),
        said(o, g, w).features.media.video_mode == network::over(value::video_mode_at(o, Setting::VideoMode), VideoMode::Auto),
        said(o, g, w).features.media.audio_processing == line::processing_of(o, g.audio_processing),
{
    reveal(is_accepted);
    reveal(said);
}

proof fn lemma_initial_dialtone_tone(o: option::OptionsView, g: policy::GeneralConfigView, w: rules::LayerRulesView, x: section::RawValueView)
    requires
        is_set(o, g, w, Setting::InitialDialtoneTone, x),
        said(o, g, w).features.dial_tones.initial == network::over(value::tone_at(o, Setting::InitialDialtoneTone, w), Tone::InsideDial),
    ensures
        ({
            let r = said(o, g, w);
            let v = x.value;
            let p = section::place(x);
            &&& value::value_in(tone::tone_setting(p, v, w)) == Some(r.features.dial_tones.initial)
        }),
{
    reveal(is_set);
}

proof fn lemma_secondary_dialtone_digits(o: option::OptionsView, g: policy::GeneralConfigView, w: rules::LayerRulesView, x: section::RawValueView)
    requires
        is_set(o, g, w, Setting::SecondaryDialtoneDigits, x),
        said(o, g, w).features.dial_tones.secondary_prefix == network::over(value::prefix_at(o, Setting::SecondaryDialtoneDigits), None),
    ensures
        ({
            let r = said(o, g, w);
            let v = x.value;
            let p = section::place(x);
            &&& value::value_in(setting::prefix_setting(p, v)) == Some(r.features.dial_tones.secondary_prefix)
        }),
{
    reveal(is_set);
}

proof fn lemma_secondary_dialtone_tone(o: option::OptionsView, g: policy::GeneralConfigView, w: rules::LayerRulesView, x: section::RawValueView)
    requires
        is_set(o, g, w, Setting::SecondaryDialtoneTone, x),
        said(o, g, w).features.dial_tones.secondary == network::over(value::tone_at(o, Setting::SecondaryDialtoneTone, w), Tone::OutsideDial),
    ensures
        ({
            let r = said(o, g, w);
            let v = x.value;
            let p = section::place(x);
            &&& value::value_in(tone::tone_setting(p, v, w)) == Some(r.features.dial_tones.secondary)
        }),
{
    reveal(is_set);
}

proof fn lemma_audio_encryption(o: option::OptionsView, g: policy::GeneralConfigView, w: rules::LayerRulesView, x: section::RawValueView)
    requires
        is_set(o, g, w, Setting::AudioEncryption, x),
        said(o, g, w).features.media.audio_encryption == network::over(value::encryption_at(o, Setting::AudioEncryption), g.audio_encryption),
    ensures
        ({
            let r = said(o, g, w);
            let v = x.value;
            let p = section::place(x);
            &&& value::value_in(codec::encryption_setting(p, v)) == Some(r.features.media.audio_encryption)
        }),
{
    reveal(is_set);
}

proof fn lemma_video_mode(o: option::OptionsView, g: policy::GeneralConfigView, w: rules::LayerRulesView, x: section::RawValueView)
    requires
        is_set(o, g, w, Setting::VideoMode, x),
        said(o, g, w).features.media.video_mode == network::over(value::video_mode_at(o, Setting::VideoMode), VideoMode::Auto),
    ensures
        ({
            let r = said(o, g, w);
            let v = x.value;
            let p = section::place(x);
            &&& value::value_in(setting::video_mode_setting(p, v)) == Some(r.features.media.video_mode)
        }),
{
    reveal(is_set);
}

proof fn lemma_echo_cancel(o: option::OptionsView, g: policy::GeneralConfigView, w: rules::LayerRulesView, x: section::RawValueView)
    requires
        is_set(o, g, w, Setting::EchoCancel, x),
        said(o, g, w).features.media.audio_processing == line::processing_of(o, g.audio_processing),
    ensures
        ({
            let r = said(o, g, w);
            let v = x.value;
            let p = section::place(x);
            &&& says(v, r.features.media.audio_processing.echo_cancellation is On)
        }),
{
    reveal(is_set);
}

proof fn lemma_silence_suppression(o: option::OptionsView, g: policy::GeneralConfigView, w: rules::LayerRulesView, x: section::RawValueView)
    requires
        is_set(o, g, w, Setting::SilenceSuppression, x),
        said(o, g, w).features.media.audio_processing == line::processing_of(o, g.audio_processing),
    ensures
        ({
            let r = said(o, g, w);
            let v = x.value;
            let p = section::place(x);
            &&& says(v, r.features.media.audio_processing.silence_suppression is On)
        }),
{
    reveal(is_set);
}

/// Media and tones: what stands where an option is not set.
pub proof fn law_line_media_have_defaults(s: section::RawSectionView, g: policy::GeneralConfigView, w: rules::LayerRulesView)
    requires
        line::line_setting(s, g, w) is Ok,
    ensures
        ({
            let r = line::line_setting(s, g, w)->Ok_0;
            &&& unset(s, "initial_dialtone_tone"@) ==> (r.features.dial_tones.initial == Tone::InsideDial)
            &&& unset(s, "secondary_dialtone_digits"@) ==> (r.features.dial_tones.secondary_prefix is None)
            &&& unset(s, "secondary_dialtone_tone"@) ==> (r.features.dial_tones.secondary == Tone::OutsideDial)
            &&& unset(s, "audio_encryption"@) && unset(s, "audioencryption"@) ==> (r.features.media.audio_encryption == g.audio_encryption)
            &&& unset(s, "video_mode"@) && unset(s, "videomode"@) ==> (r.features.media.video_mode is Auto)
            &&& unset(s, "echocancel"@) ==> (r.features.media.audio_processing.echo_cancellation == g.audio_processing.echo_cancellation)
            &&& unset(s, "silencesuppression"@) ==> (r.features.media.audio_processing.silence_suppression == g.audio_processing.silence_suppression)
        }),
{
    let o = lemma_accepted(s, g, w);
    lemma_media_without(s, g, w, o);
}

proof fn lemma_media_without(s: section::RawSectionView, g: policy::GeneralConfigView, w: rules::LayerRulesView, o: option::OptionsView)
    requires
        is_accepted(s, g, w, o),
    ensures
        ({
            let r = said(o, g, w);
            &&& unset(s, "initial_dialtone_tone"@) ==> (r.features.dial_tones.initial == Tone::InsideDial)
            &&& unset(s, "secondary_dialtone_digits"@) ==> (r.features.dial_tones.secondary_prefix is None)
            &&& unset(s, "secondary_dialtone_tone"@) ==> (r.features.dial_tones.secondary == Tone::OutsideDial)
            &&& unset(s, "audio_encryption"@) && unset(s, "audioencryption"@) ==> (r.features.media.audio_encryption == g.audio_encryption)
            &&& unset(s, "video_mode"@) && unset(s, "videomode"@) ==> (r.features.media.video_mode is Auto)
            &&& unset(s, "echocancel"@) ==> (r.features.media.audio_processing.echo_cancellation == g.audio_processing.echo_cancellation)
            &&& unset(s, "silencesuppression"@) ==> (r.features.media.audio_processing.silence_suppression == g.audio_processing.silence_suppression)
        }),
{
    lemma_media_said(s, g, w, o);
    if unset(s, "initial_dialtone_tone"@) {
        lemma_without_initial_dialtone_tone(s, g, w, o);
    }
    if unset(s, "secondary_dialtone_digits"@) {
        lemma_without_secondary_dialtone_digits(s, g, w, o);
    }
    if unset(s, "secondary_dialtone_tone"@) {
        lemma_without_secondary_dialtone_tone(s, g, w, o);
    }
    if unset(s, "audio_encryption"@) && unset(s, "audioencryption"@) {
        lemma_without_audio_encryption(s, g, w, o);
    }
    if unset(s, "video_mode"@) && unset(s, "videomode"@) {
        lemma_without_video_mode(s, g, w, o);
    }
    if unset(s, "echocancel"@) {
        lemma_without_echo_cancel(s, g, w, o);
    }
    if unset(s, "silencesuppression"@) {
        lemma_without_silence_suppression(s, g, w, o);
    }
}

proof fn lemma_without_initial_dialtone_tone(s: section::RawSectionView, g: policy::GeneralConfigView, w: rules::LayerRulesView, o: option::OptionsView)
    requires
        is_accepted(s, g, w, o),
        unset(s, "initial_dialtone_tone"@),
        said(o, g, w).features.dial_tones.initial == network::over(value::tone_at(o, Setting::InitialDialtoneTone, w), Tone::InsideDial),
    ensures
        ({
            let r = said(o, g, w);
            r.features.dial_tones.initial == Tone::InsideDial
        }),
{
    assert forall|i: int| 0 <= i < s.values.len() implies meaning_of(
        text::lower((#[trigger] s.values[i]).key),
    ) != Some(Setting::InitialDialtoneTone) by {
        lemma_back(text::lower(s.values[i].key));
    }
    lemma_absent(s, g, w, o, Setting::InitialDialtoneTone);
    reveal(is_absent);
}

proof fn lemma_without_secondary_dialtone_digits(s: section::RawSectionView, g: policy::GeneralConfigView, w: rules::LayerRulesView, o: option::OptionsView)
    requires
        is_accepted(s, g, w, o),
        unset(s, "secondary_dialtone_digits"@),
        said(o, g, w).features.dial_tones.secondary_prefix == network::over(value::prefix_at(o, Setting::SecondaryDialtoneDigits), None),
    ensures
        ({
            let r = said(o, g, w);
            r.features.dial_tones.secondary_prefix is None
        }),
{
    assert forall|i: int| 0 <= i < s.values.len() implies meaning_of(
        text::lower((#[trigger] s.values[i]).key),
    ) != Some(Setting::SecondaryDialtoneDigits) by {
        lemma_back(text::lower(s.values[i].key));
    }
    lemma_absent(s, g, w, o, Setting::SecondaryDialtoneDigits);
    reveal(is_absent);
}

proof fn lemma_without_secondary_dialtone_tone(s: section::RawSectionView, g: policy::GeneralConfigView, w: rules::LayerRulesView, o: option::OptionsView)
    requires
        is_accepted(s, g, w, o),
        unset(s, "secondary_dialtone_tone"@),
        said(o, g, w).features.dial_tones.secondary == network::over(value::tone_at(o, Setting::SecondaryDialtoneTone, w), Tone::OutsideDial),
    ensures
        ({
            let r = said(o, g, w);
            r.features.dial_tones.secondary == Tone::OutsideDial
        }),
{
    assert forall|i: int| 0 <= i < s.values.len() implies meaning_of(
        text::lower((#[trigger] s.values[i]).key),
    ) != Some(Setting::SecondaryDialtoneTone) by {
        lemma_back(text::lower(s.values[i].key));
    }
    lemma_absent(s, g, w, o, Setting::SecondaryDialtoneTone);
    reveal(is_absent);
}

proof fn lemma_without_audio_encryption(s: section::RawSectionView, g: policy::GeneralConfigView, w: rules::LayerRulesView, o: option::OptionsView)
    requires
        is_accepted(s, g, w, o),
        unset(s, "audio_encryption"@),
        unset(s, "audioencryption"@),
        said(o, g, w).features.media.audio_encryption == network::over(value::encryption_at(o, Setting::AudioEncryption), g.audio_encryption),
    ensures
        ({
            let r = said(o, g, w);
            r.features.media.audio_encryption == g.audio_encryption
        }),
{
    assert forall|i: int| 0 <= i < s.values.len() implies meaning_of(
        text::lower((#[trigger] s.values[i]).key),
    ) != Some(Setting::AudioEncryption) by {
        lemma_back(text::lower(s.values[i].key));
    }
    lemma_absent(s, g, w, o, Setting::AudioEncryption);
    reveal(is_absent);
}

proof fn lemma_without_video_mode(s: section::RawSectionView, g: policy::GeneralConfigView, w: rules::LayerRulesView, o: option::OptionsView)
    requires
        is_accepted(s, g, w, o),
        unset(s, "video_mode"@),
        unset(s, "videomode"@),
        said(o, g, w).features.media.video_mode == network::over(value::video_mode_at(o, Setting::VideoMode), VideoMode::Auto),
    ensures
        ({
            let r = said(o, g, w);
            r.features.media.video_mode is Auto
        }),
{
    assert forall|i: int| 0 <= i < s.values.len() implies meaning_of(
        text::lower((#[trigger] s.values[i]).key),
    ) != Some(Setting::VideoMode) by {
        lemma_back(text::lower(s.values[i].key));
    }
    lemma_absent(s, g, w, o, Setting::VideoMode);
    reveal(is_absent);
}

proof fn lemma_without_echo_cancel(s: section::RawSectionView, g: policy::GeneralConfigView, w: rules::LayerRulesView, o: option::OptionsView)
    requires
        is_accepted(s, g, w, o),
        unset(s, "echocancel"@),
        said(o, g, w).features.media.audio_processing == line::processing_of(o, g.audio_processing),
    ensures
        ({
            let r = said(o, g, w);
            r.features.media.audio_processing.echo_cancellation == g.audio_processing.echo_cancellation
        }),
{
    assert forall|i: int| 0 <= i < s.values.len() implies meaning_of(
        text::lower((#[trigger] s.values[i]).key),
    ) != Some(Setting::EchoCancel) by {
        lemma_back(text::lower(s.values[i].key));
    }
    lemma_absent(s, g, w, o, Setting::EchoCancel);
    reveal(is_absent);
}

proof fn lemma_without_silence_suppression(s: section::RawSectionView, g: policy::GeneralConfigView, w: rules::LayerRulesView, o: option::OptionsView)
    requires
        is_accepted(s, g, w, o),
        unset(s, "silencesuppression"@),
        said(o, g, w).features.media.audio_processing == line::processing_of(o, g.audio_processing),
    ensures
        ({
            let r = said(o, g, w);
            r.features.media.audio_processing.silence_suppression == g.audio_processing.silence_suppression
        }),
{
    assert forall|i: int| 0 <= i < s.values.len() implies meaning_of(
        text::lower((#[trigger] s.values[i]).key),
    ) != Some(Setting::SilenceSuppression) by {
        lemma_back(text::lower(s.values[i].key));
    }
    lemma_absent(s, g, w, o, Setting::SilenceSuppression);
    reveal(is_absent);
}

/// A line goes by the name of its section. `label` is its label, and its name
/// is where there is none; `callerid` is its caller identity, and its name is;
/// `context` is its context, and `from-sccp` is.
pub proof fn law_lines_say_who_they_are(
    s: section::RawSectionView,
    g: policy::GeneralConfigView,
    w: rules::LayerRulesView,
    i: int,
)
    requires
        line::line_setting(s, g, w) is Ok,
        0 <= i < s.values.len(),
    ensures
        ({
            let r = line::line_setting(s, g, w)->Ok_0;
            let k = text::lower(s.values[i].key);
            let v = s.values[i].value;
            &&& r.line.number == s.name
            &&& k == "label"@ ==> r.line.label == v
            &&& k == "context"@ ==> r.line.context == text::trimmed(v)
            &&& k == "callerid"@ ==> (r.line.caller_name, r.line.caller_number)
                == line::caller_of(v)
        }),
{
    let o = lemma_accepted(s, g, w);
    lemma_who(s, g, w, o, i);
}

proof fn lemma_who(
    s: section::RawSectionView,
    g: policy::GeneralConfigView,
    w: rules::LayerRulesView,
    o: option::OptionsView,
    i: int,
)
    requires
        is_accepted(s, g, w, o),
        0 <= i < s.values.len(),
        meaning_of(text::lower(s.values[i].key)) == Some(o.settings[i]),
    ensures
        ({
            let r = said(o, g, w);
            let k = text::lower(s.values[i].key);
            let v = s.values[i].value;
            &&& r.line.number == s.name
            &&& k == "label"@ ==> r.line.label == v
            &&& k == "context"@ ==> r.line.context == text::trimmed(v)
            &&& k == "callerid"@ ==> (r.line.caller_name, r.line.caller_number)
                == line::caller_of(v)
        }),
{
    let k = text::lower(s.values[i].key);
    if k == "label"@ || k == "context"@ || k == "callerid"@ {
        lemma_forth(k);
        lemma_only(s, g, w, o, i);
    }
    lemma_names_said(s, g, w, o);
    lemma_lower_names();
    if k == "label"@ {
        effect::lemma_value_of(s, "label"@, i);
    }
    if k == "context"@ {
        effect::lemma_value_of(s, "context"@, i);
    }
    if k == "callerid"@ {
        effect::lemma_value_of(s, "callerid"@, i);
    }
}

proof fn lemma_lower_names()
    ensures
        text::lower("label"@) == "label"@,
        text::lower("context"@) == "context"@,
        text::lower("callerid"@) == "callerid"@,
        text::trimmed("from-sccp"@) == "from-sccp"@,
{
    reveal_strlit("label");
    reveal_strlit("context");
    reveal_strlit("callerid");
    reveal_strlit("from-sccp");
    assert(text::lower("label"@) =~= "label"@);
    assert(text::lower("context"@) =~= "context"@);
    assert(text::lower("callerid"@) =~= "callerid"@);
    assert("from-sccp"@.len() == 9 && "from-sccp"@[0] == 'f' && "from-sccp"@[8] == 'p');
    text::lemma_untrimmed("from-sccp"@);
}

/// What stands for the names of a line that does not set them.
pub proof fn law_lines_without_names_go_by_their_section(
    s: section::RawSectionView,
    g: policy::GeneralConfigView,
    w: rules::LayerRulesView,
)
    requires
        line::line_setting(s, g, w) is Ok,
    ensures
        ({
            let r = line::line_setting(s, g, w)->Ok_0;
            &&& unset(s, "label"@) ==> r.line.label == s.name
            &&& unset(s, "context"@) ==> r.line.context == "from-sccp"@
            &&& unset(s, "callerid"@) ==> r.line.caller_name == s.name && r.line.caller_number
                == s.name
        }),
{
    let o = lemma_accepted(s, g, w);
    lemma_nobody(s, g, w, o);
}

proof fn lemma_nobody(
    s: section::RawSectionView,
    g: policy::GeneralConfigView,
    w: rules::LayerRulesView,
    o: option::OptionsView,
)
    requires
        is_accepted(s, g, w, o),
    ensures
        ({
            let r = said(o, g, w);
            &&& unset(s, "label"@) ==> r.line.label == s.name
            &&& unset(s, "context"@) ==> r.line.context == "from-sccp"@
            &&& unset(s, "callerid"@) ==> r.line.caller_name == s.name && r.line.caller_number
                == s.name
        }),
{
    lemma_names_said(s, g, w, o);
    lemma_lower_names();
    if unset(s, "label"@) {
        effect::lemma_no_value_of(s, "label"@);
    }
    if unset(s, "context"@) {
        effect::lemma_no_value_of(s, "context"@);
    }
    if unset(s, "callerid"@) {
        effect::lemma_no_value_of(s, "callerid"@);
    }
}

proof fn lemma_names_said(
    s: section::RawSectionView,
    g: policy::GeneralConfigView,
    w: rules::LayerRulesView,
    o: option::OptionsView,
)
    requires
        is_accepted(s, g, w, o),
    ensures
        said(o, g, w).line.number == s.name,
        said(o, g, w).line.label == network::over(section::value_of(s, "label"@), s.name),
        said(o, g, w).line.context == text::trimmed(
            network::over(section::value_of(s, "context"@), "from-sccp"@),
        ),
        (said(o, g, w).line.caller_name, said(o, g, w).line.caller_number)
            == line::line_caller(s),
{
    reveal(is_accepted);
    reveal(said);
}

/// No other setting has the name of one that does not repeat.
proof fn lemma_only(
    s: section::RawSectionView,
    g: policy::GeneralConfigView,
    w: rules::LayerRulesView,
    o: option::OptionsView,
    i: int,
)
    requires
        is_accepted(s, g, w, o),
        0 <= i < s.values.len(),
        !value::repeats(o.settings[i]),
        o.settings[i] != Setting::SetVariable,
    ensures
        forall|j: int|
            0 <= j < s.values.len() && j != i ==> text::lower((#[trigger] s.values[j]).key)
                != text::lower(s.values[i].key),
{
    reveal(is_accepted);
    effect::lemma_decoded(Scope::Line, s);
    assert forall|j: int| 0 <= j < s.values.len() && j != i implies text::lower(
        (#[trigger] s.values[j]).key,
    ) != text::lower(s.values[i].key) by {
        if text::lower(s.values[j].key) == text::lower(s.values[i].key) {
            assert(o.settings[j] == o.settings[i]);
            effect::lemma_none_refused(o, w, i, 0);
            effect::lemma_none_refused(o, w, j, 0);
            assert(value::excludes(o.settings[j], o.settings[i]));
            assert(value::excludes(o.settings[i], o.settings[j]));
            if j < i {
                assert(value::is_excluded(o.settings, i));
            } else {
                assert(value::is_excluded(o.settings, j));
            }
        }
    }
}

} // verus!
