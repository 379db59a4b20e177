//! Soft-key profiles.

use vstd::prelude::*;

use crate::config::error;
use crate::config::error::ConfigError;
use crate::config::policy;
use crate::config::policy::SoftKeyProfile;
use crate::config::schema;
use crate::config::schema::SectionField;
use crate::config::section;
use crate::config::section::RawSection;
use crate::station;
use crate::station::KeyMode;
use crate::station::KeySet;
use crate::station::SoftKey;
use crate::text;

verus! {

pub const MAX_SOFT_KEYS_PER_MODE: usize = 16;

// ---------------------------------------------------------------------------
// Names

/// The name of the profile that a device has by default.
pub open spec fn default_name() -> text::Text {
    "default"@
}

/// A profile name as profiles are found by it.
pub open spec fn name_of_profile(raw: text::Text) -> text::Text {
    text::lower(text::trimmed(raw))
}

/// Reduces a profile name.
pub fn canonical_profile_name(raw: &str) -> (r: String)
    ensures
        r@ == name_of_profile(raw@),
{
    text::to_ascii_lowercase(text::trim(raw).as_str())
}

/// The key modes, in order.
pub open spec fn modes() -> Seq<KeyMode> {
    seq![
        KeyMode::OnHook,
        KeyMode::Connected,
        KeyMode::OnHold,
        KeyMode::RingIn,
        KeyMode::OffHook,
        KeyMode::ConnectedTransfer,
        KeyMode::DigitsFollowing,
        KeyMode::ConnectedConference,
        KeyMode::RingOut,
        KeyMode::OffHookFeature,
        KeyMode::InUseHint,
        KeyMode::OnHookStealable,
        KeyMode::HoldConference,
        KeyMode::Empty,
    ]
}

/// The key modes, in order.
pub fn key_modes() -> (r: Vec<KeyMode>)
    ensures
        r@ == modes(),
{
    let r = vec![
        KeyMode::OnHook,
        KeyMode::Connected,
        KeyMode::OnHold,
        KeyMode::RingIn,
        KeyMode::OffHook,
        KeyMode::ConnectedTransfer,
        KeyMode::DigitsFollowing,
        KeyMode::ConnectedConference,
        KeyMode::RingOut,
        KeyMode::OffHookFeature,
        KeyMode::InUseHint,
        KeyMode::OnHookStealable,
        KeyMode::HoldConference,
        KeyMode::Empty,
    ];
    assert(r@ =~= modes());
    r
}

/// The option that sets the keys of a mode.
pub open spec fn mode_name(mode: KeyMode) -> text::Text {
    match mode {
        KeyMode::OnHook => "on_hook"@,
        KeyMode::Connected => "connected"@,
        KeyMode::OnHold => "on_hold"@,
        KeyMode::RingIn => "ring_in"@,
        KeyMode::OffHook => "off_hook"@,
        KeyMode::ConnectedTransfer => "connected_transfer"@,
        KeyMode::DigitsFollowing => "digits_following"@,
        KeyMode::ConnectedConference => "connected_conference"@,
        KeyMode::RingOut => "ring_out"@,
        KeyMode::OffHookFeature => "off_hook_feature"@,
        KeyMode::InUseHint => "in_use_hint"@,
        KeyMode::OnHookStealable => "on_hook_stealable"@,
        KeyMode::HoldConference => "hold_conference"@,
        KeyMode::Empty => "empty"@,
    }
}

/// The option that sets the keys of a mode.
pub fn key_mode_option(mode: KeyMode) -> (r: &'static str)
    ensures
        r@ == mode_name(mode),
{
    match mode {
        KeyMode::OnHook => "on_hook",
        KeyMode::Connected => "connected",
        KeyMode::OnHold => "on_hold",
        KeyMode::RingIn => "ring_in",
        KeyMode::OffHook => "off_hook",
        KeyMode::ConnectedTransfer => "connected_transfer",
        KeyMode::DigitsFollowing => "digits_following",
        KeyMode::ConnectedConference => "connected_conference",
        KeyMode::RingOut => "ring_out",
        KeyMode::OffHookFeature => "off_hook_feature",
        KeyMode::InUseHint => "in_use_hint",
        KeyMode::OnHookStealable => "on_hook_stealable",
        KeyMode::HoldConference => "hold_conference",
        KeyMode::Empty => "empty",
    }
}

/// The soft key that a reduced name stands for.
pub open spec fn named_key(name: text::Text) -> Option<SoftKey> {
    if name == "redial"@ {
        Some(SoftKey::Redial)
    } else if name == "newcall"@ {
        Some(SoftKey::NewCall)
    } else if name == "hold"@ {
        Some(SoftKey::Hold)
    } else if name == "transfer"@ {
        Some(SoftKey::Transfer)
    } else if name == "forwardall"@ || name == "cfwdall"@ {
        Some(SoftKey::ForwardAll)
    } else if name == "forwardbusy"@ || name == "cfwdbusy"@ {
        Some(SoftKey::ForwardBusy)
    } else if name == "forwardnoanswer"@ || name == "cfwdnoanswer"@ {
        Some(SoftKey::ForwardNoAnswer)
    } else if name == "backspace"@ {
        Some(SoftKey::Backspace)
    } else if name == "endcall"@ {
        Some(SoftKey::EndCall)
    } else if name == "resume"@ {
        Some(SoftKey::Resume)
    } else if name == "answer"@ {
        Some(SoftKey::Answer)
    } else if name == "info"@ {
        Some(SoftKey::Info)
    } else if name == "conference"@ {
        Some(SoftKey::Conference)
    } else if name == "park"@ {
        Some(SoftKey::Park)
    } else if name == "join"@ {
        Some(SoftKey::Join)
    } else if name == "meetme"@ {
        Some(SoftKey::MeetMe)
    } else if name == "pickup"@ {
        Some(SoftKey::Pickup)
    } else if name == "grouppickup"@ {
        Some(SoftKey::GroupPickup)
    } else if name == "monitor"@ {
        Some(SoftKey::Monitor)
    } else if name == "callback"@ {
        Some(SoftKey::Callback)
    } else if name == "barge"@ {
        Some(SoftKey::Barge)
    } else if name == "donotdisturb"@ || name == "dnd"@ {
        Some(SoftKey::DoNotDisturb)
    } else if name == "conferencelist"@ {
        Some(SoftKey::ConferenceList)
    } else if name == "select"@ {
        Some(SoftKey::Select)
    } else if name == "private"@ {
        Some(SoftKey::Private)
    } else if name == "transfertovoicemail"@ {
        Some(SoftKey::TransferToVoicemail)
    } else if name == "directtransfer"@ {
        Some(SoftKey::DirectTransfer)
    } else if name == "immediatedivert"@ {
        Some(SoftKey::ImmediateDivert)
    } else if name == "videomode"@ {
        Some(SoftKey::VideoMode)
    } else if name == "intercept"@ {
        Some(SoftKey::Intercept)
    } else if name == "empty"@ {
        Some(SoftKey::Empty)
    } else if name == "dial"@ {
        Some(SoftKey::Dial)
    } else {
        None
    }
}

/// The soft key that a reduced name stands for.
fn read_named_key(n: &str) -> (r: Option<SoftKey>)
    ensures
        r == named_key(n@),
{
    if text::same(n, "redial") {
        Some(SoftKey::Redial)
    } else if text::same(n, "newcall") {
        Some(SoftKey::NewCall)
    } else if text::same(n, "hold") {
        Some(SoftKey::Hold)
    } else if text::same(n, "transfer") {
        Some(SoftKey::Transfer)
    } else if text::same(n, "forwardall") || text::same(n, "cfwdall") {
        Some(SoftKey::ForwardAll)
    } else if text::same(n, "forwardbusy") || text::same(n, "cfwdbusy") {
        Some(SoftKey::ForwardBusy)
    } else if text::same(n, "forwardnoanswer") || text::same(n, "cfwdnoanswer") {
        Some(SoftKey::ForwardNoAnswer)
    } else if text::same(n, "backspace") {
        Some(SoftKey::Backspace)
    } else if text::same(n, "endcall") {
        Some(SoftKey::EndCall)
    } else if text::same(n, "resume") {
        Some(SoftKey::Resume)
    } else if text::same(n, "answer") {
        Some(SoftKey::Answer)
    } else if text::same(n, "info") {
        Some(SoftKey::Info)
    } else if text::same(n, "conference") {
        Some(SoftKey::Conference)
    } else if text::same(n, "park") {
        Some(SoftKey::Park)
    } else if text::same(n, "join") {
        Some(SoftKey::Join)
    } else if text::same(n, "meetme") {
        Some(SoftKey::MeetMe)
    } else if text::same(n, "pickup") {
        Some(SoftKey::Pickup)
    } else if text::same(n, "grouppickup") {
        Some(SoftKey::GroupPickup)
    } else if text::same(n, "monitor") {
        Some(SoftKey::Monitor)
    } else if text::same(n, "callback") {
        Some(SoftKey::Callback)
    } else if text::same(n, "barge") {
        Some(SoftKey::Barge)
    } else if text::same(n, "donotdisturb") || text::same(n, "dnd") {
        Some(SoftKey::DoNotDisturb)
    } else if text::same(n, "conferencelist") {
        Some(SoftKey::ConferenceList)
    } else if text::same(n, "select") {
        Some(SoftKey::Select)
    } else if text::same(n, "private") {
        Some(SoftKey::Private)
    } else if text::same(n, "transfertovoicemail") {
        Some(SoftKey::TransferToVoicemail)
    } else if text::same(n, "directtransfer") {
        Some(SoftKey::DirectTransfer)
    } else if text::same(n, "immediatedivert") {
        Some(SoftKey::ImmediateDivert)
    } else if text::same(n, "videomode") {
        Some(SoftKey::VideoMode)
    } else if text::same(n, "intercept") {
        Some(SoftKey::Intercept)
    } else if text::same(n, "empty") {
        Some(SoftKey::Empty)
    } else if text::same(n, "dial") {
        Some(SoftKey::Dial)
    } else {
        None
    }
}

/// Reads a soft key.
pub fn parse_soft_key(raw: &str) -> (r: Option<SoftKey>)
    ensures
        r == named_key(text::name_of(raw@)),
{
    read_named_key(text::normalize_name(raw).as_str())
}

// ---------------------------------------------------------------------------
// Profiles

/// The keys of a mode in a list of sets.
pub open spec fn keys_in(sets: Seq<station::KeySetView>, mode: KeyMode) -> Seq<SoftKey>
    decreases sets.len(),
{
    if sets.len() == 0 {
        Seq::empty()
    } else if sets[0].mode == mode {
        sets[0].actions
    } else {
        keys_in(sets.skip(1), mode)
    }
}

/// The keys of a mode in the built-in profile.
pub open spec fn built_in_keys(mode: KeyMode) -> Seq<SoftKey> {
    match mode {
        KeyMode::OnHook => seq![SoftKey::NewCall],
        KeyMode::Connected => seq![SoftKey::Hold, SoftKey::EndCall, SoftKey::Transfer],
        KeyMode::OnHold => seq![SoftKey::Resume, SoftKey::NewCall, SoftKey::EndCall],
        KeyMode::RingIn => seq![SoftKey::Answer, SoftKey::EndCall],
        KeyMode::OffHook => seq![SoftKey::EndCall],
        KeyMode::ConnectedTransfer => seq![SoftKey::Hold, SoftKey::EndCall, SoftKey::Transfer],
        KeyMode::DigitsFollowing => seq![SoftKey::Backspace, SoftKey::EndCall, SoftKey::Dial],
        KeyMode::ConnectedConference => seq![SoftKey::Hold, SoftKey::EndCall],
        KeyMode::RingOut => seq![SoftKey::EndCall],
        KeyMode::OffHookFeature => seq![SoftKey::Resume, SoftKey::NewCall, SoftKey::EndCall],
        KeyMode::InUseHint => Seq::empty(),
        KeyMode::OnHookStealable => seq![SoftKey::Intercept, SoftKey::NewCall],
        KeyMode::HoldConference => seq![SoftKey::Resume, SoftKey::NewCall, SoftKey::EndCall],
        KeyMode::Empty => Seq::empty(),
    }
}

/// The built-in profile.
pub open spec fn built_in_profile() -> policy::SoftKeyProfileView {
    policy::SoftKeyProfileView {
        name: default_name(),
        sets: modes().map_values(
            |mode: KeyMode| station::KeySetView { mode, actions: built_in_keys(mode) },
        ),
    }
}

/// The keys of a mode in the built-in profile.
fn built_in_actions(mode: KeyMode) -> (r: Vec<SoftKey>)
    ensures
        r@ == built_in_keys(mode),
{
    let r = match mode {
        KeyMode::OnHook => vec![SoftKey::NewCall],
        KeyMode::Connected => vec![SoftKey::Hold, SoftKey::EndCall, SoftKey::Transfer],
        KeyMode::OnHold => vec![SoftKey::Resume, SoftKey::NewCall, SoftKey::EndCall],
        KeyMode::RingIn => vec![SoftKey::Answer, SoftKey::EndCall],
        KeyMode::OffHook => vec![SoftKey::EndCall],
        KeyMode::ConnectedTransfer => vec![SoftKey::Hold, SoftKey::EndCall, SoftKey::Transfer],
        KeyMode::DigitsFollowing => vec![SoftKey::Backspace, SoftKey::EndCall, SoftKey::Dial],
        KeyMode::ConnectedConference => vec![SoftKey::Hold, SoftKey::EndCall],
        KeyMode::RingOut => vec![SoftKey::EndCall],
        KeyMode::OffHookFeature => vec![SoftKey::Resume, SoftKey::NewCall, SoftKey::EndCall],
        KeyMode::InUseHint => Vec::new(),
        KeyMode::OnHookStealable => vec![SoftKey::Intercept, SoftKey::NewCall],
        KeyMode::HoldConference => vec![SoftKey::Resume, SoftKey::NewCall, SoftKey::EndCall],
        KeyMode::Empty => Vec::new(),
    };
    assert(r@ =~= built_in_keys(mode));
    r
}

impl SoftKeyProfile {
    /// The keys of a mode, in order.
    pub fn actions(&self, mode: KeyMode) -> (r: Vec<SoftKey>)
        ensures
            r@ == keys_in(self.deep_view().sets, mode),
    {
        let ghost all = self.deep_view().sets;
        let mut i: usize = 0;
        assert(all.skip(0) =~= all);
        while i < self.sets.len()
            invariant
                all == self.deep_view().sets,
                i <= self.sets@.len(),
                keys_in(all, mode) == keys_in(all.skip(i as int), mode),
            decreases self.sets.len() - i,
        {
            assert(all.skip(i as int)[0] == self.sets@[i as int].deep_view());
            if self.sets[i].mode == mode {
                return text::copy_all(&self.sets[i].actions);
            }
            assert(all.skip(i as int).skip(1) =~= all.skip(i + 1));
            i += 1;
        }
        Vec::new()
    }

    /// The profile that needs no configuration.
    pub fn built_in() -> (r: SoftKeyProfile)
        ensures
            r.deep_view() == built_in_profile(),
    {
        let names = key_modes();
        let ghost whole = built_in_profile().sets;
        let mut sets: Vec<KeySet> = Vec::new();
        let mut i: usize = 0;
        assert(sets.deep_view() =~= whole.take(0));
        while i < names.len()
            invariant
                names@ == modes(),
                whole == built_in_profile().sets,
                i <= names@.len(),
                sets.deep_view() == whole.take(i as int),
            decreases names.len() - i,
        {
            let ghost before = sets.deep_view();
            let x = KeySet { mode: names[i], actions: built_in_actions(names[i]) };
            sets.push(x);
            assert(sets.deep_view() =~= before.push(x.deep_view()));
            i += 1;
            assert(sets.deep_view() =~= whole.take(i as int));
        }
        assert(whole.take(i as int) =~= whole);
        SoftKeyProfile { name: text::copy("default"), sets }
    }
}

// ---------------------------------------------------------------------------
// Reading a profile

/// The fields of a profile section.
pub open spec fn profile_fields() -> Seq<schema::SectionFieldView> {
    seq![
        schema::SectionFieldView { name: "type"@, repeated: false },
        schema::SectionFieldView { name: "on_hook"@, repeated: false },
        schema::SectionFieldView { name: "connected"@, repeated: false },
        schema::SectionFieldView { name: "on_hold"@, repeated: false },
        schema::SectionFieldView { name: "ring_in"@, repeated: false },
        schema::SectionFieldView { name: "off_hook"@, repeated: false },
        schema::SectionFieldView { name: "connected_transfer"@, repeated: false },
        schema::SectionFieldView { name: "digits_following"@, repeated: false },
        schema::SectionFieldView { name: "connected_conference"@, repeated: false },
        schema::SectionFieldView { name: "ring_out"@, repeated: false },
        schema::SectionFieldView { name: "off_hook_feature"@, repeated: false },
        schema::SectionFieldView { name: "in_use_hint"@, repeated: false },
        schema::SectionFieldView { name: "on_hook_stealable"@, repeated: false },
        schema::SectionFieldView { name: "hold_conference"@, repeated: false },
        schema::SectionFieldView { name: "empty"@, repeated: false },
    ]
}

/// The fields of a profile section.
pub fn soft_key_fields() -> (r: Vec<SectionField>)
    ensures
        r.deep_view() == profile_fields(),
{
    let r = vec![
        SectionField { name: text::copy("type"), repeated: false },
        SectionField { name: text::copy("on_hook"), repeated: false },
        SectionField { name: text::copy("connected"), repeated: false },
        SectionField { name: text::copy("on_hold"), repeated: false },
        SectionField { name: text::copy("ring_in"), repeated: false },
        SectionField { name: text::copy("off_hook"), repeated: false },
        SectionField { name: text::copy("connected_transfer"), repeated: false },
        SectionField { name: text::copy("digits_following"), repeated: false },
        SectionField { name: text::copy("connected_conference"), repeated: false },
        SectionField { name: text::copy("ring_out"), repeated: false },
        SectionField { name: text::copy("off_hook_feature"), repeated: false },
        SectionField { name: text::copy("in_use_hint"), repeated: false },
        SectionField { name: text::copy("on_hook_stealable"), repeated: false },
        SectionField { name: text::copy("hold_conference"), repeated: false },
        SectionField { name: text::copy("empty"), repeated: false },
    ];
    assert(r.deep_view() =~= profile_fields());
    r
}

/// The keys of the names from one on, after those already read.
pub open spec fn keys_from(
    key: text::Text,
    raw: text::Text,
    names: Seq<text::Text>,
    i: int,
    list: Seq<SoftKey>,
) -> Result<Seq<SoftKey>, error::ErrorView>
    decreases names.len() - i,
{
    if i >= names.len() {
        Ok(list)
    } else {
        match named_key(text::name_of(names[i])) {
            None => Err(
                error::refused(
                    key,
                    text::quoted(names[i]) + "; expected a recognized soft-key action"@,
                ),
            ),
            Some(action) => if list.contains(action) {
                Err(
                    error::refused(
                        key,
                        text::quoted(names[i]) + "; expected unique soft-key actions"@,
                    ),
                )
            } else if list.len() >= MAX_SOFT_KEYS_PER_MODE {
                Err(
                    error::refused(key, text::quoted(raw) + "; expected at most 16 actions"@),
                )
            } else {
                keys_from(key, raw, names, i + 1, list.push(action))
            },
        }
    }
}

/// The keys that a value lists; an empty value lists none.
pub open spec fn keys_setting(key: text::Text, raw: text::Text) -> Result<
    Seq<SoftKey>,
    error::ErrorView,
> {
    if text::trimmed(raw).len() == 0 {
        Ok(Seq::empty())
    } else {
        keys_from(key, raw, text::fields_of(raw, ','), 0, Seq::empty())
    }
}

/// The keys of one mode in a section.
pub open spec fn mode_keys(s: section::RawSectionView, mode: KeyMode) -> Result<
    Seq<SoftKey>,
    error::ErrorView,
> {
    match section::value_of(s, mode_name(mode)) {
        None => Ok(Seq::empty()),
        Some(raw) => keys_setting(section::key_place(s, mode_name(mode)), raw),
    }
}

/// The sets of the modes from one on, after those already read.
pub open spec fn sets_from(
    s: section::RawSectionView,
    list: Seq<KeyMode>,
    i: int,
    sets: Seq<station::KeySetView>,
) -> Result<Seq<station::KeySetView>, error::ErrorView>
    decreases list.len() - i,
{
    if i >= list.len() {
        Ok(sets)
    } else {
        match mode_keys(s, list[i]) {
            Err(e) => Err(e),
            Ok(actions) => sets_from(
                s,
                list,
                i + 1,
                sets.push(station::KeySetView { mode: list[i], actions }),
            ),
        }
    }
}

/// The type that a section states, or nothing.
pub open spec fn stated_type(s: section::RawSectionView) -> text::Text {
    match section::value_of(s, "type"@) {
        Some(kind) => kind,
        None => ""@,
    }
}

/// A profile section: every mode with its keys, none where it is not set.
pub open spec fn profile_setting(s: section::RawSectionView) -> Result<
    policy::SoftKeyProfileView,
    error::ErrorView,
> {
    let name = name_of_profile(s.name);
    if name.len() == 0 {
        Err(error::refused("softkey_profile.name"@, s.name))
    } else {
        match schema::first_fault(s, profile_fields(), 0) {
            Some(e) => Err(e),
            None => if !text::same_fold(stated_type(s), "softkey_profile"@) {
                Err(
                    error::refused(
                        section::key_place(s, "type"@),
                        text::quoted(stated_type(s)) + "; expected one type = softkey_profile"@,
                    ),
                )
            } else {
                match sets_from(s, modes(), 0, Seq::empty()) {
                    Err(e) => Err(e),
                    Ok(sets) => Ok(policy::SoftKeyProfileView { name, sets }),
                }
            },
        }
    }
}

/// Whether a list holds a key.
fn holds_key(list: &Vec<SoftKey>, key: SoftKey) -> (r: bool)
    ensures
        r == list@.contains(key),
{
    let mut i: usize = 0;
    while i < list.len()
        invariant
            i <= list@.len(),
            forall|j: int| 0 <= j < i ==> list@[j] != key,
        decreases list.len() - i,
    {
        if list[i] == key {
            return true;
        }
        i += 1;
    }
    false
}

/// Reads the keys of a mode.
fn parse_keys(key: &str, raw: &str) -> (r: Result<Vec<SoftKey>, ConfigError>)
    ensures
        error::listed(r) == keys_setting(key@, raw@),
{
    let mut list: Vec<SoftKey> = Vec::new();
    if text::trim(raw).as_str().is_empty() {
        return Ok(list);
    }
    let names = text::fields(raw, ',');
    let ghost all = names.deep_view();
    let mut i: usize = 0;
    while i < names.len()
        invariant
            all == names.deep_view(),
            i <= names@.len(),
            keys_setting(key@, raw@) == keys_from(key@, raw@, all, i as int, list@),
        decreases names.len() - i,
    {
        assert(all[i as int] == names@[i as int]@);
        let name = names[i].as_str();
        match parse_soft_key(name) {
            None => {
                let mut value = text::quote(name);
                value.append("; expected a recognized soft-key action");
                return Err(error::invalid_value(key, value.as_str()));
            },
            Some(action) => {
                if holds_key(&list, action) {
                    let mut value = text::quote(name);
                    value.append("; expected unique soft-key actions");
                    return Err(error::invalid_value(key, value.as_str()));
                }
                if list.len() >= MAX_SOFT_KEYS_PER_MODE {
                    let mut value = text::quote(raw);
                    value.append("; expected at most 16 actions");
                    return Err(error::invalid_value(key, value.as_str()));
                }
                list.push(action);
            },
        }
        i += 1;
    }
    Ok(list)
}

/// Reads a profile section.
pub fn parse_soft_key_profile(s: &RawSection) -> (r: Result<SoftKeyProfile, ConfigError>)
    ensures
        error::outcome(r) == profile_setting(s.deep_view()),
{
    let name = canonical_profile_name(s.name.as_str());
    if name.as_str().is_empty() {
        return Err(error::invalid_value("softkey_profile.name", s.name.as_str()));
    }
    let fields = soft_key_fields();
    match schema::check_section(s, &fields) {
        Some(e) => return Err(e),
        None => {},
    }
    let kind = match s.value("type") {
        Some(kind) => kind,
        None => text::copy(""),
    };
    if !text::eq_ignore_ascii_case(kind.as_str(), "softkey_profile") {
        let at = s.diagnostic_key("type");
        let mut value = text::quote(kind.as_str());
        value.append("; expected one type = softkey_profile");
        return Err(error::invalid_value(at.as_str(), value.as_str()));
    }
    let list = key_modes();
    let mut sets: Vec<KeySet> = Vec::new();
    let mut i: usize = 0;
    assert(sets.deep_view() =~= Seq::empty());
    while i < list.len()
        invariant
            list@ == modes(),
            i <= list@.len(),
            name@.len() != 0,
            name@ == name_of_profile(s.deep_view().name),
            schema::first_fault(s.deep_view(), profile_fields(), 0) is None,
            text::same_fold(stated_type(s.deep_view()), "softkey_profile"@),
            sets_from(s.deep_view(), modes(), 0, Seq::empty()) == sets_from(
                s.deep_view(),
                modes(),
                i as int,
                sets.deep_view(),
            ),
        decreases list.len() - i,
    {
        let mode = list[i];
        let option = key_mode_option(mode);
        let actions = match s.value(option) {
            None => Vec::new(),
            Some(raw) => match parse_keys(s.diagnostic_key(option).as_str(), raw.as_str()) {
                Ok(actions) => actions,
                Err(e) => return Err(e),
            },
        };
        let ghost before = sets.deep_view();
        let x = KeySet { mode, actions };
        sets.push(x);
        assert(sets.deep_view() =~= before.push(x.deep_view()));
        i += 1;
    }
    Ok(SoftKeyProfile { name, sets })
}

// ---------------------------------------------------------------------------
// Laws

/// A key set within the bounds of a mode.
pub open spec fn is_key_set(list: Seq<SoftKey>) -> bool {
    list.no_duplicates() && list.len() <= MAX_SOFT_KEYS_PER_MODE
}

/// An accepted list of keys names none twice and at most the permitted number.
pub proof fn law_key_sets_are_bounded(key: text::Text, raw: text::Text)
    ensures
        keys_setting(key, raw) matches Ok(list) ==> is_key_set(list),
{
    lemma_keys_bounded(key, raw, text::fields_of(raw, ','), 0, Seq::empty());
}

proof fn lemma_keys_bounded(
    key: text::Text,
    raw: text::Text,
    names: Seq<text::Text>,
    i: int,
    list: Seq<SoftKey>,
)
    requires
        0 <= i,
        is_key_set(list),
    ensures
        keys_from(key, raw, names, i, list) matches Ok(r) ==> is_key_set(r),
    decreases names.len() - i,
{
    if i < names.len() {
        if let Some(action) = named_key(text::name_of(names[i])) {
            if !list.contains(action) && list.len() < MAX_SOFT_KEYS_PER_MODE {
                let next = list.push(action);
                assert forall|a: int, b: int| 0 <= a < next.len() && 0 <= b < next.len() && a
                    != b implies next[a] != next[b] by {
                    if a == list.len() {
                        assert(list.contains(list[b]));
                    } else if b == list.len() {
                        assert(list.contains(list[a]));
                    }
                }
                lemma_keys_bounded(key, raw, names, i + 1, next);
            }
        }
    }
}

/// Every profile, read or built in, lists the key modes in order, each with a
/// bounded set of keys.
pub proof fn law_profiles_cover_every_mode(s: section::RawSectionView, i: int)
    requires
        0 <= i < modes().len(),
    ensures
        built_in_profile().sets.len() == modes().len(),
        built_in_profile().sets[i].mode == modes()[i],
        is_key_set(built_in_profile().sets[i].actions),
        profile_setting(s) matches Ok(p) ==> p.sets.len() == modes().len() && p.sets[i].mode
            == modes()[i] && is_key_set(p.sets[i].actions),
{
    lemma_sets_cover(s, modes(), 0, Seq::empty());
}

spec fn covers(sets: Seq<station::KeySetView>, list: Seq<KeyMode>, n: int) -> bool {
    &&& sets.len() == n
    &&& forall|j: int|
        0 <= j < n ==> (#[trigger] sets[j]).mode == list[j] && is_key_set(sets[j].actions)
}

proof fn lemma_sets_cover(
    s: section::RawSectionView,
    list: Seq<KeyMode>,
    i: int,
    sets: Seq<station::KeySetView>,
)
    requires
        0 <= i <= list.len(),
        covers(sets, list, i),
    ensures
        sets_from(s, list, i, sets) matches Ok(r) ==> covers(r, list, list.len() as int),
    decreases list.len() - i,
{
    if i < list.len() {
        if let Ok(actions) = mode_keys(s, list[i]) {
            if let Some(raw) = section::value_of(s, mode_name(list[i])) {
                law_key_sets_are_bounded(section::key_place(s, mode_name(list[i])), raw);
            }
            lemma_sets_cover(
                s,
                list,
                i + 1,
                sets.push(station::KeySetView { mode: list[i], actions }),
            );
        }
    }
}

} // verus!
