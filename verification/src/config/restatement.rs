//! Sections that restate others say what those say, so that canonical text
//! configures what the text that it was written for configures.

use vstd::prelude::*;

use crate::config::assembly;
use crate::config::canonical;
use crate::config::device;
use crate::config::error;
use crate::config::fidelity;
use crate::config::general;
use crate::config::inheritance;
use crate::config::line;
use crate::config::meaning;
use crate::config::module;
use crate::config::option;
use crate::config::option::Scope;
use crate::config::option::Setting;
use crate::config::order;
use crate::config::policy;
use crate::config::registration;
use crate::config::rules;
use crate::config::section;
use crate::config::softkey;
use crate::config::spelling;
use crate::config::value;
use crate::station;
use crate::station::KeyMode;
use crate::station::SoftKey;
use crate::text;

verus! {

/// A section that restates another has its options, with its values.
proof fn lemma_options(scope: Scope, t: section::RawSectionView, s: section::RawSectionView)
    requires
        canonical::section_text(s) is Ok,
        fidelity::restates(t, s),
        fidelity::scope_of(canonical::kind_of(s)->0) == Some(scope),
    ensures
        option::decoded(scope, s) is Ok,
        option::decoded(scope, t) is Ok,
        meaning::are_alike(option::decoded(scope, t)->Ok_0, option::decoded(scope, s)->Ok_0),
        option::decoded(scope, t)->Ok_0.section == t,
        option::decoded(scope, s)->Ok_0.section == s,
        forall|i: int|
            0 <= i < s.values.len() ==> option::named(scope, text::lower(#[trigger] s.values[i].key))
                == Some(option::decoded(scope, s)->Ok_0.settings[i]),
        forall|i: int|
            0 <= i < s.values.len() ==> option::named(scope, #[trigger] t.values[i].key) == Some(
                option::decoded(scope, s)->Ok_0.settings[i],
            ) && text::lower(t.values[i].key) == t.values[i].key,
{
    fidelity::lemma_entries(s);
    fidelity::lemma_same_options(scope, t, s);
    fidelity::lemma_settings_from(scope, s.values, 0, Seq::empty());
    fidelity::lemma_settings_from(scope, t.values, 0, Seq::empty());
    let all = option::decoded(scope, s)->Ok_0.settings;
    assert forall|i: int| 0 <= i < s.values.len() implies option::named(
        scope,
        #[trigger] t.values[i].key,
    ) == Some(all[i]) && text::lower(t.values[i].key) == t.values[i].key by {
        assert(t.values[i].key == fidelity::entries_in(s)[i].key);
        fidelity::lemma_key_lower(t.values[i].key);
    }
}

/// A section that restates another agrees with it on an option of one spelling.
proof fn lemma_agree(
    scope: Scope,
    t: section::RawSectionView,
    s: section::RawSectionView,
    word: text::Text,
    x: Setting,
)
    requires
        canonical::section_text(s) is Ok,
        fidelity::restates(t, s),
        fidelity::scope_of(canonical::kind_of(s)->0) == Some(scope),
        fidelity::is_key(word),
        forall|name: text::Text| #[trigger]
            option::named(scope, name) == Some(x) <==> name == word,
    ensures
        meaning::agree_on(t, s, word),
{
    lemma_options(scope, t, s);
    fidelity::lemma_entries(s);
    fidelity::lemma_key_lower(word);
    assert forall|i: int| 0 <= i < t.values.len() implies text::same_fold(
        (#[trigger] t.values[i]).key,
        word,
    ) == text::same_fold(s.values[i].key, word) && t.values[i].value == s.values[i].value by {
        let name = text::lower(s.values[i].key);
        assert(option::named(scope, name) == option::named(scope, t.values[i].key));
        assert((name == word) == (t.values[i].key == word));
    }
    fidelity::lemma_last_entry(t.values, s.values, word);
}

/// The line options that go by one spelling.
proof fn lemma_line_words(name: text::Text)
    ensures
        option::named(Scope::Line, name) == Some(Setting::Label) <==> name == "label"@,
        option::named(Scope::Line, name) == Some(Setting::Context) <==> name == "context"@,
        option::named(Scope::Line, name) == Some(Setting::CallerId) <==> name == "callerid"@,
        fidelity::is_key("label"@),
        fidelity::is_key("context"@),
        fidelity::is_key("callerid"@),
{
    reveal_strlit("type");
    reveal_strlit("label");
    reveal_strlit("context");
    reveal_strlit("callerid");
    assert("type"@.len() == 4 && "label"@.len() == 5 && "context"@.len() == 7 && "callerid"@.len()
        == 8);
}

/// The description of a device goes by one spelling.
proof fn lemma_device_word(name: text::Text)
    ensures
        option::named(Scope::Device, name) == Some(Setting::Description) <==> name
            == "description"@,
        fidelity::is_key("description"@),
{
    reveal_strlit("type");
    reveal_strlit("description");
    assert("type"@.len() == 4 && "description"@.len() == 11);
}

/// A line section that restates another agrees with it on its texts.
proof fn lemma_line_agrees(t: section::RawSectionView, s: section::RawSectionView)
    requires
        canonical::section_text(s) is Ok,
        fidelity::restates(t, s),
        fidelity::scope_of(canonical::kind_of(s)->0) == Some(Scope::Line),
    ensures
        meaning::agree_on(t, s, "label"@),
        meaning::agree_on(t, s, "context"@),
        meaning::agree_on(t, s, "callerid"@),
{
    lemma_line_words("label"@);
    assert forall|name: text::Text| #[trigger]
        option::named(Scope::Line, name) == Some(Setting::Label) <==> name == "label"@ by {
        lemma_line_words(name);
    }
    lemma_agree(Scope::Line, t, s, "label"@, Setting::Label);
    assert forall|name: text::Text| #[trigger]
        option::named(Scope::Line, name) == Some(Setting::Context) <==> name == "context"@ by {
        lemma_line_words(name);
    }
    lemma_agree(Scope::Line, t, s, "context"@, Setting::Context);
    assert forall|name: text::Text| #[trigger]
        option::named(Scope::Line, name) == Some(Setting::CallerId) <==> name == "callerid"@ by {
        lemma_line_words(name);
    }
    lemma_agree(Scope::Line, t, s, "callerid"@, Setting::CallerId);
}

/// A device section that restates another agrees with it on its description.
proof fn lemma_device_agrees(t: section::RawSectionView, s: section::RawSectionView)
    requires
        canonical::section_text(s) is Ok,
        fidelity::restates(t, s),
        fidelity::scope_of(canonical::kind_of(s)->0) == Some(Scope::Device),
    ensures
        meaning::agree_on(t, s, "description"@),
{
    lemma_device_word("description"@);
    assert forall|name: text::Text| #[trigger]
        option::named(Scope::Device, name) == Some(Setting::Description) <==> name
            == "description"@ by {
        lemma_device_word(name);
    }
    lemma_agree(Scope::Device, t, s, "description"@, Setting::Description);
}

/// The scopes of the kinds of sections.
proof fn lemma_scopes()
    ensures
        fidelity::scope_of("general"@) == Some(Scope::General),
        fidelity::scope_of("device"@) == Some(Scope::Device),
        fidelity::scope_of("line"@) == Some(Scope::Line),
{
    reveal_strlit("general");
    reveal_strlit("device");
    reveal_strlit("line");
    assert("general"@.len() == 7 && "device"@.len() == 6 && "line"@.len() == 4);
}

/// What a section that restates another is decoded to.
proof fn lemma_decoded(scope: Scope, t: section::RawSectionView, s: section::RawSectionView)
    requires
        canonical::section_text(s) is Ok,
        fidelity::restates(t, s),
        fidelity::scope_of(canonical::kind_of(s)->0) == Some(scope),
    ensures
        option::decoded(scope, s) is Ok,
        option::decoded(scope, t) is Ok,
        meaning::are_alike(option::decoded(scope, t)->Ok_0, option::decoded(scope, s)->Ok_0),
        option::decoded(scope, t)->Ok_0.section == t,
        option::decoded(scope, s)->Ok_0.section == s,
{
    lemma_options(scope, t, s);
}

/// A general section that restates another says the same.
proof fn lemma_general(
    t: section::RawSectionView,
    s: section::RawSectionView,
    w: rules::LayerRulesView,
)
    requires
        canonical::section_text(s) is Ok,
        fidelity::restates(t, s),
        assembly::is_general(s),
    ensures
        value::value_in(general::general_setting(t, w)) == value::value_in(
            general::general_setting(s, w),
        ),
{
    lemma_scopes();
    lemma_decoded(Scope::General, t, s);
    let a = option::decoded(Scope::General, t)->Ok_0;
    let b = option::decoded(Scope::General, s)->Ok_0;
    meaning::lemma_first_fault(a, b, 0, w);
    meaning::lemma_general(a, b, w);
}

/// A line section that restates another says the same.
proof fn lemma_line(
    t: section::RawSectionView,
    s: section::RawSectionView,
    g: policy::GeneralConfigView,
    w: rules::LayerRulesView,
)
    requires
        canonical::section_text(s) is Ok,
        fidelity::restates(t, s),
        canonical::kind_of(s) == Some("line"@),
    ensures
        value::value_in(line::line_setting(t, g, w)) == value::value_in(
            line::line_setting(s, g, w),
        ),
{
    lemma_scopes();
    lemma_decoded(Scope::Line, t, s);
    lemma_line_agrees(t, s);
    let a = option::decoded(Scope::Line, t)->Ok_0;
    let b = option::decoded(Scope::Line, s)->Ok_0;
    meaning::lemma_line_fault(a, b, 0, w);
    meaning::lemma_line(a, b, g, w);
}

/// A device section that restates another says the same, over the same lines
/// and profiles.
proof fn lemma_device(
    t: section::RawSectionView,
    s: section::RawSectionView,
    l: Seq<policy::LineConfigView>,
    m: Seq<policy::LineConfigView>,
    p: Seq<policy::SoftKeyProfileView>,
    q: Seq<policy::SoftKeyProfileView>,
    g: policy::GeneralConfigView,
    w: rules::LayerRulesView,
)
    requires
        canonical::section_text(s) is Ok,
        fidelity::restates(t, s),
        canonical::kind_of(s) == Some("device"@),
        meaning::same_lines(l, m),
        meaning::same_profile_names(p, q),
    ensures
        value::value_in(device::device_setting(t, l, p, g, w)) == value::value_in(
            device::device_setting(s, m, q, g, w),
        ),
{
    lemma_scopes();
    lemma_decoded(Scope::Device, t, s);
    lemma_device_agrees(t, s);
    let a = option::decoded(Scope::Device, t)->Ok_0;
    let b = option::decoded(Scope::Device, s)->Ok_0;
    meaning::lemma_device_fault(a, b, 0, l, m, p, q, w);
    meaning::lemma_device(a, b, l, m, g, w);
}

/// Keys are read alike in every place.
proof fn lemma_keys_from(
    k: text::Text,
    l: text::Text,
    raw: text::Text,
    names: Seq<text::Text>,
    i: int,
    list: Seq<SoftKey>,
)
    ensures
        value::value_in(softkey::keys_from(k, raw, names, i, list)) == value::value_in(
            softkey::keys_from(l, raw, names, i, list),
        ),
    decreases names.len() - i,
{
    if i < names.len() {
        if let Some(action) = softkey::named_key(text::name_of(names[i])) {
            lemma_keys_from(k, l, raw, names, i + 1, list.push(action));
        }
    }
}

/// Profile sections that agree have the same keys in every mode.
proof fn lemma_sets_from(
    t: section::RawSectionView,
    s: section::RawSectionView,
    list: Seq<KeyMode>,
    i: int,
    sets: Seq<station::KeySetView>,
)
    requires
        0 <= i,
        forall|mode: KeyMode| meaning::agree_on(t, s, #[trigger] softkey::mode_name(mode)),
    ensures
        value::value_in(softkey::sets_from(t, list, i, sets)) == value::value_in(
            softkey::sets_from(s, list, i, sets),
        ),
    decreases list.len() - i,
{
    if i < list.len() {
        let name = softkey::mode_name(list[i]);
        assert(meaning::agree_on(t, s, name));
        if let Some(raw) = section::value_of(s, name) {
            lemma_keys_from(
                section::key_place(t, name),
                section::key_place(s, name),
                raw,
                text::fields_of(raw, ','),
                0,
                Seq::empty(),
            );
        }
        assert(value::value_in(softkey::mode_keys(t, list[i])) == value::value_in(
            softkey::mode_keys(s, list[i]),
        ));
        if let Ok(actions) = softkey::mode_keys(s, list[i]) {
            lemma_sets_from(
                t,
                s,
                list,
                i + 1,
                sets.push(station::KeySetView { mode: list[i], actions }),
            );
        }
    }
}

/// A profile section that restates another says the same.
proof fn lemma_profile(t: section::RawSectionView, s: section::RawSectionView)
    requires
        canonical::section_text(s) is Ok,
        fidelity::restates(t, s),
        canonical::kind_of(s) == Some("softkey_profile"@),
        !assembly::is_general(s),
    ensures
        value::value_in(softkey::profile_setting(t)) == value::value_in(softkey::profile_setting(s)),
{
    reveal_strlit("general");
    reveal_strlit("device");
    reveal_strlit("line");
    reveal_strlit("softkey_profile");
    fidelity::lemma_entries(s);
    fidelity::lemma_same_kind(t, s);
    assert forall|i: int| 0 <= i < t.values.len() implies text::lower((#[trigger] t.values[i]).key)
        == text::lower(s.values[i].key) && t.values[i].value == s.values[i].value by {
        assert(t.values[i].key == fidelity::entries_in(s)[i].key);
        fidelity::lemma_lower(s.values[i].key);
    }
    fidelity::lemma_same_fields(t, s, softkey::profile_fields(), 0);
    assert forall|mode: KeyMode| meaning::agree_on(t, s, #[trigger] softkey::mode_name(mode)) by {
        fidelity::lemma_last_entry(t.values, s.values, softkey::mode_name(mode));
    }
    lemma_sets_from(t, s, softkey::modes(), 0, Seq::empty());
}

/// A name is reduced alike in upper and lower case.
pub(crate) proof fn lemma_name_lower(key: text::Text)
    ensures
        text::name_of(text::lower(key)) == text::name_of(key),
    decreases key.len(),
{
    if key.len() > 0 {
        lemma_name_lower(key.drop_last());
        assert(text::lower(key).drop_last() =~= text::lower(key.drop_last()));
        assert(text::lower(key).last() == text::lower_char(key.last()));
    }
}

/// The first letters of a reduced name.
pub(crate) proof fn lemma_name_starts(key: text::Text)
    requires
        key.len() >= 2,
        text::is_alnum(key[0]),
        text::is_alnum(key[1]),
    ensures
        text::name_of(key).len() >= 2,
        text::name_of(key)[0] == text::lower_char(key[0]),
        text::name_of(key)[1] == text::lower_char(key[1]),
    decreases key.len(),
{
    let head = key.drop_last();
    if key.len() > 2 {
        lemma_name_starts(head);
    } else {
        assert(head.drop_last() =~= Seq::empty());
        assert(text::name_of(head.drop_last()) == Seq::<char>::empty());
        assert(head.last() == key[0]);
        assert(text::name_of(head) =~= seq![text::lower_char(key[0])]);
    }
}

/// Whether a spelling is of codecs or of media encryption shows in its reduced
/// name.
proof fn lemma_reduced(scope: Scope, key: text::Text)
    requires
        scope != Scope::General,
        option::named(scope, text::lower(key)) is Some,
    ensures
        ({
            let x = option::named(scope, text::lower(key))->0;
            &&& assembly::is_codec_key(key) == (x == Setting::Allow || x == Setting::Disallow)
            &&& (text::name_of(key) == "audioencryption"@) == (x == Setting::AudioEncryption)
        }),
{
    let name = text::lower(key);
    let x = option::named(scope, name)->0;
    let reduced = text::name_of(key);
    spelling::lemma_letters(scope, name);
    lemma_name_lower(key);
    lemma_name_starts(name);
    fidelity::lemma_lower(key);
    assert(text::lower(name)[0] == text::lower_char(name[0]));
    assert(text::lower(name)[1] == text::lower_char(name[1]));
    assert(text::lower(name)[name.len() - 1] == text::lower_char(name.last()));
    assert(reduced.last() == name.last());
    assert(reduced[0] == name[0] && reduced[1] == name[1]);
    reveal_strlit("allow");
    reveal_strlit("disallow");
    reveal_strlit("audioencryption");
    assert("allow"@[0] == 'a' && "allow"@[1] == 'l' && "allow"@[4] == 'w');
    assert("disallow"@[0] == 'd' && "disallow"@[1] == 'i' && "disallow"@[7] == 'w');
    assert("audioencryption"@[0] == 'a' && "audioencryption"@[1] == 'u' && "audioencryption"@[14]
        == 'n');
    lemma_codec_names(scope, name);
}

/// The reduced names of the options of codecs and of media encryption.
proof fn lemma_codec_names(scope: Scope, name: text::Text)
    requires
        scope != Scope::General,
    ensures
        option::named(scope, name) == Some(Setting::Allow) ==> text::name_of(name) == "allow"@,
        option::named(scope, name) == Some(Setting::Disallow) ==> text::name_of(name)
            == "disallow"@,
        option::named(scope, name) == Some(Setting::AudioEncryption) ==> text::name_of(name)
            == "audioencryption"@,
{
    reveal_strlit("allow");
    reveal_strlit("disallow");
    reveal_strlit("audioencryption");
    reveal_strlit("audio_encryption");
    lemma_plain_name("allow"@);
    lemma_plain_name("disallow"@);
    lemma_plain_name("audioencryption"@);
    let long = "audio_encryption"@;
    lemma_plain_name(long.take(5));
    lemma_name_joined(long.take(5), '_', long.skip(6));
    lemma_plain_name(long.skip(6));
    assert(long =~= long.take(5).push('_') + long.skip(6));
    assert(long.take(5) + long.skip(6) =~= "audioencryption"@);
}

/// A name of lower-case letters alone is its reduced name.
pub(crate) proof fn lemma_plain_name(name: text::Text)
    requires
        forall|i: int| 0 <= i < name.len() ==> text::is_lower(#[trigger] name[i]),
    ensures
        text::name_of(name) == name,
    decreases name.len(),
{
    if name.len() > 0 {
        lemma_plain_name(name.drop_last());
        assert(text::is_lower(name[name.len() - 1]));
        assert(name.drop_last().push(name.last()) =~= name);
    }
}

/// A mark between two parts of a name is left out of its reduced name.
pub(crate) proof fn lemma_name_joined(a: text::Text, mark: char, b: text::Text)
    requires
        !text::is_alnum(mark),
    ensures
        text::name_of(a.push(mark) + b) == text::name_of(a) + text::name_of(b),
    decreases b.len(),
{
    if b.len() > 0 {
        lemma_name_joined(a, mark, b.drop_last());
        assert((a.push(mark) + b).drop_last() =~= a.push(mark) + b.drop_last());
        assert((a.push(mark) + b).last() == b.last());
        assert(text::name_of(a.push(mark) + b) =~= text::name_of(a) + text::name_of(b));
    } else {
        assert(a.push(mark) + b =~= a.push(mark));
        assert(a.push(mark).drop_last() =~= a);
        assert(text::name_of(a) + text::name_of(b) =~= text::name_of(a));
    }
}

/// A section that restates another sets codecs and media encryption where that
/// one does.
proof fn lemma_overrides(scope: Scope, t: section::RawSectionView, s: section::RawSectionView)
    requires
        canonical::section_text(s) is Ok,
        fidelity::restates(t, s),
        fidelity::scope_of(canonical::kind_of(s)->0) == Some(scope),
        scope != Scope::General,
    ensures
        assembly::sets_codecs(t) == assembly::sets_codecs(s),
        assembly::sets_encryption(t) == assembly::sets_encryption(s),
{
    lemma_options(scope, t, s);
    fidelity::lemma_entries(s);
    assert forall|i: int| 0 <= i < s.values.len() implies assembly::is_codec_key(
        (#[trigger] t.values[i]).key,
    ) == assembly::is_codec_key(s.values[i].key) && (text::name_of(t.values[i].key)
        == "audioencryption"@) == (text::name_of(s.values[i].key) == "audioencryption"@) by {
        assert(option::named(scope, t.values[i].key) is Some);
        assert(option::named(scope, text::lower(s.values[i].key)) is Some);
        lemma_reduced(scope, t.values[i].key);
        lemma_reduced(scope, s.values[i].key);
    }
    if assembly::sets_codecs(t) {
        let i = choose|i: int|
            0 <= i < t.values.len() && assembly::is_codec_key((#[trigger] t.values[i]).key);
        assert(assembly::is_codec_key(s.values[i].key));
    }
    if assembly::sets_codecs(s) {
        let i = choose|i: int|
            0 <= i < s.values.len() && assembly::is_codec_key((#[trigger] s.values[i]).key);
        assert(assembly::is_codec_key(t.values[i].key));
    }
    if assembly::sets_encryption(t) {
        let i = choose|i: int|
            0 <= i < t.values.len() && text::name_of((#[trigger] t.values[i]).key)
                == "audioencryption"@;
        assert(text::name_of(s.values[i].key) == "audioencryption"@);
    }
    if assembly::sets_encryption(s) {
        let i = choose|i: int|
            0 <= i < s.values.len() && text::name_of((#[trigger] s.values[i]).key)
                == "audioencryption"@;
        assert(text::name_of(t.values[i].key) == "audioencryption"@);
    }
}

/// The lines after a section are those after one that restates it.
proof fn lemma_with_section(
    all: assembly::LinesView,
    t: section::RawSectionView,
    s: section::RawSectionView,
    g: policy::GeneralConfigView,
    w: rules::LayerRulesView,
)
    requires
        canonical::section_text(s) is Ok,
        fidelity::restates(t, s),
    ensures
        value::value_in(assembly::with_section(all, t, g, w)) == value::value_in(
            assembly::with_section(all, s, g, w),
        ),
{
    fidelity::lemma_same_kind(t, s);
    if !assembly::is_general(s) {
        let kind = text::lower(section::value_of(s, "type"@)->0);
        if kind == "line"@ {
            lemma_scopes();
            lemma_line(t, s, g, w);
            lemma_overrides(Scope::Line, t, s);
            if let Ok(p) = line::line_setting(s, g, w) {
                lemma_claimed(
                    all.owners,
                    registration::targets_of(
                        g.registration.contexts,
                        p.features.registration.extensions,
                    ),
                    0,
                    p.line.number,
                    section::key_place(t, "regexten"@),
                    section::key_place(s, "regexten"@),
                );
            }
        } else if kind == "softkey_profile"@ {
            lemma_profile(t, s);
        }
    }
}

/// Targets are claimed alike in every place.
proof fn lemma_claimed(
    owners: Seq<assembly::TargetOwnerView>,
    targets: Seq<policy::RegistrationTargetView>,
    i: int,
    number: text::Text,
    k: text::Text,
    l: text::Text,
)
    ensures
        value::value_in(assembly::claimed_from(owners, targets, i, number, k)) == value::value_in(
            assembly::claimed_from(owners, targets, i, number, l),
        ),
    decreases targets.len() - i,
{
    if i < targets.len() {
        if assembly::owner_index(owners, targets[i]) is None {
            lemma_claimed(
                owners.push(assembly::TargetOwnerView { target: targets[i], line: number }),
                targets,
                i + 1,
                number,
                k,
                l,
            );
        }
    }
}

/// Whether sections restate, one by one, sections that can be written.
pub open spec fn all_restate(
    read: Seq<section::RawSectionView>,
    meant: Seq<section::RawSectionView>,
) -> bool {
    &&& read.len() == meant.len()
    &&& forall|i: int| 0 <= i < meant.len() ==> fidelity::restates(#[trigger] read[i], meant[i])
    &&& forall|i: int|
        0 <= i < meant.len() ==> canonical::section_text(#[trigger] meant[i]) is Ok
}

/// Sections that restate others have their general sections in the same places.
proof fn lemma_next_general(
    read: Seq<section::RawSectionView>,
    meant: Seq<section::RawSectionView>,
    i: int,
)
    requires
        all_restate(read, meant),
        0 <= i,
    ensures
        module::next_general(read, i) == module::next_general(meant, i),
    decreases meant.len() - i,
{
    if i < meant.len() {
        assert(fidelity::restates(read[i], meant[i]));
        lemma_next_general(read, meant, i + 1);
    }
}

/// Sections that restate others have the same general policy.
proof fn lemma_general_from(
    read: Seq<section::RawSectionView>,
    meant: Seq<section::RawSectionView>,
    i: int,
    w: rules::LayerRulesView,
)
    requires
        all_restate(read, meant),
        0 <= i,
    ensures
        value::value_in(module::general_from(read, i, w)) == value::value_in(
            module::general_from(meant, i, w),
        ),
    decreases meant.len() - i,
{
    if i < meant.len() {
        assert(fidelity::restates(read[i], meant[i]) && canonical::section_text(meant[i]) is Ok);
        lemma_general_from(read, meant, i + 1, w);
        if assembly::is_general(meant[i]) {
            lemma_general(read[i], meant[i], w);
            lemma_next_general(read, meant, i + 1);
        }
    }
}

/// Sections that restate others have the same lines and profiles.
proof fn lemma_lines_from(
    read: Seq<section::RawSectionView>,
    meant: Seq<section::RawSectionView>,
    i: int,
    all: assembly::LinesView,
    g: policy::GeneralConfigView,
    w: rules::LayerRulesView,
)
    requires
        all_restate(read, meant),
        0 <= i,
    ensures
        value::value_in(assembly::lines_from(read, i, all, g, w)) == value::value_in(
            assembly::lines_from(meant, i, all, g, w),
        ),
    decreases meant.len() - i,
{
    if i < meant.len() {
        assert(fidelity::restates(read[i], meant[i]) && canonical::section_text(meant[i]) is Ok);
        lemma_with_section(all, read[i], meant[i], g, w);
        if let Ok(next) = assembly::with_section(all, meant[i], g, w) {
            lemma_lines_from(read, meant, i + 1, next, g, w);
        }
    }
}

/// Sections that restate others have the same devices.
proof fn lemma_devices_from(
    read: Seq<section::RawSectionView>,
    meant: Seq<section::RawSectionView>,
    i: int,
    all: assembly::DevicesView,
    lines: assembly::LinesView,
    g: policy::GeneralConfigView,
    w: rules::LayerRulesView,
)
    requires
        all_restate(read, meant),
        0 <= i,
    ensures
        value::value_in(assembly::devices_from(read, i, all, lines, g, w)) == value::value_in(
            assembly::devices_from(meant, i, all, lines, g, w),
        ),
    decreases meant.len() - i,
{
    if i < meant.len() {
        let t = read[i];
        let s = meant[i];
        assert(fidelity::restates(t, s) && canonical::section_text(s) is Ok);
        fidelity::lemma_same_kind(t, s);
        assert(assembly::is_device(t) == assembly::is_device(s));
        if assembly::is_device(s) {
            lemma_device_kind(s);
            lemma_scopes();
            lemma_device(
                t,
                s,
                lines.lines,
                lines.lines,
                lines.profiles,
                lines.profiles,
                g,
                w,
            );
            lemma_overrides(Scope::Device, t, s);
            if let Ok(d) = device::device_setting(s, lines.lines, lines.profiles, g, w) {
                let next = assembly::DevicesView {
                    devices: all.devices.push(d),
                    codecs: assembly::marked(all.codecs, d.id.name, assembly::sets_codecs(s)),
                    encryption: assembly::marked(
                        all.encryption,
                        d.id.name,
                        assembly::sets_encryption(s),
                    ),
                };
                lemma_devices_from(read, meant, i + 1, next, lines, g, w);
            }
        } else {
            lemma_devices_from(read, meant, i + 1, all, lines, g, w);
        }
    }
}

/// The kind of a device section.
proof fn lemma_device_kind(s: section::RawSectionView)
    requires
        assembly::is_device(s),
    ensures
        canonical::kind_of(s) == Some("device"@),
{
    reveal_strlit("device");
    let word = "device"@;
    assert(fidelity::is_key(word));
    fidelity::lemma_key_lower(word);
}

/// Sections that restate others say what those say.
pub proof fn law_restated_sections_mean_the_same(
    read: Seq<section::RawSectionView>,
    meant: Seq<section::RawSectionView>,
    w: rules::LayerRulesView,
)
    requires
        all_restate(read, meant),
    ensures
        value::value_in(module::resolved_config(read, w)) == value::value_in(
            module::resolved_config(meant, w),
        ),
{
    lemma_general_from(read, meant, 0, w);
    if let Ok(g) = module::general_from(meant, 0, w) {
        lemma_lines_from(read, meant, 0, assembly::no_lines(), g, w);
        if let Ok(lines) = assembly::lines_from(meant, 0, assembly::no_lines(), g, w) {
            lemma_devices_from(read, meant, 0, assembly::no_devices(), lines, g, w);
        }
    }
}

/// A section with the canonical names of its options.
pub open spec fn respelled(s: section::RawSectionView) -> section::RawSectionView {
    section::RawSectionView {
        name: s.name,
        line: s.line,
        is_template: false,
        parents: Seq::empty(),
        values: Seq::new(
            s.values.len(),
            |i: int|
                section::RawValueView { key: fidelity::entries_in(s)[i].key, ..s.values[i] },
        ),
    }
}

/// The spelling of options does not matter: sections that set the same options
/// to the same values say the same, by whichever names the options go.
pub proof fn law_spelling_of_options_does_not_matter(
    a: Seq<section::RawSectionView>,
    b: Seq<section::RawSectionView>,
    w: rules::LayerRulesView,
)
    requires
        a.len() == b.len(),
        forall|i: int| 0 <= i < a.len() ==> canonical::section_text(#[trigger] a[i]) is Ok,
        forall|i: int|
            0 <= i < b.len() ==> canonical::section_text(#[trigger] b[i]) is Ok && b[i].name
                == a[i].name && fidelity::entries_in(b[i]) == fidelity::entries_in(a[i]),
    ensures
        value::value_in(module::resolved_config(a, w)) == value::value_in(
            module::resolved_config(b, w),
        ),
{
    let read = Seq::new(a.len(), |i: int| respelled(a[i]));
    assert forall|i: int| 0 <= i < a.len() implies fidelity::restates(#[trigger] read[i], a[i])
        && fidelity::restates(read[i], b[i]) by {
        assert(canonical::section_text(a[i]) is Ok && canonical::section_text(b[i]) is Ok);
        fidelity::lemma_entries(a[i]);
        fidelity::lemma_entries(b[i]);
        assert forall|j: int| 0 <= j < read[i].values.len() implies (
        #[trigger] read[i].values[j]).key == fidelity::entries_in(a[i])[j].key
            && read[i].values[j].value == fidelity::entries_in(a[i])[j].value by {
            assert(fidelity::entries_in(a[i])[j].value == a[i].values[j].value);
        }
    }
    law_restated_sections_mean_the_same(read, a, w);
    law_restated_sections_mean_the_same(read, b, w);
}

/// Sections that can be written are written.
proof fn lemma_text_from(sections: Seq<section::RawSectionView>, i: int, out: text::Text)
    requires
        0 <= i,
        forall|j: int|
            0 <= j < sections.len() ==> canonical::section_text(#[trigger] sections[j]) is Ok,
    ensures
        canonical::text_from(sections, i, out) is Ok,
    decreases sections.len() - i,
{
    if i < sections.len() {
        assert(canonical::section_text(sections[i]) is Ok);
        let t = canonical::section_text(sections[i])->Ok_0;
        lemma_text_from(sections, i + 1, out + t);
        lemma_text_from(sections, i + 1, out + "\n"@ + t);
    }
}

/// Every accepted text has a canonical form, and no other has.
pub proof fn law_accepted_texts_have_a_canonical_form(input: text::Text, w: rules::LayerRulesView)
    requires
        input.len() <= usize::MAX,
    ensures
        canonical::canonical_text(input, w) is Ok <==> module::config_in(input, w) is Ok,
{
    if module::config_in(input, w) is Ok {
        let sections = fidelity::sections_in(input);
        fidelity::lemma_sections_in(input);
        fidelity::lemma_sorted(sections);
        order::lemma_all_writable(sections, w);
        let meant = canonical::sorted(sections);
        assert forall|j: int| 0 <= j < meant.len() implies canonical::section_text(
            #[trigger] meant[j],
        ) is Ok by {
            assert(sections.contains(meant[j]));
            let k = choose|k: int| 0 <= k < sections.len() && sections[k] == meant[j];
            assert(canonical::section_text(sections[k]) is Ok);
        }
        lemma_text_from(meant, 0, Seq::empty());
    }
}

/// What canonical text is read back to.
proof fn lemma_read_back(input: text::Text, w: rules::LayerRulesView)
    requires
        input.len() <= usize::MAX,
        canonical::canonical_text(input, w) is Ok,
    ensures
        ({
            let read = section::parsed(canonical::canonical_text(input, w)->Ok_0)->Ok_0;
            let meant = canonical::sorted(fidelity::sections_in(input));
            &&& section::parsed(canonical::canonical_text(input, w)->Ok_0) is Ok
            &&& all_restate(read, meant)
            &&& inheritance::all_resolved(read) == Ok::<
                Seq<section::RawSectionView>,
                error::ErrorView,
            >(read)
            &&& order::are_reordered(fidelity::sections_in(input), meant)
            &&& fidelity::are_ordered(meant)
            &&& canonical::text_from(meant, 0, Seq::empty()) == canonical::canonical_text(input, w)
        }),
{
    let sections = fidelity::sections_in(input);
    let meant = canonical::sorted(sections);
    fidelity::law_canonical_text_holds_the_sections(input, w);
    fidelity::lemma_sections_in(input);
    fidelity::lemma_sorted(sections);
    fidelity::lemma_text_lines(meant, 0, Seq::empty());
    let read = section::parsed(canonical::canonical_text(input, w)->Ok_0)->Ok_0;
    assert forall|i: int| 0 <= i < read.len() implies inheritance::is_plain(#[trigger] read[i]) by {
        assert(fidelity::restates(read[i], meant[i]));
    }
    inheritance::law_plain_sections_are_unchanged(read);
}

/// Canonical text configures what the text that it was written for configures.
pub proof fn law_canonical_text_means_the_same(input: text::Text, w: rules::LayerRulesView)
    requires
        input.len() <= usize::MAX,
        canonical::canonical_text(input, w) is Ok,
    ensures
        module::config_in(canonical::canonical_text(input, w)->Ok_0, w) is Ok,
        order::same_config(
            module::config_in(input, w)->Ok_0,
            module::config_in(canonical::canonical_text(input, w)->Ok_0, w)->Ok_0,
        ),
{
    let sections = fidelity::sections_in(input);
    let meant = canonical::sorted(sections);
    let read = section::parsed(canonical::canonical_text(input, w)->Ok_0)->Ok_0;
    lemma_read_back(input, w);
    assert(module::config_in(input, w) == module::resolved_config(sections, w));
    order::law_order_of_sections_does_not_matter(sections, meant, w);
    law_restated_sections_mean_the_same(read, meant, w);
}

/// Canonical text is canonical: it passes the check, and is its own canonical
/// form.
pub proof fn law_canonical_text_is_canonical(input: text::Text, w: rules::LayerRulesView)
    requires
        input.len() <= usize::MAX,
        canonical::canonical_text(input, w) is Ok,
    ensures
        canonical::canonical_text(canonical::canonical_text(input, w)->Ok_0, w)
            == canonical::canonical_text(input, w),
        canonical::check_of(canonical::canonical_text(input, w)->Ok_0, w) is None,
{
    let meant = canonical::sorted(fidelity::sections_in(input));
    let read = section::parsed(canonical::canonical_text(input, w)->Ok_0)->Ok_0;
    lemma_read_back(input, w);
    law_canonical_text_means_the_same(input, w);
    fidelity::lemma_same_order(read, meant);
    fidelity::lemma_same_text(read, meant, 0, Seq::empty());
    assert forall|j: int| 0 <= j < read.len() implies canonical::section_text(#[trigger] read[j])
        is Ok by {
        assert(fidelity::restates(read[j], meant[j]));
        assert(canonical::section_text(meant[j]) is Ok);
        fidelity::lemma_same_entries(read[j], meant[j]);
    }
    assert forall|j: int, k: int|
        0 <= j < read.len() && 0 <= k < read[j].values.len() implies (
    #[trigger] read[j].values[k]).key == fidelity::entries_in(read[j])[k].key by {
        assert(fidelity::restates(read[j], meant[j]));
        assert(canonical::section_text(meant[j]) is Ok);
        fidelity::lemma_same_entries(read[j], meant[j]);
    }
    fidelity::lemma_no_spelling_fault(read, 0);
}

} // verus!
