//! What settings mean: wherever sections stand, and by whichever spelling their
//! options go, the same values give the same configuration.

use vstd::prelude::*;

use crate::config::button;
use crate::config::codec;
use crate::config::device;
use crate::config::general;
use crate::config::group;
use crate::config::line;
use crate::config::network;
use crate::config::option;
use crate::config::option::Setting;
use crate::config::policy;
use crate::config::registration;
use crate::config::rules;
use crate::config::section;
use crate::config::value;
use crate::station::Codec;
use crate::text;

verus! {

/// Sections of one name whose settings are the same options with the same
/// values.
pub open spec fn are_alike(a: option::OptionsView, b: option::OptionsView) -> bool {
    &&& a.settings == b.settings
    &&& a.section.name == b.section.name
    &&& a.matched() && b.matched()
    &&& forall|i: int|
        0 <= i < a.section.values.len() ==> (#[trigger] a.section.values[i]).value
            == b.section.values[i].value
}

/// Options that are alike have the same first setting of an option.
proof fn lemma_found_from(a: option::OptionsView, b: option::OptionsView, s: Setting, i: int)
    requires
        are_alike(a, b),
        0 <= i,
    ensures
        match (value::found_from(a, s, i), value::found_from(b, s, i)) {
            (Some(x), Some(y)) => x.value == y.value,
            (None, None) => true,
            _ => false,
        },
    decreases a.settings.len() - i,
{
    if i < a.settings.len() {
        assert(a.section.values[i].value == b.section.values[i].value);
        lemma_found_from(a, b, s, i + 1);
    }
}

/// Options that are alike set an option to the same value, or neither sets it.
proof fn lemma_found(a: option::OptionsView, b: option::OptionsView, s: Setting)
    requires
        are_alike(a, b),
    ensures
        match (value::found(a, s), value::found(b, s)) {
            (Some(x), Some(y)) => x.value == y.value,
            (None, None) => true,
            _ => false,
        },
{
    lemma_found_from(a, b, s, 0);
}

/// Profiles are read alike in every place.
proof fn lemma_profiles_from(
    k: text::Text,
    l: text::Text,
    raw: text::Text,
    fields: Seq<text::Text>,
    i: int,
    list: Seq<policy::MediaEncryptionProfile>,
)
    ensures
        value::value_in(codec::profiles_from(k, raw, fields, i, list)) == value::value_in(
            codec::profiles_from(l, raw, fields, i, list),
        ),
    decreases fields.len() - i,
{
    if i < fields.len() {
        if let Some(profile) = codec::profile_of(fields[i]) {
            lemma_profiles_from(k, l, raw, fields, i + 1, list.push(profile));
        }
    }
}

/// Media encryption is read alike in every place.
proof fn lemma_encryption(k: text::Text, l: text::Text, raw: text::Text)
    ensures
        value::value_in(codec::encryption_setting(k, raw)) == value::value_in(
            codec::encryption_setting(l, raw),
        ),
{
    lemma_profiles_from(k, l, raw, text::fields_of(raw, ','), 1, Seq::empty());
}

/// Contexts are read alike in every place.
proof fn lemma_contexts_from(
    k: text::Text,
    l: text::Text,
    raw: text::Text,
    fields: Seq<text::Text>,
    i: int,
    seen: Seq<text::Text>,
)
    ensures
        value::value_in(registration::contexts_from(k, raw, fields, i, seen)) == value::value_in(
            registration::contexts_from(l, raw, fields, i, seen),
        ),
    decreases fields.len() - i,
{
    if i < fields.len() {
        lemma_contexts_from(k, l, raw, fields, i + 1, seen.push(fields[i]));
    }
}

/// A list of contexts is read alike in every place.
proof fn lemma_contexts(k: text::Text, l: text::Text, raw: text::Text)
    ensures
        value::value_in(registration::contexts_setting(k, raw)) == value::value_in(
            registration::contexts_setting(l, raw),
        ),
{
    let value = text::trimmed(raw);
    lemma_contexts_from(k, l, value, text::fields_of(value, '&'), 0, Seq::empty());
}

/// Extensions are read alike in every place.
proof fn lemma_extensions_from(
    k: text::Text,
    l: text::Text,
    raw: text::Text,
    fields: Seq<text::Text>,
    i: int,
    seen: Seq<policy::RegistrationExtensionView>,
)
    ensures
        value::value_in(registration::extensions_from(k, raw, fields, i, seen)) == value::value_in(
            registration::extensions_from(l, raw, fields, i, seen),
        ),
    decreases fields.len() - i,
{
    if i < fields.len() {
        let x = registration::extension_of(k, raw, fields[i]);
        let y = registration::extension_of(l, raw, fields[i]);
        assert(value::value_in(x) == value::value_in(y));
        if let Ok(extension) = x {
            lemma_extensions_from(k, l, raw, fields, i + 1, seen.push(extension));
        }
    }
}

/// A list of extensions is read alike in every place.
proof fn lemma_extensions(k: text::Text, l: text::Text, raw: text::Text)
    ensures
        value::value_in(registration::extensions_setting(k, raw)) == value::value_in(
            registration::extensions_setting(l, raw),
        ),
{
    let value = text::trimmed(raw);
    lemma_extensions_from(k, l, value, text::fields_of(value, '&'), 0, Seq::empty());
}

/// Groups are read alike in every place.
proof fn lemma_groups_of(k: text::Text, l: text::Text, raw: text::Text, fields: Seq<text::Text>)
    ensures
        value::value_in(group::groups_of(k, raw, fields)) == value::value_in(
            group::groups_of(l, raw, fields),
        ),
    decreases fields.len(),
{
    if fields.len() > 0 {
        lemma_groups_of(k, l, raw, fields.drop_last());
        assert(value::value_in(group::range_of(k, raw, fields.last())) == value::value_in(
            group::range_of(l, raw, fields.last()),
        ));
    }
}

/// A list of groups is read alike in every place.
proof fn lemma_groups(k: text::Text, l: text::Text, raw: text::Text)
    ensures
        value::value_in(group::numeric_setting(k, raw)) == value::value_in(
            group::numeric_setting(l, raw),
        ),
{
    lemma_groups_of(k, l, raw, text::fields_of(raw, ','));
}

/// Names of groups are read alike in every place.
proof fn lemma_names_of(k: text::Text, l: text::Text, raw: text::Text, fields: Seq<text::Text>)
    ensures
        value::value_in(group::names_of(k, raw, fields)) == value::value_in(
            group::names_of(l, raw, fields),
        ),
    decreases fields.len(),
{
    if fields.len() > 0 {
        lemma_names_of(k, l, raw, fields.drop_last());
    }
}

/// A list of names of groups is read alike in every place.
proof fn lemma_group_names(k: text::Text, l: text::Text, raw: text::Text)
    ensures
        value::value_in(group::named_setting(k, raw)) == value::value_in(
            group::named_setting(l, raw),
        ),
{
    lemma_names_of(k, l, raw, text::fields_of(raw, ','));
}

/// Options that are alike hold the same switches.
proof fn lemma_switches(a: option::OptionsView, b: option::OptionsView)
    requires
        are_alike(a, b),
    ensures
        forall|s: Setting| #[trigger] value::flag_at(a, s) == value::flag_at(b, s),
        forall|s: Setting| #[trigger] value::early_at(a, s) == value::early_at(b, s),
        forall|s: Setting| #[trigger] value::fallback_at(a, s) == value::fallback_at(b, s),
{
    assert forall|s: Setting| #[trigger] value::flag_at(a, s) == value::flag_at(b, s) by {
        lemma_found(a, b, s);
    }
    assert forall|s: Setting| #[trigger] value::early_at(a, s) == value::early_at(b, s) by {
        lemma_found(a, b, s);
    }
    assert forall|s: Setting| #[trigger] value::fallback_at(a, s) == value::fallback_at(b, s) by {
        lemma_found(a, b, s);
    }
}

/// Options that are alike hold the same modes.
proof fn lemma_modes(a: option::OptionsView, b: option::OptionsView)
    requires
        are_alike(a, b),
    ensures
        forall|s: Setting| #[trigger] value::dtmf_at(a, s) == value::dtmf_at(b, s),
        forall|s: Setting| #[trigger] value::order_at(a, s) == value::order_at(b, s),
        forall|s: Setting| #[trigger] value::nat_at(a, s) == value::nat_at(b, s),
        forall|s: Setting| #[trigger] value::transport_at(a, s) == value::transport_at(b, s),
        forall|s: Setting| #[trigger] value::dnd_at(a, s) == value::dnd_at(b, s),
        forall|s: Setting| #[trigger] value::code_page_at(a, s) == value::code_page_at(b, s),
        forall|s: Setting| #[trigger] value::video_mode_at(a, s) == value::video_mode_at(b, s),
        forall|s: Setting| #[trigger] value::jitter_kind_at(a, s) == value::jitter_kind_at(b, s),
{
    assert forall|s: Setting| #[trigger] value::dtmf_at(a, s) == value::dtmf_at(b, s) by {
        lemma_found(a, b, s);
    }
    assert forall|s: Setting| #[trigger] value::order_at(a, s) == value::order_at(b, s) by {
        lemma_found(a, b, s);
    }
    assert forall|s: Setting| #[trigger] value::nat_at(a, s) == value::nat_at(b, s) by {
        lemma_found(a, b, s);
    }
    assert forall|s: Setting| #[trigger] value::transport_at(a, s) == value::transport_at(b, s) by {
        lemma_found(a, b, s);
    }
    assert forall|s: Setting| #[trigger] value::dnd_at(a, s) == value::dnd_at(b, s) by {
        lemma_found(a, b, s);
    }
    assert forall|s: Setting| #[trigger] value::code_page_at(a, s) == value::code_page_at(b, s) by {
        lemma_found(a, b, s);
    }
    assert forall|s: Setting| #[trigger] value::video_mode_at(a, s) == value::video_mode_at(b, s) by {
        lemma_found(a, b, s);
    }
    assert forall|s: Setting| #[trigger] value::jitter_kind_at(a, s) == value::jitter_kind_at(b, s) by {
        lemma_found(a, b, s);
    }
}

/// Options that are alike hold the same rings, lamps and tones.
proof fn lemma_signals(a: option::OptionsView, b: option::OptionsView, w: rules::LayerRulesView)
    requires
        are_alike(a, b),
    ensures
        forall|s: Setting| #[trigger] value::ringer_at(a, s) == value::ringer_at(b, s),
        forall|s: Setting| #[trigger] value::lamp_at(a, s) == value::lamp_at(b, s),
        forall|s: Setting| #[trigger] value::tone_at(a, s, w) == value::tone_at(b, s, w),
        forall|s: Setting| #[trigger] value::optional_tone_at(a, s, w) == value::optional_tone_at(b, s, w),
{
    assert forall|s: Setting| #[trigger] value::ringer_at(a, s) == value::ringer_at(b, s) by {
        lemma_found(a, b, s);
    }
    assert forall|s: Setting| #[trigger] value::lamp_at(a, s) == value::lamp_at(b, s) by {
        lemma_found(a, b, s);
    }
    assert forall|s: Setting| #[trigger] value::tone_at(a, s, w) == value::tone_at(b, s, w) by {
        lemma_found(a, b, s);
    }
    assert forall|s: Setting| #[trigger] value::optional_tone_at(a, s, w) == value::optional_tone_at(b, s, w) by {
        lemma_found(a, b, s);
    }
}

/// Options that are alike hold the same numbers.
proof fn lemma_numbers(a: option::OptionsView, b: option::OptionsView)
    requires
        are_alike(a, b),
    ensures
        forall|s: Setting| #[trigger] value::jitter_at(a, s) == value::jitter_at(b, s),
        forall|s: Setting| #[trigger] value::timezone_at(a, s) == value::timezone_at(b, s),
        forall|s: Setting| #[trigger] value::refresh_at(a, s) == value::refresh_at(b, s),
        forall|s: Setting| #[trigger] value::whole_at(a, s) == value::whole_at(b, s),
        forall|s: Setting| #[trigger] value::first_digit_at(a, s) == value::first_digit_at(b, s),
        forall|s: Setting| #[trigger] value::digit_millis_at(a, s) == value::digit_millis_at(b, s),
        forall|s: Setting| #[trigger] value::digit_seconds_at(a, s) == value::digit_seconds_at(b, s),
        forall|s: Setting| #[trigger] value::waiting_at(a, s) == value::waiting_at(b, s),
        forall|s: Setting| #[trigger] value::backoff_at(a, s) == value::backoff_at(b, s),
        forall|s: Setting| #[trigger] value::priority_at(a, s) == value::priority_at(b, s),
        forall|s: Setting| #[trigger] value::incoming_at(a, s) == value::incoming_at(b, s),
        forall|s: Setting| #[trigger] value::answer_timeout_at(a, s) == value::answer_timeout_at(b, s),
        forall|s: Setting| #[trigger] value::clear_port_at(a, s) == value::clear_port_at(b, s),
        forall|s: Setting| #[trigger] value::tls_port_at(a, s) == value::tls_port_at(b, s),
        forall|s: Setting| #[trigger] value::tos_at(a, s) == value::tos_at(b, s),
        forall|s: Setting| #[trigger] value::dscp_at(a, s) == value::dscp_at(b, s),
        forall|s: Setting| #[trigger] value::cos_at(a, s) == value::cos_at(b, s),
{
    assert forall|s: Setting| #[trigger] value::jitter_at(a, s) == value::jitter_at(b, s) by {
        lemma_found(a, b, s);
    }
    assert forall|s: Setting| #[trigger] value::timezone_at(a, s) == value::timezone_at(b, s) by {
        lemma_found(a, b, s);
    }
    assert forall|s: Setting| #[trigger] value::refresh_at(a, s) == value::refresh_at(b, s) by {
        lemma_found(a, b, s);
    }
    assert forall|s: Setting| #[trigger] value::whole_at(a, s) == value::whole_at(b, s) by {
        lemma_found(a, b, s);
    }
    assert forall|s: Setting| #[trigger] value::first_digit_at(a, s) == value::first_digit_at(b, s) by {
        lemma_found(a, b, s);
    }
    assert forall|s: Setting| #[trigger] value::digit_millis_at(a, s) == value::digit_millis_at(b, s) by {
        lemma_found(a, b, s);
    }
    assert forall|s: Setting| #[trigger] value::digit_seconds_at(a, s) == value::digit_seconds_at(b, s) by {
        lemma_found(a, b, s);
    }
    assert forall|s: Setting| #[trigger] value::waiting_at(a, s) == value::waiting_at(b, s) by {
        lemma_found(a, b, s);
    }
    assert forall|s: Setting| #[trigger] value::backoff_at(a, s) == value::backoff_at(b, s) by {
        lemma_found(a, b, s);
    }
    assert forall|s: Setting| #[trigger] value::priority_at(a, s) == value::priority_at(b, s) by {
        lemma_found(a, b, s);
    }
    assert forall|s: Setting| #[trigger] value::incoming_at(a, s) == value::incoming_at(b, s) by {
        lemma_found(a, b, s);
    }
    assert forall|s: Setting| #[trigger] value::answer_timeout_at(a, s) == value::answer_timeout_at(b, s) by {
        lemma_found(a, b, s);
    }
    assert forall|s: Setting| #[trigger] value::clear_port_at(a, s) == value::clear_port_at(b, s) by {
        lemma_found(a, b, s);
    }
    assert forall|s: Setting| #[trigger] value::tls_port_at(a, s) == value::tls_port_at(b, s) by {
        lemma_found(a, b, s);
    }
    assert forall|s: Setting| #[trigger] value::tos_at(a, s) == value::tos_at(b, s) by {
        lemma_found(a, b, s);
    }
    assert forall|s: Setting| #[trigger] value::dscp_at(a, s) == value::dscp_at(b, s) by {
        lemma_found(a, b, s);
    }
    assert forall|s: Setting| #[trigger] value::cos_at(a, s) == value::cos_at(b, s) by {
        lemma_found(a, b, s);
    }
}

/// Options that are alike hold the same addresses and paths.
proof fn lemma_addresses(a: option::OptionsView, b: option::OptionsView)
    requires
        are_alike(a, b),
    ensures
        forall|s: Setting| #[trigger] value::clear_socket_at(a, s) == value::clear_socket_at(b, s),
        forall|s: Setting| #[trigger] value::tls_socket_at(a, s) == value::tls_socket_at(b, s),
        forall|s: Setting| #[trigger] value::clear_ip_at(a, s) == value::clear_ip_at(b, s),
        forall|s: Setting| #[trigger] value::tls_ip_at(a, s) == value::tls_ip_at(b, s),
        forall|s: Setting| #[trigger] value::advertised_at(a, s) == value::advertised_at(b, s),
        forall|s: Setting| #[trigger] value::advertised4_at(a, s) == value::advertised4_at(b, s),
        forall|s: Setting| #[trigger] value::advertised6_at(a, s) == value::advertised6_at(b, s),
        forall|s: Setting| #[trigger] value::private_path_at(a, s) == value::private_path_at(b, s),
        forall|s: Setting| #[trigger] value::public_path_at(a, s) == value::public_path_at(b, s),
        forall|s: Setting| #[trigger] value::external_ip_at(a, s) == value::external_ip_at(b, s),
        forall|s: Setting| #[trigger] value::external_host_at(a, s) == value::external_host_at(b, s),
{
    assert forall|s: Setting| #[trigger] value::clear_socket_at(a, s) == value::clear_socket_at(b, s) by {
        lemma_found(a, b, s);
    }
    assert forall|s: Setting| #[trigger] value::tls_socket_at(a, s) == value::tls_socket_at(b, s) by {
        lemma_found(a, b, s);
    }
    assert forall|s: Setting| #[trigger] value::clear_ip_at(a, s) == value::clear_ip_at(b, s) by {
        lemma_found(a, b, s);
    }
    assert forall|s: Setting| #[trigger] value::tls_ip_at(a, s) == value::tls_ip_at(b, s) by {
        lemma_found(a, b, s);
    }
    assert forall|s: Setting| #[trigger] value::advertised_at(a, s) == value::advertised_at(b, s) by {
        lemma_found(a, b, s);
    }
    assert forall|s: Setting| #[trigger] value::advertised4_at(a, s) == value::advertised4_at(b, s) by {
        lemma_found(a, b, s);
    }
    assert forall|s: Setting| #[trigger] value::advertised6_at(a, s) == value::advertised6_at(b, s) by {
        lemma_found(a, b, s);
    }
    assert forall|s: Setting| #[trigger] value::private_path_at(a, s) == value::private_path_at(b, s) by {
        lemma_found(a, b, s);
    }
    assert forall|s: Setting| #[trigger] value::public_path_at(a, s) == value::public_path_at(b, s) by {
        lemma_found(a, b, s);
    }
    assert forall|s: Setting| #[trigger] value::external_ip_at(a, s) == value::external_ip_at(b, s) by {
        lemma_found(a, b, s);
    }
    assert forall|s: Setting| #[trigger] value::external_host_at(a, s) == value::external_host_at(b, s) by {
        lemma_found(a, b, s);
    }
}

/// Options that are alike hold the same texts.
proof fn lemma_texts(a: option::OptionsView, b: option::OptionsView, w: rules::LayerRulesView)
    requires
        are_alike(a, b),
    ensures
        forall|s: Setting| #[trigger] value::language_at(a, s, w) == value::language_at(b, s, w),
        forall|s: Setting| #[trigger] value::account_at(a, s, w) == value::account_at(b, s, w),
        forall|s: Setting| #[trigger] value::terminator_at(a, s) == value::terminator_at(b, s),
        forall|s: Setting| #[trigger] value::app_options_at(a, s) == value::app_options_at(b, s),
        forall|s: Setting| #[trigger] value::hotline_at(a, s, w) == value::hotline_at(b, s, w),
        forall|s: Setting| #[trigger] value::hotline_text_at(a, s, w) == value::hotline_text_at(b, s, w),
        forall|s: Setting| #[trigger] value::family_at(a, s) == value::family_at(b, s),
        forall|s: Setting| #[trigger] value::mailbox_at(a, s) == value::mailbox_at(b, s),
        forall|s: Setting| #[trigger] value::voicemail_at(a, s, w) == value::voicemail_at(b, s, w),
        forall|s: Setting| #[trigger] value::forwarding_at(a, s, w) == value::forwarding_at(b, s, w),
        forall|s: Setting| #[trigger] value::optional_at(a, s) == value::optional_at(b, s),
        forall|s: Setting| #[trigger] value::empty_optional_at(a, s) == value::empty_optional_at(b, s),
        forall|s: Setting| #[trigger] value::prefix_at(a, s) == value::prefix_at(b, s),
        forall|s: Setting| #[trigger] value::pin_at(a, s) == value::pin_at(b, s),
        forall|s: Setting| #[trigger] value::date_at(a, s, w) == value::date_at(b, s, w),
{
    assert forall|s: Setting| #[trigger] value::language_at(a, s, w) == value::language_at(b, s, w) by {
        lemma_found(a, b, s);
    }
    assert forall|s: Setting| #[trigger] value::account_at(a, s, w) == value::account_at(b, s, w) by {
        lemma_found(a, b, s);
    }
    assert forall|s: Setting| #[trigger] value::terminator_at(a, s) == value::terminator_at(b, s) by {
        lemma_found(a, b, s);
    }
    assert forall|s: Setting| #[trigger] value::app_options_at(a, s) == value::app_options_at(b, s) by {
        lemma_found(a, b, s);
    }
    assert forall|s: Setting| #[trigger] value::hotline_at(a, s, w) == value::hotline_at(b, s, w) by {
        lemma_found(a, b, s);
    }
    assert forall|s: Setting| #[trigger] value::hotline_text_at(a, s, w) == value::hotline_text_at(b, s, w) by {
        lemma_found(a, b, s);
    }
    assert forall|s: Setting| #[trigger] value::family_at(a, s) == value::family_at(b, s) by {
        lemma_found(a, b, s);
    }
    assert forall|s: Setting| #[trigger] value::mailbox_at(a, s) == value::mailbox_at(b, s) by {
        lemma_found(a, b, s);
    }
    assert forall|s: Setting| #[trigger] value::voicemail_at(a, s, w) == value::voicemail_at(b, s, w) by {
        lemma_found(a, b, s);
    }
    assert forall|s: Setting| #[trigger] value::forwarding_at(a, s, w) == value::forwarding_at(b, s, w) by {
        lemma_found(a, b, s);
    }
    assert forall|s: Setting| #[trigger] value::optional_at(a, s) == value::optional_at(b, s) by {
        lemma_found(a, b, s);
    }
    assert forall|s: Setting| #[trigger] value::empty_optional_at(a, s) == value::empty_optional_at(b, s) by {
        lemma_found(a, b, s);
    }
    assert forall|s: Setting| #[trigger] value::prefix_at(a, s) == value::prefix_at(b, s) by {
        lemma_found(a, b, s);
    }
    assert forall|s: Setting| #[trigger] value::pin_at(a, s) == value::pin_at(b, s) by {
        lemma_found(a, b, s);
    }
    assert forall|s: Setting| #[trigger] value::date_at(a, s, w) == value::date_at(b, s, w) by {
        lemma_found(a, b, s);
    }
}

/// Options that are alike hold the same lists.
proof fn lemma_lists(a: option::OptionsView, b: option::OptionsView)
    requires
        are_alike(a, b),
    ensures
        forall|s: Setting| #[trigger] value::encryption_at(a, s) == value::encryption_at(b, s),
        forall|s: Setting| #[trigger] value::contexts_at(a, s) == value::contexts_at(b, s),
        forall|s: Setting| #[trigger] value::groups_at(a, s) == value::groups_at(b, s),
        forall|s: Setting| #[trigger] value::names_at(a, s) == value::names_at(b, s),
        forall|s: Setting| #[trigger] value::extensions_at(a, s) == value::extensions_at(b, s),
{
    assert forall|s: Setting| #[trigger] value::encryption_at(a, s) == value::encryption_at(b, s) by {
        lemma_found(a, b, s);
        if let (Some(x), Some(y)) = (value::found(a, s), value::found(b, s)) {
            lemma_encryption(section::place(x), section::place(y), x.value);
        }
    }
    assert forall|s: Setting| #[trigger] value::contexts_at(a, s) == value::contexts_at(b, s) by {
        lemma_found(a, b, s);
        if let (Some(x), Some(y)) = (value::found(a, s), value::found(b, s)) {
            lemma_contexts(section::place(x), section::place(y), x.value);
        }
    }
    assert forall|s: Setting| #[trigger] value::groups_at(a, s) == value::groups_at(b, s) by {
        lemma_found(a, b, s);
        if let (Some(x), Some(y)) = (value::found(a, s), value::found(b, s)) {
            lemma_groups(section::place(x), section::place(y), x.value);
        }
    }
    assert forall|s: Setting| #[trigger] value::names_at(a, s) == value::names_at(b, s) by {
        lemma_found(a, b, s);
        if let (Some(x), Some(y)) = (value::found(a, s), value::found(b, s)) {
            lemma_group_names(section::place(x), section::place(y), x.value);
        }
    }
    assert forall|s: Setting| #[trigger] value::extensions_at(a, s) == value::extensions_at(b, s) by {
        lemma_found(a, b, s);
        if let (Some(x), Some(y)) = (value::found(a, s), value::found(b, s)) {
            lemma_extensions(section::place(x), section::place(y), x.value);
        }
    }
}
/// A value is refused in every place or in none.
proof fn lemma_value_fault(
    s: Setting,
    k: text::Text,
    l: text::Text,
    raw: text::Text,
    w: rules::LayerRulesView,
)
    ensures
        value::value_fault(s, k, raw, w) is None == value::value_fault(s, l, raw, w) is None,
{
    lemma_encryption(k, l, raw);
    lemma_contexts(k, l, raw);
    lemma_extensions(k, l, raw);
    lemma_groups(k, l, raw);
    lemma_group_names(k, l, raw);
}

/// Options that are alike give the same lists.
proof fn lemma_upto(a: option::OptionsView, b: option::OptionsView, n: int, w: rules::LayerRulesView)
    requires
        are_alike(a, b),
        n <= a.settings.len(),
    ensures
        value::acl_upto(a, n) == value::acl_upto(b, n),
        value::local_upto(a, n) == value::local_upto(b, n),
        value::codecs_upto(a, n) == value::codecs_upto(b, n),
        value::servers_upto(a, n) == value::servers_upto(b, n),
        value::variables_upto(a, n, w) == value::variables_upto(b, n, w),
    decreases n,
{
    if n > 0 {
        assert(a.section.values[n - 1].value == b.section.values[n - 1].value);
        lemma_upto(a, b, n - 1, w);
    }
}

/// Options that are alike are accepted together.
proof fn lemma_entry_fault(
    a: option::OptionsView,
    b: option::OptionsView,
    i: int,
    w: rules::LayerRulesView,
)
    requires
        are_alike(a, b),
        0 <= i < a.settings.len(),
    ensures
        value::entry_fault(a, i, w) is None == value::entry_fault(b, i, w) is None,
        line::entry_fault(a, i, w) is None == line::entry_fault(b, i, w) is None,
{
    let x = a.section.values[i];
    let y = b.section.values[i];
    assert(x.value == y.value);
    lemma_value_fault(a.settings[i], section::place(x), section::place(y), x.value, w);
    lemma_upto(a, b, i, w);
}

/// General options that are alike are accepted together.
pub(crate) proof fn lemma_first_fault(
    a: option::OptionsView,
    b: option::OptionsView,
    i: int,
    w: rules::LayerRulesView,
)
    requires
        are_alike(a, b),
        0 <= i,
    ensures
        value::first_fault(a, i, w) is None == value::first_fault(b, i, w) is None,
    decreases a.settings.len() - i,
{
    if i < a.settings.len() {
        lemma_entry_fault(a, b, i, w);
        lemma_first_fault(a, b, i + 1, w);
    }
}

/// Options that are alike set the same options.
proof fn lemma_sets(a: option::OptionsView, b: option::OptionsView)
    requires
        are_alike(a, b),
    ensures
        forall|s: Setting| #[trigger] general::sets(a, s) == general::sets(b, s),
{
    assert forall|s: Setting| #[trigger] general::sets(a, s) == general::sets(b, s) by {
        lemma_found(a, b, s);
    }
}

/// Options that are alike have the same listeners and addresses.
proof fn lemma_listeners(a: option::OptionsView, b: option::OptionsView)
    requires
        are_alike(a, b),
    ensures
        general::clear_of(a) == general::clear_of(b),
        general::advertised_of(a) == general::advertised_of(b),
        value::value_in(general::external_of(a)) == value::value_in(general::external_of(b)),
        value::value_in(general::tls_of(a)) == value::value_in(general::tls_of(b)),
{
    lemma_addresses(a, b);
    lemma_numbers(a, b);
    lemma_sets(a, b);
    assert(general::secure_of(a) == general::secure_of(b));
    assert(value::value_in(general::credentials_of(a)) == value::value_in(
        general::credentials_of(b),
    ));
}

/// Options that are alike have the same seconds and names.
proof fn lemma_seconds(a: option::OptionsView, b: option::OptionsView)
    requires
        are_alike(a, b),
    ensures
        general::server_name_of(a) == general::server_name_of(b),
        forall|s: Setting, base: u32| #[trigger]
            general::seconds_of(a, s, base) == general::seconds_of(b, s, base),
{
    lemma_found(a, b, Setting::ServerName);
    assert forall|s: Setting, base: u32| #[trigger]
        general::seconds_of(a, s, base) == general::seconds_of(b, s, base) by {
        lemma_found(a, b, s);
    }
}

/// Options that are alike have the same marks.
proof fn lemma_marks(a: option::OptionsView, b: option::OptionsView)
    requires
        are_alike(a, b),
    ensures
        general::marks_of(a) == general::marks_of(b),
{
    lemma_numbers(a, b);
}

/// General options that are alike say the same, where nothing is refused.
proof fn lemma_plain_general(
    a: option::OptionsView,
    b: option::OptionsView,
    w: rules::LayerRulesView,
    codecs: Seq<Codec>,
    external: Option<policy::ExternalAddressView>,
    tls: Option<policy::TlsListenerView>,
    tables: Option<policy::RealtimeTableConfigView>,
)
    requires
        are_alike(a, b),
    ensures
        general::plain_general(a, w, codecs, external, tls, tables) == general::plain_general(
            b,
            w,
            codecs,
            external,
            tls,
            tables,
        ),
        general::hotline_of(a, w) == general::hotline_of(b, w),
{
    lemma_listeners(a, b);
    lemma_seconds(a, b);
    lemma_marks(a, b);
    lemma_upto(a, b, a.settings.len() as int, w);
    lemma_switches(a, b);
    lemma_modes(a, b);
    lemma_signals(a, b, w);
    lemma_numbers(a, b);
    lemma_texts(a, b, w);
    lemma_lists(a, b);
}

/// General options that are alike say the same.
pub(crate) proof fn lemma_general(a: option::OptionsView, b: option::OptionsView, w: rules::LayerRulesView)
    requires
        are_alike(a, b),
    ensures
        value::value_in(general::general_of(a, w)) == value::value_in(general::general_of(b, w)),
{
    lemma_listeners(a, b);
    lemma_sets(a, b);
    lemma_upto(a, b, a.settings.len() as int, w);
    assert(value::value_in(general::tables_of(a)) == value::value_in(general::tables_of(b))) by {
        lemma_texts(a, b, w);
    }
    let codecs = general::codecs_of(a, "general.codecs"@, codec::mapped_audio())->Ok_0;
    let external = general::external_of(a)->Ok_0;
    let tls = general::tls_of(a)->Ok_0;
    let tables = general::tables_of(a)->Ok_0;
    lemma_plain_general(a, b, w, codecs, external, tls, tables);
}

/// Line options that are alike are accepted together.
pub(crate) proof fn lemma_line_fault(
    a: option::OptionsView,
    b: option::OptionsView,
    i: int,
    w: rules::LayerRulesView,
)
    requires
        are_alike(a, b),
        0 <= i,
    ensures
        line::first_fault(a, i, w) is None == line::first_fault(b, i, w) is None,
    decreases a.settings.len() - i,
{
    if i < a.settings.len() {
        lemma_entry_fault(a, b, i, w);
        lemma_line_fault(a, b, i + 1, w);
    }
}

/// Whether sections have the same value, or none, under a key.
pub open spec fn agree_on(
    a: section::RawSectionView,
    b: section::RawSectionView,
    key: text::Text,
) -> bool {
    section::value_of(a, key) == section::value_of(b, key)
}

/// Line options that are alike have the same features.
proof fn lemma_line_features(
    a: option::OptionsView,
    b: option::OptionsView,
    g: policy::GeneralConfigView,
    w: rules::LayerRulesView,
    extensions: Seq<policy::RegistrationExtensionView>,
    codecs: Seq<Codec>,
)
    requires
        are_alike(a, b),
    ensures
        line::features_of(a, g, w, extensions, codecs) == line::features_of(
            b,
            g,
            w,
            extensions,
            codecs,
        ),
        line::conference_of(a) == line::conference_of(b),
{
    lemma_switches(a, b);
    lemma_modes(a, b);
    lemma_signals(a, b, w);
    lemma_numbers(a, b);
    lemma_texts(a, b, w);
    lemma_lists(a, b);
}

/// Line options that are alike say the same.
pub(crate) proof fn lemma_line(
    a: option::OptionsView,
    b: option::OptionsView,
    g: policy::GeneralConfigView,
    w: rules::LayerRulesView,
)
    requires
        are_alike(a, b),
        agree_on(a.section, b.section, "label"@),
        agree_on(a.section, b.section, "context"@),
        agree_on(a.section, b.section, "callerid"@),
    ensures
        value::value_in(line::line_of(a, g, w)) == value::value_in(line::line_of(b, g, w)),
{
    let contexts = g.registration.contexts;
    assert(value::value_in(line::registered(a, contexts)) == value::value_in(
        line::registered(b, contexts),
    )) by {
        lemma_lists(a, b);
    }
    let extensions = line::registered(a, contexts)->Ok_0;
    lemma_upto(a, b, a.settings.len() as int, w);
    let codecs = general::codecs_of(a, a.section.name + ".codecs"@, g.codecs)->Ok_0;
    lemma_line_features(a, b, g, w, extensions, codecs);
    let context = network::over(section::value_of(a.section, "context"@), "from-sccp"@);
    assert forall|context: text::Text| #[trigger]
        line::identity_of(a, g, w, context) == line::identity_of(b, g, w, context) by {
        lemma_texts(a, b, w);
    }
}

/// The line of a number.
pub open spec fn line_at(lines: Seq<policy::LineConfigView>, number: text::Text) -> Option<
    policy::LineConfigView,
> {
    match button::line_index(lines, number) {
        Some(i) => Some(lines[i as int]),
        None => None,
    }
}

/// Lists with the same line of every number.
pub open spec fn same_lines(l: Seq<policy::LineConfigView>, m: Seq<policy::LineConfigView>) -> bool {
    forall|number: text::Text| #[trigger] line_at(l, number) == line_at(m, number)
}

/// Lists with a profile of the same names.
pub open spec fn same_profile_names(
    p: Seq<policy::SoftKeyProfileView>,
    q: Seq<policy::SoftKeyProfileView>,
) -> bool {
    forall|name: text::Text| #[trigger]
        device::profile_index(p, name) is None == device::profile_index(q, name) is None
}

/// A line button is the same over the same lines.
proof fn lemma_line_button(
    raw: text::Text,
    name: text::Text,
    l: Seq<policy::LineConfigView>,
    m: Seq<policy::LineConfigView>,
    at: button::ButtonInstances,
)
    requires
        same_lines(l, m),
    ensures
        button::line_button(raw, name, l, at) == button::line_button(raw, name, m, at),
{
    let fields = text::fields_of(raw, ',');
    if let Ok(number) = button::field_setting(fields[0], "line"@) {
        assert(line_at(l, number) == line_at(m, number));
    }
}

/// Device options that are alike have the same buttons.
proof fn lemma_button_at(
    a: option::OptionsView,
    b: option::OptionsView,
    i: int,
    l: Seq<policy::LineConfigView>,
    m: Seq<policy::LineConfigView>,
    at: button::ButtonInstances,
)
    requires
        are_alike(a, b),
        same_lines(l, m),
        0 <= i < a.settings.len(),
    ensures
        device::button_at(a, i, l, at) == device::button_at(b, i, m, at),
{
    let raw = a.section.values[i].value;
    assert(raw == b.section.values[i].value);
    lemma_line_button(raw, a.section.name, l, m, at);
    let fields = text::fields_of(raw, ',');
    lemma_line_button(text::joined(fields.skip(1), ","@), a.section.name, l, m, at);
}

/// Device options that are alike give the same lists.
proof fn lemma_device_upto(
    a: option::OptionsView,
    b: option::OptionsView,
    n: int,
    l: Seq<policy::LineConfigView>,
    m: Seq<policy::LineConfigView>,
)
    requires
        are_alike(a, b),
        same_lines(l, m),
        n <= a.settings.len(),
    ensures
        device::buttons_upto(a, n, l) == device::buttons_upto(b, n, m),
        device::hosts_upto(a, n) == device::hosts_upto(b, n),
        device::states_upto(a, n) == device::states_upto(b, n),
    decreases n,
{
    if n > 0 {
        assert(a.section.values[n - 1].value == b.section.values[n - 1].value);
        lemma_device_upto(a, b, n - 1, l, m);
        lemma_button_at(a, b, n - 1, l, m, device::buttons_upto(a, n - 1, l).instances);
    }
}

/// Device options that are alike are accepted together.
pub(crate) proof fn lemma_device_fault(
    a: option::OptionsView,
    b: option::OptionsView,
    i: int,
    l: Seq<policy::LineConfigView>,
    m: Seq<policy::LineConfigView>,
    p: Seq<policy::SoftKeyProfileView>,
    q: Seq<policy::SoftKeyProfileView>,
    w: rules::LayerRulesView,
)
    requires
        are_alike(a, b),
        same_lines(l, m),
        same_profile_names(p, q),
        0 <= i,
    ensures
        device::first_fault(a, i, l, p, w) is None == device::first_fault(b, i, m, q, w) is None,
    decreases a.settings.len() - i,
{
    if i < a.settings.len() {
        lemma_entry_fault(a, b, i, w);
        lemma_device_fault(a, b, i + 1, l, m, p, q, w);
        lemma_device_upto(a, b, i, l, m);
        lemma_button_at(a, b, i, l, m, device::buttons_upto(a, i, l).instances);
        assert(a.section.values[i].value == b.section.values[i].value);
    }
}

/// Device options that are alike say the same.
pub(crate) proof fn lemma_device(
    a: option::OptionsView,
    b: option::OptionsView,
    l: Seq<policy::LineConfigView>,
    m: Seq<policy::LineConfigView>,
    g: policy::GeneralConfigView,
    w: rules::LayerRulesView,
)
    requires
        are_alike(a, b),
        same_lines(l, m),
        agree_on(a.section, b.section, "description"@),
    ensures
        value::value_in(device::device_of(a, l, g, w)) == value::value_in(
            device::device_of(b, m, g, w),
        ),
{
    let n = a.settings.len() as int;
    lemma_device_upto(a, b, n, l, m);
    lemma_upto(a, b, n, w);
    lemma_marks(a, b);
    lemma_found(a, b, Setting::SoftkeyProfile);
    lemma_device_parts(a, b, g, w);
}

/// Device options that are alike have the same features and policies.
proof fn lemma_device_parts(
    a: option::OptionsView,
    b: option::OptionsView,
    g: policy::GeneralConfigView,
    w: rules::LayerRulesView,
)
    requires
        are_alike(a, b),
    ensures
        forall|states: Seq<policy::FeatureButtonDefault>| #[trigger]
            device::features_of(a, w, states) == device::features_of(b, w, states),
        forall|base: policy::ConferenceDialingConfigView| #[trigger]
            device::conference_of(a, base) == device::conference_of(b, base),
        device::call_ui_of(a) == device::call_ui_of(b),
        forall|codecs: Seq<Codec>| #[trigger]
            device::media_of(a, g, codecs) == device::media_of(b, g, codecs),
        device::transport_of(a) == device::transport_of(b),
        value::nat_at(a, Setting::Nat) == value::nat_at(b, Setting::Nat),
        value::flag_at(a, Setting::Park) == value::flag_at(b, Setting::Park),
        value::flag_at(a, Setting::AllowOverlap) == value::flag_at(b, Setting::AllowOverlap),
{
    lemma_switches(a, b);
    lemma_modes(a, b);
    lemma_signals(a, b, w);
    lemma_numbers(a, b);
    lemma_texts(a, b, w);
    lemma_lists(a, b);
}

} // verus!
