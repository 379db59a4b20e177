//! What settings do: how a setting is found by the name of its option.

use vstd::prelude::*;

use crate::config::fidelity;
use crate::config::line;
use crate::config::option;
use crate::config::option::{Scope, Setting};
use crate::config::rules;
use crate::config::section;
use crate::config::value;
use crate::text;

verus! {

/// A word for yes or for no.
pub open spec fn says(v: text::Text, on: bool) -> bool {
    let word = text::lower(text::trimmed(v));
    if on {
        word == "yes"@ || word == "true"@ || word == "on"@ || word == "1"@
    } else {
        word == "no"@ || word == "false"@ || word == "off"@ || word == "0"@
    }
}

/// No setting of a section has this name, up to the case of letters.
pub open spec fn unset(s: section::RawSectionView, name: text::Text) -> bool {
    forall|i: int| 0 <= i < s.values.len() ==> text::lower((#[trigger] s.values[i]).key) != name
}

/// A setting that does not repeat is the one that is found for its option.
pub(crate) proof fn lemma_found_is(o: option::OptionsView, w: rules::LayerRulesView, i: int)
    requires
        o.matched(),
        0 <= i < o.settings.len(),
        !value::repeats(o.settings[i]),
        value::entry_fault(o, i, w) is None,
    ensures
        value::found(o, o.settings[i]) == Some(o.section.values[i]),
        value::value_fault(
            o.settings[i],
            section::place(o.section.values[i]),
            o.section.values[i].value,
            w,
        ) is None,
{
    lemma_found_first(o, i, 0);
}

proof fn lemma_found_first(o: option::OptionsView, i: int, j: int)
    requires
        0 <= j <= i < o.settings.len(),
        !value::is_excluded(o.settings, i),
    ensures
        value::found_from(o, o.settings[i], j) == Some(o.section.values[i]),
    decreases i - j,
{
    if j < i {
        if o.settings[j] == o.settings[i] {
            assert(value::excludes(o.settings[i], o.settings[j]));
        }
        lemma_found_first(o, i, j + 1);
    }
}

/// An option without a setting is not found.
pub(crate) proof fn lemma_not_found(o: option::OptionsView, x: Setting)
    requires
        forall|i: int| 0 <= i < o.settings.len() ==> #[trigger] o.settings[i] != x,
    ensures
        value::found(o, x) is None,
{
    lemma_not_found_from(o, x, 0);
}

proof fn lemma_not_found_from(o: option::OptionsView, x: Setting, j: int)
    requires
        0 <= j,
        forall|i: int| 0 <= i < o.settings.len() ==> #[trigger] o.settings[i] != x,
    ensures
        value::found_from(o, x, j) is None,
    decreases o.settings.len() - j,
{
    if j < o.settings.len() {
        lemma_not_found_from(o, x, j + 1);
    }
}

/// Where nothing is refused, no single setting is.
pub(crate) proof fn lemma_none_refused(
    o: option::OptionsView,
    w: rules::LayerRulesView,
    i: int,
    j: int,
)
    requires
        0 <= j <= i < o.settings.len(),
    ensures
        value::first_fault(o, j, w) is None ==> value::entry_fault(o, i, w) is None,
        line::first_fault(o, j, w) is None ==> line::entry_fault(o, i, w) is None,
    decreases i - j,
{
    if j < i {
        lemma_none_refused(o, w, i, j + 1);
    }
}

/// The options of a section, one for each setting.
pub(crate) proof fn lemma_decoded(scope: Scope, s: section::RawSectionView)
    requires
        option::decoded(scope, s) is Ok,
    ensures
        ({
            let o = option::decoded(scope, s)->Ok_0;
            &&& o.matched()
            &&& o.section == s
            &&& forall|i: int|
                0 <= i < s.values.len() ==> option::named(
                    scope,
                    text::lower((#[trigger] s.values[i]).key),
                ) == Some(o.settings[i])
        }),
{
    fidelity::lemma_settings_from(scope, s.values, 0, Seq::empty());
}

/// A value that is the only one under a name is found by that name.
pub(crate) proof fn lemma_value_of(s: section::RawSectionView, name: text::Text, i: int)
    requires
        0 <= i < s.values.len(),
        text::lower(s.values[i].key) == text::lower(name),
        forall|j: int|
            0 <= j < s.values.len() && j != i ==> text::lower((#[trigger] s.values[j]).key)
                != text::lower(name),
    ensures
        section::value_of(s, name) == Some(s.values[i].value),
{
    lemma_last_entry(s.values, name, i);
}

proof fn lemma_last_entry(values: Seq<section::RawValueView>, name: text::Text, i: int)
    requires
        0 <= i < values.len(),
        text::lower(values[i].key) == text::lower(name),
        forall|j: int|
            0 <= j < values.len() && j != i ==> text::lower((#[trigger] values[j]).key)
                != text::lower(name),
    ensures
        section::last_entry(values, name) == Some(values[i]),
    decreases values.len(),
{
    if i < values.len() - 1 {
        let head = values.drop_last();
        assert(text::lower(values[values.len() - 1].key) != text::lower(name));
        assert forall|j: int| 0 <= j < head.len() && j != i implies text::lower(
            (#[trigger] head[j]).key,
        ) != text::lower(name) by {
            assert(head[j] == values[j]);
        }
        lemma_last_entry(head, name, i);
    }
}

/// A name without a setting is not found.
pub(crate) proof fn lemma_no_value_of(s: section::RawSectionView, name: text::Text)
    requires
        unset(s, text::lower(name)),
    ensures
        section::value_of(s, name) is None,
{
    lemma_no_last_entry(s.values, name);
}

proof fn lemma_no_last_entry(values: Seq<section::RawValueView>, name: text::Text)
    requires
        forall|j: int|
            0 <= j < values.len() ==> text::lower((#[trigger] values[j]).key) != text::lower(name),
    ensures
        section::last_entry(values, name) is None,
    decreases values.len(),
{
    if values.len() > 0 {
        let head = values.drop_last();
        assert(text::lower(values[values.len() - 1].key) != text::lower(name));
        assert forall|j: int| 0 <= j < head.len() implies text::lower((#[trigger] head[j]).key)
            != text::lower(name) by {
            assert(head[j] == values[j]);
        }
        lemma_no_last_entry(head, name);
    }
}

} // verus!
