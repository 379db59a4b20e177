//! Channel variables.

use vstd::prelude::*;

use crate::config::error;
use crate::config::error::ConfigError;
use crate::config::policy;
use crate::config::policy::ChannelVariable;
use crate::config::rules;
use crate::config::rules::LayerRules;
use crate::text;

verus! {

/// The assignment of a value: a name, an equals sign and a value.
pub open spec fn assignment(raw: text::Text) -> Option<policy::ChannelVariableView> {
    match text::cut(raw, '=') {
        Some((name, value)) => Some(
            policy::ChannelVariableView { name: text::trimmed(name), value: text::trimmed(value) },
        ),
        None => None,
    }
}

/// Reads an assignment.
pub fn read_assignment(raw: &str) -> (r: Option<ChannelVariable>)
    ensures
        r.deep_view() == assignment(raw@),
{
    match text::split_once(raw, '=') {
        Some((name, value)) => Some(
            ChannelVariable { name: text::trim(name.as_str()), value: text::trim(value.as_str()) },
        ),
        None => None,
    }
}

/// The bytes of one variable.
pub open spec fn bytes_of(v: policy::ChannelVariableView) -> nat {
    text::byte_len(v.name) as nat + text::byte_len(v.value) as nat
}

/// The bytes of a list of variables.
pub open spec fn total_bytes(list: Seq<policy::ChannelVariableView>) -> nat
    decreases list.len(),
{
    if list.len() == 0 {
        0
    } else {
        total_bytes(list.drop_last()) + bytes_of(list.last())
    }
}

/// Whether a list has a variable of a name.
pub open spec fn has_variable(list: Seq<policy::ChannelVariableView>, name: text::Text) -> bool {
    exists|i: int| 0 <= i < list.len() && (#[trigger] list[i]).name == name
}

/// Whether a variable can join a list.
pub open spec fn can_join(
    list: Seq<policy::ChannelVariableView>,
    v: policy::ChannelVariableView,
    with: rules::LayerRulesView,
) -> bool {
    &&& v.value.len() > 0
    &&& !with.refused_variables.contains(v)
    &&& list.len() < with.limits.channel_variables
    &&& !has_variable(list, v.name)
    &&& total_bytes(list) + bytes_of(v) <= with.limits.channel_variable_bytes
}

/// The variables after one more setting.
pub open spec fn variables_after(
    list: Seq<policy::ChannelVariableView>,
    key: text::Text,
    raw: text::Text,
    with: rules::LayerRulesView,
) -> Result<Seq<policy::ChannelVariableView>, error::ErrorView> {
    let fault = error::invalid(
        key,
        raw,
        "a unique, nonsensitive NAME=value assignment within channel-variable bounds"@,
        true,
    );
    match assignment(raw) {
        None => Err(fault),
        Some(v) => if can_join(list, v, with) {
            Ok(list.push(v))
        } else {
            Err(fault)
        },
    }
}

/// A longer list has no fewer bytes.
proof fn lemma_total_grows(list: Seq<policy::ChannelVariableView>, i: int)
    requires
        0 <= i <= list.len(),
    ensures
        total_bytes(list.take(i)) <= total_bytes(list),
    decreases list.len(),
{
    if i < list.len() {
        assert(list.drop_last().take(i) =~= list.take(i));
        lemma_total_grows(list.drop_last(), i);
    } else {
        assert(list.take(i) =~= list);
    }
}

/// Whether the bytes of a list and of one more variable stay within a bound.
fn fits(list: &Vec<ChannelVariable>, v: &ChannelVariable, max: usize) -> (r: bool)
    ensures
        r == (total_bytes(list.deep_view()) + bytes_of(v.deep_view()) <= max),
{
    let ghost all = list.deep_view();
    let limit: u128 = max as u128;
    let mut total: u128 = v.name.as_str().len() as u128 + v.value.as_str().len() as u128;
    let mut i: usize = 0;
    assert(all.take(0) =~= Seq::empty());
    while i < list.len()
        invariant
            all == list.deep_view(),
            limit == max,
            i <= list@.len(),
            total == total_bytes(all.take(i as int)) + bytes_of(v.deep_view()),
            total <= limit || i == 0,
            i == 0 ==> total <= 2 * (usize::MAX as u128),
        decreases list.len() - i,
    {
        assert(all[i as int] == list@[i as int].deep_view());
        assert(all.take(i + 1).drop_last() =~= all.take(i as int));
        total = total + (list[i].name.as_str().len() as u128 + list[i].value.as_str().len() as u128);
        i += 1;
        if total > limit {
            proof {
                lemma_total_grows(all, i as int);
            }
            return false;
        }
    }
    assert(all.take(i as int) =~= all);
    total <= limit
}

/// Whether a list has a variable of a name.
fn has_name(list: &Vec<ChannelVariable>, name: &str) -> (r: bool)
    ensures
        r == has_variable(list.deep_view(), name@),
{
    let ghost all = list.deep_view();
    let mut i: usize = 0;
    while i < list.len()
        invariant
            all == list.deep_view(),
            i <= list@.len(),
            forall|j: int| 0 <= j < i ==> (#[trigger] all[j]).name != name@,
        decreases list.len() - i,
    {
        assert(all[i as int] == list@[i as int].deep_view());
        if text::same(list[i].name.as_str(), name) {
            assert(all[i as int].name == name@);
            return true;
        }
        i += 1;
    }
    false
}

/// Adds one more variable, or leaves the list as it is and says why.
pub fn push_channel_variable(
    list: &mut Vec<ChannelVariable>,
    key: &str,
    raw: &str,
    with: &LayerRules,
) -> (r: Option<ConfigError>)
    ensures
        match variables_after(old(list).deep_view(), key@, raw@, with.deep_view()) {
            Ok(next) => r is None && final(list).deep_view() == next,
            Err(e) => r is Some && r->0@ == e && final(list).deep_view() == old(list).deep_view(),
        },
{
    let expected = "a unique, nonsensitive NAME=value assignment within channel-variable bounds";
    let v = match read_assignment(raw) {
        Some(v) => v,
        None => return Some(error::invalid_option(key, raw, expected, true)),
    };
    if v.value.as_str().is_empty() || rules::holds_variable(
        &with.refused_variables,
        v.name.as_str(),
        v.value.as_str(),
    ) || list.len() >= with.limits.channel_variables || has_name(list, v.name.as_str()) || !fits(
        list,
        &v,
        with.limits.channel_variable_bytes,
    ) {
        return Some(error::invalid_option(key, raw, expected, true));
    }
    let ghost before = list.deep_view();
    list.push(v);
    assert(list.deep_view() =~= before.push(v.deep_view()));
    None
}

/// A variable list stays within the bounds and names nothing twice.
pub open spec fn within_bounds(
    list: Seq<policy::ChannelVariableView>,
    with: rules::LayerRulesView,
) -> bool {
    &&& list.len() <= with.limits.channel_variables
    &&& total_bytes(list) <= with.limits.channel_variable_bytes
    &&& forall|i: int, j: int|
        0 <= i < j < list.len() ==> (#[trigger] list[i]).name != (#[trigger] list[j]).name
}

/// Every accepted setting keeps the variables within the bounds and their
/// names distinct.
pub proof fn law_variables_stay_within_bounds(
    list: Seq<policy::ChannelVariableView>,
    key: text::Text,
    raw: text::Text,
    with: rules::LayerRulesView,
)
    requires
        within_bounds(list, with),
    ensures
        variables_after(list, key, raw, with) matches Ok(next) ==> within_bounds(next, with),
{
    if let Ok(next) = variables_after(list, key, raw, with) {
        assert(next.drop_last() =~= list);
    }
}

} // verus!
