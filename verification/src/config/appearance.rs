//! The lines that appear on devices: what holds of the bindings of a
//! configuration.

use vstd::prelude::*;

use crate::config::assembly;
use crate::config::button;
use crate::config::module;
use crate::config::order;
use crate::config::policy;
use crate::config::soundness;
use crate::station;
use crate::text;

verus! {

/// The line appearances among buttons from one on, in order.
pub open spec fn appearances_from(buttons: Seq<station::ButtonDefinitionView>, i: int) -> Seq<
    station::LineAppearanceView,
>
    decreases buttons.len() - i,
{
    if i >= buttons.len() {
        Seq::empty()
    } else {
        match buttons[i] {
            station::ButtonDefinitionView::Line(a) => seq![a] + appearances_from(buttons, i + 1),
            _ => appearances_from(buttons, i + 1),
        }
    }
}

/// The appearances of bindings.
pub open spec fn appearances_in(list: Seq<policy::LineBindingView>) -> Seq<
    station::LineAppearanceView,
> {
    list.map_values(|b: policy::LineBindingView| b.appearance)
}

/// Whether bindings come by ascending device, and no device has one line, or
/// one instance, twice.
pub open spec fn are_arranged(list: Seq<policy::LineBindingView>) -> bool {
    forall|p: int, q: int|
        0 <= p < q < list.len() ==> follows(#[trigger] list[p], #[trigger] list[q])
}

/// Whether a binding may follow another.
pub open spec fn follows(a: policy::LineBindingView, b: policy::LineBindingView) -> bool {
    if a.device_id.name == b.device_id.name {
        a.line.number != b.line.number && a.line_instance != b.line_instance
    } else {
        text::less(a.device_id.name, b.device_id.name)
    }
}

/// Whether bindings come by strictly ascending device.
pub open spec fn devices_ascend(list: Seq<policy::LineBindingView>) -> bool {
    forall|p: int, q: int|
        0 <= p < q < list.len() ==> text::less(
            (#[trigger] list[p]).device_id.name,
            (#[trigger] list[q]).device_id.name,
        )
}

/// The bindings that a device adds.
pub open spec fn are_own(
    own: Seq<policy::LineBindingView>,
    d: policy::DeviceConfigView,
    i: int,
    seen: Seq<text::Text>,
    instances: Seq<u32>,
) -> bool {
    &&& appearances_in(own) == appearances_from(d.buttons, i)
    &&& forall|k: int|
        0 <= k < own.len() ==> (#[trigger] own[k]).device_id == d.id && !seen.contains(
            own[k].line.number,
        ) && !instances.contains(own[k].line_instance)
    &&& forall|p: int, q: int|
        0 <= p < q < own.len() ==> (#[trigger] own[p]).line.number != (
        #[trigger] own[q]).line.number && own[p].line_instance != own[q].line_instance
}

/// What a device adds to the bindings.
proof fn lemma_own(
    d: policy::DeviceConfigView,
    lines: Seq<policy::LineConfigView>,
    i: int,
    seen: Seq<text::Text>,
    instances: Seq<u32>,
    list: Seq<policy::LineBindingView>,
) -> (own: Seq<policy::LineBindingView>)
    requires
        assembly::bound_from(d, lines, i, seen, instances, list) is Ok,
    ensures
        assembly::bound_from(d, lines, i, seen, instances, list)->Ok_0 == list + own,
        are_own(own, d, i, seen, instances),
    decreases d.buttons.len() - i,
{
    if i >= d.buttons.len() {
        let own = Seq::<policy::LineBindingView>::empty();
        assert(list + own =~= list);
        assert(appearances_in(own) =~= appearances_from(d.buttons, i));
        own
    } else {
        match d.buttons[i] {
            station::ButtonDefinitionView::Line(a) => {
                soundness::lemma_line_index(lines, a.number);
                let j = button::line_index(lines, a.number)->0 as int;
                let b = policy::LineBindingView {
                    device_id: d.id,
                    line_instance: a.instance,
                    appearance: a,
                    line: lines[j],
                };
                let rest = lemma_own(
                    d,
                    lines,
                    i + 1,
                    seen.push(a.number),
                    instances.push(a.instance),
                    list.push(b),
                );
                let own = seq![b] + rest;
                assert(list.push(b) + rest =~= list + own);
                assert(appearances_in(own) =~= seq![a] + appearances_in(rest));
                order::lemma_marked(seen, a.number, true, a.number);
                assert forall|k: int| 0 <= k < own.len() implies (#[trigger] own[k]).device_id
                    == d.id && !seen.contains(own[k].line.number) && !instances.contains(
                    own[k].line_instance,
                ) by {
                    if k > 0 {
                        let x = rest[k - 1];
                        assert(own[k] == x);
                        order::lemma_marked(seen, a.number, true, x.line.number);
                        lemma_pushed(instances, a.instance, x.line_instance);
                    }
                }
                assert forall|p: int, q: int| 0 <= p < q < own.len() implies (
                #[trigger] own[p]).line.number != (#[trigger] own[q]).line.number
                    && own[p].line_instance != own[q].line_instance by {
                    let y = rest[q - 1];
                    assert(own[q] == y);
                    if p > 0 {
                        assert(own[p] == rest[p - 1]);
                    } else {
                        order::lemma_marked(seen, a.number, true, y.line.number);
                        lemma_pushed(instances, a.instance, y.line_instance);
                    }
                }
                own
            },
            _ => lemma_own(d, lines, i + 1, seen, instances, list),
        }
    }
}

/// One more instance in a list.
proof fn lemma_pushed(list: Seq<u32>, x: u32, y: u32)
    ensures
        list.push(x).contains(y) <==> list.contains(y) || x == y,
{
    let next = list.push(x);
    if list.contains(y) {
        let k = choose|k: int| 0 <= k < list.len() && list[k] == y;
        assert(next[k] == y);
    }
    assert(next[list.len() as int] == x);
    if next.contains(y) {
        let k = choose|k: int| 0 <= k < next.len() && next[k] == y;
        if k < list.len() {
            assert(list[k] == y);
        }
    }
}

/// The bindings of a device in two lists, one behind the other.
proof fn lemma_device_sum(
    a: Seq<policy::LineBindingView>,
    b: Seq<policy::LineBindingView>,
    device: text::Text,
    n: int,
)
    requires
        0 <= n <= b.len(),
    ensures
        module::bindings_of_device(a + b, device, a.len() + n) == module::bindings_of_device(
            a,
            device,
            a.len() as int,
        ) + module::bindings_of_device(b, device, n),
    decreases n,
{
    let head = module::bindings_of_device(a, device, a.len() as int);
    if n > 0 {
        lemma_device_sum(a, b, device, n - 1);
        assert((a + b)[a.len() + n - 1] == b[n - 1]);
        assert(module::bindings_of_device(a + b, device, a.len() + n) =~= head
            + module::bindings_of_device(b, device, n));
    } else {
        lemma_device_prefix(a, a + b, device, a.len() as int);
        assert(head + module::bindings_of_device(b, device, 0) =~= head);
    }
}

/// The bindings of a device among those that two lists begin with.
proof fn lemma_device_prefix(
    a: Seq<policy::LineBindingView>,
    b: Seq<policy::LineBindingView>,
    device: text::Text,
    n: int,
)
    requires
        n <= a.len() <= b.len(),
        forall|k: int| 0 <= k < n ==> a[k] == #[trigger] b[k],
    ensures
        module::bindings_of_device(a, device, n) == module::bindings_of_device(b, device, n),
    decreases n,
{
    if n > 0 {
        assert(a[n - 1] == b[n - 1]);
        lemma_device_prefix(a, b, device, n - 1);
    }
}

/// The bindings of one device alone are all of it.
proof fn lemma_device_all(list: Seq<policy::LineBindingView>, device: text::Text, n: int)
    requires
        0 <= n <= list.len(),
        forall|k: int| 0 <= k < n ==> (#[trigger] list[k]).device_id.name == device,
    ensures
        module::bindings_of_device(list, device, n) == list.take(n),
    decreases n,
{
    if n > 0 {
        lemma_device_all(list, device, n - 1);
        assert(list[n - 1].device_id.name == device);
        assert(list.take(n - 1).push(list[n - 1]) =~= list.take(n));
    } else {
        assert(list.take(n) =~= Seq::empty());
    }
}

/// Without a binding of a device there is none of it.
proof fn lemma_device_none(list: Seq<policy::LineBindingView>, device: text::Text, n: int)
    requires
        n <= list.len(),
        forall|k: int| 0 <= k < n ==> (#[trigger] list[k]).device_id.name != device,
    ensures
        module::bindings_of_device(list, device, n) == Seq::<policy::LineBindingView>::empty(),
    decreases n,
{
    if n > 0 {
        lemma_device_none(list, device, n - 1);
        assert(list[n - 1].device_id.name != device);
    }
}

/// Whether a name is among the first of a list.
pub open spec fn is_among(names: Seq<text::Text>, n: int, name: text::Text) -> bool {
    exists|k: int| 0 <= k < n && #[trigger] names[k] == name
}

/// What holds of the bindings of the first names.
#[verifier::opaque]
pub open spec fn holds_bindings(
    list: Seq<policy::LineBindingView>,
    devices: Seq<policy::DeviceConfigView>,
    names: Seq<text::Text>,
    n: int,
) -> bool {
    &&& are_arranged(list)
    &&& forall|p: int|
        0 <= p < list.len() ==> is_among(names, n, (#[trigger] list[p]).device_id.name)
    &&& forall|k: int|
        0 <= k < n && order::device_at(devices, #[trigger] names[k]) is Some ==> appearances_in(
            module::bindings_of_device(list, names[k], list.len() as int),
        ) == appearances_from(order::device_at(devices, names[k])->0.buttons, 0)
}

/// The bindings with those of one more name.
proof fn lemma_one_more(
    list: Seq<policy::LineBindingView>,
    own: Seq<policy::LineBindingView>,
    devices: Seq<policy::DeviceConfigView>,
    names: Seq<text::Text>,
    n: int,
    d: policy::DeviceConfigView,
)
    requires
        0 <= n < names.len(),
        order::are_ascending(names),
        holds_bindings(list, devices, names, n),
        order::device_at(devices, names[n]) == Some(d),
        d.id.name == names[n],
        are_own(own, d, 0, Seq::empty(), Seq::empty()),
    ensures
        holds_bindings(list + own, devices, names, n + 1),
{
    reveal(holds_bindings);
    let all = list + own;
    assert forall|p: int| 0 <= p < list.len() implies text::less(
        (#[trigger] list[p]).device_id.name,
        names[n],
    ) by {
        let k = choose|k: int| 0 <= k < n && #[trigger] names[k] == list[p].device_id.name;
        assert(text::less(names[k], names[n]));
    }
    text::law_text_order_is_total(names[n], names[n], names[n]);
    assert forall|p: int, q: int| 0 <= p < q < all.len() implies follows(
        #[trigger] all[p],
        #[trigger] all[q],
    ) by {
        if q < list.len() {
            assert(all[p] == list[p] && all[q] == list[q]);
        } else {
            let y = own[q - list.len()];
            assert(all[q] == y);
            assert(y.device_id == d.id);
            if p < list.len() {
                assert(all[p] == list[p]);
                assert(text::less(list[p].device_id.name, names[n]));
            } else {
                let x = own[p - list.len()];
                assert(all[p] == x);
                assert(x.device_id == d.id);
            }
        }
    }
    assert forall|p: int| 0 <= p < all.len() implies is_among(
        names,
        n + 1,
        (#[trigger] all[p]).device_id.name,
    ) by {
        if p < list.len() {
            assert(all[p] == list[p]);
            let k = choose|k: int| 0 <= k < n && #[trigger] names[k] == list[p].device_id.name;
            assert(names[k] == all[p].device_id.name);
        } else {
            assert(all[p] == own[p - list.len()]);
            assert(names[n] == all[p].device_id.name);
        }
    }
    assert forall|k: int|
        0 <= k < n + 1 && order::device_at(devices, #[trigger] names[k])
            is Some implies appearances_in(
        module::bindings_of_device(all, names[k], all.len() as int),
    ) == appearances_from(order::device_at(devices, names[k])->0.buttons, 0) by {
        lemma_device_sum(list, own, names[k], own.len() as int);
        let before = module::bindings_of_device(list, names[k], list.len() as int);
        let added = module::bindings_of_device(own, names[k], own.len() as int);
        if k < n {
            assert(text::less(names[k], names[n]));
            assert forall|m: int| 0 <= m < own.len() implies (#[trigger] own[m]).device_id.name
                != names[k] by {
                assert(own[m].device_id == d.id);
            }
            lemma_device_none(own, names[k], own.len() as int);
            assert(before + added =~= before);
        } else {
            assert forall|m: int| 0 <= m < list.len() implies (#[trigger] list[m]).device_id.name
                != names[k] by {
                assert(text::less(list[m].device_id.name, names[n]));
            }
            lemma_device_none(list, names[k], list.len() as int);
            assert forall|m: int| 0 <= m < own.len() implies (#[trigger] own[m]).device_id.name
                == names[k] by {
                assert(own[m].device_id == d.id);
            }
            lemma_device_all(own, names[k], own.len() as int);
            assert(own.take(own.len() as int) =~= own);
            assert(before + added =~= own);
        }
    }
}

/// The bindings of the names from one on.
proof fn lemma_bindings(
    devices: Seq<policy::DeviceConfigView>,
    lines: Seq<policy::LineConfigView>,
    names: Seq<text::Text>,
    i: int,
    list: Seq<policy::LineBindingView>,
)
    requires
        0 <= i <= names.len(),
        order::are_ascending(names),
        holds_bindings(list, devices, names, i),
        forall|k: int|
            0 <= k < names.len() ==> order::device_at(devices, #[trigger] names[k]) is Some,
        assembly::bindings_from(devices, lines, names, i, list) is Ok,
    ensures
        holds_bindings(
            assembly::bindings_from(devices, lines, names, i, list)->Ok_0,
            devices,
            names,
            names.len() as int,
        ),
    decreases names.len() - i,
{
    if i < names.len() {
        assert(order::device_at(devices, names[i]) is Some);
        soundness::lemma_device_index(devices, names[i]);
        let d = order::device_at(devices, names[i])->0;
        let own = lemma_own(d, lines, 0, Seq::empty(), Seq::empty(), list);
        lemma_one_more(list, own, devices, names, i, d);
        lemma_bindings(devices, lines, names, i + 1, list + own);
    }
}

/// The bindings of a line come by ascending device.
proof fn lemma_line_ascends(list: Seq<policy::LineBindingView>, number: text::Text, n: int)
    requires
        are_arranged(list),
        0 <= n <= list.len(),
    ensures
        devices_ascend(module::bindings_of_line(list, number, n)),
        forall|p: int|
            0 <= p < module::bindings_of_line(list, number, n).len() ==> stands_before(
                list,
                n,
                #[trigger] module::bindings_of_line(list, number, n)[p],
            ) && module::bindings_of_line(list, number, n)[p].line.number == number,
    decreases n,
{
    if n > 0 {
        lemma_line_ascends(list, number, n - 1);
        let head = module::bindings_of_line(list, number, n - 1);
        let all = module::bindings_of_line(list, number, n);
        let x = list[n - 1];
        assert forall|p: int| 0 <= p < all.len() implies stands_before(list, n, #[trigger] all[p])
            && all[p].line.number == number by {
            if p < head.len() {
                assert(all[p] == head[p]);
                let k = choose|k: int| 0 <= k < n - 1 && #[trigger] list[k] == head[p];
                assert(list[k] == all[p]);
            } else {
                assert(all[p] == x);
            }
        }
        assert forall|p: int, q: int| 0 <= p < q < all.len() implies text::less(
            (#[trigger] all[p]).device_id.name,
            (#[trigger] all[q]).device_id.name,
        ) by {
            assert(all[p] == head[p]);
            if q < head.len() {
                assert(all[q] == head[q]);
            } else {
                assert(all[q] == x);
                assert(stands_before(list, n - 1, head[p]));
                let k = choose|k: int| 0 <= k < n - 1 && #[trigger] list[k] == head[p];
                assert(follows(list[k], list[n - 1]));
            }
        }
    }
}

/// Whether a binding is among the first of a list.
pub open spec fn stands_before(
    list: Seq<policy::LineBindingView>,
    n: int,
    b: policy::LineBindingView,
) -> bool {
    exists|k: int| 0 <= k < n && #[trigger] list[k] == b
}

/// A binding is found by its device and instance.
proof fn lemma_found(list: Seq<policy::LineBindingView>, i: int, k: int)
    requires
        are_arranged(list),
        0 <= i <= k < list.len(),
    ensures
        module::binding_from(
            list,
            Some(list[k].device_id.name),
            None,
            Some(list[k].line_instance),
            i,
        ) == Some(list[k]),
    decreases k - i,
{
    if i < k {
        assert(follows(list[i], list[k]));
        lemma_found(list, i + 1, k);
    }
}

/// What holds of the bindings of a configuration: they come by ascending
/// device, no device shows a line or an instance twice, each device shows the
/// lines of its buttons in their order, and each line comes by ascending
/// device.
pub open spec fn are_bindings_sound(
    list: Seq<policy::LineBindingView>,
    devices: Seq<policy::DeviceConfigView>,
) -> bool {
    &&& are_arranged(list)
    &&& forall|i: int|
        0 <= i < devices.len() ==> appearances_in(
            module::bindings_of_device(
                list,
                (#[trigger] devices[i]).id.name,
                list.len() as int,
            ),
        ) == appearances_from(devices[i].buttons, 0)
    &&& forall|number: text::Text|
        devices_ascend(#[trigger] module::bindings_of_line(list, number, list.len() as int))
    &&& forall|k: int|
        0 <= k < list.len() ==> module::binding_from(
            list,
            Some((#[trigger] list[k]).device_id.name),
            None,
            Some(list[k].line_instance),
            0,
        ) == Some(list[k])
}

/// Bindings are sound.
pub(crate) proof fn lemma_bindings_sound(
    devices: Seq<policy::DeviceConfigView>,
    lines: Seq<policy::LineConfigView>,
)
    requires
        soundness::devices_distinct(devices),
        assembly::bindings_of(devices, lines) is Ok,
    ensures
        are_bindings_sound(assembly::bindings_of(devices, lines)->Ok_0, devices),
{
    let names = assembly::sorted_names(devices);
    let list = assembly::bindings_of(devices, lines)->Ok_0;
    order::lemma_sorted_names(devices);
    assert forall|k: int| 0 <= k < names.len() implies order::device_at(
        devices,
        #[trigger] names[k],
    ) is Some by {
        assert(names.contains(names[k]));
    }
    assert(holds_bindings(Seq::empty(), devices, names, 0)) by {
        reveal(holds_bindings);
    }
    lemma_bindings(devices, lines, names, 0, Seq::empty());
    reveal(holds_bindings);
    assert forall|i: int| 0 <= i < devices.len() implies appearances_in(
        module::bindings_of_device(list, (#[trigger] devices[i]).id.name, list.len() as int),
    ) == appearances_from(devices[i].buttons, 0) by {
        let name = devices[i].id.name;
        soundness::lemma_device_index(devices, name);
        let j = assembly::device_index(devices, name)->0 as int;
        if j != i {
            if j < i {
                assert(devices[j].id.name != devices[i].id.name);
            } else {
                assert(devices[i].id.name != devices[j].id.name);
            }
        }
        assert(names.contains(name));
        let k = choose|k: int| 0 <= k < names.len() && names[k] == name;
        assert(order::device_at(devices, names[k]) is Some);
    }
    assert forall|number: text::Text|
        devices_ascend(#[trigger] module::bindings_of_line(list, number, list.len() as int)) by {
        lemma_line_ascends(list, number, list.len() as int);
    }
    assert forall|k: int| 0 <= k < list.len() implies module::binding_from(
        list,
        Some((#[trigger] list[k]).device_id.name),
        None,
        Some(list[k].line_instance),
        0,
    ) == Some(list[k]) by {
        lemma_found(list, 0, k);
    }
}

} // verus!
