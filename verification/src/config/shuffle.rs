//! The order of sections in a text: wherever sections and their templates
//! stand, they configure the same.

use vstd::prelude::*;

use crate::config::canonical;
use crate::config::error;
use crate::config::fidelity;
use crate::config::inheritance;
use crate::config::inheritance::TemplateKind;
use crate::config::module;
use crate::config::option;
use crate::config::order;
use crate::config::restatement;
use crate::config::rules;
use crate::config::section;
use crate::config::softkey;
use crate::text;

verus! {

// ---------------------------------------------------------------------------
// Sections in other lines

/// Settings with the same keys and values.
pub open spec fn same_settings(
    a: Seq<section::RawValueView>,
    b: Seq<section::RawValueView>,
) -> bool {
    &&& a.len() == b.len()
    &&& forall|i: int|
        0 <= i < a.len() ==> (#[trigger] a[i]).key == b[i].key && a[i].value == b[i].value
}

/// Sections that say the same, in whichever lines they stand.
pub open spec fn same_section(a: section::RawSectionView, b: section::RawSectionView) -> bool {
    &&& a.name == b.name
    &&& a.is_template == b.is_template
    &&& a.parents == b.parents
    &&& same_settings(a.values, b.values)
}

/// The same settings have the same value under a key.
proof fn lemma_value_of(a: section::RawSectionView, b: section::RawSectionView, key: text::Text)
    requires
        same_settings(a.values, b.values),
    ensures
        section::value_of(a, key) == section::value_of(b, key),
{
    fidelity::lemma_last_entry(a.values, b.values, key);
}

/// The same settings are of the same options.
proof fn lemma_has_identity(
    a: Seq<section::RawValueView>,
    b: Seq<section::RawValueView>,
    kind: TemplateKind,
    id: text::Text,
)
    requires
        same_settings(a, b),
    ensures
        inheritance::has_identity(a, kind, id) ==> inheritance::has_identity(b, kind, id),
{
    if inheritance::has_identity(a, kind, id) {
        let i = choose|i: int|
            0 <= i < a.len() && inheritance::key_identity(kind, (#[trigger] a[i]).key) == id;
        assert(inheritance::key_identity(kind, b[i].key) == id);
    }
}

/// The same settings are left under the same newer ones.
proof fn lemma_kept(
    a: Seq<section::RawValueView>,
    b: Seq<section::RawValueView>,
    m: Seq<section::RawValueView>,
    n: Seq<section::RawValueView>,
    kind: TemplateKind,
)
    requires
        same_settings(a, b),
        same_settings(m, n),
    ensures
        same_settings(inheritance::kept(a, m, kind), inheritance::kept(b, n, kind)),
    decreases a.len(),
{
    if a.len() > 0 {
        let x = a.drop_last();
        let y = b.drop_last();
        assert forall|i: int| 0 <= i < x.len() implies (#[trigger] x[i]).key == y[i].key
            && x[i].value == y[i].value by {
            assert(x[i] == a[i] && y[i] == b[i]);
        }
        lemma_kept(x, y, m, n, kind);
        let last = a.len() - 1;
        assert(a[last].key == b[last].key && a[last].value == b[last].value);
        let id = inheritance::key_identity(kind, a[last].key);
        lemma_has_identity(m, n, kind, id);
        assert(same_settings(n, m)) by {
            assert forall|i: int| 0 <= i < n.len() implies (#[trigger] n[i]).key == m[i].key
                && n[i].value == m[i].value by {
                assert(m[i].key == n[i].key);
            }
        }
        lemma_has_identity(n, m, kind, id);
    }
}

/// The same settings under the same newer ones are the same.
proof fn lemma_merged(
    a: Seq<section::RawValueView>,
    b: Seq<section::RawValueView>,
    m: Seq<section::RawValueView>,
    n: Seq<section::RawValueView>,
    kind: TemplateKind,
)
    requires
        same_settings(a, b),
        same_settings(m, n),
    ensures
        same_settings(inheritance::merged(a, m, kind), inheritance::merged(b, n, kind)),
{
    lemma_kept(a, b, m, n, kind);
    let x = inheritance::kept(a, m, kind);
    let y = inheritance::kept(b, n, kind);
    let p = x + m;
    let q = y + n;
    assert forall|i: int| 0 <= i < p.len() implies (#[trigger] p[i]).key == q[i].key && p[i].value
        == q[i].value by {
        if i < x.len() {
            assert(p[i] == x[i] && q[i] == y[i]);
        } else {
            assert(p[i] == m[i - x.len()] && q[i] == n[i - x.len()]);
        }
    }
}

// ---------------------------------------------------------------------------
// Templates

/// Whether two lists hold the same sections, each in its own order and lines.
pub open spec fn are_shuffled(
    a: Seq<section::RawSectionView>,
    b: Seq<section::RawSectionView>,
) -> bool {
    &&& a.len() <= usize::MAX
    &&& fidelity::are_readable(a)
    &&& fidelity::are_readable(b)
    &&& hold_same(a, b)
}

/// Whether two lists hold, one for one, sections that say the same.
pub open spec fn hold_same(
    a: Seq<section::RawSectionView>,
    b: Seq<section::RawSectionView>,
) -> bool {
    &&& a.len() == b.len()
    &&& forall|i: int| 0 <= i < a.len() ==> has_same(b, #[trigger] a[i])
    &&& forall|j: int| 0 <= j < b.len() ==> has_same(a, #[trigger] b[j])
}

/// Whether a list holds a section that says the same.
#[verifier::opaque]
pub open spec fn has_same(list: Seq<section::RawSectionView>, s: section::RawSectionView) -> bool {
    exists|j: int| 0 <= j < list.len() && same_section(s, #[trigger] list[j])
}

/// Which section of a list says the same.
proof fn lemma_same_at(list: Seq<section::RawSectionView>, s: section::RawSectionView) -> (j: int)
    requires
        has_same(list, s),
    ensures
        0 <= j < list.len(),
        same_section(s, list[j]),
{
    reveal(has_same);
    choose|j: int| 0 <= j < list.len() && same_section(s, #[trigger] list[j])
}

/// Where the section of a name stands.
proof fn lemma_index_of(sections: Seq<section::RawSectionView>, name: text::Text)
    requires
        sections.len() <= usize::MAX,
    ensures
        match inheritance::index_of(sections, name) {
            Some(p) => p < sections.len() && text::same_fold(sections[p as int].name, name),
            None => forall|j: int|
                0 <= j < sections.len() ==> !text::same_fold((#[trigger] sections[j]).name, name),
        },
    decreases sections.len(),
{
    if sections.len() > 0 && !text::same_fold(sections.last().name, name) {
        lemma_index_of(sections.drop_last(), name);
        if inheritance::index_of(sections, name) is None {
            assert forall|j: int| 0 <= j < sections.len() implies !text::same_fold(
                (#[trigger] sections[j]).name,
                name,
            ) by {
                if j < sections.len() - 1 {
                    assert(sections.drop_last()[j] == sections[j]);
                }
            }
        }
    }
}

/// Sections of one name are one section.
proof fn lemma_one_place(sections: Seq<section::RawSectionView>, i: int, j: int)
    requires
        fidelity::are_distinct(sections),
        0 <= i < sections.len(),
        0 <= j < sections.len(),
        text::same_fold(sections[i].name, sections[j].name),
    ensures
        i == j,
{
    if i < j {
        assert(!text::same_fold(sections[i].name, sections[j].name));
    }
    if j < i {
        assert(!text::same_fold(sections[j].name, sections[i].name));
    }
}

/// A name stands for the same section in both lists.
proof fn lemma_same_index(
    a: Seq<section::RawSectionView>,
    b: Seq<section::RawSectionView>,
    name: text::Text,
)
    requires
        are_shuffled(a, b),
    ensures
        match inheritance::index_of(a, name) {
            Some(p) => p < a.len() && inheritance::index_of(b, name) is Some
                && inheritance::index_of(b, name)->0 < b.len() && same_section(
                a[p as int],
                b[inheritance::index_of(b, name)->0 as int],
            ),
            None => true,
        },
{
    lemma_index_of(a, name);
    lemma_index_of(b, name);
    if let Some(p) = inheritance::index_of(a, name) {
        assert(has_same(b, a[p as int]));
        let j = lemma_same_at(b, a[p as int]);
        assert(text::same_fold(b[j].name, name));
        let q = inheritance::index_of(b, name)->0 as int;
        lemma_one_place(b, j, q);
    }
}

/// Whether two paths through templates are the same.
pub open spec fn same_path(
    a: Seq<section::RawSectionView>,
    b: Seq<section::RawSectionView>,
    s: Seq<usize>,
    t: Seq<usize>,
) -> bool {
    &&& s.len() == t.len()
    &&& forall|k: int|
        0 <= k < s.len() ==> (#[trigger] s[k]) < a.len() && t[k] < b.len() && a[s[k] as int].name
            == b[t[k] as int].name
}

/// A section that is not on a path is not on the same path.
proof fn lemma_off_path(
    a: Seq<section::RawSectionView>,
    b: Seq<section::RawSectionView>,
    s: Seq<usize>,
    t: Seq<usize>,
    i: usize,
    j: usize,
)
    requires
        are_shuffled(a, b),
        same_path(a, b, s, t),
        i < a.len(),
        j < b.len(),
        a[i as int].name == b[j as int].name,
        !s.contains(i),
    ensures
        !t.contains(j),
        same_path(a, b, s.push(i), t.push(j)),
{
    if t.contains(j) {
        let k = choose|k: int| 0 <= k < t.len() && t[k] == j;
        assert(s[k] < a.len());
        lemma_one_place(a, s[k] as int, i as int);
        assert(s[k] == i);
    }
    let x = s.push(i);
    let y = t.push(j);
    assert forall|k: int| 0 <= k < x.len() implies (#[trigger] x[k]) < a.len() && y[k] < b.len()
        && a[x[k] as int].name == b[y[k] as int].name by {
        if k < s.len() {
            assert(x[k] == s[k] && y[k] == t[k]);
        }
    }
}

/// What is inherited is the same, wherever the templates stand.
proof fn lemma_inherited(
    a: Seq<section::RawSectionView>,
    b: Seq<section::RawSectionView>,
    i: usize,
    j: usize,
    s: Seq<usize>,
    t: Seq<usize>,
    count: nat,
)
    requires
        are_shuffled(a, b),
        same_path(a, b, s, t),
        i < a.len(),
        j < b.len(),
        same_section(a[i as int], b[j as int]),
        s.len() <= a.len(),
        count <= a[i as int].parents.len(),
        inheritance::inherited(a, i, s, count) is Ok,
    ensures
        inheritance::inherited(b, j, t, count) is Ok,
        ({
            let x = inheritance::inherited(a, i, s, count)->Ok_0;
            let y = inheritance::inherited(b, j, t, count)->Ok_0;
            x.kind == y.kind && same_settings(x.values, y.values)
        }),
    decreases a.len() - s.len(), count,
{
    let p = a[i as int];
    let q = b[j as int];
    lemma_value_of(p, q, "type"@);
    if count > 0 {
        let less = (count - 1) as nat;
        lemma_inherited(a, b, i, j, s, t, less);
        let name = p.parents[count - 1];
        lemma_same_index(a, b, name);
        let m = inheritance::index_of(a, name)->0;
        let n = inheritance::index_of(b, name)->0;
        lemma_resolved(a, b, m, n, s, t);
        let c = inheritance::resolved(a, m, s)->Ok_0;
        let d = inheritance::resolved(b, n, t)->Ok_0;
        lemma_value_of(c, d, "type"@);
        let x = inheritance::inherited(a, i, s, less)->Ok_0;
        let y = inheritance::inherited(b, j, t, less)->Ok_0;
        let kind = inheritance::template_kind(c)->Ok_0;
        lemma_merged(x.values, y.values, c.values, d.values, kind);
    }
}

/// A section resolves to the same, wherever its templates stand.
proof fn lemma_resolved(
    a: Seq<section::RawSectionView>,
    b: Seq<section::RawSectionView>,
    i: usize,
    j: usize,
    s: Seq<usize>,
    t: Seq<usize>,
)
    requires
        are_shuffled(a, b),
        same_path(a, b, s, t),
        i < a.len(),
        j < b.len(),
        same_section(a[i as int], b[j as int]),
        s.len() <= a.len(),
        inheritance::resolved(a, i, s) is Ok,
    ensures
        inheritance::resolved(b, j, t) is Ok,
        same_section(inheritance::resolved(a, i, s)->Ok_0, inheritance::resolved(b, j, t)->Ok_0),
    decreases a.len() - s.len(), 0nat,
{
    lemma_off_path(a, b, s, t, i, j);
    let p = a[i as int];
    let q = b[j as int];
    let count = p.parents.len();
    lemma_inherited(a, b, i, j, s.push(i), t.push(j), count);
    let x = inheritance::inherited(a, i, s.push(i), count)->Ok_0;
    let y = inheritance::inherited(b, j, t.push(j), count)->Ok_0;
    if let Some(kind) = x.kind {
        lemma_merged(x.values, y.values, p.values, q.values, kind);
    }
    let c = inheritance::resolved(a, i, s)->Ok_0;
    let values = match y.kind {
        Some(k) => if q.parents.len() == 0 {
            q.values
        } else {
            inheritance::merged(y.values, q.values, k)
        },
        None => q.values,
    };
    let d = section::RawSectionView {
        name: q.name,
        line: q.line,
        is_template: q.is_template,
        parents: q.parents,
        values,
    };
    assert(same_section(c, d));
    lemma_value_of(c, d, "type"@);
}

/// Whether a resolved section comes from one of the first of a list.
pub open spec fn comes_from(
    r: section::RawSectionView,
    sections: Seq<section::RawSectionView>,
    n: int,
) -> bool {
    exists|i: int|
        0 <= i < n && !(#[trigger] sections[i]).is_template && inheritance::resolved(
            sections,
            i as usize,
            Seq::empty(),
        ) == Ok::<section::RawSectionView, error::ErrorView>(r)
}

/// Which sections resolving gives, and when.
proof fn lemma_upto(sections: Seq<section::RawSectionView>, count: nat)
    requires
        count <= sections.len() <= usize::MAX,
    ensures
        inheritance::resolved_upto(sections, count) is Ok <==> forall|i: int|
            0 <= i < count ==> is_resolvable(sections, i),
        inheritance::resolved_upto(sections, count) matches Ok(all) ==> {
            &&& all.len() <= count
            &&& forall|k: int|
                0 <= k < all.len() ==> comes_from(#[trigger] all[k], sections, count as int)
            &&& forall|i: int|
                0 <= i < count && !(#[trigger] sections[i]).is_template ==> all.contains(
                    inheritance::resolved(sections, i as usize, Seq::empty())->Ok_0,
                )
        },
    decreases count,
{
    if count > 0 {
        let less = (count - 1) as nat;
        lemma_upto(sections, less);
        assert(is_resolvable(sections, less as int) == inheritance::resolved(
            sections,
            less as usize,
            Seq::empty(),
        ) is Ok);
        if inheritance::resolved_upto(sections, count) is Ok {
            let done = inheritance::resolved_upto(sections, less)->Ok_0;
            let all = inheritance::resolved_upto(sections, count)->Ok_0;
            let last = inheritance::resolved(sections, less as usize, Seq::empty())->Ok_0;
            assert forall|k: int| 0 <= k < all.len() implies comes_from(
                #[trigger] all[k],
                sections,
                count as int,
            ) by {
                if k < done.len() {
                    assert(all[k] == done[k]);
                    let i = choose|i: int|
                        0 <= i < less && !(#[trigger] sections[i]).is_template
                            && inheritance::resolved(sections, i as usize, Seq::empty()) == Ok::<
                            section::RawSectionView,
                            error::ErrorView,
                        >(done[k]);
                    assert(!sections[i].is_template);
                } else {
                    assert(!sections[less as int].is_template);
                }
            }
            assert forall|i: int|
                0 <= i < count && !(#[trigger] sections[i]).is_template implies all.contains(
                inheritance::resolved(sections, i as usize, Seq::empty())->Ok_0,
            ) by {
                let r = inheritance::resolved(sections, i as usize, Seq::empty())->Ok_0;
                if i < less {
                    assert(done.contains(r));
                    let k = choose|k: int| 0 <= k < done.len() && done[k] == r;
                    assert(all[k] == r);
                } else {
                    assert(all[done.len() as int] == r);
                }
            }
        }
    }
}

/// Whether a section resolves.
pub open spec fn is_resolvable(sections: Seq<section::RawSectionView>, i: int) -> bool {
    inheritance::resolved(sections, i as usize, Seq::empty()) is Ok
}

/// Shuffled sections resolve to the same.
proof fn lemma_all_resolved(a: Seq<section::RawSectionView>, b: Seq<section::RawSectionView>)
    requires
        are_shuffled(a, b),
        inheritance::all_resolved(a) is Ok,
    ensures
        inheritance::all_resolved(b) is Ok,
        forall|k: int|
            0 <= k < inheritance::all_resolved(b)->Ok_0.len() ==> has_same(
                inheritance::all_resolved(a)->Ok_0,
                #[trigger] inheritance::all_resolved(b)->Ok_0[k],
            ),
{
    lemma_upto(a, a.len());
    lemma_upto(b, b.len());
    let none = Seq::<usize>::empty();
    assert forall|j: int| 0 <= j < b.len() implies is_resolvable(b, j) by {
        assert(has_same(a, b[j]));
        let i = lemma_same_at(a, b[j]);
        assert(is_resolvable(a, i));
        lemma_same_back(b[j], a[i]);
        lemma_resolved(a, b, i as usize, j as usize, none, none);
    }
    let x = inheritance::all_resolved(a)->Ok_0;
    let y = inheritance::all_resolved(b)->Ok_0;
    assert forall|k: int| 0 <= k < y.len() implies has_same(x, #[trigger] y[k]) by {
        let j = choose|j: int|
            0 <= j < b.len() && !(#[trigger] b[j]).is_template && inheritance::resolved(
                b,
                j as usize,
                Seq::empty(),
            ) == Ok::<section::RawSectionView, error::ErrorView>(y[k]);
        assert(has_same(a, b[j]));
        let i = lemma_same_at(a, b[j]);
        lemma_same_back(b[j], a[i]);
        assert(is_resolvable(a, i));
        lemma_resolved(a, b, i as usize, j as usize, none, none);
        let r = inheritance::resolved(a, i as usize, none)->Ok_0;
        assert(!a[i].is_template);
        assert(x.contains(r));
        let m = choose|m: int| 0 <= m < x.len() && x[m] == r;
        lemma_same_back(x[m], y[k]);
        assert(has_same(x, y[k])) by {
            reveal(has_same);
            assert(same_section(y[k], x[m]));
        }
    }
}

/// Sections that say the same say so both ways.
proof fn lemma_same_back(a: section::RawSectionView, b: section::RawSectionView)
    requires
        same_section(a, b),
    ensures
        same_section(b, a),
{
    assert forall|i: int| 0 <= i < b.values.len() implies (#[trigger] b.values[i]).key
        == a.values[i].key && b.values[i].value == a.values[i].value by {
        assert(a.values[i].key == b.values[i].key);
    }
}

// ---------------------------------------------------------------------------
// Configurations

/// The options of the same settings are the same.
proof fn lemma_same_decoded(
    scope: option::Scope,
    s: section::RawSectionView,
    t: section::RawSectionView,
)
    requires
        same_settings(s.values, t.values),
        option::decoded(scope, s) is Ok,
    ensures
        option::decoded(scope, t) is Ok,
        canonical::scope_entries(scope, t) == canonical::scope_entries(scope, s),
{
    fidelity::lemma_settings_from(scope, s.values, 0, Seq::empty());
    let all = option::decoded(scope, s)->Ok_0.settings;
    assert forall|i: int| 0 <= i < t.values.len() implies option::named(
        scope,
        text::lower((#[trigger] t.values[i]).key),
    ) == Some(all[i]) by {
        assert(s.values[i].key == t.values[i].key);
    }
    assert(all.take(0) =~= Seq::empty());
    fidelity::lemma_settings_are(scope, t.values, 0, all);
    assert(canonical::option_entries(option::decoded(scope, t)->Ok_0) =~= canonical::option_entries(
        option::decoded(scope, s)->Ok_0,
    ));
}

/// The same sections are written the same.
proof fn lemma_same_written(s: section::RawSectionView, t: section::RawSectionView)
    requires
        same_section(s, t),
        canonical::section_text(s) is Ok,
    ensures
        canonical::section_text(t) is Ok,
        fidelity::entries_in(t) == fidelity::entries_in(s),
{
    lemma_value_of(s, t, "type"@);
    let kind = canonical::kind_of(s)->0;
    assert(canonical::kind_of(t) == canonical::kind_of(s));
    if kind == "general"@ {
        lemma_same_decoded(option::Scope::General, s, t);
    } else if kind == "device"@ {
        lemma_same_decoded(option::Scope::Device, s, t);
    } else if kind == "line"@ {
        lemma_same_decoded(option::Scope::Line, s, t);
    } else {
        assert forall|j: int| 0 <= j < t.values.len() implies text::lower(
            (#[trigger] t.values[j]).key,
        ) == text::lower(s.values[j].key) by {
            assert(s.values[j].key == t.values[j].key);
        }
        fidelity::lemma_same_fields(t, s, softkey::profile_fields(), 0);
        assert(canonical::field_entries(t) =~= canonical::field_entries(s));
    }
}

/// The section of a list that says the same.
pub open spec fn same_in(
    list: Seq<section::RawSectionView>,
    s: section::RawSectionView,
) -> section::RawSectionView {
    list[choose|j: int| 0 <= j < list.len() && same_section(s, #[trigger] list[j])]
}

/// The section of a list that says the same is in the list.
proof fn lemma_same_in(list: Seq<section::RawSectionView>, s: section::RawSectionView)
    requires
        has_same(list, s),
    ensures
        list.contains(same_in(list, s)),
        same_section(s, same_in(list, s)),
{
    reveal(has_same);
}

/// Sections that say the same, taken from one list, are that list in another
/// order.
proof fn lemma_reordered(
    a: Seq<section::RawSectionView>,
    b: Seq<section::RawSectionView>,
    c: Seq<section::RawSectionView>,
)
    requires
        fidelity::are_readable(a),
        fidelity::are_readable(b),
        forall|i: int| 0 <= i < a.len() ==> has_same(b, #[trigger] a[i]),
        c.len() == b.len(),
        forall|k: int|
            0 <= k < b.len() ==> a.contains(#[trigger] c[k]) && same_section(b[k], c[k]),
    ensures
        order::are_reordered(a, c),
{
    assert forall|i: int, j: int| 0 <= i < j < c.len() implies !text::same_fold(
        (#[trigger] c[i]).name,
        (#[trigger] c[j]).name,
    ) by {
        assert(same_section(b[i], c[i]) && same_section(b[j], c[j]));
        assert(!text::same_fold(b[i].name, b[j].name));
    }
    assert forall|k: int| 0 <= k < c.len() implies fidelity::is_section_name((#[trigger] c[k]).name)
        && fidelity::on_one_line(c[k].values) by {
        assert(a.contains(c[k]));
        let i = choose|i: int| 0 <= i < a.len() && a[i] == c[k];
        assert(fidelity::is_section_name(a[i].name));
    }
    assert forall|i: int| 0 <= i < a.len() implies c.contains(#[trigger] a[i]) by {
        assert(has_same(b, a[i]));
        let k = lemma_same_at(b, a[i]);
        assert(a.contains(c[k]) && same_section(b[k], c[k]));
        let j = choose|j: int| 0 <= j < a.len() && a[j] == c[k];
        lemma_one_place(a, i, j);
        assert(c[k] == a[i]);
    }
}

/// The order in which sections stand in a file, and the lines in which they
/// stand, do not matter, templates included: what is accepted in one order is
/// accepted in every other, and configures the same.
pub proof fn law_order_of_raw_sections_does_not_matter(
    a: Seq<section::RawSectionView>,
    b: Seq<section::RawSectionView>,
    w: rules::LayerRulesView,
)
    requires
        are_shuffled(a, b),
        module::config_of(a, w) is Ok,
    ensures
        module::config_of(b, w) is Ok,
        order::same_config(module::config_of(a, w)->Ok_0, module::config_of(b, w)->Ok_0),
{
    lemma_all_resolved(a, b);
    assert(are_shuffled(b, a));
    lemma_all_resolved(b, a);
    let x = inheritance::all_resolved(a)->Ok_0;
    let y = inheritance::all_resolved(b)->Ok_0;
    fidelity::lemma_resolved_readable(a, a.len());
    fidelity::lemma_resolved_readable(b, b.len());
    let z = Seq::new(y.len(), |k: int| same_in(x, y[k]));
    assert forall|k: int| 0 <= k < y.len() implies x.contains(#[trigger] z[k]) && same_section(
        y[k],
        z[k],
    ) by {
        assert(has_same(x, y[k]));
        lemma_same_in(x, y[k]);
    }
    lemma_reordered(x, y, z);
    order::law_order_of_sections_does_not_matter(x, z, w);
    order::lemma_all_writable(z, w);
    assert forall|k: int| 0 <= k < y.len() implies canonical::section_text(#[trigger] y[k]) is Ok
        && y[k].name == z[k].name && fidelity::entries_in(y[k]) == fidelity::entries_in(z[k]) by {
        assert(x.contains(z[k]) && same_section(y[k], z[k]));
        assert(canonical::section_text(z[k]) is Ok);
        lemma_same_back(y[k], z[k]);
        lemma_same_written(z[k], y[k]);
    }
    restatement::law_spelling_of_options_does_not_matter(z, y, w);
}

/// Where sections stand in a text does not matter: two texts that hold the same
/// sections, each header with its settings in their order, configure the same.
pub proof fn law_order_in_a_text_does_not_matter(
    input: text::Text,
    other: text::Text,
    w: rules::LayerRulesView,
)
    requires
        input.len() <= usize::MAX,
        other.len() <= usize::MAX,
        module::config_in(input, w) is Ok,
        section::parsed(other) is Ok,
        hold_same(section::parsed(input)->Ok_0, section::parsed(other)->Ok_0),
    ensures
        module::config_in(other, w) is Ok,
        order::same_config(module::config_in(input, w)->Ok_0, module::config_in(other, w)->Ok_0),
{
    fidelity::lemma_lines(input);
    fidelity::lemma_sections_readable(text::lines_of(input));
    fidelity::lemma_lines(other);
    fidelity::lemma_sections_readable(text::lines_of(other));
    law_order_of_raw_sections_does_not_matter(
        section::parsed(input)->Ok_0,
        section::parsed(other)->Ok_0,
        w,
    );
}

} // verus!
