//! What a line of a configuration text does to the sections before it.

use vstd::prelude::*;

use crate::config::error;
use crate::config::section;
use crate::config::section::{RawSectionView, RawValueView};
use crate::text;

verus! {

/// A text without quotes and semicolons.
pub open spec fn is_plain(s: text::Text) -> bool {
    !s.contains('"') && !s.contains(';')
}

proof fn lemma_outside_quotes(a: text::Text, b: text::Text)
    requires
        is_plain(a),
    ensures
        section::before_comment(a + b, false, false) == a.len() + section::before_comment(
            b,
            false,
            false,
        ),
    decreases a.len(),
{
    if a.len() == 0 {
        assert(a + b =~= b);
    } else {
        let rest = a.skip(1);
        assert forall|i: int| 0 <= i < rest.len() implies rest[i] != '"' && rest[i] != ';' by {
            assert(rest[i] == a[i + 1]);
        }
        lemma_outside_quotes(rest, b);
        assert((a + b)[0] == a[0]);
        assert((a + b).skip(1) =~= rest + b);
    }
}

proof fn lemma_inside_quotes(a: text::Text, b: text::Text)
    requires
        !a.contains('"'),
        !a.contains('\\'),
    ensures
        section::before_comment(a + b, true, false) == a.len() + section::before_comment(
            b,
            true,
            false,
        ),
    decreases a.len(),
{
    if a.len() == 0 {
        assert(a + b =~= b);
    } else {
        let rest = a.skip(1);
        assert forall|i: int| 0 <= i < rest.len() implies rest[i] != '"' && rest[i] != '\\' by {
            assert(rest[i] == a[i + 1]);
        }
        lemma_inside_quotes(rest, b);
        assert((a + b)[0] == a[0]);
        assert((a + b).skip(1) =~= rest + b);
    }
}

/// A semicolon ends what a line says, and a line without one says all of it.
pub proof fn law_semicolons_begin_comments(a: text::Text, b: text::Text)
    requires
        is_plain(a),
    ensures
        section::without_comment(a) == a,
        section::without_comment(a + seq![';'] + b) == a,
{
    lemma_outside_quotes(a, Seq::empty());
    assert(a + Seq::<char>::empty() =~= a);
    assert(a.take(a.len() as int) =~= a);
    let tail = seq![';'] + b;
    lemma_outside_quotes(a, tail);
    assert(a + seq![';'] + b =~= a + tail);
    assert(tail[0] == ';');
    assert((a + tail).take(a.len() as int) =~= a);
}

/// A semicolon between quotes begins no comment; one behind them does.
pub proof fn law_quoted_semicolons_stay(a: text::Text, x: text::Text, b: text::Text, c: text::Text)
    requires
        is_plain(a),
        is_plain(b),
        !x.contains('"'),
        !x.contains('\\'),
    ensures
        section::without_comment(a + seq!['"'] + x + seq!['"'] + b) == a + seq!['"'] + x + seq!['"']
            + b,
        section::without_comment(a + seq!['"'] + x + seq!['"'] + b + seq![';'] + c) == a + seq!['"']
            + x + seq!['"'] + b,
{
    let said = a + seq!['"'] + x + seq!['"'] + b;
    lemma_one_quoted(a, x, b, Seq::empty());
    lemma_one_quoted(a, x, b, seq![';'] + c);
    assert(said + Seq::<char>::empty() =~= said);
    assert(said.take(said.len() as int) =~= said);
    assert(said + seq![';'] + c =~= said + (seq![';'] + c));
    assert((seq![';'] + c)[0] == ';');
    assert((said + (seq![';'] + c)).take(said.len() as int) =~= said);
}

proof fn lemma_one_quoted(a: text::Text, x: text::Text, b: text::Text, end: text::Text)
    requires
        is_plain(a),
        is_plain(b),
        !x.contains('"'),
        !x.contains('\\'),
    ensures
        section::before_comment(a + seq!['"'] + x + seq!['"'] + b + end, false, false) == a.len()
            + x.len() + b.len() + 2 + section::before_comment(end, false, false),
{
    let t4 = b + end;
    let t3 = seq!['"'] + t4;
    let t2 = x + t3;
    let t1 = seq!['"'] + t2;
    lemma_outside_quotes(b, end);
    assert(t3[0] == '"' && t3.skip(1) =~= t4);
    lemma_inside_quotes(x, t3);
    assert(t1[0] == '"' && t1.skip(1) =~= t2);
    lemma_outside_quotes(a, t1);
    assert(a + seq!['"'] + x + seq!['"'] + b + end =~= a + t1);
}

/// Trimming a text brings no character into it.
proof fn lemma_trimmed_holds_no_more(s: text::Text, c: char)
    requires
        !s.contains(c),
    ensures
        !text::trimmed(s).contains(c),
{
    text::law_trimming_takes_white_space_from_the_ends(s);
    let (a, b) = choose|a: int, b: int|
        0 <= a <= b <= s.len() && text::trimmed(s) == #[trigger] s.subrange(a, b);
    let t = s.subrange(a, b);
    if t.contains(c) {
        let i = choose|i: int| 0 <= i < t.len() && t[i] == c;
        assert(s[a + i] == c);
    }
}

proof fn lemma_joined_plain(a: text::Text, c: char, b: text::Text)
    requires
        is_plain(a),
        is_plain(b),
        c != '"' && c != ';',
    ensures
        is_plain(a + seq![c] + b),
{
    let s = a + seq![c] + b;
    assert forall|i: int| 0 <= i < s.len() implies s[i] != '"' && s[i] != ';' by {
        if i < a.len() {
            assert(s[i] == a[i]);
        } else if i > a.len() {
            assert(s[i] == b[i - a.len() - 1]);
        }
    }
}

/// A line of a key and a value is one more setting of the last section, behind
/// those it has: the key in front of the first equals sign and the value behind
/// it, both without white space around them. Nothing else changes. Before the
/// first section it is refused.
pub proof fn law_settings_go_to_the_last_section(
    all: Seq<RawSectionView>,
    number: usize,
    key: text::Text,
    value: text::Text,
)
    requires
        is_plain(key),
        is_plain(value),
        !key.contains('='),
        key.len() > 0 && !text::is_space(key[0]) && key[0] != '#' && key[0] != '[',
        value.len() > 0 && !text::is_space(value.last()),
    ensures
        ({
            let r = section::after_line(all, number, key + seq!['='] + value);
            &&& all.len() == 0 ==> r == Err::<Seq<RawSectionView>, _>(
                error::ErrorView::Syntax {
                    line: number,
                    message: "setting appears before a section"@,
                },
            )
            &&& all.len() > 0 ==> {
                let s = all.last();
                let v = RawValueView {
                    key: text::trimmed(key),
                    value: text::trimmed(value),
                    line: number,
                    section: s.name,
                };
                &&& r is Ok
                &&& r->Ok_0.len() == all.len()
                &&& forall|i: int| 0 <= i < all.len() - 1 ==> #[trigger] r->Ok_0[i] == all[i]
                &&& r->Ok_0.last() == (RawSectionView { values: s.values.push(v), ..s })
            }
        }),
{
    let raw = key + seq!['='] + value;
    lemma_joined_plain(key, '=', value);
    law_semicolons_begin_comments(raw, Seq::empty());
    assert(raw[0] == key[0] && raw.last() == value.last());
    text::lemma_untrimmed(raw);
    let p = key.len() as int;
    assert forall|j: int| 0 <= j < p implies raw[j] != '=' by {
        assert(raw[j] == key[j]);
    }
    assert(raw[p] == '=');
    text::lemma_position_is(raw, '=', p);
    assert(raw.take(p) =~= key);
    assert(raw.skip(p + 1) =~= value);
    lemma_trimmed_holds_no_more(value, '"');
    let t = text::trimmed(value);
    if t.len() > 0 {
        assert(t[0] != '"');
    }
    assert(section::unquoted(t) == t);
}

/// A line that is empty, begins a comment at once or begins with a number sign
/// changes nothing.
pub proof fn law_remarks_change_nothing(
    all: Seq<RawSectionView>,
    number: usize,
    remark: text::Text,
)
    ensures
        section::after_line(all, number, Seq::empty()) == Ok::<_, error::ErrorView>(all),
        section::after_line(all, number, seq![';'] + remark) == Ok::<_, error::ErrorView>(all),
        is_plain(remark) && (remark.len() > 0 ==> !text::is_space(remark.last()))
            ==> section::after_line(all, number, seq!['#'] + remark) == Ok::<_, error::ErrorView>(
            all,
        ),
{
    let none = Seq::<char>::empty();
    law_semicolons_begin_comments(none, remark);
    assert(none + seq![';'] + remark =~= seq![';'] + remark);
    text::law_trimming_takes_white_space_from_the_ends(none);
    assert(text::trimmed(none).len() == 0);
    if is_plain(remark) && (remark.len() > 0 ==> !text::is_space(remark.last())) {
        let s = seq!['#'] + remark;
        lemma_joined_plain(none, '#', remark);
        assert(none + seq!['#'] + remark =~= s);
        law_semicolons_begin_comments(s, none);
        assert(s[0] == '#');
        assert(s.last() == if remark.len() > 0 { remark.last() } else { '#' });
        text::lemma_untrimmed(s);
    }
}

proof fn lemma_header(
    all: Seq<RawSectionView>,
    number: usize,
    name: text::Text,
    end: text::Text,
)
    requires
        is_plain(name),
        is_plain(end),
        !name.contains(']'),
        text::trimmed(name).len() > 0,
        end.len() > 0 ==> end[0] == '(' && end.last() == ')',
        !section::section_named(all, text::trimmed(name)),
    ensures
        section::after_line(all, number, seq!['['] + name + seq![']'] + end)
            == match section::suffix_lineage(end) {
            Err(m) => Err(section::bad_line(number, m)),
            Ok(l) => Ok(
                all.push(
                    RawSectionView {
                        name: text::trimmed(name),
                        line: number,
                        is_template: l.is_template,
                        parents: l.parents,
                        values: Seq::empty(),
                    },
                ),
            ),
        },
{
    let open = Seq::<char>::empty() + seq!['['] + name;
    lemma_joined_plain(Seq::empty(), '[', name);
    lemma_joined_plain(open, ']', end);
    let raw = seq!['['] + name + seq![']'] + end;
    assert(open + seq![']'] + end =~= raw);
    law_semicolons_begin_comments(raw, Seq::empty());
    assert(raw[0] == '[');
    assert(raw.last() == if end.len() > 0 { end.last() } else { ']' });
    text::lemma_untrimmed(raw);
    let p = name.len() as int + 1;
    assert forall|j: int| 0 <= j < p implies raw[j] != ']' by {
        if j > 0 {
            assert(raw[j] == name[j - 1]);
        }
    }
    assert(raw[p] == ']');
    text::lemma_position_is(raw, ']', p);
    assert(raw.subrange(1, p) =~= name);
    assert(raw.skip(p + 1) =~= end);
    if end.len() > 0 {
        text::lemma_untrimmed(end);
    } else {
        text::law_trimming_takes_white_space_from_the_ends(end);
        assert(text::trimmed(end) =~= end);
    }
}

/// A name between brackets begins a section of that name behind the others,
/// without settings, unless there is one of that name. An exclamation mark in
/// parentheses behind it makes the section a template, any other name there is
/// the template that it inherits from.
pub proof fn law_headers_begin_sections(
    all: Seq<RawSectionView>,
    number: usize,
    name: text::Text,
    parent: text::Text,
)
    requires
        is_plain(name),
        is_plain(parent),
        !name.contains(']'),
        text::trimmed(name).len() > 0,
        text::trimmed(parent).len() > 0,
        !parent.contains(','),
        !section::section_named(all, text::trimmed(name)),
    ensures
        ({
            let begun = RawSectionView {
                name: text::trimmed(name),
                line: number,
                is_template: false,
                parents: Seq::empty(),
                values: Seq::empty(),
            };
            let head = seq!['['] + name + seq![']'];
            let mark = text::trimmed(parent);
            &&& section::after_line(all, number, head) == Ok::<_, error::ErrorView>(all.push(begun))
            &&& section::after_line(all, number, head + (seq!['('] + parent + seq![')'])) == Ok::<
                _,
                error::ErrorView,
            >(
                all.push(
                    if mark == seq!['!'] {
                        RawSectionView { is_template: true, ..begun }
                    } else {
                        RawSectionView { parents: seq![mark], ..begun }
                    },
                ),
            )
        }),
{
    let none = Seq::<char>::empty();
    let head = seq!['['] + name + seq![']'];
    lemma_header(all, number, name, none);
    assert(head + none =~= head);
    let end = seq!['('] + parent + seq![')'];
    lemma_joined_plain(none, '(', parent);
    lemma_joined_plain(none + seq!['('] + parent, ')', none);
    assert(none + seq!['('] + parent + seq![')'] + none =~= end);
    lemma_header(all, number, name, end);
    assert(end.subrange(1, end.len() - 1) =~= parent);
    text::lemma_position(parent, ',');
    let p = text::position(parent, ',');
    if p < parent.len() {
        assert(parent[p as int] == ',');
    }
    let entries = text::pieces(parent, ',');
    assert(entries == seq![parent]);
    assert(entries.drop_last() =~= Seq::empty());
    reveal_strlit("!");
    assert("!"@ =~= seq!['!']);
    assert(section::lineage_of(entries.drop_last()) == Ok::<_, text::Text>(
        section::Lineage { is_template: false, parents: Seq::empty() },
    ));
    assert(Seq::<text::Text>::empty().push(text::trimmed(parent)) =~= seq![text::trimmed(parent)]);
}

} // verus!
