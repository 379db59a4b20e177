//! Canonical text is read back as it was meant.

use vstd::prelude::*;

use crate::config::assembly;
use crate::config::canonical;
use crate::config::error;
use crate::config::file;
use crate::config::inheritance;
use crate::config::option;
use crate::config::rules;
use crate::config::schema;
use crate::config::section;
use crate::config::softkey;
use crate::config::spelling;
use crate::text;

verus! {

// ---------------------------------------------------------------------------
// White space

/// What is left of a text without the white space at its start.
proof fn lemma_trim_start(s: text::Text) -> (k: int)
    ensures
        0 <= k <= s.len(),
        text::trim_start(s) == s.skip(k),
        forall|i: int| 0 <= i < k ==> text::is_space(#[trigger] s[i]),
        k < s.len() ==> !text::is_space(s[k]),
    decreases s.len(),
{
    if s.len() > 0 && text::is_space(s[0]) {
        let j = lemma_trim_start(s.skip(1));
        assert(s.skip(1).skip(j) =~= s.skip(j + 1));
        assert forall|i: int| 0 <= i < j + 1 implies text::is_space(#[trigger] s[i]) by {
            if i > 0 {
                assert(s.skip(1)[i - 1] == s[i]);
            }
        }
        j + 1
    } else {
        assert(s.skip(0) =~= s);
        0
    }
}

/// What is left of a text without the white space at its end.
proof fn lemma_trim_end(s: text::Text) -> (k: int)
    ensures
        0 <= k <= s.len(),
        text::trim_end(s) == s.take(k),
        k > 0 ==> !text::is_space(s[k - 1]),
    decreases s.len(),
{
    if s.len() > 0 && text::is_space(s.last()) {
        let k = lemma_trim_end(s.drop_last());
        assert(s.drop_last().take(k) =~= s.take(k));
        k
    } else {
        assert(s.take(s.len() as int) =~= s);
        s.len() as int
    }
}

/// A trimmed text neither begins nor ends with white space, and such a text is
/// trimmed.
proof fn lemma_trimmed(s: text::Text)
    ensures
        text::trimmed(s).len() > 0 ==> !text::is_space(text::trimmed(s)[0]) && !text::is_space(
            text::trimmed(s).last(),
        ),
        (s.len() == 0 || (!text::is_space(s[0]) && !text::is_space(s.last())))
            ==> text::trimmed(s) == s,
{
    let a = lemma_trim_start(s);
    let b = lemma_trim_end(s.skip(a));
    assert(text::trimmed(s) == s.skip(a).take(b));
    if b > 0 {
        assert(s.skip(a).take(b)[0] == s[a]);
    }
}

/// A trimmed text holds no other characters.
proof fn lemma_trimmed_holds(s: text::Text, c: char)
    requires
        !s.contains(c),
    ensures
        !text::trimmed(s).contains(c),
{
    let a = lemma_trim_start(s);
    let b = lemma_trim_end(s.skip(a));
    let t = text::trimmed(s);
    if t.contains(c) {
        let i = choose|i: int| 0 <= i < t.len() && t[i] == c;
        assert(s[a + i] == c);
    }
}

// ---------------------------------------------------------------------------
// Comments

/// A comment begins within the text or behind it.
proof fn lemma_comment_bound(s: text::Text, in_quotes: bool, escaped: bool)
    ensures
        section::before_comment(s, in_quotes, escaped) <= s.len(),
    decreases s.len(),
{
    if s.len() > 0 {
        lemma_comment_bound(s.skip(1), in_quotes, false);
        lemma_comment_bound(s.skip(1), in_quotes, true);
        lemma_comment_bound(s.skip(1), !in_quotes, false);
    }
}

/// What stands before a comment holds none.
proof fn lemma_prefix_uncommented(s: text::Text, in_quotes: bool, escaped: bool, k: int)
    requires
        0 <= k <= section::before_comment(s, in_quotes, escaped),
    ensures
        k <= s.len(),
        section::before_comment(s.take(k), in_quotes, escaped) == k,
    decreases s.len(),
{
    lemma_comment_bound(s, in_quotes, escaped);
    if k > 0 {
        assert(s.take(k)[0] == s[0]);
        assert(s.take(k).skip(1) =~= s.skip(1).take(k - 1));
        let c = s[0];
        if escaped {
            lemma_prefix_uncommented(s.skip(1), in_quotes, false, k - 1);
        } else if c == '\\' && in_quotes {
            lemma_prefix_uncommented(s.skip(1), in_quotes, true, k - 1);
        } else if c == '"' {
            lemma_prefix_uncommented(s.skip(1), !in_quotes, false, k - 1);
        } else {
            lemma_prefix_uncommented(s.skip(1), in_quotes, false, k - 1);
        }
    }
}

/// No comment begins with another character than a semicolon.
proof fn lemma_push_uncommented(s: text::Text, in_quotes: bool, escaped: bool, c: char)
    requires
        section::before_comment(s, in_quotes, escaped) == s.len(),
        c != ';',
    ensures
        section::before_comment(s.push(c), in_quotes, escaped) == s.len() + 1,
    decreases s.len(),
{
    let t = s.push(c);
    if s.len() == 0 {
        assert(t[0] == c);
        assert(t.skip(1) =~= Seq::empty());
        assert(section::before_comment(t.skip(1), in_quotes, false) == 0);
        assert(section::before_comment(t.skip(1), in_quotes, true) == 0);
        assert(section::before_comment(t.skip(1), !in_quotes, false) == 0);
    } else {
        assert(t[0] == s[0]);
        assert(t.skip(1) =~= s.skip(1).push(c));
        if escaped {
            lemma_push_uncommented(s.skip(1), in_quotes, false, c);
        } else if s[0] == '\\' && in_quotes {
            lemma_push_uncommented(s.skip(1), in_quotes, true, c);
        } else if s[0] == '"' {
            lemma_push_uncommented(s.skip(1), !in_quotes, false, c);
        } else {
            lemma_push_uncommented(s.skip(1), in_quotes, false, c);
        }
    }
}

/// A start without quotes and semicolons leaves open what follows.
proof fn lemma_plain_start(a: text::Text, b: text::Text)
    requires
        !a.contains('"'),
        !a.contains(';'),
    ensures
        section::before_comment(a + b, false, false) == a.len() + section::before_comment(
            b,
            false,
            false,
        ),
    decreases a.len(),
{
    if a.len() == 0 {
        assert(a + b =~= b);
    } else {
        let t = a + b;
        assert(t[0] == a[0]);
        assert(a.contains(a[0]));
        assert(t.skip(1) =~= a.skip(1) + b);
        assert forall|c: char| !a.contains(c) implies !#[trigger] a.skip(1).contains(c) by {
            if a.skip(1).contains(c) {
                let i = choose|i: int| 0 <= i < a.skip(1).len() && a.skip(1)[i] == c;
                assert(a[i + 1] == c);
            }
        }
        lemma_plain_start(a.skip(1), b);
    }
}

/// White space at the start leaves open what follows.
proof fn lemma_trim_start_uncommented(s: text::Text)
    requires
        section::before_comment(s, false, false) == s.len(),
    ensures
        section::before_comment(text::trim_start(s), false, false) == text::trim_start(s).len(),
    decreases s.len(),
{
    if s.len() > 0 && text::is_space(s[0]) {
        lemma_trim_start_uncommented(s.skip(1));
    }
}

/// White space at either end hides no comment.
proof fn lemma_trimmed_uncommented(s: text::Text)
    requires
        section::before_comment(s, false, false) == s.len(),
    ensures
        section::before_comment(text::trimmed(s), false, false) == text::trimmed(s).len(),
{
    lemma_trim_start_uncommented(s);
    let t = text::trim_start(s);
    let k = lemma_trim_end(t);
    lemma_prefix_uncommented(t, false, false, k);
}

// ---------------------------------------------------------------------------
// Values

/// Whether what is written for a value is read back as that value.
pub open spec fn reads_back(v: text::Text) -> bool {
    canonical::is_read_as(canonical::written(v), v)
}

/// A text without semicolons holds no comment.
proof fn lemma_no_semicolon(s: text::Text, in_quotes: bool, escaped: bool)
    requires
        !s.contains(';'),
    ensures
        section::before_comment(s, in_quotes, escaped) == s.len(),
    decreases s.len(),
{
    if s.len() > 0 {
        assert(s.contains(s[0]));
        if s.skip(1).contains(';') {
            let i = choose|i: int| 0 <= i < s.skip(1).len() && s.skip(1)[i] == ';';
            assert(s[i + 1] == ';');
        }
        lemma_no_semicolon(s.skip(1), in_quotes, false);
        lemma_no_semicolon(s.skip(1), in_quotes, true);
        lemma_no_semicolon(s.skip(1), !in_quotes, false);
    }
}

/// Quotes are hidden piece by piece.
proof fn lemma_escaped_sum(a: text::Text, b: text::Text)
    ensures
        canonical::escaped(a + b) == canonical::escaped(a) + canonical::escaped(b),
    decreases b.len(),
{
    if b.len() == 0 {
        assert(a + b =~= a);
        assert(canonical::escaped(a) + canonical::escaped(b) =~= canonical::escaped(a));
    } else {
        let t = a + b;
        assert(t.drop_last() =~= a + b.drop_last());
        assert(t.last() == b.last());
        lemma_escaped_sum(a, b.drop_last());
        assert(canonical::escaped(t) =~= canonical::escaped(a) + canonical::escaped(b));
    }
}

/// Whether a character is hidden between quotes.
pub open spec fn is_hidden(c: char) -> bool {
    c == '"' || c == '\\'
}

/// What hiding quotes makes of the first character.
proof fn lemma_escaped_first(v: text::Text)
    requires
        v.len() > 0,
    ensures
        canonical::escaped(v) == (if is_hidden(v[0]) {
            seq!['\\', v[0]]
        } else {
            seq![v[0]]
        }) + canonical::escaped(v.skip(1)),
{
    let head = seq![v[0]];
    assert(v =~= head + v.skip(1));
    lemma_escaped_sum(head, v.skip(1));
    assert(head.drop_last() =~= Seq::empty());
    assert(canonical::escaped(head.drop_last()) =~= Seq::empty());
    assert(canonical::escaped(head) =~= (if is_hidden(v[0]) {
        seq!['\\', v[0]]
    } else {
        seq![v[0]]
    }));
}

/// What stands between quotes is read back.
proof fn lemma_unescaped(v: text::Text)
    ensures
        section::unescaped(canonical::escaped(v)) == v,
    decreases v.len(),
{
    let e = canonical::escaped(v);
    if v.len() == 0 {
        assert(e =~= Seq::empty());
        assert(section::unescaped(e) =~= v);
    } else {
        let rest = v.skip(1);
        lemma_escaped_first(v);
        lemma_unescaped(rest);
        let r = canonical::escaped(rest);
        if is_hidden(v[0]) {
            assert(e[0] == '\\' && e[1] == v[0]);
            assert(e.skip(2) =~= r);
        } else {
            assert(e[0] == v[0]);
            assert(e.skip(1) =~= r);
        }
        assert(section::unescaped(e) == seq![v[0]] + section::unescaped(r));
        assert(v =~= seq![v[0]] + rest);
    }
}

/// A value stays between its quotes.
proof fn lemma_stays_quoted(v: text::Text, t: text::Text)
    ensures
        section::before_comment(canonical::escaped(v) + t, true, false) == canonical::escaped(
            v,
        ).len() + section::before_comment(t, true, false),
    decreases v.len(),
{
    if v.len() == 0 {
        assert(canonical::escaped(v) + t =~= t);
    } else {
        let rest = v.skip(1);
        lemma_escaped_first(v);
        lemma_stays_quoted(rest, t);
        let all = canonical::escaped(v) + t;
        let r = canonical::escaped(rest) + t;
        if is_hidden(v[0]) {
            assert(all[0] == '\\');
            assert(all.skip(1)[0] == v[0]);
            assert(all.skip(1).skip(1) =~= r);
            assert(section::before_comment(all.skip(1), true, true) == 1 + section::before_comment(
                r,
                true,
                false,
            ));
            assert(section::before_comment(all, true, false) == 1 + section::before_comment(
                all.skip(1),
                true,
                true,
            ));
        } else {
            assert(all[0] == v[0]);
            assert(all.skip(1) =~= r);
        }
    }
}

/// Every value is written so that it is read back.
pub proof fn law_values_are_read_back(v: text::Text)
    ensures
        reads_back(v),
{
    let w = canonical::written(v);
    let e = canonical::escaped(v);
    let quoted = "\""@ + canonical::quotes_escaped(v) + "\""@;
    if canonical::is_ambiguous(v) && !canonical::is_read_as(quoted, v) {
        reveal_strlit("\"");
        lemma_unescaped(v);
        assert(w.len() == e.len() + 2);
        assert(w[0] == '"' && w.last() == '"');
        assert(w.subrange(1, w.len() - 1) =~= e);
        let quote = seq!['"'];
        assert(w.skip(1) =~= e + quote);
        lemma_stays_quoted(v, quote);
        assert(quote.skip(1) =~= Seq::empty());
        assert(section::before_comment(quote.skip(1), false, false) == 0);
        assert(section::before_comment(quote, true, false) == 1);
        assert(w.take(w.len() as int) =~= w);
    } else if !canonical::is_ambiguous(v) {
        lemma_no_semicolon(v, false, false);
        assert(v.take(v.len() as int) =~= v);
    }
}

// ---------------------------------------------------------------------------
// Lines

/// A line that stands by itself.
pub open spec fn is_line(s: text::Text) -> bool {
    !s.contains('\n') && (s.len() == 0 || s.last() != '\r')
}

/// The lines of a text hold no line feed, and there are no more of them than
/// characters.
pub(crate) proof fn lemma_lines(s: text::Text)
    ensures
        text::lines_of(s).len() <= s.len(),
        forall|i: int|
            0 <= i < text::lines_of(s).len() ==> !(#[trigger] text::lines_of(s)[i]).contains('\n'),
    decreases s.len(),
{
    let p = text::position(s, '\n');
    text::lemma_position(s, '\n');
    let lines = text::lines_of(s);
    if s.len() > 0 {
        let head = s.take(p as int);
        if head.contains('\n') {
            let i = choose|i: int| 0 <= i < head.len() && head[i] == '\n';
            assert(s[i] == '\n');
        }
        if p >= s.len() {
            assert(head =~= s);
            assert(lines =~= seq![s]);
        } else {
            let rest = s.skip(p as int + 1);
            lemma_lines(rest);
            let first = text::without_cr(head);
            assert(!first.contains('\n')) by {
                if first.contains('\n') {
                    let i = choose|i: int| 0 <= i < first.len() && first[i] == '\n';
                    assert(head[i] == '\n');
                }
            }
            assert(lines =~= seq![first] + text::lines_of(rest));
            assert forall|i: int| 0 <= i < lines.len() implies !(#[trigger] lines[i]).contains(
                '\n',
            ) by {
                if i > 0 {
                    assert(lines[i] == text::lines_of(rest)[i - 1]);
                }
            }
        }
    }
}

/// Terminated lines are the lines of their text.
proof fn lemma_lines_back(lines: Seq<text::Text>)
    requires
        forall|i: int| 0 <= i < lines.len() ==> is_line(#[trigger] lines[i]),
    ensures
        text::lines_of(file::terminated(lines)) == lines,
    decreases lines.len(),
{
    let s = file::terminated(lines);
    if lines.len() == 0 {
        assert(text::lines_of(s) =~= lines);
    } else {
        reveal_strlit("\n");
        let first = lines[0];
        let rest = lines.drop_first();
        assert(is_line(first));
        assert forall|i: int| 0 <= i < rest.len() implies is_line(#[trigger] rest[i]) by {
            assert(rest[i] == lines[i + 1]);
        }
        lemma_lines_back(rest);
        let p = first.len() as int;
        assert forall|j: int| 0 <= j < p implies s[j] != '\n' by {
            assert(s[j] == first[j]);
            assert(first.contains(first[j]));
        }
        assert(s[p] == '\n');
        text::lemma_position_is(s, '\n', p);
        assert(s.take(p) =~= first);
        assert(s.skip(p + 1) =~= file::terminated(rest));
        assert(text::lines_of(s) =~= seq![first] + rest);
        assert(seq![first] + rest =~= lines);
    }
}

/// Lines are terminated piece by piece.
proof fn lemma_terminated_sum(a: Seq<text::Text>, b: Seq<text::Text>)
    ensures
        file::terminated(a + b) == file::terminated(a) + file::terminated(b),
    decreases a.len(),
{
    if a.len() == 0 {
        assert(a + b =~= b);
        assert(file::terminated(a) + file::terminated(b) =~= file::terminated(b));
    } else {
        assert((a + b).drop_first() =~= a.drop_first() + b);
        lemma_terminated_sum(a.drop_first(), b);
        assert(file::terminated(a + b) =~= file::terminated(a) + file::terminated(b));
    }
}

// ---------------------------------------------------------------------------
// Reading one line

/// A name that a canonical text gives to a setting.
pub open spec fn is_key(key: text::Text) -> bool {
    &&& key.len() > 0
    &&& forall|i: int|
        0 <= i < key.len() ==> text::is_lower(#[trigger] key[i]) || text::is_digit(key[i])
            || key[i] == '_'
}

/// A name that a section can have.
pub open spec fn is_section_name(name: text::Text) -> bool {
    &&& name.len() > 0
    &&& text::trimmed(name) == name
    &&& !name.contains(']')
    &&& !name.contains('\n')
    &&& section::before_comment(name, false, false) == name.len()
}

/// A setting as it stands in a line.
pub open spec fn entry_line(e: canonical::CanonicalEntryView) -> text::Text {
    e.key + " = "@ + canonical::written(e.value)
}

/// A section header as it stands in a line.
pub open spec fn header_line(name: text::Text) -> text::Text {
    "["@ + name + "]"@
}

/// A key holds nothing that has a meaning of its own.
proof fn lemma_key(key: text::Text, c: char)
    requires
        is_key(key),
        !text::is_lower(c) && !text::is_digit(c) && c != '_',
    ensures
        !key.contains(c),
{
    if key.contains(c) {
        let i = choose|i: int| 0 <= i < key.len() && key[i] == c;
        assert(text::is_lower(key[i]) || text::is_digit(key[i]) || key[i] == '_');
    }
}

/// What is written for a value neither begins nor ends with white space.
proof fn lemma_written_ends(v: text::Text)
    ensures
        canonical::written(v).len() > 0 ==> !text::is_space(canonical::written(v)[0])
            && !text::is_space(canonical::written(v).last()),
        canonical::written(v).len() == 0 ==> v.len() == 0,
{
    if canonical::is_ambiguous(v) {
        reveal_strlit("\"");
    } else {
        lemma_trimmed(v);
    }
}

/// A setting is read back from its line.
proof fn lemma_entry_line(
    all: Seq<section::RawSectionView>,
    number: usize,
    e: canonical::CanonicalEntryView,
)
    requires
        all.len() > 0,
        is_key(e.key),
        reads_back(e.value),
    ensures
        section::after_line(all, number, entry_line(e)) == Ok::<
            Seq<section::RawSectionView>,
            error::ErrorView,
        >(
            section::with_setting(
                all,
                section::RawValueView {
                    key: e.key,
                    value: e.value,
                    line: number,
                    section: all.last().name,
                },
            ),
        ),
{
    reveal_strlit(" = ");
    let w = canonical::written(e.value);
    let line = entry_line(e);
    let start = e.key + " = "@;
    lemma_key(e.key, '"');
    lemma_key(e.key, ';');
    lemma_key(e.key, '=');
    lemma_key(e.key, '#');
    lemma_key(e.key, '[');
    assert forall|c: char| !e.key.contains(c) && c != ' ' && c != '=' implies !#[trigger] start.contains(
        c,
    ) by {
        if start.contains(c) {
            let i = choose|i: int| 0 <= i < start.len() && start[i] == c;
            if i < e.key.len() {
                assert(e.key[i] == c);
            }
        }
    }
    assert(line =~= start + w);
    lemma_plain_start(start, w);
    lemma_comment_bound(w, false, false);
    assert(section::before_comment(w, false, false) == w.len()) by {
        let k = section::before_comment(w, false, false);
        assert(section::without_comment(w).len() == k);
    }
    assert(line.take(line.len() as int) =~= line);
    assert(section::without_comment(line) == line);
    lemma_written_ends(e.value);
    let first = e.key[0];
    assert(text::is_lower(first) || text::is_digit(first) || first == '_');
    assert(!text::is_space(first));
    assert(e.key.contains(first));
    assert(line[0] == first);
    // The line without white space at its ends.
    let bare = text::trimmed(line);
    let k = e.key.len() as int;
    if w.len() > 0 {
        assert(line.last() == w.last());
        lemma_trimmed(line);
        assert(bare == line);
    } else {
        let a = lemma_trim_start(line);
        assert(a == 0);
        assert(line.skip(0) =~= line);
        assert(line[k + 2] == ' ' && line[k + 1] == '=');
        assert(text::is_space(' '));
        assert(!text::is_space('='));
        assert(line.last() == ' ');
        assert(line.drop_last().last() == '=');
        assert(text::trim_end(line.drop_last()) == line.drop_last());
        assert(text::trim_end(line) == line.drop_last());
        assert(bare == line.drop_last());
    }
    assert forall|j: int| 0 <= j < k + 1 implies bare[j] != '=' by {
        if j < k {
            assert(bare[j] == e.key[j]);
            assert(e.key.contains(e.key[j]));
        }
    }
    assert(bare[k + 1] == '=');
    text::lemma_position_is(bare, '=', k + 1);
    let left = bare.take(k + 1);
    let right = bare.skip(k + 2);
    assert(left =~= e.key.push(' '));
    // The key.
    assert(text::trimmed(left) == e.key) by {
        let a = lemma_trim_start(left);
        assert(left[0] == first);
        assert(a == 0);
        assert(left.skip(0) =~= left);
        assert(text::is_space(' '));
        assert(left.last() == ' ');
        assert(left.drop_last() =~= e.key);
        let end = e.key.last();
        assert(text::is_lower(end) || text::is_digit(end) || end == '_');
        assert(text::trim_end(e.key) == e.key);
    }
    // The value.
    assert(text::trimmed(right) == w) by {
        if w.len() > 0 {
            assert(right =~= seq![' '] + w);
            assert(text::is_space(' '));
            assert(right[0] == ' ');
            assert(right.skip(1) =~= w);
            assert(text::trim_start(w) == w);
            assert(text::trim_start(right) == w);
            assert(text::trim_end(w) == w);
        } else {
            assert(right =~= Seq::empty());
            assert(w =~= Seq::empty());
        }
    }
}

/// A section is read back from its header line.
proof fn lemma_header_line(all: Seq<section::RawSectionView>, number: usize, name: text::Text)
    requires
        is_section_name(name),
    ensures
        section::after_line(all, number, header_line(name)) == if section::section_named(
            all,
            name,
        ) {
            Err::<Seq<section::RawSectionView>, error::ErrorView>(
                error::ErrorView::DuplicateSection(name),
            )
        } else {
            Ok(
                all.push(
                    section::RawSectionView {
                        name,
                        line: number,
                        is_template: false,
                        parents: Seq::empty(),
                        values: Seq::empty(),
                    },
                ),
            )
        },
{
    reveal_strlit("[");
    reveal_strlit("]");
    let line = header_line(name);
    let open = "["@;
    assert(open =~= seq!['[']);
    assert(!open.contains('"') && !open.contains(';')) by {
        assert forall|i: int| 0 <= i < open.len() implies open[i] == '[' by {}
    }
    lemma_plain_start(open, name);
    let most = open + name;
    assert(line =~= most.push(']'));
    lemma_push_uncommented(most, false, false, ']');
    assert(line.take(line.len() as int) =~= line);
    assert(section::without_comment(line) == line);
    assert(line[0] == '[' && line.last() == ']');
    lemma_trimmed(line);
    assert(text::trimmed(line) == line);
    let close = name.len() as int + 1;
    assert forall|j: int| 0 <= j < close implies line[j] != ']' by {
        if j > 0 {
            assert(line[j] == name[j - 1]);
            assert(name.contains(name[j - 1]));
        }
    }
    text::lemma_position_is(line, ']', close);
    assert(line.subrange(1, close) =~= name);
    let behind = line.skip(close + 1);
    assert(behind =~= Seq::empty());
    assert(text::trimmed(behind) =~= Seq::empty());
}

/// An empty line says nothing.
proof fn lemma_empty_line(all: Seq<section::RawSectionView>, number: usize)
    ensures
        section::after_line(all, number, Seq::empty()) == Ok::<
            Seq<section::RawSectionView>,
            error::ErrorView,
        >(all),
{
    let line = Seq::<char>::empty();
    assert(section::without_comment(line) =~= line);
    assert(text::trimmed(line) =~= line);
}

// ---------------------------------------------------------------------------
// What a text can hold

/// Whether every value of a list stands in one line.
pub open spec fn on_one_line(values: Seq<section::RawValueView>) -> bool {
    forall|i: int| 0 <= i < values.len() ==> !(#[trigger] values[i]).value.contains('\n')
}

/// No two sections of one name, up to the case of letters.
pub open spec fn are_distinct(sections: Seq<section::RawSectionView>) -> bool {
    forall|i: int, j: int|
        0 <= i < j < sections.len() ==> !text::same_fold(
            (#[trigger] sections[i]).name,
            (#[trigger] sections[j]).name,
        )
}

/// Sections that a text can hold.
pub open spec fn are_readable(sections: Seq<section::RawSectionView>) -> bool {
    &&& are_distinct(sections)
    &&& forall|i: int|
        0 <= i < sections.len() ==> is_section_name((#[trigger] sections[i]).name) && on_one_line(
            sections[i].values,
        )
}

/// Reading between quotes adds no character.
proof fn lemma_unescaped_holds(s: text::Text, c: char)
    requires
        !s.contains(c),
    ensures
        !section::unescaped(s).contains(c),
    decreases s.len(),
{
    if s.len() > 0 {
        assert(s.contains(s[0]));
        assert forall|k: int| 0 <= k <= s.len() implies !(#[trigger] s.skip(k)).contains(c) by {
            if s.skip(k).contains(c) {
                let i = choose|i: int| 0 <= i < s.skip(k).len() && s.skip(k)[i] == c;
                assert(s[k + i] == c);
            }
        }
        let r = section::unescaped(s);
        if s[0] != '\\' {
            lemma_unescaped_holds(s.skip(1), c);
            let t = section::unescaped(s.skip(1));
            if r.contains(c) {
                let i = choose|i: int| 0 <= i < r.len() && r[i] == c;
                assert(i > 0);
                assert(t[i - 1] == c);
            }
        } else if s.len() > 1 {
            assert(s.contains(s[1]));
            lemma_unescaped_holds(s.skip(2), c);
            let t = section::unescaped(s.skip(2));
            if r.contains(c) {
                let i = choose|i: int| 0 <= i < r.len() && r[i] == c;
                if s[1] == '\\' || s[1] == '"' {
                    assert(i > 0);
                    assert(t[i - 1] == c);
                } else {
                    assert(i > 1);
                    assert(t[i - 2] == c);
                }
            }
        }
    }
}

/// A value without its quotes holds no other characters.
proof fn lemma_unquoted_holds(s: text::Text, c: char)
    requires
        !s.contains(c),
    ensures
        !section::unquoted(s).contains(c),
{
    if section::is_quoted(s) {
        let t = s.subrange(1, s.len() - 1);
        if t.contains(c) {
            let i = choose|i: int| 0 <= i < t.len() && t[i] == c;
            assert(s[i + 1] == c);
        }
        lemma_unescaped_holds(t, c);
    }
}

/// The name in a header can be that of a section.
proof fn lemma_header_name(line: text::Text, number: usize)
    requires
        line.len() > 0,
        line[0] == '[',
        !line.contains('\n'),
        section::before_comment(line, false, false) == line.len(),
        section::header_of(line, number) is Ok,
    ensures
        is_section_name(section::header_of(line, number)->Ok_0.name),
        section::header_of(line, number)->Ok_0.values.len() == 0,
{
    let close = text::position(line, ']') as int;
    text::lemma_position(line, ']');
    let raw = line.subrange(1, close);
    let name = text::trimmed(raw);
    assert(!raw.contains(']')) by {
        if raw.contains(']') {
            let i = choose|i: int| 0 <= i < raw.len() && raw[i] == ']';
            assert(line[i + 1] == ']');
        }
    }
    assert(!raw.contains('\n')) by {
        if raw.contains('\n') {
            let i = choose|i: int| 0 <= i < raw.len() && raw[i] == '\n';
            assert(line[i + 1] == '\n');
        }
    }
    lemma_trimmed_holds(raw, ']');
    lemma_trimmed_holds(raw, '\n');
    lemma_trimmed(raw);
    lemma_trimmed(name);
    let rest = line.skip(1);
    assert(section::before_comment(rest, false, false) == rest.len());
    lemma_prefix_uncommented(rest, false, false, close - 1);
    assert(rest.take(close - 1) =~= raw);
    lemma_trimmed_uncommented(raw);
}

/// One more line leaves sections that a text can hold.
proof fn lemma_line_readable(all: Seq<section::RawSectionView>, number: usize, raw: text::Text)
    requires
        are_readable(all),
        !raw.contains('\n'),
        section::after_line(all, number, raw) is Ok,
    ensures
        are_readable(section::after_line(all, number, raw)->Ok_0),
        section::after_line(all, number, raw)->Ok_0.len() <= all.len() + 1,
{
    let bare = section::without_comment(raw);
    let line = text::trimmed(bare);
    lemma_comment_bound(raw, false, false);
    assert(!bare.contains('\n')) by {
        if bare.contains('\n') {
            let i = choose|i: int| 0 <= i < bare.len() && bare[i] == '\n';
            assert(raw[i] == '\n');
        }
    }
    lemma_trimmed_holds(bare, '\n');
    lemma_prefix_uncommented(
        raw,
        false,
        false,
        section::before_comment(raw, false, false) as int,
    );
    lemma_trimmed_uncommented(bare);
    let next = section::after_line(all, number, raw)->Ok_0;
    if line.len() == 0 || line[0] == '#' {
    } else if line[0] == '[' {
        lemma_header_name(line, number);
        let s = section::header_of(line, number)->Ok_0;
        assert(next == all.push(s));
        assert forall|i: int, j: int| 0 <= i < j < next.len() implies !text::same_fold(
            (#[trigger] next[i]).name,
            (#[trigger] next[j]).name,
        ) by {
            assert(next[i] == all[i]);
            if j < all.len() {
                assert(next[j] == all[j]);
            }
        }
        assert forall|i: int| 0 <= i < next.len() implies is_section_name(
            (#[trigger] next[i]).name,
        ) && on_one_line(next[i].values) by {
            if i < all.len() {
                assert(next[i] == all[i]);
            }
        }
    } else {
        let (key, value) = text::cut(line, '=')->0;
        let p = text::position(line, '=') as int;
        text::lemma_position(line, '=');
        assert(!value.contains('\n')) by {
            if value.contains('\n') {
                let i = choose|i: int| 0 <= i < value.len() && value[i] == '\n';
                assert(line[p + 1 + i] == '\n');
            }
        }
        lemma_trimmed_holds(value, '\n');
        lemma_unquoted_holds(text::trimmed(value), '\n');
        let last = all.last();
        assert(last == all[all.len() - 1]);
        assert forall|i: int, j: int| 0 <= i < j < next.len() implies !text::same_fold(
            (#[trigger] next[i]).name,
            (#[trigger] next[j]).name,
        ) by {
            assert(next[i].name == all[i].name);
            assert(next[j].name == all[j].name);
        }
        assert forall|i: int| 0 <= i < next.len() implies is_section_name(
            (#[trigger] next[i]).name,
        ) && on_one_line(next[i].values) by {
            assert(next[i].name == all[i].name);
            if i < all.len() - 1 {
                assert(next[i] == all[i]);
            } else {
                let v = next[i].values;
                assert forall|k: int| 0 <= k < v.len() implies !(#[trigger] v[k]).value.contains(
                    '\n',
                ) by {
                    if k < last.values.len() {
                        assert(v[k] == last.values[k]);
                    }
                }
            }
        }
    }
}

/// The sections of a text are such as a text can hold.
pub(crate) proof fn lemma_sections_readable(lines: Seq<text::Text>)
    requires
        forall|i: int| 0 <= i < lines.len() ==> !(#[trigger] lines[i]).contains('\n'),
        section::sections_of(lines) is Ok,
    ensures
        are_readable(section::sections_of(lines)->Ok_0),
        section::sections_of(lines)->Ok_0.len() <= lines.len(),
    decreases lines.len(),
{
    if lines.len() > 0 {
        let head = lines.drop_last();
        assert forall|i: int| 0 <= i < head.len() implies !(#[trigger] head[i]).contains('\n') by {
            assert(head[i] == lines[i]);
        }
        lemma_sections_readable(head);
        assert(lines.last() == lines[lines.len() - 1]);
        lemma_line_readable(
            section::sections_of(head)->Ok_0,
            lines.len() as usize,
            lines.last(),
        );
    }
}

/// Settings laid over others stand in one line where all of them do.
proof fn lemma_merged_values(
    values: Seq<section::RawValueView>,
    newer: Seq<section::RawValueView>,
    kind: inheritance::TemplateKind,
)
    requires
        on_one_line(values),
        on_one_line(newer),
    ensures
        on_one_line(inheritance::merged(values, newer, kind)),
{
    inheritance::law_newer_settings_override(values, newer, kind);
    let all = inheritance::merged(values, newer, kind);
    let left = all.len() - newer.len();
    assert forall|i: int| 0 <= i < all.len() implies !(#[trigger] all[i]).value.contains('\n') by {
        if i < left {
            assert(values.contains(all[i]));
            let j = choose|j: int| 0 <= j < values.len() && values[j] == all[i];
            assert(!values[j].value.contains('\n'));
        } else {
            assert(all.skip(left)[i - left] == all[i]);
            assert(!newer[i - left].value.contains('\n'));
        }
    }
}

/// What a section inherits stands in one line.
proof fn lemma_inherited_values(
    sections: Seq<section::RawSectionView>,
    index: usize,
    stack: Seq<usize>,
    count: nat,
)
    requires
        forall|i: int| 0 <= i < sections.len() ==> on_one_line((#[trigger] sections[i]).values),
        index < sections.len() <= usize::MAX,
        stack.len() <= sections.len(),
        inheritance::inherited(sections, index, stack, count) is Ok,
    ensures
        on_one_line(inheritance::inherited(sections, index, stack, count)->Ok_0.values),
    decreases sections.len() - stack.len(), count,
{
    if count > 0 {
        lemma_inherited_values(sections, index, stack, (count - 1) as nat);
        let s = sections[index as int];
        let sofar = inheritance::inherited(sections, index, stack, (count - 1) as nat)->Ok_0;
        let p = inheritance::index_of(sections, s.parents[count - 1])->0;
        lemma_index_bound(sections, s.parents[count - 1]);
        lemma_resolved_values(sections, p, stack);
        let parent = inheritance::resolved(sections, p, stack)->Ok_0;
        let kind = inheritance::template_kind(parent)->Ok_0;
        lemma_merged_values(sofar.values, parent.values, kind);
    }
}

/// A section that is found is one of the list.
proof fn lemma_index_bound(sections: Seq<section::RawSectionView>, name: text::Text)
    requires
        inheritance::index_of(sections, name) is Some,
        sections.len() <= usize::MAX,
    ensures
        inheritance::index_of(sections, name)->0 < sections.len(),
    decreases sections.len(),
{
    if sections.len() > 0 {
        if inheritance::index_of(sections.drop_last(), name) is Some {
            lemma_index_bound(sections.drop_last(), name);
        }
    }
}

/// The settings of a resolved section stand in one line.
proof fn lemma_resolved_values(
    sections: Seq<section::RawSectionView>,
    index: usize,
    stack: Seq<usize>,
)
    requires
        forall|i: int| 0 <= i < sections.len() ==> on_one_line((#[trigger] sections[i]).values),
        index < sections.len() <= usize::MAX,
        stack.len() <= sections.len(),
        inheritance::resolved(sections, index, stack) is Ok,
    ensures
        on_one_line(inheritance::resolved(sections, index, stack)->Ok_0.values),
        inheritance::resolved(sections, index, stack)->Ok_0.name == sections[index as int].name,
    decreases sections.len() - stack.len(), 0nat,
{
    let s = sections[index as int];
    assert(on_one_line(s.values));
    let deeper = stack.push(index);
    lemma_inherited_values(sections, index, deeper, s.parents.len());
    let all = inheritance::inherited(sections, index, deeper, s.parents.len())->Ok_0;
    match all.kind {
        Some(k) => {
            lemma_merged_values(all.values, s.values, k);
        },
        None => {},
    }
}

/// Resolved sections are such as a text can hold.
pub(crate) proof fn lemma_resolved_readable(sections: Seq<section::RawSectionView>, count: nat)
    requires
        are_readable(sections),
        count <= sections.len() <= usize::MAX,
        inheritance::resolved_upto(sections, count) is Ok,
    ensures
        are_readable(inheritance::resolved_upto(sections, count)->Ok_0),
        inheritance::resolved_upto(sections, count)->Ok_0.len() <= count,
        forall|i: int|
            0 <= i < inheritance::resolved_upto(sections, count)->Ok_0.len() ==> exists|j: int|
                0 <= j < count && (#[trigger] sections[j]).name == (
                #[trigger] inheritance::resolved_upto(sections, count)->Ok_0[i]).name,
    decreases count,
{
    if count > 0 {
        let before = (count - 1) as nat;
        lemma_resolved_readable(sections, before);
        let done = inheritance::resolved_upto(sections, before)->Ok_0;
        let all = inheritance::resolved_upto(sections, count)->Ok_0;
        let index = (count - 1) as usize;
        assert forall|i: int| 0 <= i < sections.len() implies on_one_line(
            (#[trigger] sections[i]).values,
        ) by {}
        lemma_resolved_values(sections, index, Seq::empty());
        let last = inheritance::resolved(sections, index, Seq::empty())->Ok_0;
        assert(is_section_name(sections[index as int].name));
        assert forall|i: int| 0 <= i < all.len() implies exists|j: int|
            0 <= j < count && (#[trigger] sections[j]).name == (#[trigger] all[i]).name by {
            if i < done.len() {
                assert(all[i] == done[i]);
                let j = choose|j: int|
                    0 <= j < before && (#[trigger] sections[j]).name == done[i].name;
                assert(sections[j].name == all[i].name);
            } else {
                assert(sections[index as int].name == all[i].name);
            }
        }
        assert forall|i: int, j: int| 0 <= i < j < all.len() implies !text::same_fold(
            (#[trigger] all[i]).name,
            (#[trigger] all[j]).name,
        ) by {
            assert(all[i] == done[i]);
            if j < done.len() {
                assert(all[j] == done[j]);
            } else {
                let k = choose|k: int|
                    0 <= k < before && (#[trigger] sections[k]).name == done[i].name;
                assert(!text::same_fold(sections[k].name, sections[index as int].name));
            }
        }
        assert forall|i: int| 0 <= i < all.len() implies is_section_name((#[trigger] all[i]).name)
            && on_one_line(all[i].values) by {
            if i < done.len() {
                assert(all[i] == done[i]);
            }
        }
    }
}

// ---------------------------------------------------------------------------
// Order of sections

/// No section precedes one that stands before it.
pub open spec fn are_ordered(sections: Seq<section::RawSectionView>) -> bool {
    forall|i: int, j: int|
        0 <= i < j < sections.len() ==> !canonical::precedes(
            #[trigger] sections[j],
            #[trigger] sections[i],
        )
}

/// The order of sections is one of ranks and names.
pub(crate) proof fn lemma_precedes(
    a: section::RawSectionView,
    b: section::RawSectionView,
    c: section::RawSectionView,
)
    ensures
        !(canonical::precedes(a, b) && canonical::precedes(b, a)),
        !canonical::precedes(b, a) && !canonical::precedes(c, b) ==> !canonical::precedes(c, a),
{
    let x = text::lower(a.name);
    let y = text::lower(b.name);
    let z = text::lower(c.name);
    text::law_text_order_is_total(x, y, z);
    text::law_text_order_is_total(z, x, y);
    text::law_text_order_is_total(y, z, x);
    text::law_text_order_is_total(z, y, x);
    text::law_text_order_is_total(y, x, z);
    text::law_text_order_is_total(x, z, y);
}

/// Where a section goes in a sorted list.
pub(crate) proof fn lemma_with_section(
    list: Seq<section::RawSectionView>,
    s: section::RawSectionView,
) -> (k: int)
    ensures
        0 <= k <= list.len(),
        canonical::with_section(list, s) == list.insert(k, s),
        are_ordered(list) ==> are_ordered(canonical::with_section(list, s)),
        !(list.len() > 0 && canonical::precedes(s, list.last())) ==> k == list.len(),
    decreases list.len(),
{
    if list.len() == 0 || !canonical::precedes(s, list.last()) {
        let r = list.push(s);
        assert(r =~= list.insert(list.len() as int, s));
        if are_ordered(list) {
            assert forall|i: int, j: int| 0 <= i < j < r.len() implies !canonical::precedes(
                #[trigger] r[j],
                #[trigger] r[i],
            ) by {
                assert(r[i] == list[i]);
                if j < list.len() {
                    assert(r[j] == list[j]);
                } else {
                    let last = list.len() - 1;
                    assert(list[last] == list.last());
                    if i < last {
                        assert(!canonical::precedes(list[last], list[i]));
                        lemma_precedes(list[i], list[last], s);
                    }
                }
            }
        }
        list.len() as int
    } else {
        let head = list.drop_last();
        let last = list.last();
        let k = lemma_with_section(head, s);
        let inner = canonical::with_section(head, s);
        let r = canonical::with_section(list, s);
        assert(r == inner.push(last));
        assert(r =~= list.insert(k, s));
        if are_ordered(list) {
            assert forall|i: int, j: int| 0 <= i < j < head.len() implies !canonical::precedes(
                #[trigger] head[j],
                #[trigger] head[i],
            ) by {
                assert(head[i] == list[i] && head[j] == list[j]);
            }
            assert forall|i: int, j: int| 0 <= i < j < r.len() implies !canonical::precedes(
                #[trigger] r[j],
                #[trigger] r[i],
            ) by {
                assert(r[i] == inner[i]);
                if j < inner.len() {
                    assert(r[j] == inner[j]);
                } else {
                    assert(r[j] == last);
                    assert(last == list[list.len() - 1]);
                    if i == k {
                        assert(r[i] == s);
                        lemma_precedes(s, last, s);
                    } else if i < k {
                        assert(r[i] == list[i]);
                    } else {
                        assert(r[i] == list[i - 1]);
                    }
                }
            }
        }
        k
    }
}

/// Sorting keeps the sections and orders them.
pub(crate) proof fn lemma_sorted(sections: Seq<section::RawSectionView>)
    requires
        are_readable(sections),
    ensures
        canonical::sorted(sections).len() == sections.len(),
        are_readable(canonical::sorted(sections)),
        are_ordered(canonical::sorted(sections)),
        forall|i: int|
            0 <= i < sections.len() ==> sections.contains(
                #[trigger] canonical::sorted(sections)[i],
            ),
        forall|i: int|
            0 <= i < sections.len() ==> canonical::sorted(sections).contains(
                #[trigger] sections[i],
            ),
    decreases sections.len(),
{
    if sections.len() > 0 {
        let head = sections.drop_last();
        let s = sections.last();
        assert(s == sections[sections.len() - 1]);
        assert forall|i: int, j: int| 0 <= i < j < head.len() implies !text::same_fold(
            (#[trigger] head[i]).name,
            (#[trigger] head[j]).name,
        ) by {
            assert(head[i] == sections[i] && head[j] == sections[j]);
        }
        assert forall|i: int| 0 <= i < head.len() implies is_section_name((#[trigger] head[i]).name)
            && on_one_line(head[i].values) by {
            assert(head[i] == sections[i]);
        }
        lemma_sorted(head);
        let list = canonical::sorted(head);
        let k = lemma_with_section(list, s);
        let r = canonical::sorted(sections);
        assert(r == list.insert(k, s));
        assert forall|i: int| 0 <= i < list.len() implies !text::same_fold(
            (#[trigger] list[i]).name,
            s.name,
        ) by {
            assert(head.contains(list[i]));
            let j = choose|j: int| 0 <= j < head.len() && head[j] == list[i];
            assert(sections[j] == list[i]);
            assert(!text::same_fold(sections[j].name, sections[sections.len() - 1].name));
        }
        assert forall|i: int| 0 <= i < r.len() implies sections.contains(#[trigger] r[i])
            && is_section_name(r[i].name) && on_one_line(r[i].values) by {
            if i == k {
                assert(r[i] == s);
            } else {
                let m = if i < k {
                    i
                } else {
                    i - 1
                };
                assert(r[i] == list[m]);
                assert(head.contains(list[m]));
                let j = choose|j: int| 0 <= j < head.len() && head[j] == list[m];
                assert(sections[j] == r[i]);
            }
        }
        assert forall|i: int, j: int| 0 <= i < j < r.len() implies !text::same_fold(
            (#[trigger] r[i]).name,
            (#[trigger] r[j]).name,
        ) by {
            let a = if i < k {
                i
            } else {
                i - 1
            };
            let b = if j < k {
                j
            } else {
                j - 1
            };
            if i == k {
                assert(r[j] == list[b]);
            } else if j == k {
                assert(r[i] == list[a]);
            } else {
                assert(r[i] == list[a] && r[j] == list[b]);
            }
        }
        assert forall|i: int| 0 <= i < sections.len() implies r.contains(
            #[trigger] sections[i],
        ) by {
            if i < head.len() {
                assert(head[i] == sections[i]);
                assert(list.contains(head[i]));
                let m = choose|m: int| 0 <= m < list.len() && list[m] == head[i];
                assert(r[if m < k {
                    m
                } else {
                    m + 1
                }] == sections[i]);
            } else {
                assert(r[k] == s);
            }
        }
    }
}

/// Ordered sections are sorted.
proof fn lemma_ordered_are_sorted(sections: Seq<section::RawSectionView>)
    requires
        are_ordered(sections),
    ensures
        canonical::sorted(sections) == sections,
    decreases sections.len(),
{
    if sections.len() == 0 {
        assert(canonical::sorted(sections) =~= sections);
    } else {
        let head = sections.drop_last();
        assert forall|i: int, j: int| 0 <= i < j < head.len() implies !canonical::precedes(
            #[trigger] head[j],
            #[trigger] head[i],
        ) by {
            assert(head[i] == sections[i] && head[j] == sections[j]);
        }
        lemma_ordered_are_sorted(head);
        if head.len() > 0 {
            assert(head.last() == sections[sections.len() - 2]);
            assert(sections.last() == sections[sections.len() - 1]);
            assert(!canonical::precedes(sections.last(), head.last()));
        }
        assert(head.push(sections.last()) =~= sections);
    }
}

// ---------------------------------------------------------------------------
// Keys

/// The canonical name of an option is a key.
pub(crate) proof fn lemma_option_key(s: option::Setting)
    ensures
        is_key(option::canonical_name(s)),
{
    match s {
        option::Setting::DateFormat => {
            reveal_strlit("dateformat");
        },
        option::Setting::TimezoneOffset => {
            reveal_strlit("tzoffset");
        },
        option::Setting::Bind => {
            reveal_strlit("bind");
        },
        option::Setting::BindAddress => {
            reveal_strlit("bind_address");
        },
        option::Setting::Port => {
            reveal_strlit("port");
        },
        option::Setting::AdvertisedAddress => {
            reveal_strlit("advertised_address");
        },
        option::Setting::AdvertisedIpv4 => {
            reveal_strlit("advertised_ipv4");
        },
        option::Setting::AdvertisedIpv6 => {
            reveal_strlit("advertised_ipv6");
        },
        option::Setting::TlsBind => {
            reveal_strlit("tls_bind");
        },
        option::Setting::TlsBindAddress => {
            reveal_strlit("tls_bind_address");
        },
        option::Setting::TlsPort => {
            reveal_strlit("tls_port");
        },
        option::Setting::TlsCombinedPem => {
            reveal_strlit("tls_combined_pem");
        },
        option::Setting::TlsCertificate => {
            reveal_strlit("tls_certificate");
        },
        option::Setting::TlsPrivateKey => {
            reveal_strlit("tls_private_key");
        },
        option::Setting::TlsTrustStore => {
            reveal_strlit("tls_trust_store");
        },
        option::Setting::Deny => {
            reveal_strlit("deny");
        },
        option::Setting::Permit => {
            reveal_strlit("permit");
        },
        option::Setting::LocalNetwork => {
            reveal_strlit("localnet");
        },
        option::Setting::ExternalAddress => {
            reveal_strlit("externip");
        },
        option::Setting::ExternalHost => {
            reveal_strlit("externhost");
        },
        option::Setting::ExternalRefresh => {
            reveal_strlit("externrefresh");
        },
        option::Setting::Nat => {
            reveal_strlit("nat");
        },
        option::Setting::SignalingTos => {
            reveal_strlit("sccp_tos");
        },
        option::Setting::SignalingDscp => {
            reveal_strlit("sccp_dscp");
        },
        option::Setting::SignalingCos => {
            reveal_strlit("sccp_cos");
        },
        option::Setting::AudioTos => {
            reveal_strlit("audio_tos");
        },
        option::Setting::AudioDscp => {
            reveal_strlit("audio_dscp");
        },
        option::Setting::AudioCos => {
            reveal_strlit("audio_cos");
        },
        option::Setting::VideoTos => {
            reveal_strlit("video_tos");
        },
        option::Setting::VideoDscp => {
            reveal_strlit("video_dscp");
        },
        option::Setting::VideoCos => {
            reveal_strlit("video_cos");
        },
        option::Setting::TrustPhoneIp => {
            reveal_strlit("trust_phone_ip");
        },
        option::Setting::ServerName => {
            reveal_strlit("server_name");
        },
        option::Setting::Language => {
            reveal_strlit("language");
        },
        option::Setting::AccountCode => {
            reveal_strlit("accountcode");
        },
        option::Setting::Keepalive => {
            reveal_strlit("keepalive");
        },
        option::Setting::SecondaryKeepalive => {
            reveal_strlit("secondary_keepalive");
        },
        option::Setting::SignalingServer => {
            reveal_strlit("signaling_server");
        },
        option::Setting::FirstDigitTimeout => {
            reveal_strlit("first_digit_timeout");
        },
        option::Setting::InterdigitTimeoutMs => {
            reveal_strlit("interdigit_timeout_ms");
        },
        option::Setting::DigitTimeout => {
            reveal_strlit("digit_timeout");
        },
        option::Setting::DigitTimeoutChar => {
            reveal_strlit("digit_timeout_char");
        },
        option::Setting::RecordDigitTimeoutChar => {
            reveal_strlit("record_digit_timeout_char");
        },
        option::Setting::SimulateEnbloc => {
            reveal_strlit("simulate_enbloc");
        },
        option::Setting::SpeedDialAwaitFurtherDigits => {
            reveal_strlit("speed_dial_await_further_digits");
        },
        option::Setting::AllowOverlap => {
            reveal_strlit("allow_overlap");
        },
        option::Setting::TransferOnHangup => {
            reveal_strlit("transfer_on_hangup");
        },
        option::Setting::CallAnswerOrder => {
            reveal_strlit("call_answer_order");
        },
        option::Setting::RingType => {
            reveal_strlit("ring_type");
        },
        option::Setting::CallWaitingTone => {
            reveal_strlit("call_waiting_tone");
        },
        option::Setting::CallWaitingInterval => {
            reveal_strlit("call_waiting_interval");
        },
        option::Setting::Fallback => {
            reveal_strlit("fallback");
        },
        option::Setting::BackoffTime => {
            reveal_strlit("backoff_time");
        },
        option::Setting::ServerPriority => {
            reveal_strlit("server_priority");
        },
        option::Setting::Allow => {
            reveal_strlit("allow");
        },
        option::Setting::Disallow => {
            reveal_strlit("disallow");
        },
        option::Setting::ConferenceEnabled => {
            reveal_strlit("meetme");
        },
        option::Setting::ConferenceOptions => {
            reveal_strlit("meetmeopts");
        },
        option::Setting::AutoanswerRingTime => {
            reveal_strlit("autoanswer_ring_time");
        },
        option::Setting::AutoanswerTone => {
            reveal_strlit("autoanswer_tone");
        },
        option::Setting::RemoteHangupTone => {
            reveal_strlit("remote_hangup_tone");
        },
        option::Setting::HotlineEnabled => {
            reveal_strlit("hotline_enabled");
        },
        option::Setting::HotlineExtension => {
            reveal_strlit("hotline_extension");
        },
        option::Setting::HotlineContext => {
            reveal_strlit("hotline_context");
        },
        option::Setting::HotlineLabel => {
            reveal_strlit("hotline_label");
        },
        option::Setting::DirectMedia => {
            reveal_strlit("direct_media");
        },
        option::Setting::EarlyMedia => {
            reveal_strlit("early_media");
        },
        option::Setting::AudioEncryption => {
            reveal_strlit("audio_encryption");
        },
        option::Setting::EchoCancel => {
            reveal_strlit("echocancel");
        },
        option::Setting::SilenceSuppression => {
            reveal_strlit("silencesuppression");
        },
        option::Setting::JbEnable => {
            reveal_strlit("jb_enable");
        },
        option::Setting::JbForce => {
            reveal_strlit("jb_force");
        },
        option::Setting::JbLog => {
            reveal_strlit("jb_log");
        },
        option::Setting::JbMaxSize => {
            reveal_strlit("jb_max_size");
        },
        option::Setting::JbResyncThreshold => {
            reveal_strlit("jb_resync_threshold");
        },
        option::Setting::JbImplementation => {
            reveal_strlit("jb_implementation");
        },
        option::Setting::RegistrationContext => {
            reveal_strlit("regcontext");
        },
        option::Setting::DeviceTable => {
            reveal_strlit("device_table");
        },
        option::Setting::LineTable => {
            reveal_strlit("line_table");
        },
        option::Setting::Type => {
            reveal_strlit("type");
        },
        option::Setting::Label => {
            reveal_strlit("label");
        },
        option::Setting::Context => {
            reveal_strlit("context");
        },
        option::Setting::CallerId => {
            reveal_strlit("callerid");
        },
        option::Setting::IncomingLimit => {
            reveal_strlit("incoming_limit");
        },
        option::Setting::SetVariable => {
            reveal_strlit("setvar");
        },
        option::Setting::Mailbox => {
            reveal_strlit("mailbox");
        },
        option::Setting::VoicemailNumber => {
            reveal_strlit("voicemail_number");
        },
        option::Setting::VoicemailTransfer => {
            reveal_strlit("voicemail_transfer");
        },
        option::Setting::CallGroup => {
            reveal_strlit("call_group");
        },
        option::Setting::PickupGroup => {
            reveal_strlit("pickup_group");
        },
        option::Setting::NamedCallGroup => {
            reveal_strlit("named_call_group");
        },
        option::Setting::NamedPickupGroup => {
            reveal_strlit("named_pickup_group");
        },
        option::Setting::DirectedPickup => {
            reveal_strlit("directed_pickup");
        },
        option::Setting::DirectedPickupContext => {
            reveal_strlit("directed_pickup_context");
        },
        option::Setting::PickupModeAnswer => {
            reveal_strlit("pickup_mode_answer");
        },
        option::Setting::ParkingLot => {
            reveal_strlit("parkinglot");
        },
        option::Setting::ConferenceNumber => {
            reveal_strlit("meetmenum");
        },
        option::Setting::AdhocNumber => {
            reveal_strlit("adhoc_number");
        },
        option::Setting::InitialDialtoneTone => {
            reveal_strlit("initial_dialtone_tone");
        },
        option::Setting::SecondaryDialtoneDigits => {
            reveal_strlit("secondary_dialtone_digits");
        },
        option::Setting::SecondaryDialtoneTone => {
            reveal_strlit("secondary_dialtone_tone");
        },
        option::Setting::Pin => {
            reveal_strlit("pin");
        },
        option::Setting::RegistrationExtension => {
            reveal_strlit("regexten");
        },
        option::Setting::VideoMode => {
            reveal_strlit("video_mode");
        },
        option::Setting::Description => {
            reveal_strlit("description");
        },
        option::Setting::SoftkeyProfile => {
            reveal_strlit("softkey_profile");
        },
        option::Setting::ForwardAllEnabled => {
            reveal_strlit("cfwdall");
        },
        option::Setting::ForwardBusyEnabled => {
            reveal_strlit("cfwdbusy");
        },
        option::Setting::ForwardNoAnswerEnabled => {
            reveal_strlit("cfwdnoanswer");
        },
        option::Setting::ForwardNoAnswerTimeout => {
            reveal_strlit("forward_no_answer_timeout");
        },
        option::Setting::ForwardAll => {
            reveal_strlit("forward_all");
        },
        option::Setting::ForwardBusy => {
            reveal_strlit("forward_busy");
        },
        option::Setting::ForwardNoAnswer => {
            reveal_strlit("forward_no_answer");
        },
        option::Setting::DndFeature => {
            reveal_strlit("dnd_feature");
        },
        option::Setting::Dnd => {
            reveal_strlit("dnd");
        },
        option::Setting::PrivacyFeature => {
            reveal_strlit("privacy_feature");
        },
        option::Setting::Privacy => {
            reveal_strlit("privacy");
        },
        option::Setting::FeatureDefault => {
            reveal_strlit("feature_default");
        },
        option::Setting::Park => {
            reveal_strlit("park");
        },
        option::Setting::ConferenceAllow => {
            reveal_strlit("conf_allow");
        },
        option::Setting::ConferenceMusicOnHoldClass => {
            reveal_strlit("conf_music_on_hold_class");
        },
        option::Setting::ConferencePlayGeneralAnnounce => {
            reveal_strlit("conf_play_general_announce");
        },
        option::Setting::ConferencePlayParticipantAnnounce => {
            reveal_strlit("conf_play_part_announce");
        },
        option::Setting::ConferenceMuteOnEntry => {
            reveal_strlit("conf_mute_on_entry");
        },
        option::Setting::ConferenceShowList => {
            reveal_strlit("conf_show_conflist");
        },
        option::Setting::ConferenceDialingEnabled => {
            reveal_strlit("meetme");
        },
        option::Setting::UseRedialMenu => {
            reveal_strlit("use_redial_menu");
        },
        option::Setting::AllowRinginNotification => {
            reveal_strlit("allow_ringin_notification");
        },
        option::Setting::MwiLamp => {
            reveal_strlit("mwi_lamp");
        },
        option::Setting::MwiOnCall => {
            reveal_strlit("mwi_on_call");
        },
        option::Setting::PhoneCodePage => {
            reveal_strlit("phone_code_page");
        },
        option::Setting::ForceDtmfMode => {
            reveal_strlit("force_dtmf_mode");
        },
        option::Setting::PermitHost => {
            reveal_strlit("permit_host");
        },
        option::Setting::Transport => {
            reveal_strlit("transport");
        },
        option::Setting::ObsoleteDtmfMode => {
            reveal_strlit("obsolete_dtmf_mode");
        },
        option::Setting::Line => {
            reveal_strlit("line");
        },
        option::Setting::Button => {
            reveal_strlit("button");
        },
    }
}

/// A field that is found is one of the list.
proof fn lemma_field_index(fields: Seq<schema::SectionFieldView>, name: text::Text)
    requires
        schema::field_index(fields, name) is Some,
    ensures
        schema::field_index(fields, name)->0 < fields.len(),
        fields[schema::field_index(fields, name)->0 as int].name == name,
    decreases fields.len(),
{
    if fields.len() > 0 && fields.last().name != name {
        lemma_field_index(fields.drop_last(), name);
    }
}

/// The name of a field of a profile is a key.
proof fn lemma_profile_key(name: text::Text)
    requires
        schema::field_index(softkey::profile_fields(), name) is Some,
    ensures
        is_key(name),
{
    lemma_field_index(softkey::profile_fields(), name);
    reveal_strlit("type");
    reveal_strlit("on_hook");
    reveal_strlit("connected");
    reveal_strlit("on_hold");
    reveal_strlit("ring_in");
    reveal_strlit("off_hook");
    reveal_strlit("connected_transfer");
    reveal_strlit("digits_following");
    reveal_strlit("connected_conference");
    reveal_strlit("ring_out");
    reveal_strlit("off_hook_feature");
    reveal_strlit("in_use_hint");
    reveal_strlit("on_hook_stealable");
    reveal_strlit("hold_conference");
    reveal_strlit("empty");
}

// ---------------------------------------------------------------------------
// Sections as lines

/// The settings that are written for a section.
pub open spec fn entries_in(s: section::RawSectionView) -> Seq<canonical::CanonicalEntryView> {
    canonical::entries_of(s, canonical::kind_of(s)->0)->Ok_0
}

/// Settings as they stand in lines.
pub open spec fn entry_lines(entries: Seq<canonical::CanonicalEntryView>) -> Seq<text::Text> {
    Seq::new(entries.len(), |i: int| entry_line(entries[i]))
}

/// A section as it stands in lines.
pub open spec fn section_lines(s: section::RawSectionView) -> Seq<text::Text> {
    seq![header_line(s.name)] + entry_lines(entries_in(s))
}

/// The first `n` sections as they stand in lines, an empty line between two.
pub open spec fn lines_in(sections: Seq<section::RawSectionView>, n: nat) -> Seq<text::Text>
    decreases n,
{
    if n == 0 {
        Seq::empty()
    } else {
        lines_in(sections, (n - 1) as nat) + if n == 1 {
            Seq::empty()
        } else {
            seq![Seq::empty()]
        } + section_lines(sections[n - 1])
    }
}

/// Lines with one more line.
proof fn lemma_terminated_push(lines: Seq<text::Text>, line: text::Text)
    ensures
        file::terminated(lines.push(line)) == file::terminated(lines) + line + "\n"@,
{
    let last = seq![line];
    assert(lines.push(line) =~= lines + last);
    lemma_terminated_sum(lines, last);
    assert(last.drop_first() =~= Seq::empty());
    assert(file::terminated(last.drop_first()) =~= Seq::empty());
    assert(file::terminated(last) =~= line + "\n"@);
    assert(file::terminated(lines) + (line + "\n"@) =~= file::terminated(lines) + line + "\n"@);
}

/// Settings are written line by line.
proof fn lemma_entries_text(entries: Seq<canonical::CanonicalEntryView>)
    ensures
        canonical::entries_text(entries) == file::terminated(entry_lines(entries)),
    decreases entries.len(),
{
    if entries.len() == 0 {
        assert(entry_lines(entries) =~= Seq::empty());
    } else {
        let head = entries.drop_last();
        lemma_entries_text(head);
        let line = entry_line(entries.last());
        assert(entry_lines(entries) =~= entry_lines(head).push(line));
        lemma_terminated_push(entry_lines(head), line);
        assert(canonical::entry_text(entries.last()) =~= line + "\n"@);
        assert(file::terminated(entry_lines(head)) + (line + "\n"@) =~= file::terminated(
            entry_lines(head),
        ) + line + "\n"@);
    }
}

/// A section is written line by line.
proof fn lemma_section_text(s: section::RawSectionView)
    requires
        canonical::section_text(s) is Ok,
    ensures
        canonical::section_text(s)->Ok_0 == file::terminated(section_lines(s)),
{
    reveal_strlit("]\n");
    reveal_strlit("]");
    reveal_strlit("\n");
    let entries = entries_in(s);
    lemma_entries_text(entries);
    let head = seq![header_line(s.name)];
    lemma_terminated_sum(head, entry_lines(entries));
    lemma_terminated_push(Seq::empty(), header_line(s.name));
    assert(Seq::<text::Text>::empty().push(header_line(s.name)) =~= head);
    assert(file::terminated(head) =~= "["@ + s.name + "]\n"@);
}

/// Sections are written line by line.
pub(crate) proof fn lemma_text_lines(sections: Seq<section::RawSectionView>, i: int, out: text::Text)
    requires
        0 <= i <= sections.len(),
        out == file::terminated(lines_in(sections, i as nat)),
        canonical::text_from(sections, i, out) is Ok,
    ensures
        canonical::text_from(sections, i, out)->Ok_0 == file::terminated(
            lines_in(sections, sections.len()),
        ),
        forall|j: int|
            i <= j < sections.len() ==> canonical::section_text(#[trigger] sections[j]) is Ok,
    decreases sections.len() - i,
{
    if i < sections.len() {
        let t = canonical::section_text(sections[i])->Ok_0;
        lemma_section_text(sections[i]);
        let before = lines_in(sections, i as nat);
        let gap: Seq<text::Text> = if i == 0 {
            Seq::empty()
        } else {
            seq![Seq::empty()]
        };
        let next = if i == 0 {
            out + t
        } else {
            out + "\n"@ + t
        };
        lemma_terminated_sum(before + gap, section_lines(sections[i]));
        lemma_terminated_sum(before, gap);
        if i == 0 {
            assert(before + gap =~= before);
        } else {
            lemma_terminated_push(Seq::empty(), Seq::empty());
            assert(Seq::<text::Text>::empty().push(Seq::empty()) =~= gap);
            assert(file::terminated(gap) =~= "\n"@);
        }
        assert(lines_in(sections, (i + 1) as nat) == before + gap + section_lines(sections[i]));
        assert(next =~= file::terminated(lines_in(sections, (i + 1) as nat)));
        lemma_text_lines(sections, i + 1, next);
    }
}

/// A section whose lines are read back.
pub open spec fn is_writable(s: section::RawSectionView) -> bool {
    &&& is_section_name(s.name)
    &&& forall|i: int|
        0 <= i < entries_in(s).len() ==> is_key((#[trigger] entries_in(s)[i]).key) && reads_back(
            entries_in(s)[i].value,
        ) && !entries_in(s)[i].value.contains('\n')
}

/// A section that says, by canonical names, what another says.
pub open spec fn restates(t: section::RawSectionView, s: section::RawSectionView) -> bool {
    &&& t.name == s.name
    &&& inheritance::is_plain(t)
    &&& t.values.len() == entries_in(s).len()
    &&& forall|i: int|
        0 <= i < t.values.len() ==> (#[trigger] t.values[i]).key == entries_in(s)[i].key
            && t.values[i].value == entries_in(s)[i].value
}

/// The first `n` settings of a section are read back behind its header.
proof fn lemma_read_entries(
    lines: Seq<text::Text>,
    all: Seq<section::RawSectionView>,
    s: section::RawSectionView,
    n: nat,
) -> (t: section::RawSectionView)
    requires
        section::sections_of(lines) == Ok::<Seq<section::RawSectionView>, error::ErrorView>(all),
        !section::section_named(all, s.name),
        is_writable(s),
        n <= entries_in(s).len(),
    ensures
        section::sections_of(lines + section_lines(s).take((n + 1) as int)) == Ok::<
            Seq<section::RawSectionView>,
            error::ErrorView,
        >(all.push(t)),
        t.name == s.name,
        inheritance::is_plain(t),
        t.values.len() == n,
        forall|i: int|
            0 <= i < n ==> (#[trigger] t.values[i]).key == entries_in(s)[i].key && t.values[i].value
                == entries_in(s)[i].value,
    decreases n,
{
    let own = section_lines(s);
    let now = lines + own.take((n + 1) as int);
    let entries = entries_in(s);
    if n == 0 {
        assert(own.take(1) =~= seq![header_line(s.name)]);
        assert(now.drop_last() =~= lines);
        assert(now.last() == header_line(s.name));
        lemma_header_line(all, now.len() as usize, s.name);
        section::RawSectionView {
            name: s.name,
            line: now.len() as usize,
            is_template: false,
            parents: Seq::empty(),
            values: Seq::empty(),
        }
    } else {
        let k = (n - 1) as nat;
        let t = lemma_read_entries(lines, all, s, k);
        let e = entries[k as int];
        assert(own[n as int] == entry_line(e));
        assert(now.drop_last() =~= lines + own.take(n as int));
        assert(now.last() == entry_line(e));
        let before = all.push(t);
        lemma_entry_line(before, now.len() as usize, e);
        let v = section::RawValueView {
            key: e.key,
            value: e.value,
            line: now.len() as usize,
            section: before.last().name,
        };
        let r = section::RawSectionView {
            name: t.name,
            line: t.line,
            is_template: t.is_template,
            parents: t.parents,
            values: t.values.push(v),
        };
        assert(before.drop_last() =~= all);
        assert(section::with_setting(before, v) == all.push(r));
        assert forall|i: int| 0 <= i < n implies (#[trigger] r.values[i]).key == entries[i].key
            && r.values[i].value == entries[i].value by {
            if i < k {
                assert(r.values[i] == t.values[i]);
            }
        }
        r
    }
}

/// The first `n` sections are read back.
proof fn lemma_read_sections(sections: Seq<section::RawSectionView>, n: nat) -> (all: Seq<
    section::RawSectionView,
>)
    requires
        n <= sections.len(),
        are_distinct(sections),
        forall|i: int| 0 <= i < sections.len() ==> is_writable(#[trigger] sections[i]),
    ensures
        section::sections_of(lines_in(sections, n)) == Ok::<
            Seq<section::RawSectionView>,
            error::ErrorView,
        >(all),
        all.len() == n,
        forall|i: int| 0 <= i < n ==> restates(#[trigger] all[i], sections[i]),
    decreases n,
{
    if n == 0 {
        Seq::empty()
    } else {
        let k = (n - 1) as nat;
        let before = lemma_read_sections(sections, k);
        let lines = lines_in(sections, k);
        let s = sections[k as int];
        let gap: Seq<text::Text> = if n == 1 {
            Seq::empty()
        } else {
            seq![Seq::empty()]
        };
        let start = lines + gap;
        if n == 1 {
            assert(start =~= lines);
        } else {
            assert(start.drop_last() =~= lines);
            assert(start.last() =~= Seq::<char>::empty());
            lemma_empty_line(before, start.len() as usize);
        }
        assert(!section::section_named(before, s.name)) by {
            if section::section_named(before, s.name) {
                let i = choose|i: int|
                    0 <= i < before.len() && text::same_fold((#[trigger] before[i]).name, s.name);
                assert(restates(before[i], sections[i]));
                assert(!text::same_fold(sections[i].name, sections[k as int].name));
            }
        }
        assert(is_writable(s));
        let count = entries_in(s).len();
        let t = lemma_read_entries(start, before, s, count);
        assert(section_lines(s).take((count + 1) as int) =~= section_lines(s));
        assert(restates(t, s));
        let all = before.push(t);
        assert forall|i: int| 0 <= i < n implies restates(#[trigger] all[i], sections[i]) by {
            if i < k {
                assert(all[i] == before[i]);
            }
        }
        all
    }
}

// ---------------------------------------------------------------------------
// Settings by their canonical names

/// The options of settings, one for each.
pub(crate) proof fn lemma_settings_from(
    scope: option::Scope,
    values: Seq<section::RawValueView>,
    i: int,
    list: Seq<option::Setting>,
)
    requires
        0 <= i <= values.len(),
        list.len() == i,
        option::settings_from(scope, values, i, list) is Ok,
    ensures
        ({
            let all = option::settings_from(scope, values, i, list)->Ok_0;
            &&& all.len() == values.len()
            &&& forall|j: int| 0 <= j < i ==> all[j] == list[j]
            &&& forall|j: int|
                i <= j < values.len() ==> option::named(
                    scope,
                    text::lower((#[trigger] values[j]).key),
                ) == Some(all[j])
        }),
    decreases values.len() - i,
{
    if i < values.len() {
        let s = option::named(scope, text::lower(values[i].key))->0;
        lemma_settings_from(scope, values, i + 1, list.push(s));
        let all = option::settings_from(scope, values, i, list)->Ok_0;
        assert(all == option::settings_from(scope, values, i + 1, list.push(s))->Ok_0);
        assert forall|j: int| 0 <= j < i implies all[j] == list[j] by {
            assert(list.push(s)[j] == list[j]);
        }
        assert(all[i] == list.push(s)[i]);
    }
}

/// The fields of settings, one for each.
proof fn lemma_no_fault(
    s: section::RawSectionView,
    fields: Seq<schema::SectionFieldView>,
    i: int,
    j: int,
)
    requires
        0 <= i <= j < s.values.len(),
        schema::first_fault(s, fields, i) is None,
    ensures
        schema::field_fault(s, fields, j) is None,
        schema::field_index(fields, text::lower(s.values[j].key)) is Some,
    decreases j - i,
{
    if i < j {
        lemma_no_fault(s, fields, i + 1, j);
    }
}

/// What is written for a section: its values in order, each by a key.
pub(crate) proof fn lemma_entries(s: section::RawSectionView)
    requires
        canonical::section_text(s) is Ok,
    ensures
        entries_in(s).len() == s.values.len(),
        forall|i: int|
            0 <= i < s.values.len() ==> is_key((#[trigger] entries_in(s)[i]).key)
                && entries_in(s)[i].value == s.values[i].value,
{
    let kind = canonical::kind_of(s)->0;
    let entries = entries_in(s);
    let fields = softkey::profile_fields();
    if kind == "general"@ {
        lemma_option_entries(option::Scope::General, s);
    } else if kind == "device"@ {
        lemma_option_entries(option::Scope::Device, s);
    } else if kind == "line"@ {
        lemma_option_entries(option::Scope::Line, s);
    } else {
        assert(entries == canonical::field_entries(s));
        assert forall|i: int| 0 <= i < s.values.len() implies is_key((#[trigger] entries[i]).key)
            && entries[i].value == s.values[i].value by {
            lemma_no_fault(s, fields, 0, i);
            lemma_profile_key(text::lower(s.values[i].key));
        }
    }
}

/// What is written for a section of options.
proof fn lemma_option_entries(scope: option::Scope, s: section::RawSectionView)
    requires
        canonical::scope_entries(scope, s) is Ok,
    ensures
        ({
            let entries = canonical::scope_entries(scope, s)->Ok_0;
            &&& entries.len() == s.values.len()
            &&& forall|i: int|
                0 <= i < s.values.len() ==> is_key((#[trigger] entries[i]).key) && entries[i].value
                    == s.values[i].value
        }),
{
    let entries = canonical::scope_entries(scope, s)->Ok_0;
    lemma_settings_from(scope, s.values, 0, Seq::empty());
    let o = option::decoded(scope, s)->Ok_0;
    assert forall|i: int| 0 <= i < s.values.len() implies is_key((#[trigger] entries[i]).key)
        && entries[i].value == s.values[i].value by {
        lemma_option_key(o.settings[i]);
    }
}

/// Hiding quotes adds backslashes alone.
proof fn lemma_escaped_holds(v: text::Text, c: char)
    requires
        !v.contains(c),
        c != '\\',
    ensures
        !canonical::escaped(v).contains(c),
        !canonical::quotes_escaped(v).contains(c),
    decreases v.len(),
{
    if v.len() > 0 {
        let head = v.drop_last();
        let e = canonical::escaped(v);
        let q = canonical::quotes_escaped(v);
        if head.contains(c) {
            let i = choose|i: int| 0 <= i < head.len() && head[i] == c;
            assert(v[i] == c);
        }
        assert(v.contains(v.last())) by {
            assert(v[v.len() - 1] == v.last());
        }
        lemma_escaped_holds(head, c);
        let f = canonical::escaped(head);
        if e.contains(c) {
            let i = choose|i: int| 0 <= i < e.len() && e[i] == c;
            if i < f.len() {
                assert(f[i] == c);
            }
        }
        let g = canonical::quotes_escaped(head);
        if q.contains(c) {
            let i = choose|i: int| 0 <= i < q.len() && q[i] == c;
            if i < g.len() {
                assert(g[i] == c);
            }
        }
    }
}

/// The line of a setting stands by itself.
proof fn lemma_entry_is_line(e: canonical::CanonicalEntryView)
    requires
        is_key(e.key),
        !e.value.contains('\n'),
    ensures
        is_line(entry_line(e)),
{
    reveal_strlit(" = ");
    reveal_strlit("\"");
    lemma_key(e.key, '\n');
    lemma_escaped_holds(e.value, '\n');
    lemma_written_ends(e.value);
    let w = canonical::written(e.value);
    let plain = canonical::quotes_escaped(e.value);
    let escaped = canonical::escaped(e.value);
    let line = entry_line(e);
    assert(!w.contains('\n')) by {
        if w.contains('\n') {
            let i = choose|i: int| 0 <= i < w.len() && w[i] == '\n';
            if canonical::is_ambiguous(e.value) {
                assert(0 < i < w.len() - 1);
                if w == "\""@ + plain + "\""@ {
                    assert(plain[i - 1] == '\n');
                } else {
                    assert(escaped[i - 1] == '\n');
                }
            }
        }
    }
    if line.contains('\n') {
        let i = choose|i: int| 0 <= i < line.len() && line[i] == '\n';
        if i < e.key.len() {
            assert(e.key[i] == '\n');
        } else if i >= e.key.len() + 3 {
            assert(w[i - e.key.len() - 3] == '\n');
        }
    }
    assert(text::is_space('\r'));
    if w.len() > 0 {
        assert(line.last() == w.last());
    } else {
        assert(line.last() == ' ');
    }
}

/// The line of a header stands by itself.
proof fn lemma_header_is_line(name: text::Text)
    requires
        is_section_name(name),
    ensures
        is_line(header_line(name)),
{
    reveal_strlit("[");
    reveal_strlit("]");
    let line = header_line(name);
    if line.contains('\n') {
        let i = choose|i: int| 0 <= i < line.len() && line[i] == '\n';
        assert(0 < i < line.len() - 1);
        assert(name[i - 1] == '\n');
    }
}

/// The lines of sections stand by themselves.
proof fn lemma_are_lines(sections: Seq<section::RawSectionView>, n: nat)
    requires
        n <= sections.len(),
        forall|i: int| 0 <= i < sections.len() ==> is_writable(#[trigger] sections[i]),
    ensures
        forall|i: int|
            0 <= i < lines_in(sections, n).len() ==> is_line(#[trigger] lines_in(sections, n)[i]),
    decreases n,
{
    if n > 0 {
        let k = (n - 1) as nat;
        lemma_are_lines(sections, k);
        let before = lines_in(sections, k);
        let s = sections[k as int];
        assert(is_writable(s));
        let gap: Seq<text::Text> = if n == 1 {
            Seq::empty()
        } else {
            seq![Seq::empty()]
        };
        let own = section_lines(s);
        let all = lines_in(sections, n);
        assert(all == before + gap + own);
        assert forall|i: int| 0 <= i < all.len() implies is_line(#[trigger] all[i]) by {
            if i < before.len() {
                assert(all[i] == before[i]);
            } else if i < before.len() + gap.len() {
                assert(all[i] =~= Seq::<char>::empty());
            } else {
                let j = i - before.len() - gap.len();
                assert(all[i] == own[j]);
                if j == 0 {
                    lemma_header_is_line(s.name);
                } else {
                    assert(own[j] == entry_line(entries_in(s)[j - 1]));
                    lemma_entry_is_line(entries_in(s)[j - 1]);
                }
            }
        }
    }
}

/// The sections of a text, templates resolved.
pub open spec fn sections_in(input: text::Text) -> Seq<section::RawSectionView> {
    inheritance::all_resolved(section::parsed(input)->Ok_0)->Ok_0
}

/// The sections of a text that has a canonical form.
pub(crate) proof fn lemma_sections_in(input: text::Text)
    requires
        input.len() <= usize::MAX,
        section::parsed(input) is Ok,
        inheritance::all_resolved(section::parsed(input)->Ok_0) is Ok,
    ensures
        are_readable(sections_in(input)),
        sections_in(input).len() <= usize::MAX,
{
    lemma_lines(input);
    lemma_sections_readable(text::lines_of(input));
    let sections = section::parsed(input)->Ok_0;
    lemma_resolved_readable(sections, sections.len());
}

/// Canonical text holds the sections of the configuration in their order, each
/// with its settings in theirs: the same values, by canonical names.
pub proof fn law_canonical_text_holds_the_sections(input: text::Text, w: rules::LayerRulesView)
    requires
        input.len() <= usize::MAX,
        canonical::canonical_text(input, w) is Ok,
    ensures
        ({
            let read = section::parsed(canonical::canonical_text(input, w)->Ok_0);
            let meant = canonical::sorted(sections_in(input));
            &&& read is Ok
            &&& read->Ok_0.len() == meant.len() <= usize::MAX
            &&& forall|i: int| 0 <= i < meant.len() ==> restates(#[trigger] read->Ok_0[i], meant[i])
        }),
{
    let sections = sections_in(input);
    lemma_sections_in(input);
    lemma_sorted(sections);
    let meant = canonical::sorted(sections);
    assert(lines_in(meant, 0) =~= Seq::empty());
    lemma_text_lines(meant, 0, Seq::empty());
    assert forall|i: int| 0 <= i < meant.len() implies is_writable(#[trigger] meant[i]) by {
        let s = meant[i];
        assert(canonical::section_text(s) is Ok);
        lemma_entries(s);
        assert(sections.contains(s));
        let k = choose|k: int| 0 <= k < sections.len() && sections[k] == s;
        assert forall|j: int| 0 <= j < entries_in(s).len() implies is_key(
            (#[trigger] entries_in(s)[j]).key,
        ) && reads_back(entries_in(s)[j].value) && !entries_in(s)[j].value.contains('\n') by {
            law_values_are_read_back(entries_in(s)[j].value);
            assert(sections[k].values[j] == s.values[j]);
            assert(!s.values[j].value.contains('\n'));
        }
    }
    lemma_are_lines(meant, meant.len());
    let lines = lines_in(meant, meant.len());
    lemma_lines_back(lines);
    let read = lemma_read_sections(meant, meant.len());
}

// ---------------------------------------------------------------------------
// Sections that restate others

/// Lower case has no other lower case.
pub(crate) proof fn lemma_lower(s: text::Text)
    ensures
        text::lower(text::lower(s)) == text::lower(s),
{
    assert(text::lower(text::lower(s)) =~= text::lower(s));
}

/// A key is in lower case.
pub(crate) proof fn lemma_key_lower(key: text::Text)
    requires
        is_key(key),
    ensures
        text::lower(key) == key,
{
    assert forall|i: int| 0 <= i < key.len() implies text::lower_char(#[trigger] key[i])
        == key[i] by {
        assert(text::is_lower(key[i]) || text::is_digit(key[i]) || key[i] == '_');
    }
    assert(text::lower(key) =~= key);
}

/// The options of a section are those of one that it restates.
pub(crate) proof fn lemma_same_options(
    scope: option::Scope,
    t: section::RawSectionView,
    s: section::RawSectionView,
)
    requires
        canonical::scope_entries(scope, s) is Ok,
        t.values.len() == s.values.len(),
        forall|i: int|
            0 <= i < t.values.len() ==> (#[trigger] t.values[i]).key == canonical::scope_entries(
                scope,
                s,
            )->Ok_0[i].key && t.values[i].value == s.values[i].value,
    ensures
        option::decoded(scope, t) is Ok,
        option::decoded(scope, t)->Ok_0.settings == option::decoded(scope, s)->Ok_0.settings,
        canonical::scope_entries(scope, t) == canonical::scope_entries(scope, s),
{
    lemma_settings_from(scope, s.values, 0, Seq::empty());
    let all = option::decoded(scope, s)->Ok_0.settings;
    assert forall|i: int| 0 <= i < t.values.len() implies option::named(
        scope,
        text::lower((#[trigger] t.values[i]).key),
    ) == Some(all[i]) by {
        let name = text::lower(s.values[i].key);
        assert(option::named(scope, name) == Some(all[i]));
        spelling::law_canonical_names_stand_for_their_options(scope, name);
        lemma_option_key(all[i]);
        assert(canonical::scope_entries(scope, s)->Ok_0[i].key == option::canonical_name(all[i]));
        lemma_key_lower(t.values[i].key);
    }
    assert(all.take(0) =~= Seq::empty());
    lemma_settings_are(scope, t.values, 0, all);
    assert(canonical::option_entries(option::decoded(scope, t)->Ok_0) =~= canonical::option_entries(
        option::decoded(scope, s)->Ok_0,
    ));
}

/// Settings whose names stand for a list of options have those options.
pub(crate) proof fn lemma_settings_are(
    scope: option::Scope,
    values: Seq<section::RawValueView>,
    i: int,
    all: Seq<option::Setting>,
)
    requires
        0 <= i <= values.len(),
        all.len() == values.len(),
        forall|j: int|
            0 <= j < values.len() ==> option::named(scope, text::lower((#[trigger] values[j]).key))
                == Some(all[j]),
    ensures
        option::settings_from(scope, values, i, all.take(i)) == Ok::<
            Seq<option::Setting>,
            error::ErrorView,
        >(all),
    decreases values.len() - i,
{
    if i < values.len() {
        assert(option::named(scope, text::lower(values[i].key)) == Some(all[i]));
        assert(all.take(i).push(all[i]) =~= all.take(i + 1));
        lemma_settings_are(scope, values, i + 1, all);
    } else {
        assert(all.take(i) =~= all);
    }
}

/// A key that is the same up to case finds the same setting.
pub(crate) proof fn lemma_last_entry(
    a: Seq<section::RawValueView>,
    b: Seq<section::RawValueView>,
    key: text::Text,
)
    requires
        a.len() == b.len(),
        forall|i: int|
            0 <= i < a.len() ==> text::same_fold((#[trigger] a[i]).key, key) == text::same_fold(
                b[i].key,
                key,
            ) && a[i].value == b[i].value,
    ensures
        match (section::last_entry(a, key), section::last_entry(b, key)) {
            (Some(x), Some(y)) => x.value == y.value,
            (None, None) => true,
            _ => false,
        },
    decreases a.len(),
{
    if a.len() > 0 {
        let n = a.len() - 1;
        assert(a.last() == a[n] && b.last() == b[n]);
        assert(text::same_fold(a[n].key, key) == text::same_fold(b[n].key, key));
        let x = a.drop_last();
        let y = b.drop_last();
        assert forall|i: int| 0 <= i < x.len() implies text::same_fold((#[trigger] x[i]).key, key)
            == text::same_fold(y[i].key, key) && x[i].value == y[i].value by {
            assert(x[i] == a[i] && y[i] == b[i]);
        }
        lemma_last_entry(x, y, key);
    }
}

/// The scope that a kind of section has.
pub open spec fn scope_of(kind: text::Text) -> Option<option::Scope> {
    if kind == "general"@ {
        Some(option::Scope::General)
    } else if kind == "device"@ {
        Some(option::Scope::Device)
    } else if kind == "line"@ {
        Some(option::Scope::Line)
    } else {
        None
    }
}

/// A section that restates another is of its kind.
pub(crate) proof fn lemma_same_kind(t: section::RawSectionView, s: section::RawSectionView)
    requires
        canonical::section_text(s) is Ok,
        restates(t, s),
    ensures
        canonical::kind_of(t) == canonical::kind_of(s),
        section::value_of(t, "type"@) is Some == section::value_of(s, "type"@) is Some
            || assembly::is_general(s),
        !assembly::is_general(s) ==> section::value_of(t, "type"@) == section::value_of(
            s,
            "type"@,
        ),
{
    reveal_strlit("type");
    let kind = canonical::kind_of(s)->0;
    let entries = entries_in(s);
    lemma_entries(s);
    let word = "type"@;
    assert(is_key(word));
    lemma_key_lower(word);
    if !assembly::is_general(s) {
        assert forall|i: int| 0 <= i < t.values.len() implies text::same_fold(
            (#[trigger] t.values[i]).key,
            word,
        ) == text::same_fold(s.values[i].key, word) && t.values[i].value == s.values[i].value by {
            let key = t.values[i].key;
            assert(key == entries[i].key);
            lemma_key_lower(key);
            let name = text::lower(s.values[i].key);
            match scope_of(kind) {
                Some(scope) => {
                    lemma_settings_from(scope, s.values, 0, Seq::empty());
                    let x = option::decoded(scope, s)->Ok_0.settings[i];
                    assert(option::named(scope, name) == Some(x));
                    spelling::law_canonical_names_stand_for_their_options(scope, name);
                    assert(key == option::canonical_name(x));
                    lemma_type_name(scope, name);
                    lemma_type_name(scope, key);
                },
                None => {
                    lemma_lower(s.values[i].key);
                },
            }
        }
        lemma_last_entry(t.values, s.values, word);
    }
}

/// The type of a section has one spelling, and no other option has it.
proof fn lemma_type_name(scope: option::Scope, name: text::Text)
    ensures
        option::named(scope, name) == Some(option::Setting::Type) ==> name == "type"@,
        name == "type"@ ==> option::named(scope, name) == if scope == option::Scope::General {
            None
        } else {
            Some(option::Setting::Type)
        },
        option::canonical_name(option::Setting::Type) == "type"@,
{
    spelling::lemma_general_has_no_type();
}

/// What is written for a section that restates another is what is written for
/// that one, and stands there already.
pub(crate) proof fn lemma_same_entries(t: section::RawSectionView, s: section::RawSectionView)
    requires
        canonical::section_text(s) is Ok,
        restates(t, s),
    ensures
        canonical::kind_of(t) == canonical::kind_of(s),
        canonical::entries_of(t, canonical::kind_of(t)->0) == canonical::entries_of(
            s,
            canonical::kind_of(s)->0,
        ),
        canonical::section_text(t) == canonical::section_text(s),
        forall|i: int| 0 <= i < t.values.len() ==> (#[trigger] t.values[i]).key == entries_in(t)[i].key,
{
    lemma_same_kind(t, s);
    lemma_entries(s);
    let kind = canonical::kind_of(s)->0;
    match scope_of(kind) {
        Some(scope) => {
            lemma_same_options(scope, t, s);
        },
        None => {
            let fields = softkey::profile_fields();
            assert forall|i: int| 0 <= i < t.values.len() implies text::lower(
                (#[trigger] t.values[i]).key,
            ) == text::lower(s.values[i].key) by {
                lemma_lower(s.values[i].key);
            }
            lemma_same_fields(t, s, fields, 0);
            assert(canonical::field_entries(t) =~= canonical::field_entries(s));
        },
    }
}

/// Settings of the same fields have the same faults.
pub(crate) proof fn lemma_same_fields(
    t: section::RawSectionView,
    s: section::RawSectionView,
    fields: Seq<schema::SectionFieldView>,
    i: int,
)
    requires
        0 <= i <= s.values.len(),
        t.values.len() == s.values.len(),
        forall|j: int|
            0 <= j < t.values.len() ==> text::lower((#[trigger] t.values[j]).key) == text::lower(
                s.values[j].key,
            ),
        schema::first_fault(s, fields, i) is None,
    ensures
        schema::first_fault(t, fields, i) is None,
    decreases s.values.len() - i,
{
    if i < s.values.len() {
        lemma_same_fields(t, s, fields, i + 1);
        let key = text::lower(s.values[i].key);
        assert(text::lower(t.values[i].key) == key);
        if schema::used_from(t.values, i + 1, key) {
            let j = choose|j: int|
                i + 1 <= j < t.values.len() && text::same_fold((#[trigger] t.values[j]).key, key);
            assert(text::same_fold(s.values[j].key, key));
            assert(schema::used_from(s.values, i + 1, key));
        }
    }
}

/// Sections that restate others are written as those are.
pub(crate) proof fn lemma_same_text(
    read: Seq<section::RawSectionView>,
    meant: Seq<section::RawSectionView>,
    i: int,
    out: text::Text,
)
    requires
        0 <= i <= meant.len(),
        read.len() == meant.len(),
        forall|j: int| 0 <= j < meant.len() ==> restates(#[trigger] read[j], meant[j]),
        forall|j: int|
            0 <= j < meant.len() ==> canonical::section_text(#[trigger] meant[j]) is Ok,
    ensures
        canonical::text_from(read, i, out) == canonical::text_from(meant, i, out),
    decreases meant.len() - i,
{
    if i < meant.len() {
        assert(restates(read[i], meant[i]));
        assert(canonical::section_text(meant[i]) is Ok);
        lemma_same_entries(read[i], meant[i]);
        let t = canonical::section_text(meant[i])->Ok_0;
        let next = if i == 0 {
            out + t
        } else {
            out + "\n"@ + t
        };
        lemma_same_text(read, meant, i + 1, next);
    }
}

/// Sections that restate others stand in their order.
pub(crate) proof fn lemma_same_order(
    read: Seq<section::RawSectionView>,
    meant: Seq<section::RawSectionView>,
)
    requires
        read.len() == meant.len(),
        are_ordered(meant),
        forall|j: int| 0 <= j < meant.len() ==> restates(#[trigger] read[j], meant[j]),
        forall|j: int|
            0 <= j < meant.len() ==> canonical::section_text(#[trigger] meant[j]) is Ok,
    ensures
        canonical::sorted(read) == read,
{
    assert forall|i: int, j: int| 0 <= i < j < read.len() implies !canonical::precedes(
        #[trigger] read[j],
        #[trigger] read[i],
    ) by {
        assert(restates(read[i], meant[i]) && restates(read[j], meant[j]));
        assert(canonical::section_text(meant[i]) is Ok && canonical::section_text(meant[j]) is Ok);
        lemma_same_kind(read[i], meant[i]);
        lemma_same_kind(read[j], meant[j]);
        assert(!canonical::precedes(meant[j], meant[i]));
    }
    lemma_ordered_are_sorted(read);
}

/// Sections whose settings go by their canonical names have no fault.
pub(crate) proof fn lemma_no_spelling_fault(sections: Seq<section::RawSectionView>, i: int)
    requires
        0 <= i <= sections.len(),
        forall|j: int|
            0 <= j < sections.len() ==> canonical::section_text(#[trigger] sections[j]) is Ok,
        forall|j: int, k: int|
            0 <= j < sections.len() && 0 <= k < sections[j].values.len() ==> (
            #[trigger] sections[j].values[k]).key == entries_in(sections[j])[k].key,
    ensures
        canonical::canonical_fault(sections, i) is None,
    decreases sections.len() - i,
{
    if i < sections.len() {
        let s = sections[i];
        assert(canonical::section_text(s) is Ok);
        lemma_spelled(s, entries_in(s), 0);
        lemma_no_spelling_fault(sections, i + 1);
    }
}

/// Settings that go by their canonical names have no fault.
proof fn lemma_spelled(
    s: section::RawSectionView,
    entries: Seq<canonical::CanonicalEntryView>,
    i: int,
)
    requires
        0 <= i <= s.values.len(),
        forall|k: int| 0 <= k < s.values.len() ==> (#[trigger] s.values[k]).key == entries[k].key,
    ensures
        canonical::spelling_fault(s, entries, i) is None,
    decreases s.values.len() - i,
{
    if i < s.values.len() {
        lemma_spelled(s, entries, i + 1);
    }
}

} // verus!
