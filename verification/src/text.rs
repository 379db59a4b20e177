//! Text as a sequence of characters: trimming, splitting, case folding.
//!
//! Every function takes text by reference and returns new text. The spec
//! functions of this module say what the result is as a sequence of
//! characters.

use vstd::prelude::*;
use vstd::utf8::*;

verus! {

/// The characters of a text.
pub type Text = Seq<char>;

/// `String::push` appends one character.
pub assume_specification[ String::push ](s: &mut String, c: char)
    ensures
        final(s)@ == old(s)@.push(c),
;

/// The text that the standard library's `Debug` formatting gives for a string:
/// quoted, with special characters escaped.
pub uninterp spec fn quoted(s: Seq<char>) -> Seq<char>;

/// Calls `format!` with `{:?}` on a string. The result depends on the string
/// alone; which escapes it holds is left unsaid.
#[verifier::external_body]
pub(crate) fn quote(s: &str) -> (r: String)
    ensures
        r@ == quoted(s@),
{
    format!("{s:?}")
}

/// The text that `str::to_lowercase` gives: every character in its lower case,
/// as Unicode defines it.
pub uninterp spec fn lowercase(s: Seq<char>) -> Seq<char>;

/// Calls `str::to_lowercase`. The result depends on the string alone; the
/// Unicode case mapping itself is left unsaid.
#[verifier::external_body]
pub(crate) fn to_lowercase(s: &str) -> (r: String)
    ensures
        r@ == lowercase(s@),
{
    s.to_lowercase()
}

// ---------------------------------------------------------------------------
// Characters

/// A character with the Unicode property `White_Space`.
pub open spec fn is_space(c: char) -> bool {
    let n = c as u32;
    ||| 0x9 <= n <= 0xd
    ||| n == 0x20
    ||| n == 0x85
    ||| n == 0xa0
    ||| n == 0x1680
    ||| 0x2000 <= n <= 0x200a
    ||| n == 0x2028
    ||| n == 0x2029
    ||| n == 0x202f
    ||| n == 0x205f
    ||| n == 0x3000
}

/// Whether a character has the Unicode property `White_Space`.
pub fn space(c: char) -> (r: bool)
    ensures
        r == is_space(c),
{
    let n: u32 = c as u32;
    (0x9 <= n && n <= 0xd) || n == 0x20 || n == 0x85 || n == 0xa0 || n == 0x1680 || (0x2000 <= n
        && n <= 0x200a) || n == 0x2028 || n == 0x2029 || n == 0x202f || n == 0x205f || n == 0x3000
}

/// A character of the Unicode general category `Cc`.
pub open spec fn is_control(c: char) -> bool {
    (c as u32) < 0x20 || 0x7f <= (c as u32) < 0xa0
}

/// Whether a character is a control character.
pub fn control(c: char) -> (r: bool)
    ensures
        r == is_control(c),
{
    let n: u32 = c as u32;
    n < 0x20 || (0x7f <= n && n < 0xa0)
}

pub open spec fn is_digit(c: char) -> bool {
    '0' <= c <= '9'
}

/// Whether a character is an ASCII decimal digit.
pub fn digit(c: char) -> (r: bool)
    ensures
        r == is_digit(c),
{
    '0' <= c && c <= '9'
}

pub open spec fn is_upper(c: char) -> bool {
    'A' <= c <= 'Z'
}

pub open spec fn is_lower(c: char) -> bool {
    'a' <= c <= 'z'
}

/// An ASCII letter or digit.
pub open spec fn is_alnum(c: char) -> bool {
    is_digit(c) || is_upper(c) || is_lower(c)
}

/// Whether a character is an ASCII letter or digit.
pub fn alnum(c: char) -> (r: bool)
    ensures
        r == is_alnum(c),
{
    digit(c) || ('A' <= c && c <= 'Z') || ('a' <= c && c <= 'z')
}

/// The ASCII lower-case form of a character.
pub open spec fn lower_char(c: char) -> char {
    if is_upper(c) {
        ((c as u32) + 32) as char
    } else {
        c
    }
}

/// The ASCII upper-case form of a character.
pub open spec fn upper_char(c: char) -> char {
    if is_lower(c) {
        ((c as u32) - 32) as char
    } else {
        c
    }
}

/// The ASCII lower-case form of a character.
pub fn to_lower(c: char) -> (r: char)
    ensures
        r == lower_char(c),
{
    if 'A' <= c && c <= 'Z' {
        ((c as u8) + 32) as char
    } else {
        c
    }
}

/// The ASCII upper-case form of a character.
pub fn to_upper(c: char) -> (r: char)
    ensures
        r == upper_char(c),
{
    if 'a' <= c && c <= 'z' {
        ((c as u8) - 32) as char
    } else {
        c
    }
}

// ---------------------------------------------------------------------------
// Conversion and comparison

/// The characters of a string.
pub fn to_chars(s: &str) -> (v: Vec<char>)
    ensures
        v@ == s@,
{
    let mut v: Vec<char> = Vec::new();
    for c in it: s.chars()
        invariant
            it.seq() == s@,
            v@ == s@.take(it.index() as int),
    {
        proof {
            assert(s@.take(it.index() as int).push(c) =~= s@.take(it.index() + 1));
        }
        v.push(c);
    }
    assert(s@.take(s@.len() as int) =~= s@);
    v
}

/// The string made of the characters `from..to` of `v`.
pub fn from_chars(v: &Vec<char>, from: usize, to: usize) -> (s: String)
    requires
        from <= to <= v@.len(),
    ensures
        s@ == v@.subrange(from as int, to as int),
{
    let mut s = String::new();
    let mut i: usize = from;
    while i < to
        invariant
            from <= i <= to <= v@.len(),
            s@ == v@.subrange(from as int, i as int),
        decreases to - i,
    {
        s.push(v[i]);
        i += 1;
        assert(s@ =~= v@.subrange(from as int, i as int));
    }
    s
}

/// A string with the same characters.
pub fn copy(s: &str) -> (r: String)
    ensures
        r@ == s@,
{
    s.to_owned()
}

/// An optional string with the same characters.
pub fn copy_option(s: &Option<String>) -> (r: Option<String>)
    ensures
        r.deep_view() == s.deep_view(),
{
    match s {
        Some(t) => Some(copy(t.as_str())),
        None => None,
    }
}

/// A list of strings with the same characters.
pub fn copy_list(list: &Vec<String>) -> (r: Vec<String>)
    ensures
        r.deep_view() == list.deep_view(),
{
    let mut r: Vec<String> = Vec::new();
    let mut i: usize = 0;
    while i < list.len()
        invariant
            i <= list@.len(),
            r.deep_view() == list.deep_view().take(i as int),
        decreases list.len() - i,
    {
        let ghost before = r.deep_view();
        let x = copy(list[i].as_str());
        r.push(x);
        i += 1;
        assert(r.deep_view() =~= before.push(x@));
        assert(r.deep_view() =~= list.deep_view().take(i as int));
    }
    assert(list.deep_view().take(i as int) =~= list.deep_view());
    r
}

/// A list with the same elements.
pub fn copy_all<T: Copy>(list: &Vec<T>) -> (r: Vec<T>)
    ensures
        r@ == list@,
{
    let mut r: Vec<T> = Vec::new();
    let mut i: usize = 0;
    while i < list.len()
        invariant
            i <= list@.len(),
            r@ == list@.take(i as int),
        decreases list.len() - i,
    {
        r.push(list[i]);
        i += 1;
        assert(r@ =~= list@.take(i as int));
    }
    assert(list@.take(i as int) =~= list@);
    r
}

/// Whether two strings hold the same characters.
pub fn same(a: &str, b: &str) -> (r: bool)
    ensures
        r == (a@ == b@),
{
    let x = to_chars(a);
    let y = to_chars(b);
    if x.len() != y.len() {
        return false;
    }
    let mut i: usize = 0;
    while i < x.len()
        invariant
            x@ == a@,
            y@ == b@,
            x.len() == y.len(),
            i <= x.len(),
            forall|j: int| 0 <= j < i ==> a@[j] == b@[j],
        decreases x.len() - i,
    {
        if x[i] != y[i] {
            return false;
        }
        i += 1;
    }
    assert(a@ =~= b@);
    true
}

/// The length of a text in UTF-8 bytes.
pub open spec fn byte_len(s: Text) -> usize {
    encode_utf8(s).len() as usize
}

// ---------------------------------------------------------------------------
// Case

pub open spec fn lower(s: Text) -> Text {
    Seq::new(s.len(), |i: int| lower_char(s[i]))
}

pub open spec fn upper(s: Text) -> Text {
    Seq::new(s.len(), |i: int| upper_char(s[i]))
}

/// The text with its ASCII letters in lower case.
pub fn to_ascii_lowercase(s: &str) -> (r: String)
    ensures
        r@ == lower(s@),
{
    let v = to_chars(s);
    let mut r = String::new();
    let mut i: usize = 0;
    while i < v.len()
        invariant
            v@ == s@,
            i <= v.len(),
            r@ == lower(s@).take(i as int),
        decreases v.len() - i,
    {
        r.push(to_lower(v[i]));
        i += 1;
        assert(r@ =~= lower(s@).take(i as int));
    }
    assert(lower(s@).take(i as int) =~= lower(s@));
    r
}

/// The text with its ASCII letters in upper case.
pub fn to_ascii_uppercase(s: &str) -> (r: String)
    ensures
        r@ == upper(s@),
{
    let v = to_chars(s);
    let mut r = String::new();
    let mut i: usize = 0;
    while i < v.len()
        invariant
            v@ == s@,
            i <= v.len(),
            r@ == upper(s@).take(i as int),
        decreases v.len() - i,
    {
        r.push(to_upper(v[i]));
        i += 1;
        assert(r@ =~= upper(s@).take(i as int));
    }
    assert(upper(s@).take(i as int) =~= upper(s@));
    r
}

/// Equality up to the case of ASCII letters.
pub open spec fn same_fold(a: Text, b: Text) -> bool {
    lower(a) == lower(b)
}

/// Whether two texts are equal up to the case of ASCII letters.
pub fn eq_ignore_ascii_case(a: &str, b: &str) -> (r: bool)
    ensures
        r == same_fold(a@, b@),
{
    let x = to_ascii_lowercase(a);
    let y = to_ascii_lowercase(b);
    same(x.as_str(), y.as_str())
}

/// A name reduced to its ASCII letters and digits, in lower case.
pub open spec fn name_of(s: Text) -> Text
    decreases s.len(),
{
    if s.len() == 0 {
        Seq::empty()
    } else {
        let head = name_of(s.drop_last());
        if is_alnum(s.last()) {
            head.push(lower_char(s.last()))
        } else {
            head
        }
    }
}

/// Reduces a name to its ASCII letters and digits, in lower case.
pub fn normalize_name(raw: &str) -> (r: String)
    ensures
        r@ == name_of(raw@),
{
    let v = to_chars(raw);
    let mut r = String::new();
    let mut i: usize = 0;
    while i < v.len()
        invariant
            v@ == raw@,
            i <= v.len(),
            r@ == name_of(raw@.take(i as int)),
        decreases v.len() - i,
    {
        assert(raw@.take(i + 1).drop_last() =~= raw@.take(i as int));
        if alnum(v[i]) {
            r.push(to_lower(v[i]));
        }
        i += 1;
    }
    assert(raw@.take(i as int) =~= raw@);
    r
}

// ---------------------------------------------------------------------------
// Trimming

pub open spec fn trim_start(s: Text) -> Text
    decreases s.len(),
{
    if s.len() > 0 && is_space(s[0]) {
        trim_start(s.skip(1))
    } else {
        s
    }
}

pub open spec fn trim_end(s: Text) -> Text
    decreases s.len(),
{
    if s.len() > 0 && is_space(s.last()) {
        trim_end(s.drop_last())
    } else {
        s
    }
}

/// The text without white space at either end.
pub open spec fn trimmed(s: Text) -> Text {
    trim_end(trim_start(s))
}

/// Removes white space at both ends.
pub fn trim(s: &str) -> (r: String)
    ensures
        r@ == trimmed(s@),
{
    let v = to_chars(s);
    let mut a: usize = 0;
    assert(s@.skip(0) =~= s@);
    while a < v.len() && space(v[a])
        invariant
            v@ == s@,
            a <= v.len(),
            trim_start(s@.skip(a as int)) == trim_start(s@),
        decreases v.len() - a,
    {
        assert(s@.skip(a as int).skip(1) =~= s@.skip(a + 1));
        a += 1;
    }
    assert(trim_start(s@) == s@.skip(a as int));
    let mut b: usize = v.len();
    while a < b && space(v[b - 1])
        invariant
            v@ == s@,
            a <= b <= v.len(),
            trim_end(s@.subrange(a as int, b as int)) == trim_end(s@.skip(a as int)),
        decreases b,
    {
        assert(s@.subrange(a as int, b as int).drop_last() =~= s@.subrange(a as int, b - 1));
        b -= 1;
    }
    let r = from_chars(&v, a, b);
    r
}

// ---------------------------------------------------------------------------
// Searching

/// The index of the first `c` in `s`, or the length of `s` where there is none.
pub open spec fn position(s: Text, c: char) -> nat
    decreases s.len(),
{
    if s.len() == 0 || s[0] == c {
        0
    } else {
        1 + position(s.skip(1), c)
    }
}

/// `position` is the first index of `c`, or the length.
pub(crate) proof fn lemma_position(s: Text, c: char)
    ensures
        position(s, c) <= s.len(),
        position(s, c) < s.len() ==> s[position(s, c) as int] == c,
        forall|j: int| 0 <= j < position(s, c) ==> s[j] != c,
    decreases s.len(),
{
    if s.len() != 0 && s[0] != c {
        lemma_position(s.skip(1), c);
        assert forall|j: int| 0 <= j < position(s, c) implies s[j] != c by {
            if j > 0 {
                assert(s[j] == s.skip(1)[j - 1]);
            }
        }
    }
}

/// An index before which `c` does not occur, and at which it does or the text
/// ends, is the position of `c`.
pub(crate) proof fn lemma_position_is(s: Text, c: char, p: int)
    requires
        0 <= p <= s.len(),
        forall|j: int| 0 <= j < p ==> s[j] != c,
        p < s.len() ==> s[p] == c,
    ensures
        position(s, c) == p,
{
    lemma_position(s, c);
    let q = position(s, c) as int;
    if q < p {
        assert(s[q] != c);
    }
    if p < q {
        assert(s[p] != c);
    }
}

/// The first index of `c` in `v` from `from` on, or the length of `v`.
pub fn find_from(v: &Vec<char>, from: usize, c: char) -> (p: usize)
    requires
        from <= v@.len(),
    ensures
        from <= p <= v@.len(),
        p == from + position(v@.skip(from as int), c),
{
    let mut p: usize = from;
    while p < v.len() && v[p] != c
        invariant
            from <= p <= v@.len(),
            forall|j: int| from <= j < p ==> v@[j] != c,
        decreases v.len() - p,
    {
        p += 1;
    }
    proof {
        lemma_position_is(v@.skip(from as int), c, p - from);
    }
    p
}

/// Whether `c` occurs in the text.
pub fn contains_char(s: &str, c: char) -> (r: bool)
    ensures
        r == s@.contains(c),
{
    let v = to_chars(s);
    let p = find_from(&v, 0, c);
    proof {
        assert(s@.skip(0) =~= s@);
        lemma_position(s@, c);
    }
    p < v.len()
}

pub open spec fn starts_with(s: Text, prefix: Text) -> bool {
    s.len() >= prefix.len() && s.take(prefix.len() as int) == prefix
}

/// Whether `v` holds `part` at index `at`.
fn matches_at(v: &Vec<char>, at: usize, part: &Vec<char>) -> (r: bool)
    requires
        at <= v@.len(),
    ensures
        r == starts_with(v@.skip(at as int), part@),
{
    if v.len() - at < part.len() {
        return false;
    }
    let mut i: usize = 0;
    while i < part.len()
        invariant
            i <= part@.len(),
            at <= v.len(),
            v.len() - at >= part.len(),
            forall|j: int| 0 <= j < i ==> v@[at + j] == part@[j],
        decreases part.len() - i,
    {
        if v[at + i] != part[i] {
            assert(v@.skip(at as int).take(part@.len() as int)[i as int] != part@[i as int]);
            return false;
        }
        i += 1;
    }
    assert(v@.skip(at as int).take(part@.len() as int) =~= part@);
    true
}

/// Whether the text begins with `prefix`.
pub fn has_prefix(s: &str, prefix: &str) -> (r: bool)
    ensures
        r == starts_with(s@, prefix@),
{
    let v = to_chars(s);
    let p = to_chars(prefix);
    assert(v@.skip(0) =~= s@);
    matches_at(&v, 0, &p)
}

/// Whether `part` occurs in `s`.
pub open spec fn holds(s: Text, part: Text) -> bool {
    exists|i: int| 0 <= i <= s.len() && #[trigger] starts_with(s.skip(i), part)
}

/// Whether `part` occurs in the text.
pub fn contains(s: &str, part: &str) -> (r: bool)
    ensures
        r == holds(s@, part@),
{
    let v = to_chars(s);
    let p = to_chars(part);
    let mut i: usize = 0;
    loop
        invariant
            v@ == s@,
            p@ == part@,
            i <= v@.len(),
            forall|j: int| 0 <= j < i ==> !#[trigger] starts_with(s@.skip(j), part@),
        decreases v.len() - i,
    {
        if matches_at(&v, i, &p) {
            return true;
        }
        if i == v.len() {
            return false;
        }
        i += 1;
    }
}

// ---------------------------------------------------------------------------
// Splitting

/// The pieces of a text between the occurrences of `c`.
pub open spec fn pieces(s: Text, c: char) -> Seq<Text>
    decreases s.len(),
{
    let p = position(s, c);
    if p >= s.len() {
        seq![s]
    } else {
        seq![s.take(p as int)] + pieces(s.skip(p as int + 1), c)
    }
}

/// Splits a text at every `c`.
pub fn split(s: &str, c: char) -> (r: Vec<String>)
    ensures
        r.deep_view() == pieces(s@, c),
        r@.len() >= 1,
{
    let v = to_chars(s);
    let mut r: Vec<String> = Vec::new();
    let mut start: usize = 0;
    assert(s@.skip(0) =~= s@);
    assert(r.deep_view() + pieces(s@.skip(0), c) =~= pieces(s@, c));
    loop
        invariant
            v@ == s@,
            start <= v@.len(),
            r.deep_view() + pieces(s@.skip(start as int), c) == pieces(s@, c),
        decreases v.len() - start,
    {
        let ghost before = r.deep_view();
        let ghost rest = s@.skip(start as int);
        let p = find_from(&v, start, c);
        let piece = from_chars(&v, start, p);
        assert(piece@ =~= rest.take(p - start));
        r.push(piece);
        assert(r.deep_view() =~= before.push(piece@));
        if p == v.len() {
            assert(piece@ =~= rest);
            assert(before.push(piece@) =~= before + seq![rest]);
            return r;
        }
        assert(rest.skip(p - start + 1) =~= s@.skip(p + 1));
        assert(before.push(piece@) + pieces(s@.skip(p + 1), c) =~= before + (seq![piece@] + pieces(
            s@.skip(p + 1),
            c,
        )));
        start = p + 1;
    }
}

/// The pieces of a text between the occurrences of `c`, each trimmed.
pub open spec fn fields_of(s: Text, c: char) -> Seq<Text> {
    let p = pieces(s, c);
    Seq::new(p.len(), |i: int| trimmed(p[i]))
}

/// Splits a text at every `c` and trims each piece.
pub fn fields(s: &str, c: char) -> (r: Vec<String>)
    ensures
        r.deep_view() == fields_of(s@, c),
        r@.len() >= 1,
{
    let parts = split(s, c);
    let mut r: Vec<String> = Vec::new();
    let mut i: usize = 0;
    while i < parts.len()
        invariant
            parts.deep_view() == pieces(s@, c),
            i <= parts@.len(),
            r.deep_view() == fields_of(s@, c).take(i as int),
            r@.len() == i,
        decreases parts.len() - i,
    {
        let ghost before = r.deep_view();
        let f = trim(parts[i].as_str());
        assert(parts.deep_view()[i as int] == parts@[i as int]@);
        r.push(f);
        i += 1;
        assert(r.deep_view() =~= before.push(f@));
        assert(r.deep_view() =~= fields_of(s@, c).take(i as int));
    }
    assert(fields_of(s@, c).take(i as int) =~= fields_of(s@, c));
    r
}

/// The text before the first `c` and the text behind it.
pub open spec fn cut(s: Text, c: char) -> Option<(Text, Text)> {
    let p = position(s, c);
    if p < s.len() {
        Some((s.take(p as int), s.skip(p as int + 1)))
    } else {
        None
    }
}

/// Splits a text at the first `c`.
pub fn split_once(s: &str, c: char) -> (r: Option<(String, String)>)
    ensures
        r.deep_view() == cut(s@, c),
{
    let v = to_chars(s);
    assert(s@.skip(0) =~= s@);
    let p = find_from(&v, 0, c);
    if p < v.len() {
        let a = from_chars(&v, 0, p);
        let b = from_chars(&v, p + 1, v.len());
        assert(a@ =~= s@.take(p as int));
        assert(b@ =~= s@.skip(p + 1));
        Some((a, b))
    } else {
        None
    }
}

/// The text before the last `c` and the text behind it.
pub open spec fn cut_last(s: Text, c: char) -> Option<(Text, Text)>
    decreases s.len(),
{
    if s.len() == 0 {
        None
    } else if s.last() == c {
        Some((s.drop_last(), Seq::empty()))
    } else {
        match cut_last(s.drop_last(), c) {
            Some((a, b)) => Some((a, b.push(s.last()))),
            None => None,
        }
    }
}

/// Splits a text at the last `c`.
pub fn rsplit_once(s: &str, c: char) -> (r: Option<(String, String)>)
    ensures
        r.deep_view() == cut_last(s@, c),
{
    let v = to_chars(s);
    let mut i: usize = v.len();
    proof {
        assert(s@.take(i as int) =~= s@);
        if let Some((a, b)) = cut_last(s@, c) {
            assert(b + s@.skip(i as int) =~= b);
        }
    }
    while i > 0
        invariant
            v@ == s@,
            i <= v@.len(),
            cut_last(s@, c) == (match cut_last(s@.take(i as int), c) {
                Some((a, b)) => Some((a, b + s@.skip(i as int))),
                None => None,
            }),
        decreases i,
    {
        let ghost t = s@.take(i as int);
        if v[i - 1] == c {
            let a = from_chars(&v, 0, i - 1);
            let b = from_chars(&v, i, v.len());
            assert(t.last() == c);
            assert(a@ =~= t.drop_last());
            assert(b@ =~= Seq::empty() + s@.skip(i as int));
            return Some((a, b));
        }
        assert(t.drop_last() =~= s@.take(i - 1));
        assert forall|b: Text| b.push(t.last()) + s@.skip(i as int) == b + #[trigger] s@.skip(
            i - 1,
        ) by {
            assert(b.push(t.last()) + s@.skip(i as int) =~= b + s@.skip(i - 1));
        }
        i -= 1;
    }
    None
}

/// The pieces joined with `sep` between them.
pub open spec fn joined(parts: Seq<Text>, sep: Text) -> Text
    decreases parts.len(),
{
    if parts.len() == 0 {
        Seq::empty()
    } else if parts.len() == 1 {
        parts[0]
    } else {
        joined(parts.drop_last(), sep) + sep + parts.last()
    }
}

/// Joins the texts from index `from` on with `sep` between them.
pub fn join_from(parts: &Vec<String>, from: usize, sep: &str) -> (r: String)
    requires
        from <= parts@.len(),
    ensures
        r@ == joined(parts.deep_view().skip(from as int), sep@),
{
    let mut r = String::new();
    let mut i: usize = from;
    let ghost all = parts.deep_view();
    while i < parts.len()
        invariant
            all == parts.deep_view(),
            from <= i <= parts@.len(),
            r@ == joined(all.subrange(from as int, i as int), sep@),
        decreases parts.len() - i,
    {
        let ghost next = all.subrange(from as int, i + 1);
        assert(next.drop_last() =~= all.subrange(from as int, i as int));
        assert(next.last() == parts@[i as int]@);
        if i > from {
            r.append(sep);
        }
        r.append(parts[i].as_str());
        if i == from {
            assert(r@ =~= next[0]);
        }
        i += 1;
    }
    assert(all.subrange(from as int, i as int) =~= all.skip(from as int));
    r
}

proof fn lemma_pieces_of_sum(a: Text, b: Text, c: char)
    ensures
        pieces(a + seq![c] + b, c) == pieces(a, c) + pieces(b, c),
    decreases a.len(),
{
    let s = a + seq![c] + b;
    let p = position(a, c);
    lemma_position(a, c);
    assert forall|j: int| 0 <= j < p implies s[j] != c by {
        assert(s[j] == a[j]);
    }
    lemma_position_is(s, c, p as int);
    if p == a.len() {
        assert(s.take(p as int) =~= a);
        assert(s.skip(p as int + 1) =~= b);
    } else {
        let rest = a.skip(p as int + 1);
        lemma_pieces_of_sum(rest, b, c);
        assert(s.take(p as int) =~= a.take(p as int));
        assert(s.skip(p as int + 1) =~= rest + seq![c] + b);
        assert(seq![a.take(p as int)] + (pieces(rest, c) + pieces(b, c)) =~= (seq![
            a.take(p as int),
        ] + pieces(rest, c)) + pieces(b, c));
    }
}

/// Pieces that do not hold the separator are what splitting gives back of them
/// joined.
pub proof fn law_joined_pieces_split_back(parts: Seq<Text>, c: char)
    requires
        parts.len() > 0,
        forall|i: int| 0 <= i < parts.len() ==> !(#[trigger] parts[i]).contains(c),
    ensures
        pieces(joined(parts, seq![c]), c) == parts,
    decreases parts.len(),
{
    let last = parts.last();
    lemma_position(last, c);
    assert(!last.contains(c));
    assert(pieces(last, c) =~= seq![last]);
    if parts.len() == 1 {
        assert(parts =~= seq![last]);
    } else {
        let head = parts.drop_last();
        assert forall|i: int| 0 <= i < head.len() implies !(#[trigger] head[i]).contains(c) by {
            assert(head[i] == parts[i]);
        }
        law_joined_pieces_split_back(head, c);
        lemma_pieces_of_sum(joined(head, seq![c]), last, c);
        assert(head + seq![last] =~= parts);
    }
}

// ---------------------------------------------------------------------------
// Lines

/// A line without the carriage return that ends it.
pub open spec fn without_cr(s: Text) -> Text {
    if s.len() > 0 && s.last() == '\r' {
        s.drop_last()
    } else {
        s
    }
}

/// The lines of a text. A line ends with a line feed, before which a carriage
/// return may stand; the last line may lack its end.
pub open spec fn lines_of(s: Text) -> Seq<Text>
    decreases s.len(),
{
    let p = position(s, '\n');
    if s.len() == 0 {
        Seq::empty()
    } else if p >= s.len() {
        seq![s]
    } else {
        seq![without_cr(s.take(p as int))] + lines_of(s.skip(p as int + 1))
    }
}

/// Splits a text into its lines.
pub fn lines(s: &str) -> (r: Vec<String>)
    ensures
        r.deep_view() == lines_of(s@),
{
    let v = to_chars(s);
    let mut r: Vec<String> = Vec::new();
    let mut start: usize = 0;
    assert(s@.skip(0) =~= s@);
    assert(r.deep_view() + lines_of(s@.skip(0)) =~= lines_of(s@));
    while start < v.len()
        invariant
            v@ == s@,
            start <= v@.len(),
            r.deep_view() + lines_of(s@.skip(start as int)) == lines_of(s@),
        decreases v.len() - start,
    {
        let ghost before = r.deep_view();
        let ghost rest = s@.skip(start as int);
        let p = find_from(&v, start, '\n');
        if p == v.len() {
            let line = from_chars(&v, start, p);
            assert(line@ =~= rest);
            r.push(line);
            assert(r.deep_view() =~= before + seq![rest]);
            return r;
        }
        let end: usize = if p > start && v[p - 1] == '\r' {
            p - 1
        } else {
            p
        };
        let line = from_chars(&v, start, end);
        assert(line@ =~= without_cr(rest.take(p - start)));
        r.push(line);
        assert(r.deep_view() =~= before.push(line@));
        assert(rest.skip(p - start + 1) =~= s@.skip(p + 1));
        assert(before.push(line@) + lines_of(s@.skip(p + 1)) =~= before + (seq![line@] + lines_of(
            s@.skip(p + 1),
        )));
        start = p + 1;
    }
    assert(s@.skip(start as int) =~= Seq::empty());
    assert(r.deep_view() + lines_of(Seq::empty()) =~= r.deep_view());
    r
}

// ---------------------------------------------------------------------------
// Whole-text tests

/// Every character satisfies the test.
pub open spec fn all_alnum_or(s: Text, extra: char) -> bool {
    forall|i: int| 0 <= i < s.len() ==> is_alnum(#[trigger] s[i]) || s[i] == extra
}

/// Whether every character is an ASCII letter, an ASCII digit or `extra`.
pub fn only_alnum_or(s: &str, extra: char) -> (r: bool)
    ensures
        r == all_alnum_or(s@, extra),
{
    let v = to_chars(s);
    let mut i: usize = 0;
    while i < v.len()
        invariant
            v@ == s@,
            i <= v@.len(),
            forall|j: int| 0 <= j < i ==> is_alnum(#[trigger] s@[j]) || s@[j] == extra,
        decreases v.len() - i,
    {
        if !alnum(v[i]) && v[i] != extra {
            return false;
        }
        i += 1;
    }
    true
}

pub open spec fn any_control(s: Text) -> bool {
    exists|i: int| 0 <= i < s.len() && is_control(#[trigger] s[i])
}

/// Whether the text holds a control character.
pub fn has_control(s: &str) -> (r: bool)
    ensures
        r == any_control(s@),
{
    let v = to_chars(s);
    let mut i: usize = 0;
    while i < v.len()
        invariant
            v@ == s@,
            i <= v@.len(),
            forall|j: int| 0 <= j < i ==> !is_control(#[trigger] s@[j]),
        decreases v.len() - i,
    {
        if control(v[i]) {
            return true;
        }
        i += 1;
    }
    false
}

pub open spec fn any_space(s: Text) -> bool {
    exists|i: int| 0 <= i < s.len() && is_space(#[trigger] s[i])
}

/// Whether the text holds white space.
pub fn has_space(s: &str) -> (r: bool)
    ensures
        r == any_space(s@),
{
    let v = to_chars(s);
    let mut i: usize = 0;
    while i < v.len()
        invariant
            v@ == s@,
            i <= v@.len(),
            forall|j: int| 0 <= j < i ==> !is_space(#[trigger] s@[j]),
        decreases v.len() - i,
    {
        if space(v[i]) {
            return true;
        }
        i += 1;
    }
    false
}

pub open spec fn all_digits(s: Text) -> bool {
    forall|i: int| 0 <= i < s.len() ==> is_digit(#[trigger] s[i])
}

/// Whether every character is an ASCII decimal digit.
pub fn only_digits(s: &str) -> (r: bool)
    ensures
        r == all_digits(s@),
{
    let v = to_chars(s);
    let mut i: usize = 0;
    while i < v.len()
        invariant
            v@ == s@,
            i <= v@.len(),
            forall|j: int| 0 <= j < i ==> is_digit(#[trigger] s@[j]),
        decreases v.len() - i,
    {
        if !digit(v[i]) {
            return false;
        }
        i += 1;
    }
    true
}

/// Whether a text is one of a list of texts.
pub fn is_in(s: &str, list: &Vec<String>) -> (r: bool)
    ensures
        r == list.deep_view().contains(s@),
{
    let mut i: usize = 0;
    let ghost all = list.deep_view();
    while i < list.len()
        invariant
            all == list.deep_view(),
            i <= list@.len(),
            forall|j: int| 0 <= j < i ==> all[j] != s@,
        decreases list.len() - i,
    {
        if same(list[i].as_str(), s) {
            assert(all[i as int] == s@);
            return true;
        }
        assert(all[i as int] == list@[i as int]@);
        i += 1;
    }
    false
}

// ---------------------------------------------------------------------------
// Order

/// The order of texts by their characters, first to last.
pub open spec fn less(a: Text, b: Text) -> bool
    decreases a.len(),
{
    if b.len() == 0 {
        false
    } else if a.len() == 0 {
        true
    } else if a[0] != b[0] {
        a[0] < b[0]
    } else {
        less(a.skip(1), b.skip(1))
    }
}

/// Whether `a` comes before `b` in the order by characters.
pub fn before(a: &str, b: &str) -> (r: bool)
    ensures
        r == less(a@, b@),
{
    let x = to_chars(a);
    let y = to_chars(b);
    let mut i: usize = 0;
    assert(a@.skip(0) =~= a@);
    assert(b@.skip(0) =~= b@);
    loop
        invariant
            x@ == a@,
            y@ == b@,
            i <= x@.len(),
            i <= y@.len(),
            less(a@, b@) == less(a@.skip(i as int), b@.skip(i as int)),
        decreases x.len() - i,
    {
        if i == y.len() {
            return false;
        }
        if i == x.len() {
            return true;
        }
        if x[i] != y[i] {
            return x[i] < y[i];
        }
        assert(a@.skip(i as int).skip(1) =~= a@.skip(i + 1));
        assert(b@.skip(i as int).skip(1) =~= b@.skip(i + 1));
        i += 1;
    }
}

/// The order of texts is a strict total order.
pub proof fn law_text_order_is_total(a: Text, b: Text, c: Text)
    ensures
        !less(a, a),
        !(less(a, b) && less(b, a)),
        a == b || less(a, b) || less(b, a),
        less(a, b) && less(b, c) ==> less(a, c),
    decreases a.len() + b.len(),
{
    if a.len() > 0 {
        law_text_order_is_total(
            a.skip(1),
            if b.len() > 0 {
                b.skip(1)
            } else {
                b
            },
            if c.len() > 0 {
                c.skip(1)
            } else {
                c
            },
        );
        if b.len() > 0 && a[0] == b[0] && a.skip(1) == b.skip(1) {
            assert(a =~= seq![a[0]] + a.skip(1));
            assert(b =~= seq![b[0]] + b.skip(1));
        }
    } else if b.len() == 0 {
        assert(a =~= b);
    }
}

/// One text comes before another exactly if it is a shorter beginning of it, or
/// has the lower character where they first differ.
pub proof fn law_text_order_is_by_characters(a: Text, b: Text)
    ensures
        less(a, b) <==> exists|k: int|
            {
                &&& 0 <= k <= a.len()
                &&& k < b.len()
                &&& #[trigger] a.take(k) == b.take(k)
                &&& k == a.len() || a[k] < b[k]
            },
    decreases a.len(),
{
    if a.len() > 0 && b.len() > 0 && a[0] == b[0] {
        let x = a.skip(1);
        let y = b.skip(1);
        law_text_order_is_by_characters(x, y);
        if less(x, y) {
            let k = choose|k: int|
                {
                    &&& 0 <= k <= x.len()
                    &&& k < y.len()
                    &&& #[trigger] x.take(k) == y.take(k)
                    &&& k == x.len() || x[k] < y[k]
                };
            let m = k + 1;
            assert forall|i: int| 0 <= i < m implies #[trigger] a.take(m)[i] == b.take(m)[i] by {
                if i > 0 {
                    assert(x.take(k)[i - 1] == y.take(k)[i - 1]);
                }
            }
            assert(a.take(m) =~= b.take(m));
        }
        if exists|k: int|
            {
                &&& 0 <= k <= a.len()
                &&& k < b.len()
                &&& #[trigger] a.take(k) == b.take(k)
                &&& k == a.len() || a[k] < b[k]
            } {
            let k = choose|k: int|
                {
                    &&& 0 <= k <= a.len()
                    &&& k < b.len()
                    &&& #[trigger] a.take(k) == b.take(k)
                    &&& k == a.len() || a[k] < b[k]
                };
            assert(k > 0);
            let m = k - 1;
            assert forall|i: int| 0 <= i < m implies #[trigger] x.take(m)[i] == y.take(m)[i] by {
                assert(a.take(k)[i + 1] == b.take(k)[i + 1]);
            }
            assert(x.take(m) =~= y.take(m));
        }
    } else if less(a, b) {
        assert(a.take(0) =~= b.take(0));
    } else if exists|k: int|
        {
            &&& 0 <= k <= a.len()
            &&& k < b.len()
            &&& #[trigger] a.take(k) == b.take(k)
            &&& k == a.len() || a[k] < b[k]
        } {
        let k = choose|k: int|
            {
                &&& 0 <= k <= a.len()
                &&& k < b.len()
                &&& #[trigger] a.take(k) == b.take(k)
                &&& k == a.len() || a[k] < b[k]
            };
        if k > 0 {
            assert(a.take(k)[0] == b.take(k)[0]);
        }
    }
}

proof fn lemma_trim_start(s: Text) -> (k: int)
    ensures
        0 <= k <= s.len(),
        trim_start(s) == s.skip(k),
        forall|i: int| 0 <= i < k ==> is_space(#[trigger] s[i]),
        k < s.len() ==> !is_space(s[k]),
    decreases s.len(),
{
    if s.len() > 0 && is_space(s[0]) {
        let rest = s.skip(1);
        let j = lemma_trim_start(rest);
        assert(rest.skip(j) =~= s.skip(j + 1));
        assert forall|i: int| 0 <= i < j + 1 implies is_space(#[trigger] s[i]) by {
            if i > 0 {
                assert(rest[i - 1] == s[i]);
            }
        }
        j + 1
    } else {
        assert(s.skip(0) =~= s);
        0
    }
}

proof fn lemma_trim_end(s: Text) -> (k: int)
    ensures
        0 <= k <= s.len(),
        trim_end(s) == s.take(k),
        forall|i: int| k <= i < s.len() ==> is_space(#[trigger] s[i]),
        k > 0 ==> !is_space(s[k - 1]),
    decreases s.len(),
{
    if s.len() > 0 && is_space(s.last()) {
        let head = s.drop_last();
        let k = lemma_trim_end(head);
        assert(head.take(k) =~= s.take(k));
        assert forall|i: int| k <= i < s.len() implies is_space(#[trigger] s[i]) by {
            if i < head.len() {
                assert(head[i] == s[i]);
            }
        }
        k
    } else {
        assert(s.take(s.len() as int) =~= s);
        s.len() as int
    }
}

/// A text is trimmed exactly if it neither begins nor ends with white space.
pub(crate) proof fn lemma_untrimmed(s: Text)
    requires
        s.len() > 0,
    ensures
        trimmed(s) == s <==> !is_space(s[0]) && !is_space(s.last()),
{
    let a = lemma_trim_start(s);
    let t = s.skip(a);
    let k = lemma_trim_end(t);
    if trimmed(s) == s {
        assert(t.take(k).len() == k);
        assert(a == 0 && k == s.len());
        assert(t[k - 1] == s[k - 1]);
    }
    if !is_space(s[0]) && !is_space(s.last()) {
        assert(a == 0);
        assert(t =~= s);
        assert(t.take(s.len() as int) =~= s);
    }
}

/// Trimming takes white space from both ends and nothing else: what is left is
/// one run of the text, does not begin or end with white space, and only white
/// space stood around it.
pub proof fn law_trimming_takes_white_space_from_the_ends(s: Text)
    ensures
        exists|a: int, b: int|
            {
                &&& 0 <= a <= b <= s.len()
                &&& trimmed(s) == #[trigger] s.subrange(a, b)
                &&& forall|i: int|
                    0 <= i < s.len() && (i < a || b <= i) ==> is_space(#[trigger] s[i])
                &&& a < b ==> !is_space(s[a]) && !is_space(s[b - 1])
            },
        s.len() > 0 && !is_space(s[0]) && !is_space(s.last()) ==> trimmed(s) == s,
        is_space(' ') && is_space('\t') && is_space('\r') && is_space('\n'),
        forall|c: char| #[trigger] is_space(c) ==> !is_alnum(c) && c != '_' && c != '"' && c != '#' && c != ';',
{
    let a = lemma_trim_start(s);
    let t = s.skip(a);
    let k = lemma_trim_end(t);
    let b = a + k;
    assert(t.take(k) =~= s.subrange(a, b));
    assert forall|i: int| 0 <= i < s.len() && (i < a || b <= i) implies is_space(
        #[trigger] s[i],
    ) by {
        if b <= i {
            assert(t[i - a] == s[i]);
        }
    }
    if s.len() > 0 && !is_space(s[0]) && !is_space(s.last()) {
        assert(a == 0);
        assert(b == s.len());
        assert(s.subrange(0, b) =~= s);
    }
    if a < b {
        assert(t[k - 1] == s[b - 1]);
    }
}

/// Changing the case of a text changes its ASCII letters alone, each by the
/// distance between the two alphabets.
pub proof fn law_case_is_changed_letter_by_letter(s: Text, i: int)
    requires
        0 <= i < s.len(),
    ensures
        lower(s).len() == s.len() && upper(s).len() == s.len(),
        'A' <= s[i] <= 'Z' ==> lower(s)[i] as int - 'a' as int == s[i] as int - 'A' as int,
        !('A' <= s[i] <= 'Z') ==> lower(s)[i] == s[i],
        'a' <= s[i] <= 'z' ==> upper(s)[i] as int - 'A' as int == s[i] as int - 'a' as int,
        !('a' <= s[i] <= 'z') ==> upper(s)[i] == s[i],
{
}

/// Texts differ up to case only where their letters do.
pub proof fn law_folding_compares_letter_by_letter(a: Text, b: Text)
    ensures
        same_fold(a, b) <==> a.len() == b.len() && forall|i: int|
            0 <= i < a.len() ==> {
                ||| #[trigger] a[i] == b[i]
                ||| 'A' <= a[i] <= 'Z' && b[i] as int == a[i] as int + 32
                ||| 'a' <= a[i] <= 'z' && b[i] as int == a[i] as int - 32
            },
{
    if same_fold(a, b) {
        assert(lower(a).len() == a.len() && lower(b).len() == b.len());
        assert forall|i: int| 0 <= i < a.len() implies {
            ||| #[trigger] a[i] == b[i]
            ||| 'A' <= a[i] <= 'Z' && b[i] as int == a[i] as int + 32
            ||| 'a' <= a[i] <= 'z' && b[i] as int == a[i] as int - 32
        } by {
            assert(lower(a)[i] == lower(b)[i]);
        }
    }
    if a.len() == b.len() && forall|i: int|
        0 <= i < a.len() ==> {
            ||| #[trigger] a[i] == b[i]
            ||| 'A' <= a[i] <= 'Z' && b[i] as int == a[i] as int + 32
            ||| 'a' <= a[i] <= 'z' && b[i] as int == a[i] as int - 32
        } {
        assert forall|i: int| 0 <= i < a.len() implies lower(a)[i] == lower(b)[i] by {
            assert(a[i] == a[i]);
        }
        assert(lower(a) =~= lower(b));
    }
}

/// The reduced name of a text is that of its parts one after the other: a
/// letter is put in lower case, a digit stays, and any other character is gone.
pub proof fn law_names_are_reduced_part_by_part(a: Text, b: Text, c: char)
    ensures
        name_of(a + b) == name_of(a) + name_of(b),
        name_of(seq![c]) == (if 'A' <= c <= 'Z' {
            seq![((c as u32) + 32) as char]
        } else if 'a' <= c <= 'z' || '0' <= c <= '9' {
            seq![c]
        } else {
            Seq::empty()
        }),
    decreases b.len(),
{
    let one = seq![c];
    assert(one.drop_last() =~= Seq::empty());
    assert(name_of(one.drop_last()) =~= Seq::empty());
    assert(name_of(one) =~= (if 'A' <= c <= 'Z' {
        seq![((c as u32) + 32) as char]
    } else if 'a' <= c <= 'z' || '0' <= c <= '9' {
        seq![c]
    } else {
        Seq::empty()
    }));
    if b.len() == 0 {
        assert(a + b =~= a);
        assert(name_of(a) + name_of(b) =~= name_of(a));
    } else {
        let all = a + b;
        law_names_are_reduced_part_by_part(a, b.drop_last(), c);
        assert(all.drop_last() =~= a + b.drop_last());
        assert(all.last() == b.last());
        assert(name_of(all) =~= name_of(a) + name_of(b));
    }
}

/// A text is cut at the first of the characters, or at the last one, and both
/// parts are left whole; it is not cut where it holds none.
pub proof fn law_texts_are_cut_once(s: Text, c: char)
    ensures
        match cut(s, c) {
            Some((a, b)) => s == a + seq![c] + b && !a.contains(c),
            None => !s.contains(c),
        },
        match cut_last(s, c) {
            Some((a, b)) => s == a + seq![c] + b && !b.contains(c),
            None => !s.contains(c),
        },
    decreases s.len(),
{
    lemma_position(s, c);
    let p = position(s, c) as int;
    if p < s.len() {
        assert(s =~= s.take(p) + seq![c] + s.skip(p + 1));
        assert forall|i: int| 0 <= i < p implies s.take(p)[i] != c by {}
    }
    if s.len() > 0 {
        let head = s.drop_last();
        if s.last() == c {
            assert(s =~= head + seq![c] + Seq::<char>::empty());
        } else {
            law_texts_are_cut_once(head, c);
            match cut_last(head, c) {
                Some((a, b)) => {
                    assert(s =~= head.push(s.last()));
                    assert(head.push(s.last()) =~= a + seq![c] + b.push(s.last()));
                    assert forall|i: int| 0 <= i < b.len() + 1 implies b.push(s.last())[i] != c by {
                        if i < b.len() {
                            assert(b.contains(b[i]));
                        }
                    }
                },
                None => {
                    assert forall|i: int| 0 <= i < s.len() implies s[i] != c by {
                        if i < head.len() {
                            assert(head.contains(head[i]));
                        }
                    }
                },
            }
        }
    }
}

} // verus!
