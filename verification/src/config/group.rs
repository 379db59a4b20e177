//! Pickup groups and feature-button defaults.

use vstd::prelude::*;

use crate::config::error;
use crate::config::error::ConfigError;
use crate::config::policy::FeatureButtonDefault;
use crate::config::setting;
use crate::number;
use crate::text;

verus! {

// ---------------------------------------------------------------------------
// Ascending lists

/// An ascending list with one more number.
pub open spec fn with_number(list: Seq<u8>, x: u8) -> Seq<u8>
    decreases list.len(),
{
    if list.len() == 0 || list.last() < x {
        list.push(x)
    } else {
        with_number(list.drop_last(), x).push(list.last())
    }
}

/// An ascending list with one more text.
pub open spec fn with_text(list: Seq<text::Text>, x: text::Text) -> Seq<text::Text>
    decreases list.len(),
{
    if list.len() == 0 || text::less(list.last(), x) {
        list.push(x)
    } else {
        with_text(list.drop_last(), x).push(list.last())
    }
}

/// Puts a number into an ascending list.
fn insert_number(list: &Vec<u8>, x: u8) -> (r: Vec<u8>)
    ensures
        r@ == with_number(list@, x),
{
    let mut at: usize = list.len();
    assert(list@.take(at as int) =~= list@);
    assert(with_number(list@, x) + list@.skip(at as int) =~= with_number(list@, x));
    while at > 0 && !(list[at - 1] < x)
        invariant
            at <= list@.len(),
            with_number(list@, x) == with_number(list@.take(at as int), x) + list@.skip(at as int),
        decreases at,
    {
        let ghost t = list@.take(at as int);
        assert(t.drop_last() =~= list@.take(at - 1));
        assert(with_number(t.drop_last(), x).push(t.last()) + list@.skip(at as int) =~= with_number(
            t.drop_last(),
            x,
        ) + list@.skip(at - 1));
        at -= 1;
    }
    let mut r: Vec<u8> = Vec::new();
    let mut i: usize = 0;
    while i < at
        invariant
            i <= at <= list@.len(),
            r@ == list@.take(i as int),
        decreases at - i,
    {
        r.push(list[i]);
        i += 1;
        assert(r@ =~= list@.take(i as int));
    }
    r.push(x);
    let ghost head = r@;
    assert(head =~= with_number(list@.take(at as int), x));
    let mut j: usize = at;
    while j < list.len()
        invariant
            at <= j <= list@.len(),
            r@ == head + list@.subrange(at as int, j as int),
        decreases list.len() - j,
    {
        r.push(list[j]);
        j += 1;
        assert(r@ =~= head + list@.subrange(at as int, j as int));
    }
    assert(list@.subrange(at as int, j as int) =~= list@.skip(at as int));
    r
}

/// Puts a text into an ascending list.
pub fn insert_text(list: &Vec<String>, x: &str) -> (r: Vec<String>)
    ensures
        r.deep_view() == with_text(list.deep_view(), x@),
{
    let ghost all = list.deep_view();
    let mut at: usize = list.len();
    assert(all.take(at as int) =~= all);
    assert(with_text(all, x@) + all.skip(at as int) =~= with_text(all, x@));
    while at > 0
        invariant_except_break
            with_text(all, x@) == with_text(all.take(at as int), x@) + all.skip(at as int),
        invariant
            all == list.deep_view(),
            at <= list@.len(),
        ensures
            with_text(all, x@) == all.take(at as int).push(x@) + all.skip(at as int),
        decreases at,
    {
        let ghost t = all.take(at as int);
        assert(t.last() == list@[at - 1]@);
        if text::before(list[at - 1].as_str(), x) {
            break ;
        }
        assert(t.drop_last() =~= all.take(at - 1));
        assert(with_text(t.drop_last(), x@).push(t.last()) + all.skip(at as int) =~= with_text(
            t.drop_last(),
            x@,
        ) + all.skip(at - 1));
        at -= 1;
    }
    let mut r: Vec<String> = Vec::new();
    let mut i: usize = 0;
    assert(r.deep_view() =~= all.take(0));
    while i < at
        invariant
            all == list.deep_view(),
            i <= at <= list@.len(),
            r.deep_view() == all.take(i as int),
        decreases at - i,
    {
        let ghost before = r.deep_view();
        let s = text::copy(list[i].as_str());
        r.push(s);
        i += 1;
        assert(r.deep_view() =~= before.push(s@));
        assert(r.deep_view() =~= all.take(i as int));
    }
    let ghost before = r.deep_view();
    let s = text::copy(x);
    r.push(s);
    assert(r.deep_view() =~= before.push(s@));
    let ghost head = r.deep_view();
    let mut j: usize = at;
    assert(r.deep_view() =~= head + all.subrange(at as int, at as int));
    while j < list.len()
        invariant
            all == list.deep_view(),
            at <= j <= list@.len(),
            r.deep_view() == head + all.subrange(at as int, j as int),
        decreases list.len() - j,
    {
        let ghost before = r.deep_view();
        let s = text::copy(list[j].as_str());
        r.push(s);
        j += 1;
        assert(r.deep_view() =~= before.push(s@));
        assert(r.deep_view() =~= head + all.subrange(at as int, j as int));
    }
    assert(all.subrange(at as int, j as int) =~= all.skip(at as int));
    r
}

// ---------------------------------------------------------------------------
// Numbered groups

/// The groups with a range added, unless one of the range is there.
pub open spec fn with_range(groups: Seq<u8>, start: u8, end: u8) -> Option<Seq<u8>>
    decreases end - start + 1,
{
    if start > end {
        Some(groups)
    } else if groups.contains(start) {
        None
    } else if start == end {
        Some(with_number(groups, start))
    } else {
        with_range(with_number(groups, start), (start + 1) as u8, end)
    }
}

/// A small number.
pub open spec fn small_setting(key: text::Text, value: text::Text) -> Result<u8, error::ErrorView> {
    match number::u8_of(value) {
        Some(n) => Ok(n),
        None => Err(error::invalid(key, value, "u8"@, false)),
    }
}

/// The first and last group of one field.
pub open spec fn range_of(key: text::Text, raw: text::Text, field: text::Text) -> Result<
    (u8, u8),
    error::ErrorView,
> {
    let form = error::invalid(key, raw, "comma-separated groups or ranges in 0..63"@, false);
    if field.len() == 0 {
        Err(form)
    } else {
        match text::cut(field, '-') {
            Some((start, end)) => if end.contains('-') {
                Err(form)
            } else {
                match (
                    small_setting(key, text::trimmed(start)),
                    small_setting(key, text::trimmed(end)),
                ) {
                    (Err(e), _) => Err(e),
                    (_, Err(e)) => Err(e),
                    (Ok(a), Ok(b)) => Ok((a, b)),
                }
            },
            None => match small_setting(key, field) {
                Ok(n) => Ok((n, n)),
                Err(e) => Err(e),
            },
        }
    }
}

/// The groups of a list of fields, ascending.
pub open spec fn groups_of(key: text::Text, raw: text::Text, fields: Seq<text::Text>) -> Result<
    Seq<u8>,
    error::ErrorView,
>
    decreases fields.len(),
{
    if fields.len() == 0 {
        Ok(Seq::empty())
    } else {
        match groups_of(key, raw, fields.drop_last()) {
            Err(e) => Err(e),
            Ok(groups) => match range_of(key, raw, fields.last()) {
                Err(e) => Err(e),
                Ok((start, end)) => if start > end || end > 63 {
                    Err(
                        error::invalid(
                            key,
                            raw,
                            "ascending group values or ranges in 0..63"@,
                            false,
                        ),
                    )
                } else {
                    match with_range(groups, start, end) {
                        Some(g) => Ok(g),
                        None => Err(
                            error::invalid(key, raw, "unique group values in 0..63"@, false),
                        ),
                    }
                },
            },
        }
    }
}

/// Numbered groups: numbers and ranges, none of them twice.
pub open spec fn numeric_setting(key: text::Text, raw: text::Text) -> Result<
    Seq<u8>,
    error::ErrorView,
> {
    if text::trimmed(raw).len() == 0 {
        Ok(Seq::empty())
    } else {
        groups_of(key, raw, text::fields_of(raw, ','))
    }
}

/// Reads a small number.
fn parse_small(key: &str, value: &str) -> (r: Result<u8, ConfigError>)
    ensures
        error::outcome(r) == small_setting(key@, value@),
{
    match number::read_u8(value) {
        Some(n) => Ok(n),
        None => Err(error::invalid_option(key, value, "u8", false)),
    }
}

/// Reads the first and last group of one field.
fn parse_range(key: &str, raw: &str, field: &str) -> (r: Result<(u8, u8), ConfigError>)
    ensures
        error::outcome(r) == range_of(key@, raw@, field@),
{
    let form = "comma-separated groups or ranges in 0..63";
    if field.is_empty() {
        return Err(error::invalid_option(key, raw, form, false));
    }
    match text::split_once(field, '-') {
        Some((start, end)) => {
            if text::contains_char(end.as_str(), '-') {
                return Err(error::invalid_option(key, raw, form, false));
            }
            let a = match parse_small(key, text::trim(start.as_str()).as_str()) {
                Ok(a) => a,
                Err(e) => return Err(e),
            };
            match parse_small(key, text::trim(end.as_str()).as_str()) {
                Ok(b) => Ok((a, b)),
                Err(e) => Err(e),
            }
        },
        None => match parse_small(key, field) {
            Ok(n) => Ok((n, n)),
            Err(e) => Err(e),
        },
    }
}

/// Whether a list holds a number.
fn holds_number(list: &Vec<u8>, x: u8) -> (r: bool)
    ensures
        r == list@.contains(x),
{
    let mut i: usize = 0;
    while i < list.len()
        invariant
            i <= list@.len(),
            forall|j: int| 0 <= j < i ==> list@[j] != x,
        decreases list.len() - i,
    {
        if list[i] == x {
            return true;
        }
        i += 1;
    }
    false
}

/// Adds a range to the groups.
fn add_range(groups: Vec<u8>, start: u8, end: u8) -> (r: Option<Vec<u8>>)
    ensures
        match with_range(groups@, start, end) {
            Some(g) => r is Some && r->0@ == g,
            None => r is None,
        },
    decreases end - start + 1,
{
    if start > end {
        return Some(groups);
    }
    if holds_number(&groups, start) {
        return None;
    }
    let next = insert_number(&groups, start);
    if start == end {
        Some(next)
    } else {
        add_range(next, start + 1, end)
    }
}

/// A field that is refused spoils the list.
proof fn lemma_groups_spoiled(
    key: text::Text,
    raw: text::Text,
    fields: Seq<text::Text>,
    i: int,
)
    requires
        0 <= i <= fields.len(),
        groups_of(key, raw, fields.take(i)) is Err,
    ensures
        groups_of(key, raw, fields) == groups_of(key, raw, fields.take(i)),
    decreases fields.len(),
{
    if i < fields.len() {
        assert(fields.drop_last().take(i) =~= fields.take(i));
        lemma_groups_spoiled(key, raw, fields.drop_last(), i);
    } else {
        assert(fields.take(i) =~= fields);
    }
}

/// Reads numbered groups.
pub fn parse_numeric_groups(key: &str, raw: &str) -> (r: Result<Vec<u8>, ConfigError>)
    ensures
        match numeric_setting(key@, raw@) {
            Ok(g) => r is Ok && r->Ok_0@ == g,
            Err(e) => r is Err && r->Err_0@ == e,
        },
{
    let mut groups: Vec<u8> = Vec::new();
    if text::trim(raw).as_str().is_empty() {
        return Ok(groups);
    }
    let fields = text::fields(raw, ',');
    let ghost all = fields.deep_view();
    let mut i: usize = 0;
    assert(all.take(0) =~= Seq::empty());
    while i < fields.len()
        invariant
            all == fields.deep_view(),
            all == text::fields_of(raw@, ','),
            text::trimmed(raw@).len() != 0,
            i <= fields@.len(),
            groups_of(key@, raw@, all.take(i as int)) == Ok::<Seq<u8>, error::ErrorView>(groups@),
        decreases fields.len() - i,
    {
        assert(all.take(i + 1).drop_last() =~= all.take(i as int));
        assert(all.take(i + 1).last() == fields@[i as int]@);
        let (start, end) = match parse_range(key, raw, fields[i].as_str()) {
            Ok(x) => x,
            Err(e) => {
                proof {
                    lemma_groups_spoiled(key@, raw@, all, i + 1);
                }
                return Err(e);
            },
        };
        if start > end || end > 63 {
            proof {
                lemma_groups_spoiled(key@, raw@, all, i + 1);
            }
            return Err(
                error::invalid_option(
                    key,
                    raw,
                    "ascending group values or ranges in 0..63",
                    false,
                ),
            );
        }
        match add_range(groups, start, end) {
            Some(g) => {
                groups = g;
            },
            None => {
                proof {
                    lemma_groups_spoiled(key@, raw@, all, i + 1);
                }
                return Err(
                    error::invalid_option(key, raw, "unique group values in 0..63", false),
                );
            },
        }
        i += 1;
    }
    assert(all.take(i as int) =~= all);
    Ok(groups)
}

// ---------------------------------------------------------------------------
// Named groups

/// The named groups of a list of fields, ascending.
pub open spec fn names_of(key: text::Text, raw: text::Text, fields: Seq<text::Text>) -> Result<
    Seq<text::Text>,
    error::ErrorView,
>
    decreases fields.len(),
{
    if fields.len() == 0 {
        Ok(Seq::empty())
    } else {
        match names_of(key, raw, fields.drop_last()) {
            Err(e) => Err(e),
            Ok(names) => {
                let name = fields.last();
                if name.len() == 0 || text::any_control(name) || names.contains(name) {
                    Err(error::invalid(key, raw, "unique, nonempty named groups"@, false))
                } else {
                    Ok(with_text(names, name))
                }
            },
        }
    }
}

/// Named groups, none of them twice.
pub open spec fn named_setting(key: text::Text, raw: text::Text) -> Result<
    Seq<text::Text>,
    error::ErrorView,
> {
    if text::trimmed(raw).len() == 0 {
        Ok(Seq::empty())
    } else {
        names_of(key, raw, text::fields_of(raw, ','))
    }
}

/// A field that is refused spoils the list.
proof fn lemma_names_spoiled(
    key: text::Text,
    raw: text::Text,
    fields: Seq<text::Text>,
    i: int,
)
    requires
        0 <= i <= fields.len(),
        names_of(key, raw, fields.take(i)) is Err,
    ensures
        names_of(key, raw, fields) == names_of(key, raw, fields.take(i)),
    decreases fields.len(),
{
    if i < fields.len() {
        assert(fields.drop_last().take(i) =~= fields.take(i));
        lemma_names_spoiled(key, raw, fields.drop_last(), i);
    } else {
        assert(fields.take(i) =~= fields);
    }
}

/// Reads named groups.
pub fn parse_named_groups(key: &str, raw: &str) -> (r: Result<Vec<String>, ConfigError>)
    ensures
        error::outcome(r) == named_setting(key@, raw@),
{
    let mut names: Vec<String> = Vec::new();
    assert(names.deep_view() =~= Seq::empty());
    if text::trim(raw).as_str().is_empty() {
        return Ok(names);
    }
    let fields = text::fields(raw, ',');
    let ghost all = fields.deep_view();
    let mut i: usize = 0;
    assert(all.take(0) =~= Seq::empty());
    while i < fields.len()
        invariant
            all == fields.deep_view(),
            all == text::fields_of(raw@, ','),
            text::trimmed(raw@).len() != 0,
            i <= fields@.len(),
            names_of(key@, raw@, all.take(i as int)) == Ok::<Seq<text::Text>, error::ErrorView>(
                names.deep_view(),
            ),
        decreases fields.len() - i,
    {
        assert(all.take(i + 1).drop_last() =~= all.take(i as int));
        assert(all.take(i + 1).last() == fields@[i as int]@);
        let name = fields[i].as_str();
        if name.is_empty() || text::has_control(name) || text::is_in(name, &names) {
            proof {
                lemma_names_spoiled(key@, raw@, all, i + 1);
            }
            return Err(error::invalid_option(key, raw, "unique, nonempty named groups", false));
        }
        names = insert_text(&names, name);
        i += 1;
    }
    assert(all.take(i as int) =~= all);
    Ok(names)
}

// ---------------------------------------------------------------------------
// Feature defaults

/// The initial state of a feature button: an instance and a switch.
pub open spec fn feature_default_setting(key: text::Text, raw: text::Text) -> Result<
    FeatureButtonDefault,
    error::ErrorView,
> {
    let f = text::fields_of(raw, ',');
    if f.len() != 2 {
        Err(error::invalid(key, raw, "feature instance and boolean: instance,yes|no"@, false))
    } else {
        match number::u32_of(f[0]) {
            None => Err(error::invalid(key, f[0], "u32"@, false)),
            Some(instance) => if instance == 0 {
                Err(
                    error::invalid(
                        key,
                        raw,
                        "feature instance >= 1 and boolean: instance,yes|no"@,
                        false,
                    ),
                )
            } else {
                match setting::bool_setting(key, f[1]) {
                    Ok(enabled) => Ok(FeatureButtonDefault { instance, enabled }),
                    Err(e) => Err(e),
                }
            },
        }
    }
}

/// Reads the initial state of a feature button.
pub fn parse_feature_default(key: &str, raw: &str) -> (r: Result<FeatureButtonDefault, ConfigError>)
    ensures
        error::outcome(r) == feature_default_setting(key@, raw@),
{
    let f = text::fields(raw, ',');
    let ghost all = f.deep_view();
    if f.len() != 2 {
        return Err(
            error::invalid_option(
                key,
                raw,
                "feature instance and boolean: instance,yes|no",
                false,
            ),
        );
    }
    assert(all[0] == f@[0]@ && all[1] == f@[1]@);
    let instance = match number::read_u32(f[0].as_str()) {
        Some(n) => n,
        None => return Err(error::invalid_option(key, f[0].as_str(), "u32", false)),
    };
    if instance == 0 {
        return Err(
            error::invalid_option(
                key,
                raw,
                "feature instance >= 1 and boolean: instance,yes|no",
                false,
            ),
        );
    }
    match setting::parse_bool(key, f[1].as_str()) {
        Ok(enabled) => Ok(FeatureButtonDefault { instance, enabled }),
        Err(e) => Err(e),
    }
}

// ---------------------------------------------------------------------------
// Laws

/// A strictly ascending list.
pub open spec fn ascending(list: Seq<u8>) -> bool {
    forall|i: int, j: int| 0 <= i < j < list.len() ==> list[i] < list[j]
}

/// Numbered groups come out in strictly ascending order, each at most 63.
pub proof fn law_numeric_groups_ascend(key: text::Text, raw: text::Text)
    ensures
        numeric_setting(key, raw) matches Ok(g) ==> ascending(g) && forall|i: int|
            0 <= i < g.len() ==> #[trigger] g[i] <= 63,
{
    if text::trimmed(raw).len() != 0 {
        lemma_groups_ascend(key, raw, text::fields_of(raw, ','));
    }
}

spec fn small_ascending(g: Seq<u8>) -> bool {
    ascending(g) && forall|i: int| 0 <= i < g.len() ==> #[trigger] g[i] <= 63
}

proof fn lemma_groups_ascend(key: text::Text, raw: text::Text, fields: Seq<text::Text>)
    ensures
        groups_of(key, raw, fields) matches Ok(g) ==> small_ascending(g),
    decreases fields.len(),
{
    if fields.len() > 0 {
        lemma_groups_ascend(key, raw, fields.drop_last());
        if let Ok(groups) = groups_of(key, raw, fields.drop_last()) {
            if let Ok((start, end)) = range_of(key, raw, fields.last()) {
                if end <= 63 {
                    lemma_range_ascends(groups, start, end);
                }
            }
        }
    }
}

proof fn lemma_range_ascends(groups: Seq<u8>, start: u8, end: u8)
    requires
        small_ascending(groups),
        end <= 63,
    ensures
        with_range(groups, start, end) matches Some(g) ==> small_ascending(g),
    decreases end - start + 1,
{
    if start <= end && !groups.contains(start) {
        lemma_with_number(groups, start);
        if start < end {
            lemma_range_ascends(with_number(groups, start), (start + 1) as u8, end);
        }
    }
}

proof fn lemma_with_number(list: Seq<u8>, x: u8)
    requires
        small_ascending(list),
        !list.contains(x),
        x <= 63,
    ensures
        small_ascending(with_number(list, x)),
        forall|i: int|
            0 <= i < with_number(list, x).len() ==> (list.contains(#[trigger] with_number(list, x)[i])
                || with_number(list, x)[i] == x),
    decreases list.len(),
{
    if list.len() == 0 || list.last() < x {
        let r = list.push(x);
        assert forall|i: int, j: int| 0 <= i < j < r.len() implies r[i] < r[j] by {
            if j == list.len() {
                assert(list[i] <= list.last());
            }
        }
        assert forall|i: int| 0 <= i < r.len() implies list.contains(#[trigger] r[i]) || r[i]
            == x by {
            if i < list.len() {
                assert(list[i] == r[i]);
            }
        }
    } else {
        let head = list.drop_last();
        assert(list.last() != x) by {
            assert(list[list.len() - 1] == list.last());
        }
        assert(!head.contains(x)) by {
            if head.contains(x) {
                let i = choose|i: int| 0 <= i < head.len() && head[i] == x;
                assert(list[i] == x);
            }
        }
        lemma_with_number(head, x);
        let h = with_number(head, x);
        let r = h.push(list.last());
        assert forall|i: int| 0 <= i < h.len() implies #[trigger] h[i] < list.last() by {
            if head.contains(h[i]) {
                let k = choose|k: int| 0 <= k < head.len() && head[k] == h[i];
                assert(list[k] < list[list.len() - 1]);
            }
        }
        assert forall|i: int, j: int| 0 <= i < j < r.len() implies r[i] < r[j] by {
            if j == h.len() {
                assert(h[i] < list.last());
            } else {
                assert(h[i] < h[j]);
            }
        }
        assert forall|i: int| 0 <= i < r.len() implies list.contains(#[trigger] r[i]) || r[i]
            == x by {
            if i < h.len() {
                if head.contains(h[i]) {
                    let k = choose|k: int| 0 <= k < head.len() && head[k] == h[i];
                    assert(list[k] == r[i]);
                }
            } else {
                assert(list[list.len() - 1] == r[i]);
            }
        }
        assert forall|i: int| 0 <= i < r.len() implies #[trigger] r[i] <= 63 by {
            if i < h.len() {
                assert(h[i] <= 63);
            } else {
                assert(list[list.len() - 1] <= 63);
            }
        }
    }
}

} // verus!
