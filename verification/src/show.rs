//! Interpretation of the external tool's structured `show` output.
//!
//! The document is a tree of nested objects: category name, then platform
//! name, then entry id, then entry metadata with a "name" field. The
//! interpreter filters it to the current platform and groups the retained
//! entries by category, one formatted line each, preserving discovery
//! order. Malformed entries (metadata that is not an object, or without a
//! "name" field) are skipped silently.

use vstd::prelude::*;
use vstd::string::*;

use crate::flake::FlakeError;
use crate::strutil::str_eq;

verus! {

/// A structured document: what the listing reads of the external tool's
/// machine-readable output. Objects keep their keys in discovery order;
/// numbers are never read, so their value is not kept.
#[derive(Debug)]
pub enum JsonValue {
    Null,
    Bool(bool),
    Number,
    Text(String),
    Array(Vec<JsonValue>),
    Object(Vec<(String, JsonValue)>),
}

/// The key of the metadata field that names an entry.
pub open spec fn name_key() -> Seq<char> {
    "name"@
}

/// The first value bound to `key`, scanning the pairs of an object in
/// order.
pub open spec fn assoc_get(entries: Seq<(String, JsonValue)>, key: Seq<char>) -> Option<
    JsonValue,
>
    decreases entries.len(),
{
    if entries.len() == 0 {
        None
    } else if entries[0].0@ == key {
        Some(entries[0].1)
    } else {
        assoc_get(entries.drop_first(), key)
    }
}

/// One formatted listing line: `category.platform.entry: name`.
pub open spec fn entry_line(
    cat: Seq<char>,
    sys: Seq<char>,
    id: Seq<char>,
    name: Seq<char>,
) -> Seq<char> {
    cat + seq!['.'] + sys + seq!['.'] + id + seq![':', ' '] + name
}

/// The lines one entry contributes: one, when its metadata is an object
/// whose "name" field is text; none otherwise.
pub open spec fn entry_lines_one(cat: Seq<char>, sys: Seq<char>, e: (String, JsonValue)) -> Seq<
    Seq<char>,
> {
    match e.1 {
        JsonValue::Object(meta) => match assoc_get(meta@, name_key()) {
            Some(v) => match v {
                JsonValue::Text(n) => seq![entry_line(cat, sys, e.0@, n@)],
                _ => Seq::empty(),
            },
            None => Seq::empty(),
        },
        _ => Seq::empty(),
    }
}

/// The lines of a run of entries, in discovery order.
pub open spec fn entries_lines(
    cat: Seq<char>,
    sys: Seq<char>,
    entries: Seq<(String, JsonValue)>,
) -> Seq<Seq<char>>
    decreases entries.len(),
{
    if entries.len() == 0 {
        Seq::empty()
    } else {
        entries_lines(cat, sys, entries.drop_last()) + entry_lines_one(cat, sys, entries.last())
    }
}

/// The lines one platform pair contributes: those of its entries when its
/// key is the current platform and its value is an object; none otherwise.
pub open spec fn platform_lines_one(cat: Seq<char>, sys: Seq<char>, p: (String, JsonValue)) -> Seq<
    Seq<char>,
> {
    if p.0@ == sys {
        match p.1 {
            JsonValue::Object(entries) => entries_lines(cat, sys, entries@),
            _ => Seq::empty(),
        }
    } else {
        Seq::empty()
    }
}

/// The lines of a run of platform pairs, in discovery order.
pub open spec fn platforms_lines(
    cat: Seq<char>,
    sys: Seq<char>,
    plats: Seq<(String, JsonValue)>,
) -> Seq<Seq<char>>
    decreases plats.len(),
{
    if plats.len() == 0 {
        Seq::empty()
    } else {
        platforms_lines(cat, sys, plats.drop_last()) + platform_lines_one(cat, sys, plats.last())
    }
}

/// The lines of one category: those of its platform pairs when its value
/// is an object, none otherwise.
pub open spec fn category_lines(cat: Seq<char>, sys: Seq<char>, v: JsonValue) -> Seq<Seq<char>> {
    match v {
        JsonValue::Object(plats) => platforms_lines(cat, sys, plats@),
        _ => Seq::empty(),
    }
}

/// The "name" field of one retained entry's metadata, where present, is
/// text. Anything else has no defined listing line.
pub open spec fn entry_name_ok(e: (String, JsonValue)) -> bool {
    match e.1 {
        JsonValue::Object(meta) => match assoc_get(meta@, name_key()) {
            Some(v) => v is Text,
            None => true,
        },
        _ => true,
    }
}

/// Every entry of a platform object is acceptable to the listing.
pub open spec fn platform_entries_ok(v: JsonValue) -> bool {
    match v {
        JsonValue::Object(entries) => forall|k: int|
            0 <= k < entries@.len() ==> entry_name_ok(#[trigger] entries@[k]),
        _ => true,
    }
}

/// Every platform object of a category that matches the current platform
/// holds only acceptable entries.
pub open spec fn category_ok(v: JsonValue, sys: Seq<char>) -> bool {
    match v {
        JsonValue::Object(plats) => forall|j: int|
            0 <= j < plats@.len() ==> ((#[trigger] plats@[j]).0@ == sys
                ==> platform_entries_ok(plats@[j].1)),
        _ => true,
    }
}

/// The inputs on which the listing is defined: no retained entry names
/// itself with anything but text.
pub open spec fn names_ok(root: JsonValue, sys: Seq<char>) -> bool {
    match root {
        JsonValue::Object(cats) => forall|i: int|
            0 <= i < cats@.len() ==> category_ok(#[trigger] cats@[i].1, sys),
        _ => true,
    }
}

/// Format one listing line: `category.platform.entry: name`.
fn format_line(cat: &String, sys: &str, id: &String, name: &String) -> (r: String)
    ensures
        r@ == entry_line(cat@, sys@, id@, name@),
{
    let mut r = cat.clone();
    r.append(".");
    r.append(sys);
    r.append(".");
    r.append(id.as_str());
    r.append(": ");
    r.append(name.as_str());
    proof {
        reveal_strlit(".");
        reveal_strlit(": ");
        assert(r@ =~= entry_line(cat@, sys@, id@, name@));
    }
    r
}

/// Look up the "name" metadata field: the first binding of that key, when
/// it is text.
fn get_name(meta: &Vec<(String, JsonValue)>) -> (r: Option<&String>)
    ensures
        match r {
            Some(n) => assoc_get(meta@, name_key()) matches Some(v) && v matches JsonValue::Text(
                t,
            ) && t@ == n@,
            None => match assoc_get(meta@, name_key()) {
                Some(v) => !(v is Text),
                None => true,
            },
        },
{
    let m = meta.len();
    let mut t: usize = 0;
    proof {
        assert(meta@.skip(0) =~= meta@);
    }
    while t < m
        invariant
            0 <= t <= m,
            m == meta@.len(),
            assoc_get(meta@, name_key()) == assoc_get(meta@.skip(t as int), name_key()),
        decreases m - t,
    {
        proof {
            assert(meta@.skip(t as int)[0] == meta@[t as int]);
            assert(meta@.skip(t as int).drop_first() =~= meta@.skip(t as int + 1));
        }
        let e = &meta[t];
        if str_eq(e.0.as_str(), "name") {
            match &e.1 {
                JsonValue::Text(s) => {
                    return Some(s);
                },
                _ => {
                    return None;
                },
            }
        }
        t = t + 1;
    }
    proof {
        assert(meta@.skip(m as int).len() == 0);
    }
    None
}

/// Whether the "name" field of an object, where present, is text.
fn name_field_ok(meta: &Vec<(String, JsonValue)>) -> (r: bool)
    ensures
        r == (match assoc_get(meta@, name_key()) {
            Some(v) => v is Text,
            None => true,
        }),
{
    let m = meta.len();
    let mut t: usize = 0;
    proof {
        assert(meta@.skip(0) =~= meta@);
    }
    while t < m
        invariant
            0 <= t <= m,
            m == meta@.len(),
            assoc_get(meta@, name_key()) == assoc_get(meta@.skip(t as int), name_key()),
        decreases m - t,
    {
        proof {
            assert(meta@.skip(t as int)[0] == meta@[t as int]);
            assert(meta@.skip(t as int).drop_first() =~= meta@.skip(t as int + 1));
        }
        let e = &meta[t];
        if str_eq(e.0.as_str(), "name") {
            return match &e.1 {
                JsonValue::Text(_) => true,
                _ => false,
            };
        }
        t = t + 1;
    }
    proof {
        assert(meta@.skip(m as int).len() == 0);
    }
    true
}

/// The lines of the entries of one matching platform object, in discovery
/// order.
fn entries_listing(cat: &String, sys: &str, entries: &Vec<(String, JsonValue)>) -> (r: Vec<
    String,
>)
    ensures
        r.deep_view() == entries_lines(cat@, sys@, entries@),
{
    let mut out: Vec<String> = Vec::new();
    let n = entries.len();
    let mut k: usize = 0;
    proof {
        assert(out.deep_view() =~= entries_lines(cat@, sys@, entries@.take(0)));
    }
    while k < n
        invariant
            0 <= k <= n,
            n == entries@.len(),
            out.deep_view() == entries_lines(cat@, sys@, entries@.take(k as int)),
        decreases n - k,
    {
        let e = &entries[k];
        match &e.1 {
            JsonValue::Object(meta) => {
                match get_name(meta) {
                    Some(name) => {
                        let line = format_line(cat, sys, &e.0, name);
                        out.push(line);
                    },
                    None => {},
                }
            },
            _ => {},
        }
        proof {
            assert(entries@.take(k as int + 1).drop_last() =~= entries@.take(k as int));
            assert(entries@.take(k as int + 1).last() == entries@[k as int]);
            assert(out.deep_view() =~= entries_lines(cat@, sys@, entries@.take(k as int + 1)));
        }
        k = k + 1;
    }
    proof {
        assert(entries@.take(n as int) =~= entries@);
    }
    out
}

/// The lines of one category, scanning its platform pairs in discovery
/// order and keeping only the current platform's.
fn category_listing(cat: &String, v: &JsonValue, sys: &str) -> (r: Vec<String>)
    ensures
        r.deep_view() == category_lines(cat@, sys@, *v),
{
    let mut out: Vec<String> = Vec::new();
    match v {
        JsonValue::Object(plats) => {
            let n = plats.len();
            let mut j: usize = 0;
            proof {
                assert(out.deep_view() =~= platforms_lines(cat@, sys@, plats@.take(0)));
            }
            while j < n
                invariant
                    0 <= j <= n,
                    n == plats@.len(),
                    out.deep_view() == platforms_lines(cat@, sys@, plats@.take(j as int)),
                decreases n - j,
            {
                let p = &plats[j];
                if str_eq(p.0.as_str(), sys) {
                    match &p.1 {
                        JsonValue::Object(entries) => {
                            let mut lines = entries_listing(cat, sys, entries);
                            out.append(&mut lines);
                        },
                        _ => {},
                    }
                }
                proof {
                    assert(plats@.take(j as int + 1).drop_last() =~= plats@.take(j as int));
                    assert(plats@.take(j as int + 1).last() == plats@[j as int]);
                    assert(out.deep_view() =~= platforms_lines(
                        cat@,
                        sys@,
                        plats@.take(j as int + 1),
                    ));
                }
                j = j + 1;
            }
            proof {
                assert(plats@.take(n as int) =~= plats@);
            }
        },
        _ => {
            proof {
                assert(out.deep_view() =~= Seq::<Seq<char>>::empty());
            }
        },
    }
    out
}

/// Interpret a show document: fail when the top level is not an object;
/// otherwise list, for each category in discovery order, the entries of
/// the current platform that carry a "name", one formatted line each.
///
/// The listing is undefined on a document whose retained entries name
/// themselves with anything but text; `names_ok_check` decides that ahead
/// of the call.
pub fn interpret_show(root: &JsonValue, sys: &str) -> (r: Result<
    Vec<(String, Vec<String>)>,
    FlakeError,
>)
    requires
        names_ok(*root, sys@),
    ensures
        match r {
            Ok(listing) => (*root) matches JsonValue::Object(cats) && listing@.len()
                == cats@.len() && (forall|i: int|
                0 <= i < cats@.len() ==> (#[trigger] listing@[i]).0@ == cats@[i].0@
                    && listing@[i].1.deep_view() == category_lines(cats@[i].0@, sys@, cats@[i].1)),
            Err(e) => !((*root) is Object) && e == FlakeError::UnexpectedShowOutputShape,
        },
{
    match root {
        JsonValue::Object(cats) => {
            let mut out: Vec<(String, Vec<String>)> = Vec::new();
            let n = cats.len();
            let mut i: usize = 0;
            while i < n
                invariant
                    0 <= i <= n,
                    n == cats@.len(),
                    out@.len() == i,
                    forall|t: int|
                        0 <= t < i ==> (#[trigger] out@[t]).0@ == cats@[t].0@
                            && out@[t].1.deep_view() == category_lines(
                            cats@[t].0@,
                            sys@,
                            cats@[t].1,
                        ),
                decreases n - i,
            {
                let c = &cats[i];
                let lines = category_listing(&c.0, &c.1, sys);
                let cat_name = c.0.clone();
                out.push((cat_name, lines));
                i = i + 1;
            }
            Ok(out)
        },
        _ => Err(FlakeError::UnexpectedShowOutputShape),
    }
}

/// Decide whether the listing is defined on this document: that every
/// entry retained for the current platform names itself with text, where
/// it carries a "name" field at all.
#[verifier::loop_isolation(false)]
pub fn names_ok_check(root: &JsonValue, sys: &str) -> (r: bool)
    ensures
        r == names_ok(*root, sys@),
{
    match root {
        JsonValue::Object(cats) => {
            let n = cats.len();
            let mut i: usize = 0;
            while i < n
                invariant
                    0 <= i <= n,
                    n == cats@.len(),
                    forall|t: int| 0 <= t < i ==> category_ok(#[trigger] cats@[t].1, sys@),
                decreases n - i,
            {
                let c = &cats[i];
                if !category_ok_check(&c.1, sys) {
                    proof {
                        assert(!category_ok(cats@[i as int].1, sys@));
                    }
                    return false;
                }
                i = i + 1;
            }
            true
        },
        _ => true,
    }
}

/// Decide `category_ok` for one category value.
#[verifier::loop_isolation(false)]
fn category_ok_check(v: &JsonValue, sys: &str) -> (r: bool)
    ensures
        r == category_ok(*v, sys@),
{
    match v {
        JsonValue::Object(plats) => {
            let n = plats.len();
            let mut j: usize = 0;
            while j < n
                invariant
                    0 <= j <= n,
                    n == plats@.len(),
                    forall|t: int|
                        0 <= t < j ==> ((#[trigger] plats@[t]).0@ == sys@
                            ==> platform_entries_ok(plats@[t].1)),
                decreases n - j,
            {
                let p = &plats[j];
                if str_eq(p.0.as_str(), sys) {
                    if !platform_entries_ok_check(&p.1) {
                        proof {
                            assert(!platform_entries_ok(plats@[j as int].1));
                        }
                        return false;
                    }
                }
                j = j + 1;
            }
            true
        },
        _ => true,
    }
}

/// Decide `platform_entries_ok` for one platform value.
#[verifier::loop_isolation(false)]
fn platform_entries_ok_check(v: &JsonValue) -> (r: bool)
    ensures
        r == platform_entries_ok(*v),
{
    match v {
        JsonValue::Object(entries) => {
            let n = entries.len();
            let mut k: usize = 0;
            while k < n
                invariant
                    0 <= k <= n,
                    n == entries@.len(),
                    forall|t: int| 0 <= t < k ==> entry_name_ok(#[trigger] entries@[t]),
                decreases n - k,
            {
                let e = &entries[k];
                match &e.1 {
                    JsonValue::Object(meta) => {
                        if !name_field_ok(meta) {
                            proof {
                                assert(!entry_name_ok(entries@[k as int]));
                            }
                            return false;
                        }
                    },
                    _ => {},
                }
                k = k + 1;
            }
            true
        },
        _ => true,
    }
}

/// Law: a category with no platform pair keyed by the current platform
/// contributes an empty listing, whatever its entries hold.
pub proof fn lemma_no_platform_no_lines(cat: Seq<char>, sys: Seq<char>, v: JsonValue)
    requires
        v matches JsonValue::Object(plats) ==> forall|j: int|
            0 <= j < plats@.len() ==> (#[trigger] plats@[j]).0@ != sys,
    ensures
        category_lines(cat, sys, v) == Seq::<Seq<char>>::empty(),
{
    match v {
        JsonValue::Object(plats) => {
            lemma_no_platform_no_lines_rec(cat, sys, plats@);
        },
        _ => {},
    }
}

proof fn lemma_no_platform_no_lines_rec(
    cat: Seq<char>,
    sys: Seq<char>,
    plats: Seq<(String, JsonValue)>,
)
    requires
        forall|j: int| 0 <= j < plats.len() ==> (#[trigger] plats[j]).0@ != sys,
    ensures
        platforms_lines(cat, sys, plats) == Seq::<Seq<char>>::empty(),
    decreases plats.len(),
{
    if plats.len() == 0 {
        assert(platforms_lines(cat, sys, plats) =~= Seq::<Seq<char>>::empty());
    } else {
        lemma_no_platform_no_lines_rec(cat, sys, plats.drop_last());
        assert(plats.last() == plats[plats.len() - 1]);
        assert(platforms_lines(cat, sys, plats) =~= Seq::<Seq<char>>::empty());
    }
}

} // verus!
