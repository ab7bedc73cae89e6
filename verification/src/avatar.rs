//! Avatar Studio projects: checking that a project is safe and within
//! bounds, and summarising its avatars and animations.

use sha2::Digest;
use vstd::prelude::*;
use crate::config::str_equal;
use crate::protocol::hex_digit;
use crate::text::{lemma_utf8_len_is_encoding_len, lemma_decimal_injective, utf8_len, utf8_len_exceeds, chars_of, concat_str, decimal, decimal_string, push_char, string_of};

verus! {

/// A JSON document as the project inspection reads it.
#[derive(Debug)]
pub enum JsonValue {
    Null,
    Bool(bool),
    /// A number, with its value when it is an integer that fits `u64`.
    Number(Option<u64>),
    String(String),
    Array(Vec<JsonValue>),
    /// An object's entries, each key once.
    Object(Vec<(String, JsonValue)>),
}

/// `serde_json::Value`, a parsed JSON document, carried as an opaque value.
#[verifier::external_type_specification]
#[verifier::external_body]
pub struct ExSerdeJsonValue(serde_json::Value);

/// What `serde_json::from_str` gives for the text `source`, parsed as a
/// `serde_json::Value` and read as a `JsonValue` (numbers keep their value
/// where it is an integer that fits `u64`), or the parser's error message.
pub uninterp spec fn json_document(source: Seq<char>) -> Result<JsonValue, Seq<char>>;

/// A parsed `serde_json::Value` as a `JsonValue`, variant by variant.
#[verifier::external_body]
fn json_value_of(value: &serde_json::Value) -> JsonValue {
    match value {
        serde_json::Value::Null => JsonValue::Null,
        serde_json::Value::Bool(flag) => JsonValue::Bool(*flag),
        serde_json::Value::Number(number) => JsonValue::Number(number.as_u64()),
        serde_json::Value::String(text) => JsonValue::String(text.clone()),
        serde_json::Value::Array(items) => JsonValue::Array(items.iter().map(json_value_of).collect()),
        serde_json::Value::Object(entries) => JsonValue::Object(
            entries.iter().map(|(key, item)| (key.clone(), json_value_of(item))).collect(),
        ),
    }
}

/// `serde_json::from_str` into a `serde_json::Value`: the document of
/// `source`, or the parser's error message.
#[verifier::external_body]
pub(crate) fn parse_json(source: &str) -> (r: Result<JsonValue, String>)
    ensures
        match r {
            Ok(v) => json_document(source@) == Ok::<JsonValue, Seq<char>>(v),
            Err(e) => json_document(source@) == Err::<JsonValue, Seq<char>>(e@),
        },
{
    match serde_json::from_str::<serde_json::Value>(source) {
        Ok(value) => Ok(json_value_of(&value)),
        Err(error) => Err(error.to_string()),
    }
}

/// A parse result with its error message as text.
pub open spec fn parsed_view(parsed: Result<JsonValue, String>) -> Result<JsonValue, Seq<char>> {
    match parsed {
        Ok(v) => Ok(v),
        Err(e) => Err(e@),
    }
}

/// The value under `key` in an object's entries.
pub open spec fn field_of(entries: Seq<(String, JsonValue)>, key: Seq<char>) -> Option<JsonValue>
    decreases entries.len(),
{
    if entries.len() == 0 {
        None
    } else if entries[0].0@ == key {
        Some(entries[0].1)
    } else {
        field_of(entries.drop_first(), key)
    }
}

/// The value under `key` when `v` is an object.
pub open spec fn get(v: JsonValue, key: Seq<char>) -> Option<JsonValue> {
    match v {
        JsonValue::Object(entries) => field_of(entries@, key),
        _ => None,
    }
}

pub open spec fn array_of(v: Option<JsonValue>) -> Option<Seq<JsonValue>> {
    match v {
        Some(JsonValue::Array(items)) => Some(items@),
        _ => None,
    }
}

pub open spec fn object_of(v: Option<JsonValue>) -> Option<Seq<(String, JsonValue)>> {
    match v {
        Some(JsonValue::Object(entries)) => Some(entries@),
        _ => None,
    }
}

pub open spec fn str_of(v: Option<JsonValue>) -> Option<Seq<char>> {
    match v {
        Some(JsonValue::String(s)) => Some(s@),
        _ => None,
    }
}

pub open spec fn bool_of(v: Option<JsonValue>) -> Option<bool> {
    match v {
        Some(JsonValue::Bool(b)) => Some(b),
        _ => None,
    }
}

pub open spec fn u64_of(v: Option<JsonValue>) -> Option<u64> {
    match v {
        Some(JsonValue::Number(n)) => n,
        _ => None,
    }
}

/// The value under `key` in an object's entries.
pub fn find_field<'a>(entries: &'a Vec<(String, JsonValue)>, key: &str) -> (r: Option<&'a JsonValue>)
    ensures
        match r {
            Some(x) => field_of(entries@, key@) == Some(*x),
            None => field_of(entries@, key@) is None,
        },
{
    let mut i: usize = 0;
    assert(entries@.skip(0) =~= entries@);
    while i < entries.len()
        invariant
            i <= entries@.len(),
            field_of(entries@, key@) == field_of(entries@.skip(i as int), key@),
        decreases entries@.len() - i,
    {
        assert(entries@.skip(i as int)[0] == entries@[i as int]);
        if str_equal(entries[i].0.as_str(), key) {
            return Some(&entries[i].1);
        }
        assert(entries@.skip(i as int).drop_first() =~= entries@.skip(i + 1));
        i += 1;
    }
    None
}

/// The value under `key` when `v` is an object.
pub fn get_field<'a>(v: &'a JsonValue, key: &str) -> (r: Option<&'a JsonValue>)
    ensures
        match r {
            Some(x) => get(*v, key@) == Some(*x),
            None => get(*v, key@) is None,
        },
{
    match v {
        JsonValue::Object(entries) => find_field(entries, key),
        _ => None,
    }
}

/// The number of bytes of `s` in UTF-8.
pub open spec fn byte_len(s: Seq<char>) -> nat {
    utf8_len(s)
}

/// The deepest nesting that a project may use.
pub const MAX_DEPTH: usize = 32;

/// The longest string, in bytes, that a project may hold.
pub const MAX_STRING_BYTES: usize = 16 * 1024;

/// The first problem that makes a document unsafe to hand to the avatar
/// runtime: nesting deeper than 32 levels, a string of more than 16 KiB, an
/// object key that JavaScript treats specially, or a key of more than 256
/// bytes. Arrays and objects are checked in order, depth first.
pub open spec fn tree_error(v: JsonValue, depth: nat) -> Option<Seq<char>>
    decreases v, 0int,
{
    if depth > 32 {
        Some("project nesting exceeds 32"@)
    } else {
        match v {
            JsonValue::String(t) => if byte_len(t@) > 16384 {
                Some("project string exceeds 16384 bytes"@)
            } else {
                None
            },
            JsonValue::Array(items) => items_error(items@, 0, depth + 1),
            JsonValue::Object(entries) => entries_error(entries@, 0, depth + 1),
            _ => None,
        }
    }
}

pub open spec fn items_error(items: Seq<JsonValue>, from: int, depth: nat) -> Option<Seq<char>>
    decreases items, items.len() - from,
{
    if from < 0 || from >= items.len() {
        None
    } else {
        match tree_error(items[from], depth) {
            Some(m) => Some(m),
            None => items_error(items, from + 1, depth),
        }
    }
}

/// Whether JavaScript treats `key` specially.
pub open spec fn unsafe_key(key: Seq<char>) -> bool {
    key == "__proto__"@ || key == "prototype"@ || key == "constructor"@
}

pub open spec fn entries_error(entries: Seq<(String, JsonValue)>, from: int, depth: nat) -> Option<Seq<char>>
    decreases entries, entries.len() - from,
{
    if from < 0 || from >= entries.len() {
        None
    } else if unsafe_key(entries[from].0@) {
        Some("unsafe object key "@ + entries[from].0@)
    } else if byte_len(entries[from].0@) > 256 {
        Some("project object key is too long"@)
    } else {
        match tree_error(entries[from].1, depth) {
            Some(m) => Some(m),
            None => entries_error(entries, from + 1, depth),
        }
    }
}

/// Checks a document against `tree_error`.
pub fn validate_tree(value: &JsonValue, depth: usize) -> (r: Result<(), String>)
    ensures
        match tree_error(*value, depth as nat) {
            Some(m) => r matches Err(e) && e@ == m,
            None => r is Ok,
        },
    decreases *value, 0int,
{
    if depth > MAX_DEPTH {
        return Err("project nesting exceeds 32".to_owned());
    }
    match value {
        JsonValue::String(text) => {
            if utf8_len_exceeds(text.as_str(), MAX_STRING_BYTES) {
                Err("project string exceeds 16384 bytes".to_owned())
            } else {
                Ok(())
            }
        },
        JsonValue::Array(items) => {
            let mut i: usize = 0;
            while i < items.len()
                invariant
                    i <= items@.len(),
                    depth <= 32,
                    *value == JsonValue::Array(*items),
                    tree_error(*value, depth as nat) == items_error(items@, 0, (depth + 1) as nat),
                    items_error(items@, 0, (depth + 1) as nat) == items_error(items@, i as int, (depth + 1) as nat),
                decreases items@.len() - i,
            {
                assert(decreases_to!(*value => items@[i as int]));
                match validate_tree(&items[i], depth + 1) {
                    Err(e) => return Err(e),
                    Ok(()) => {},
                }
                i += 1;
            }
            Ok(())
        },
        JsonValue::Object(entries) => {
            let mut i: usize = 0;
            while i < entries.len()
                invariant
                    i <= entries@.len(),
                    depth <= 32,
                    *value == JsonValue::Object(*entries),
                    tree_error(*value, depth as nat) == entries_error(entries@, 0, (depth + 1) as nat),
                    entries_error(entries@, 0, (depth + 1) as nat) == entries_error(entries@, i as int, (depth + 1) as nat),
                decreases entries@.len() - i,
            {
                let key = &entries[i].0;
                if str_equal(key.as_str(), "__proto__") || str_equal(key.as_str(), "prototype")
                    || str_equal(key.as_str(), "constructor") {
                    return Err(concat_str("unsafe object key ", key.as_str()));
                }
                if utf8_len_exceeds(key.as_str(), 256) {
                    return Err("project object key is too long".to_owned());
                }
                assert(!unsafe_key(entries@[i as int].0@));
                assert(byte_len(entries@[i as int].0@) <= 256);
                assert(decreases_to!(*value => entries@[i as int].1));
                match validate_tree(&entries[i].1, depth + 1) {
                    Err(e) => return Err(e),
                    Ok(()) => {},
                }
                i += 1;
            }
            Ok(())
        },
        _ => Ok(()),
    }
}


/// What `UnicodeNormalization::nfd` from `unicode-normalization` yields for
/// `s`: its canonical decomposition.
pub uninterp spec fn nfd(s: Seq<char>) -> Seq<char>;

/// What `char::is_combining_mark` from `unicode-normalization` returns:
/// whether `c` has the general category Mark.
pub uninterp spec fn combining_mark(c: char) -> bool;

/// What `char::to_lowercase` from std yields for `c`.
pub uninterp spec fn lowercase(c: char) -> Seq<char>;

/// `UnicodeNormalization::nfd` from `unicode-normalization`, collected.
#[verifier::external_body]
fn nfd_chars(s: &str) -> (r: Vec<char>)
    ensures
        r@ == nfd(s@),
{
    unicode_normalization::UnicodeNormalization::nfd(s).collect()
}

/// `unicode_normalization::char::is_combining_mark`.
#[verifier::external_body]
fn is_combining_mark(c: char) -> (r: bool)
    ensures
        r == combining_mark(c),
{
    unicode_normalization::char::is_combining_mark(c)
}

/// `char::to_lowercase` from std, collected.
#[verifier::external_body]
fn lowercase_chars(c: char) -> (r: Vec<char>)
    ensures
        r@ == lowercase(c),
{
    c.to_lowercase().collect()
}

/// `s` without combining marks, each character lowercased.
pub open spec fn lowered(s: Seq<char>) -> Seq<char>
    decreases s.len(),
{
    if s.len() == 0 {
        s
    } else {
        lowered(s.drop_last()) + if combining_mark(s.last()) {
            Seq::<char>::empty()
        } else {
            lowercase(s.last())
        }
    }
}

pub open spec fn ascii_alphanumeric(c: char) -> bool {
    ('0' <= c && c <= '9') || ('a' <= c && c <= 'z') || ('A' <= c && c <= 'Z')
}

/// One character of slug building: an ASCII letter or digit is kept, a
/// `-` first when other characters came between it and the slug so far;
/// anything else only marks a separation.
pub open spec fn slug_step(state: (Seq<char>, bool), c: char) -> (Seq<char>, bool) {
    if ascii_alphanumeric(c) {
        (
            (if state.1 && state.0.len() > 0 {
                state.0.push('-')
            } else {
                state.0
            }).push(c),
            false,
        )
    } else {
        (state.0, true)
    }
}

pub open spec fn slug_state(l: Seq<char>) -> (Seq<char>, bool)
    decreases l.len(),
{
    if l.len() == 0 {
        (Seq::empty(), false)
    } else {
        slug_step(slug_state(l.drop_last()), l.last())
    }
}

/// The text an animation's slug comes from: the id of a built-in
/// animation, the name of another, `"animation"` when that is missing.
pub open spec fn slug_source(v: JsonValue) -> Seq<char> {
    let source = if bool_of(get(v, "builtIn"@)) == Some(true) {
        str_of(get(v, "id"@))
    } else {
        str_of(get(v, "name"@))
    };
    match source {
        Some(s) => s,
        None => "animation"@,
    }
}

/// The slug of an animation, `"animation"` when nothing is left.
pub open spec fn slug_base(v: JsonValue) -> Seq<char> {
    let b = slug_state(lowered(nfd(slug_source(v)))).0;
    if b.len() == 0 {
        "animation"@
    } else {
        b
    }
}

/// Text made only of ASCII letters and digits is its own slug, digits
/// included: nothing is dropped and no separator is added.
pub proof fn law_plain_text_is_its_own_slug(l: Seq<char>)
    requires
        forall|i: int| 0 <= i < l.len()
            ==> ('0' <= #[trigger] l[i] <= '9') || ('a' <= l[i] <= 'z') || ('A' <= l[i] <= 'Z'),
    ensures
        slug_state(l) == (l, false),
    decreases l.len(),
{
    if l.len() > 0 {
        let p = l.drop_last();
        assert forall|i: int| 0 <= i < p.len()
            implies ('0' <= #[trigger] p[i] <= '9') || ('a' <= p[i] <= 'z') || ('A' <= p[i] <= 'Z') by {
            assert(p[i] == l[i]);
        }
        law_plain_text_is_its_own_slug(p);
        assert(l[l.len() - 1] == l.last());
        assert(p.push(l.last()) =~= l);
    }
}

/// The slug keeps every ASCII letter and digit of the text, in order, and
/// nothing else but single `-` separators between runs of them: without
/// its separators it is exactly the text's letters and digits.
pub proof fn law_slug_keeps_letters_and_digits(l: Seq<char>)
    ensures
        slug_state(l).0.filter(|c: char| c != '-')
            == l.filter(|c: char| ('0' <= c <= '9') || ('a' <= c <= 'z') || ('A' <= c <= 'Z')),
        forall|i: int| 0 <= i < slug_state(l).0.len()
            ==> (#[trigger] slug_state(l).0[i] == '-') || ('0' <= slug_state(l).0[i] <= '9')
                || ('a' <= slug_state(l).0[i] <= 'z') || ('A' <= slug_state(l).0[i] <= 'Z'),
        slug_state(l).0.len() > 0 ==> slug_state(l).0[0] != '-'
            && slug_state(l).0[slug_state(l).0.len() - 1] != '-',
    decreases l.len(),
{
    reveal(Seq::filter);
    let dash = |c: char| c != '-';
    let keep = |c: char| ('0' <= c <= '9') || ('a' <= c <= 'z') || ('A' <= c <= 'Z');
    if l.len() > 0 {
        let p = l.drop_last();
        law_slug_keeps_letters_and_digits(p);
        let prev = slug_state(p);
        let c = l.last();
        if keep(c) {
            let mid = if prev.1 && prev.0.len() > 0 { prev.0.push('-') } else { prev.0 };
            assert(mid.push(c).drop_last() =~= mid);
            if prev.1 && prev.0.len() > 0 {
                assert(prev.0.push('-').drop_last() =~= prev.0);
                assert(mid.filter(dash) == prev.0.filter(dash));
            }
            assert(slug_state(l).0 == mid.push(c));
            assert(slug_state(l).0.filter(dash) == prev.0.filter(dash).push(c));
        } else {
            assert(slug_state(l).0 == prev.0);
        }
    } else {
        assert(slug_state(l).0 =~= Seq::<char>::empty());
    }
}

pub open spec fn suffixed(base: Seq<char>, k: nat) -> Seq<char> {
    base + "-"@ + decimal(k)
}

/// `k` is the first suffix from 2 on whose key is free.
pub open spec fn first_free_suffix(base: Seq<char>, used: Seq<Seq<char>>, k: nat) -> bool {
    &&& k >= 2
    &&& !used.contains(suffixed(base, k))
    &&& forall|j: nat| 2 <= j < k ==> used.contains(#[trigger] suffixed(base, j))
}

/// The key for `base` given the keys `used` so far: `base` itself when
/// free, else `base-2`, `base-3`, ... the first that is free.
pub open spec fn unique_key(base: Seq<char>, used: Seq<Seq<char>>) -> Seq<char> {
    if !used.contains(base) {
        base
    } else {
        suffixed(base, choose|k: nat| first_free_suffix(base, used, k))
    }
}

/// An animation whose name (the id of a built-in one), once decomposed and
/// lowercased, is only ASCII letters and digits is keyed by that text when
/// the key is free: `"Walk2"` gives `"walk2"`.
pub proof fn law_plain_name_keys_itself(v: JsonValue, used: Seq<Seq<char>>)
    requires
        lowered(nfd(slug_source(v))).len() > 0,
        forall|i: int| 0 <= i < lowered(nfd(slug_source(v))).len()
            ==> ('0' <= #[trigger] lowered(nfd(slug_source(v)))[i] <= '9')
                || ('a' <= lowered(nfd(slug_source(v)))[i] <= 'z')
                || ('A' <= lowered(nfd(slug_source(v)))[i] <= 'Z'),
        !used.contains(lowered(nfd(slug_source(v)))),
    ensures
        slug_base(v) == lowered(nfd(slug_source(v))),
        unique_key(slug_base(v), used) == lowered(nfd(slug_source(v))),
{
    law_plain_text_is_its_own_slug(lowered(nfd(slug_source(v))));
}

/// The keys of an avatar's animations, in order.
pub open spec fn animation_keys(sequences: Seq<JsonValue>) -> Seq<Seq<char>>
    decreases sequences.len(),
{
    if sequences.len() == 0 {
        Seq::empty()
    } else {
        let before = animation_keys(sequences.drop_last());
        before.push(unique_key(slug_base(sequences.last()), before))
    }
}

/// If the keys `base-2` up to `base-(m-1)` are all taken, there are at
/// least `m - 2` keys.
proof fn lemma_taken_suffixes_fit(base: Seq<char>, used: Seq<Seq<char>>, m: nat)
    requires
        m >= 2,
        forall|j: nat| 2 <= j < m ==> used.contains(#[trigger] suffixed(base, j)),
    ensures
        m - 2 <= used.len(),
{
    reveal_strlit("-");
    let dom = vstd::set_lib::set_int_range(2, m as int);
    let f = |j: int| used.index_of(suffixed(base, j as nat));
    let range = vstd::set_lib::set_int_range(0, used.len() as int);
    vstd::set_lib::lemma_int_range(2, m as int);
    vstd::set_lib::lemma_int_range(0, used.len() as int);
    assert forall|a: int, b: int| dom.contains(a) && dom.contains(b) && #[trigger] f(a) == #[trigger] f(b) implies a == b by {
        assert(used.contains(suffixed(base, a as nat)));
        assert(used.contains(suffixed(base, b as nat)));
        let sa = suffixed(base, a as nat);
        let sb = suffixed(base, b as nat);
        assert(used[f(a)] == sa);
        assert(used[f(b)] == sb);
        let cut = base.len() + 1;
        assert(sa.skip(cut as int) =~= decimal(a as nat));
        assert(sb.skip(cut as int) =~= decimal(b as nat));
        lemma_decimal_injective(a as nat, b as nat);
    }
    let image = dom.map(f);
    vstd::set_lib::lemma_map_size(dom, image, f);
    assert forall|i: int| image.contains(i) implies range.contains(i) by {
        let j = choose|j: int| dom.contains(j) && f(j) == i;
        assert(used.contains(suffixed(base, j as nat)));
    }
    vstd::set_lib::lemma_len_subset(image, range);
}

fn listed_key(used: &Vec<String>, key: &String) -> (r: bool)
    ensures
        r == used@.map_values(|u: String| u@).contains(key@),
{
    let ghost views = used@.map_values(|u: String| u@);
    for i in 0..used.len()
        invariant
            views == used@.map_values(|u: String| u@),
            forall|j: int| 0 <= j < i ==> views[j] != key@,
    {
        if str_equal(used[i].as_str(), key.as_str()) {
            assert(views[i as int] == key@);
            return true;
        }
    }
    false
}

/// The key for `base` given the keys `used` so far.
fn pick_key(base: String, used: &Vec<String>) -> (r: String)
    requires
        used@.len() < usize::MAX - 2,
    ensures
        r@ == unique_key(base@, used@.map_values(|u: String| u@)),
{
    let ghost views = used@.map_values(|u: String| u@);
    if !listed_key(used, &base) {
        return base;
    }
    proof {
        reveal_strlit("-");
    }
    let mut suffix: usize = 2;
    let mut key = concat_str(concat_str(base.as_str(), "-").as_str(), decimal_string(2).as_str());
    while listed_key(used, &key)
        invariant
            2 <= suffix <= used@.len() + 2,
            used@.len() < usize::MAX - 2,
            views == used@.map_values(|u: String| u@),
            views.len() == used@.len(),
            key@ == suffixed(base@, suffix as nat),
            forall|j: nat| 2 <= j < suffix ==> views.contains(#[trigger] suffixed(base@, j)),
        decreases used@.len() + 2 - suffix,
    {
        proof {
            assert forall|j: nat| 2 <= j < suffix + 1 implies views.contains(#[trigger] suffixed(base@, j)) by {
                if j == suffix {
                    assert(views.contains(key@));
                }
            }
            lemma_taken_suffixes_fit(base@, views, (suffix + 1) as nat);
        }
        suffix = suffix + 1;
        key = concat_str(concat_str(base.as_str(), "-").as_str(), decimal_string(suffix as u64).as_str());
    }
    proof {
        assert(first_free_suffix(base@, views, suffix as nat));
        let k = choose|k: nat| first_free_suffix(base@, views, k);
        if k < suffix {
            assert(views.contains(suffixed(base@, k)));
        } else if k > suffix {
            assert(views.contains(suffixed(base@, suffix as nat)));
        }
    }
    key
}


/// The slug of one animation.
fn slug_of(v: &JsonValue) -> (r: String)
    ensures
        r@ == slug_base(*v),
{
    let built_in = match get_field(v, "builtIn") {
        Some(JsonValue::Bool(b)) => *b,
        _ => false,
    };
    let picked = if built_in {
        get_field(v, "id")
    } else {
        get_field(v, "name")
    };
    let source: &str = match picked {
        Some(JsonValue::String(s)) => s.as_str(),
        _ => "animation",
    };
    assert(source@ == slug_source(*v));
    let decomposed = nfd_chars(source);
    let mut base: Vec<char> = Vec::new();
    let mut separator = false;
    assert(decomposed@.take(0) =~= Seq::<char>::empty());
    for i in 0..decomposed.len()
        invariant
            (base@, separator) == slug_state(lowered(decomposed@.take(i as int))),
    {
        let c = decomposed[i];
        assert(decomposed@.take(i + 1).drop_last() =~= decomposed@.take(i as int));
        if !is_combining_mark(c) {
            let lows = lowercase_chars(c);
            let ghost start = lowered(decomposed@.take(i as int));
            assert(start + lows@.take(0) =~= start);
            for j in 0..lows.len()
                invariant
                    (base@, separator) == slug_state(start + lows@.take(j as int)),
            {
                let l = lows[j];
                assert((start + lows@.take(j + 1)).drop_last() =~= start + lows@.take(j as int));
                if ('0' <= l && l <= '9') || ('a' <= l && l <= 'z') || ('A' <= l && l <= 'Z') {
                    if separator && base.len() > 0 {
                        base.push('-');
                    }
                    separator = false;
                    base.push(l);
                } else {
                    separator = true;
                }
            }
            assert(lows@.take(lows@.len() as int) =~= lows@);
        } else {
            assert(lowered(decomposed@.take(i + 1)) =~= lowered(decomposed@.take(i as int)));
        }
    }
    assert(decomposed@.take(decomposed@.len() as int) =~= decomposed@);
    if base.len() == 0 {
        return "animation".to_owned();
    }
    string_of(&base)
}

/// The key of one animation given the keys `used` so far, which it joins.
pub fn animation_key(value: &JsonValue, used: &mut Vec<String>) -> (r: String)
    requires
        old(used)@.len() < usize::MAX - 2,
    ensures
        r@ == unique_key(slug_base(*value), old(used)@.map_values(|u: String| u@)),
        final(used)@ == old(used)@.push(r),
{
    let base = slug_of(value);
    let key = pick_key(base, used);
    used.push(key.clone());
    key
}

/// The keys of an avatar's animations, in order.
fn animation_keys_of(sequences: &Vec<JsonValue>) -> (r: Vec<String>)
    requires
        sequences@.len() < usize::MAX - 2,
    ensures
        r@.map_values(|u: String| u@) == animation_keys(sequences@),
{
    let mut used: Vec<String> = Vec::new();
    assert(sequences@.take(0) =~= Seq::<JsonValue>::empty());
    assert(used@.map_values(|u: String| u@) =~= Seq::<Seq<char>>::empty());
    for i in 0..sequences.len()
        invariant
            sequences@.len() < usize::MAX - 2,
            used@.len() == i,
            used@.map_values(|u: String| u@) == animation_keys(sequences@.take(i as int)),
    {
        let ghost before = used@;
        let key = animation_key(&sequences[i], &mut used);
        assert(sequences@.take(i + 1).drop_last() =~= sequences@.take(i as int));
        assert(used@.map_values(|u: String| u@) =~= before.map_values(|u: String| u@).push(key@));
    }
    assert(sequences@.take(sequences@.len() as int) =~= sequences@);
    used
}


/// Limits of a project.
pub const MAX_PROJECT_BYTES: usize = 5 * 1024 * 1024;
pub const MAX_AVATARS: usize = 64;
pub const MAX_EXPRESSIONS: usize = 512;
pub const MAX_ANIMATIONS: usize = 256;
pub const MAX_STEPS_PER_ANIMATION: usize = 512;
pub const MAX_TOTAL_STEPS: usize = 8_192;

/// The steps of the animations from `i` on, added to `steps`, or the first
/// problem: an animation without steps, more than 512 steps in one, or more
/// than 8192 in all.
pub open spec fn steps_from(seqs: Seq<JsonValue>, i: int, steps: nat) -> Result<nat, Seq<char>>
    decreases seqs.len() - i,
{
    if i < 0 || i >= seqs.len() {
        Ok(steps)
    } else {
        match array_of(get(seqs[i], "steps"@)) {
            None => Err("animation is missing steps"@),
            Some(st) => if st.len() > 512 {
                Err("animation contains more than 512 steps"@)
            } else if steps + st.len() > 8192 {
                Err("project contains more than 8192 total steps"@)
            } else {
                steps_from(seqs, i + 1, steps + st.len())
            },
        }
    }
}

/// The number of animations and of their steps, or the first problem.
pub open spec fn sequence_stats_spec(seqs: Seq<JsonValue>) -> Result<(nat, nat), Seq<char>> {
    if seqs.len() > 256 {
        Err("project contains more than 256 animations"@)
    } else {
        match steps_from(seqs, 0, 0) {
            Ok(steps) => Ok((seqs.len(), steps)),
            Err(e) => Err(e),
        }
    }
}

pub fn sequence_stats(sequences: &Vec<JsonValue>) -> (r: Result<(usize, usize), String>)
    ensures
        match sequence_stats_spec(sequences@) {
            Ok((count, steps)) => r matches Ok((c, s)) && c == count && s == steps,
            Err(m) => r matches Err(e) && e@ == m,
        },
        r matches Ok((c, s)) ==> c <= 256 && s <= 8192,
{
    if sequences.len() > MAX_ANIMATIONS {
        return Err("project contains more than 256 animations".to_owned());
    }
    let mut steps: usize = 0;
    let mut i: usize = 0;
    while i < sequences.len()
        invariant
            i <= sequences@.len(),
            sequences@.len() <= 256,
            steps <= 8192,
            steps_from(sequences@, 0, 0) == steps_from(sequences@, i as int, steps as nat),
        decreases sequences@.len() - i,
    {
        let count = match get_field(&sequences[i], "steps") {
            Some(JsonValue::Array(items)) => items.len(),
            _ => return Err("animation is missing steps".to_owned()),
        };
        if count > MAX_STEPS_PER_ANIMATION {
            return Err("animation contains more than 512 steps".to_owned());
        }
        steps = steps + count;
        if steps > MAX_TOTAL_STEPS {
            return Err("project contains more than 8192 total steps".to_owned());
        }
        i += 1;
    }
    Ok((sequences.len(), steps))
}

/// A non-empty string of at most 256 bytes under `field`, or the error
/// that names the field.
pub open spec fn string_field_spec(v: JsonValue, field: Seq<char>) -> Result<Seq<char>, Seq<char>> {
    match str_of(get(v, field)) {
        Some(s) => if s.len() > 0 && byte_len(s) <= 256 {
            Ok(s)
        } else {
            Err("invalid or missing "@ + field)
        },
        None => Err("invalid or missing "@ + field),
    }
}

fn string_field(v: &JsonValue, field: &str) -> (r: Result<String, String>)
    ensures
        match string_field_spec(*v, field@) {
            Ok(s) => r matches Ok(t) && t@ == s,
            Err(m) => r matches Err(e) && e@ == m,
        },
{
    match get_field(v, field) {
        Some(JsonValue::String(s)) => {
            if !s.as_str().is_empty() && !utf8_len_exceeds(s.as_str(), 256) {
                return Ok(s.clone());
            }
        },
        _ => {},
    }
    Err(concat_str("invalid or missing ", field))
}


/// What `Sha256::digest` from `sha2` gives for the UTF-8 bytes of `s`.
pub uninterp spec fn sha256_digest(s: Seq<char>) -> Seq<u8>;

/// `Sha256::digest` from `sha2` of the UTF-8 bytes of `source`: 32 bytes.
#[verifier::external_body]
fn sha256_of(source: &str) -> (r: Vec<u8>)
    ensures
        r@ == sha256_digest(source@),
        r@.len() == 32,
{
    sha2::Sha256::digest(source.as_bytes()).to_vec()
}

/// Bytes written as lowercase hexadecimal, two digits each, the high one
/// first.
pub open spec fn hex_bytes(b: Seq<u8>) -> Seq<char>
    decreases b.len(),
{
    if b.len() == 0 {
        Seq::empty()
    } else {
        hex_bytes(b.drop_last()) + seq![hex_digit(b.last() as int / 16), hex_digit(b.last() as int % 16)]
    }
}

/// The SHA-256 digest of the UTF-8 bytes of `s` in lowercase hexadecimal.
pub open spec fn sha256_hex(s: Seq<char>) -> Seq<char> {
    hex_bytes(sha256_digest(s))
}

pub open spec fn lower_hex_digit(c: char) -> bool {
    ('0' <= c && c <= '9') || ('a' <= c && c <= 'f')
}

fn hex_digit_char(n: u8) -> (r: char)
    requires
        n < 16,
    ensures
        r == hex_digit(n as int),
        lower_hex_digit(r),
{
    let digits: [char; 16] = ['0', '1', '2', '3', '4', '5', '6', '7', '8', '9', 'a', 'b', 'c', 'd', 'e', 'f'];
    assert(digits@ =~= seq!['0', '1', '2', '3', '4', '5', '6', '7', '8', '9', 'a', 'b', 'c', 'd', 'e', 'f']);
    digits[n as usize]
}

/// The SHA-256 digest of `source`, as `format!("{:x}", ..)` writes it: 64
/// lowercase hexadecimal digits.
fn content_hash(source: &str) -> (r: String)
    ensures
        r@ == sha256_hex(source@),
        r@.len() == 64,
        forall|i: int| 0 <= i < r@.len() ==> lower_hex_digit(#[trigger] r@[i]),
{
    let digest = sha256_of(source);
    let mut out = String::new();
    let mut i: usize = 0;
    while i < digest.len()
        invariant
            i <= digest@.len(),
            digest@.len() == 32,
            digest@ == sha256_digest(source@),
            out@ == hex_bytes(digest@.take(i as int)),
            out@.len() == 2 * i,
            forall|k: int| 0 <= k < out@.len() ==> lower_hex_digit(#[trigger] out@[k]),
        decreases digest@.len() - i,
    {
        let b = digest[i];
        let high = hex_digit_char(b / 16);
        let low = hex_digit_char(b % 16);
        push_char(&mut out, high);
        push_char(&mut out, low);
        proof {
            assert(digest@.take(i + 1).drop_last() =~= digest@.take(i as int));
            assert(digest@.take(i + 1).last() == b);
        }
        i += 1;
    }
    assert(digest@.take(32) =~= digest@);
    out
}

/// An avatar of a project: its id, name and animation keys.
#[derive(Debug, Clone, PartialEq, Eq)]
pub struct AvatarProjectAvatarSummary {
    pub id: String,
    pub name: String,
    pub animation_keys: Vec<String>,
}

/// What inspecting a project found.
#[derive(Debug, Clone, PartialEq, Eq)]
pub struct AvatarProjectInspection {
    pub version: u32,
    pub content_hash: String,
    pub size_bytes: usize,
    pub display_name: String,
    pub avatars: Vec<AvatarProjectAvatarSummary>,
    pub expression_count: usize,
    pub animation_count: usize,
    pub total_steps: usize,
}

/// An avatar summary as plain values.
pub struct SummarySpec {
    pub id: Seq<char>,
    pub name: Seq<char>,
    pub keys: Seq<Seq<char>>,
}

pub open spec fn summary_view(s: AvatarProjectAvatarSummary) -> SummarySpec {
    SummarySpec { id: s.id@, name: s.name@, keys: s.animation_keys@.map_values(|u: String| u@) }
}

/// The running totals while avatars are read.
pub struct Tally {
    pub expressions: nat,
    pub animations: nat,
    pub steps: nat,
    pub summaries: Seq<SummarySpec>,
}

pub open spec fn id_seen(summaries: Seq<SummarySpec>, id: Seq<char>) -> bool {
    exists|j: int| 0 <= j < summaries.len() && #[trigger] summaries[j].id == id
}

/// The animations an avatar plays: its own when it has a behaviour with
/// an animation list, else the project's.
pub open spec fn avatar_sequences(avatar: JsonValue, base: Seq<JsonValue>) -> Seq<JsonValue> {
    match object_of(get(avatar, "behavior"@)) {
        Some(b) => match array_of(field_of(b, "sequences"@)) {
            Some(s) => s,
            None => base,
        },
        None => base,
    }
}

/// Reads one avatar into the tally, or finds its first problem.
pub open spec fn avatar_step(avatar: JsonValue, base: Seq<JsonValue>, t: Tally) -> Result<Tally, Seq<char>> {
    match string_field_spec(avatar, "id"@) {
        Err(e) => Err(e),
        Ok(id) => if id_seen(t.summaries, id) {
            Err("duplicate avatar id "@ + id)
        } else {
            match string_field_spec(avatar, "name"@) {
                Err(e) => Err(e),
                Ok(name) => {
                    let behavior = object_of(get(avatar, "behavior"@));
                    let sequences = avatar_sequences(avatar, base);
                    let own = match behavior {
                        Some(b) => array_of(field_of(b, "expressions"@)),
                        None => None,
                    };
                    let summary = SummarySpec { id, name, keys: animation_keys(sequences) };
                    if own matches Some(e) && (e.len() == 0 || e.len() > 512) {
                        Err("avatar "@ + id + " has an invalid expression library"@)
                    } else {
                        let expressions = t.expressions + match own {
                            Some(e) => e.len(),
                            None => 0,
                        };
                        if behavior is Some {
                            match sequence_stats_spec(sequences) {
                                Err(e) => Err(e),
                                Ok((count, steps)) => if t.steps + steps > 8192 {
                                    Err("project contains more than 8192 total steps"@)
                                } else {
                                    Ok(Tally {
                                        expressions,
                                        animations: t.animations + count,
                                        steps: t.steps + steps,
                                        summaries: t.summaries.push(summary),
                                    })
                                },
                            }
                        } else {
                            Ok(Tally { expressions, animations: t.animations, steps: t.steps, summaries: t.summaries.push(summary) })
                        }
                    }
                },
            }
        },
    }
}

pub open spec fn avatars_from(avatars: Seq<JsonValue>, base: Seq<JsonValue>, i: int, t: Tally) -> Result<Tally, Seq<char>>
    decreases avatars.len() - i,
{
    if i < 0 || i >= avatars.len() {
        Ok(t)
    } else {
        match avatar_step(avatars[i], base, t) {
            Err(e) => Err(e),
            Ok(next) => avatars_from(avatars, base, i + 1, next),
        }
    }
}

/// What a project holds, as plain values.
pub struct InspectionSpec {
    pub display_name: Seq<char>,
    pub avatars: Seq<SummarySpec>,
    pub expressions: nat,
    pub animations: nat,
    pub steps: nat,
}

/// Why a project's text is refused before it is read: it is empty, or
/// larger than 5 MiB.
pub open spec fn source_rejection(source: Seq<char>) -> Option<Seq<char>> {
    if source.len() == 0 {
        Some("Avatar Studio project is empty"@)
    } else if utf8_len(source) > 5242880 {
        Some("Avatar Studio project exceeds 5242880 bytes"@)
    } else {
        None
    }
}

/// The shown name of a project: its avatar's name, or the first avatar's
/// name and how many more there are.
pub open spec fn display_name_of(summaries: Seq<SummarySpec>) -> Seq<char> {
    if summaries.len() == 1 {
        summaries[0].name
    } else {
        summaries[0].name + " + "@ + decimal((summaries.len() - 1) as nat)
    }
}

/// What inspecting the project text `source`, parsed as `parsed`, finds,
/// or the first reason to refuse it.
pub open spec fn inspection_of(source: Seq<char>, parsed: Result<JsonValue, Seq<char>>) -> Result<InspectionSpec, Seq<char>> {
    match source_rejection(source) {
        Some(m) => Err(m),
        None => match parsed {
            Err(e) => Err("invalid JSON: "@ + e),
            Ok(doc) => match tree_error(doc, 0) {
                Some(m) => Err(m),
                None => if u64_of(get(doc, "version"@)) != Some(2u64) {
                    Err("unsupported Avatar Studio project version"@)
                } else {
                    match object_of(get(doc, "library"@)) {
                        None => Err("project is missing library"@),
                        Some(library) => match array_of(field_of(library, "avatars"@)) {
                            None => Err("project contains no avatars"@),
                            Some(avatars) => if avatars.len() == 0 {
                                Err("project contains no avatars"@)
                            } else if avatars.len() > 64 {
                                Err("project contains more than 64 avatars"@)
                            } else {
                                match array_of(get(doc, "expressions"@)) {
                                    None => Err("project contains no expressions"@),
                                    Some(expressions) => if expressions.len() == 0 {
                                        Err("project contains no expressions"@)
                                    } else if expressions.len() > 512 {
                                        Err("project contains more than 512 expressions"@)
                                    } else {
                                        match array_of(get(doc, "sequences"@)) {
                                            None => Err("project is missing animations"@),
                                            Some(base) => match sequence_stats_spec(base) {
                                                Err(e) => Err(e),
                                                Ok((count, steps)) => match avatars_from(
                                                    avatars,
                                                    base,
                                                    0,
                                                    Tally { expressions: expressions.len(), animations: count, steps, summaries: Seq::empty() },
                                                ) {
                                                    Err(e) => Err(e),
                                                    Ok(t) => if t.expressions > 32768 {
                                                        Err("project contains too many avatar-specific expressions"@)
                                                    } else {
                                                        Ok(InspectionSpec {
                                                            display_name: display_name_of(t.summaries),
                                                            avatars: t.summaries,
                                                            expressions: t.expressions,
                                                            animations: t.animations,
                                                            steps: t.steps,
                                                        })
                                                    },
                                                },
                                            },
                                        }
                                    },
                                }
                            },
                        },
                    }
                },
            },
        },
    }
}

/// Refuses an empty project text or one larger than 5 MiB.
pub fn check_source(source: &str) -> (r: Result<(), String>)
    ensures
        match source_rejection(source@) {
            Some(m) => r matches Err(e) && e@ == m,
            None => r is Ok,
        },
{
    if source.is_empty() {
        return Err("Avatar Studio project is empty".to_owned());
    }
    if utf8_len_exceeds(source, MAX_PROJECT_BYTES) {
        return Err("Avatar Studio project exceeds 5242880 bytes".to_owned());
    }
    Ok(())
}


pub open spec fn tally_of(expressions: nat, animations: nat, steps: nat, summaries: Seq<AvatarProjectAvatarSummary>) -> Tally {
    Tally { expressions, animations, steps, summaries: summaries.map_values(|s: AvatarProjectAvatarSummary| summary_view(s)) }
}

fn id_taken(summaries: &Vec<AvatarProjectAvatarSummary>, id: &String) -> (r: bool)
    ensures
        r == id_seen(summaries@.map_values(|s: AvatarProjectAvatarSummary| summary_view(s)), id@),
{
    let ghost views = summaries@.map_values(|s: AvatarProjectAvatarSummary| summary_view(s));
    for i in 0..summaries.len()
        invariant
            views == summaries@.map_values(|s: AvatarProjectAvatarSummary| summary_view(s)),
            forall|j: int| 0 <= j < i ==> #[trigger] views[j].id != id@,
    {
        if str_equal(summaries[i].id.as_str(), id.as_str()) {
            assert(views[i as int].id == id@);
            return true;
        }
    }
    false
}

/// Reads one avatar: adds its summary to `summaries` and returns the new
/// totals of expressions, animations and steps, or the avatar's first problem.
fn read_avatar(
    avatar: &JsonValue,
    base: &Vec<JsonValue>,
    expressions: usize,
    animations: usize,
    steps: usize,
    summaries: &mut Vec<AvatarProjectAvatarSummary>,
) -> (r: Result<(usize, usize, usize), String>)
    requires
        base@.len() <= 256,
        expressions <= 40000,
        animations <= 20000,
        steps <= 8192,
    ensures
        match avatar_step(*avatar, base@, tally_of(expressions as nat, animations as nat, steps as nat, old(summaries)@)) {
            Err(m) => r matches Err(e) && e@ == m,
            Ok(t) => r matches Ok((e, a, st)) && t == tally_of(e as nat, a as nat, st as nat, final(summaries)@)
                && e <= expressions + 512 && a <= animations + 256 && st <= 8192
                && final(summaries)@.len() == old(summaries)@.len() + 1,
        },
{
    let id = match string_field(avatar, "id") {
        Ok(id) => id,
        Err(e) => return Err(e),
    };
    if id_taken(summaries, &id) {
        return Err(concat_str("duplicate avatar id ", id.as_str()));
    }
    let name = match string_field(avatar, "name") {
        Ok(name) => name,
        Err(e) => return Err(e),
    };
    let behavior: Option<&Vec<(String, JsonValue)>> = match get_field(avatar, "behavior") {
        Some(JsonValue::Object(entries)) => Some(entries),
        _ => None,
    };
    let sequences: &Vec<JsonValue> = match behavior {
        Some(b) => match find_field(b, "sequences") {
            Some(JsonValue::Array(items)) => items,
            _ => base,
        },
        None => base,
    };
    assert(sequences@ == avatar_sequences(*avatar, base@));
    let own: Option<&Vec<JsonValue>> = match behavior {
        Some(b) => match find_field(b, "expressions") {
            Some(JsonValue::Array(items)) => Some(items),
            _ => None,
        },
        None => None,
    };
    let mut new_expressions = expressions;
    match own {
        Some(e) => {
            if e.len() == 0 || e.len() > MAX_EXPRESSIONS {
                let head = concat_str("avatar ", id.as_str());
                return Err(concat_str(head.as_str(), " has an invalid expression library"));
            }
            new_expressions = expressions + e.len();
        },
        None => {},
    }
    let mut new_animations = animations;
    let mut new_steps = steps;
    if behavior.is_some() {
        match sequence_stats(sequences) {
            Err(e) => return Err(e),
            Ok((count, more)) => {
                new_animations = animations + count;
                new_steps = steps + more;
                if new_steps > MAX_TOTAL_STEPS {
                    return Err("project contains more than 8192 total steps".to_owned());
                }
            },
        }
    }
    assert(sequences@.len() <= 256);
    let keys = animation_keys_of(sequences);
    let ghost before = summaries@;
    summaries.push(AvatarProjectAvatarSummary { id, name, animation_keys: keys });
    assert(summaries@.map_values(|s: AvatarProjectAvatarSummary| summary_view(s)) =~= before.map_values(
        |s: AvatarProjectAvatarSummary| summary_view(s),
    ).push(summary_view(summaries@.last())));
    Ok((new_expressions, new_animations, new_steps))
}


/// `i` is what inspecting `source` reports for the contents `g`.
pub open spec fn inspection_matches(i: AvatarProjectInspection, g: InspectionSpec, source: Seq<char>) -> bool {
    &&& i.version == 2
    &&& i.content_hash@ == sha256_hex(source)
    &&& i.content_hash@.len() == 64
    &&& forall|j: int| 0 <= j < i.content_hash@.len() ==> lower_hex_digit(#[trigger] i.content_hash@[j])
    &&& i.size_bytes == utf8_len(source)
    &&& i.display_name@ == g.display_name
    &&& i.avatars@.map_values(|s: AvatarProjectAvatarSummary| summary_view(s)) == g.avatars
    &&& i.expression_count == g.expressions
    &&& i.animation_count == g.animations
    &&& i.total_steps == g.steps
}

/// Inspects an Avatar Studio project from its text `source` and the JSON
/// document parsed from it (or the parser's error message).
pub fn inspect_parsed(source: &str, parsed: Result<JsonValue, String>) -> (r: Result<AvatarProjectInspection, String>)
    ensures
        match inspection_of(source@, parsed_view(parsed)) {
            Err(m) => r matches Err(e) && e@ == m,
            Ok(g) => r matches Ok(i) && inspection_matches(i, g, source@),
        },
{
    match check_source(source) {
        Err(e) => return Err(e),
        Ok(()) => {},
    }
    let document = match parsed {
        Err(e) => return Err(concat_str("invalid JSON: ", e.as_str())),
        Ok(d) => d,
    };
    match validate_tree(&document, 0) {
        Err(e) => return Err(e),
        Ok(()) => {},
    }
    match get_field(&document, "version") {
        Some(JsonValue::Number(Some(2))) => {},
        _ => return Err("unsupported Avatar Studio project version".to_owned()),
    }
    let library = match get_field(&document, "library") {
        Some(JsonValue::Object(entries)) => entries,
        _ => return Err("project is missing library".to_owned()),
    };
    let avatars = match find_field(library, "avatars") {
        Some(JsonValue::Array(items)) => items,
        _ => return Err("project contains no avatars".to_owned()),
    };
    if avatars.len() == 0 {
        return Err("project contains no avatars".to_owned());
    }
    if avatars.len() > MAX_AVATARS {
        return Err("project contains more than 64 avatars".to_owned());
    }
    let base_expressions = match get_field(&document, "expressions") {
        Some(JsonValue::Array(items)) => items,
        _ => return Err("project contains no expressions".to_owned()),
    };
    if base_expressions.len() == 0 {
        return Err("project contains no expressions".to_owned());
    }
    if base_expressions.len() > MAX_EXPRESSIONS {
        return Err("project contains more than 512 expressions".to_owned());
    }
    let base = match get_field(&document, "sequences") {
        Some(JsonValue::Array(items)) => items,
        _ => return Err("project is missing animations".to_owned()),
    };
    let (count, steps) = match sequence_stats(base) {
        Err(e) => return Err(e),
        Ok(stats) => stats,
    };
    let mut expression_count = base_expressions.len();
    let mut animation_count = count;
    let mut total_steps = steps;
    let mut summaries: Vec<AvatarProjectAvatarSummary> = Vec::new();
    let ghost start = Tally {
        expressions: base_expressions@.len(),
        animations: count as nat,
        steps: steps as nat,
        summaries: Seq::empty(),
    };
    assert(summaries@.map_values(|s: AvatarProjectAvatarSummary| summary_view(s)) =~= Seq::<SummarySpec>::empty());
    assert(tally_of(expression_count as nat, animation_count as nat, total_steps as nat, summaries@) == start);
    let mut i: usize = 0;
    #[verifier::loop_isolation(false)]
    while i < avatars.len()
        invariant
            i <= avatars@.len(),
            avatars@.len() <= 64,
            base@.len() <= 256,
            expression_count <= 512 + 512 * i,
            animation_count <= 256 + 256 * i,
            total_steps <= 8192,
            summaries@.len() == i,
            avatars_from(avatars@, base@, 0, start) == avatars_from(
                avatars@,
                base@,
                i as int,
                tally_of(expression_count as nat, animation_count as nat, total_steps as nat, summaries@),
            ),
        decreases avatars@.len() - i,
    {
        match read_avatar(&avatars[i], base, expression_count, animation_count, total_steps, &mut summaries) {
            Err(e) => return Err(e),
            Ok((e, a, st)) => {
                expression_count = e;
                animation_count = a;
                total_steps = st;
            },
        }
        i += 1;
    }
    if expression_count > MAX_EXPRESSIONS * MAX_AVATARS {
        return Err("project contains too many avatar-specific expressions".to_owned());
    }
    let ghost views = summaries@.map_values(|s: AvatarProjectAvatarSummary| summary_view(s));
    let display_name = if summaries.len() == 1 {
        summaries[0].name.clone()
    } else {
        let head = concat_str(summaries[0].name.as_str(), " + ");
        concat_str(head.as_str(), decimal_string((summaries.len() - 1) as u64).as_str())
    };
    let content_hash = content_hash(source);
    proof {
        lemma_utf8_len_is_encoding_len(source@);
    }
    let size_bytes = source.len();
    Ok(AvatarProjectInspection {
        version: 2,
        content_hash,
        size_bytes,
        display_name,
        avatars: summaries,
        expression_count,
        animation_count,
        total_steps,
    })
}

/// Inspects an Avatar Studio project from its text: an empty or too large
/// text is refused before it is parsed as JSON.
pub fn inspect(source: &str) -> (r: Result<AvatarProjectInspection, String>)
    ensures
        match inspection_of(source@, json_document(source@)) {
            Err(m) => r matches Err(e) && e@ == m,
            Ok(g) => r matches Ok(i) && inspection_matches(i, g, source@),
        },
{
    match check_source(source) {
        Err(e) => return Err(e),
        Ok(()) => {},
    }
    let parsed = parse_json(source);
    inspect_parsed(source, parsed)
}

} // verus!
