//! Character-level text helpers shared by the rest of the library.

use vstd::prelude::*;

verus! {

/// `String::push` from std: appends one character.
#[verifier::external_body]
pub(crate) fn push_char(s: &mut String, c: char)
    ensures
        final(s)@ == old(s)@.push(c),
{
    s.push(c);
}

/// The characters of `s`, in order.
pub fn chars_of(s: &str) -> (v: Vec<char>)
    ensures
        v@ == s@,
{
    let mut v: Vec<char> = Vec::new();
    for c in it: s.chars()
        invariant
            v@ == it.seq().take(it.index() as int),
            it.seq() == s@,
    {
        v.push(c);
    }
    v
}

/// A string made of the characters of `v`, in order.
pub fn string_of(v: &Vec<char>) -> (s: String)
    ensures
        s@ == v@,
{
    let mut s = String::new();
    for i in 0..v.len()
        invariant
            s@ == v@.take(i as int),
    {
        push_char(&mut s, v[i]);
        assert(v@.take(i + 1) == v@.take(i as int).push(v@[i as int]));
    }
    assert(v@.take(v.len() as int) == v@);
    s
}


/// A copy of an optional string.
pub fn clone_option(o: &Option<String>) -> (r: Option<String>)
    ensures
        r == *o,
{
    match o {
        Some(s) => Some(s.clone()),
        None => None,
    }
}

/// Strict lexicographic order on character sequences, character by
/// character by code point. For valid strings it is the order of their UTF-8
/// bytes, which is how `str` compares.
pub open spec fn lex_lt(a: Seq<char>, b: Seq<char>) -> bool
    decreases a.len(),
{
    if b.len() == 0 {
        false
    } else if a.len() == 0 {
        true
    } else if a[0] != b[0] {
        (a[0] as u32) < (b[0] as u32)
    } else {
        lex_lt(a.drop_first(), b.drop_first())
    }
}

/// `lex_lt` is transitive.
pub proof fn lemma_lex_lt_transitive(a: Seq<char>, b: Seq<char>, c: Seq<char>)
    requires
        lex_lt(a, b),
        lex_lt(b, c),
    ensures
        lex_lt(a, c),
    decreases a.len(),
{
    if a.len() > 0 && b.len() > 0 && c.len() > 0 && a[0] == b[0] && b[0] == c[0] {
        lemma_lex_lt_transitive(a.drop_first(), b.drop_first(), c.drop_first());
    }
}

/// `lex_lt` is irreflexive.
pub proof fn lemma_lex_lt_irreflexive(a: Seq<char>)
    ensures
        !lex_lt(a, a),
    decreases a.len(),
{
    if a.len() > 0 {
        lemma_lex_lt_irreflexive(a.drop_first());
    }
}

/// Whether `a` comes strictly before `b`.
pub fn chars_lt(a: &Vec<char>, b: &Vec<char>) -> (r: bool)
    ensures
        r == lex_lt(a@, b@),
{
    let mut i: usize = 0;
    assert(a@.skip(0) =~= a@);
    assert(b@.skip(0) =~= b@);
    while i < a.len() && i < b.len()
        invariant
            i <= a.len(),
            i <= b.len(),
            lex_lt(a@, b@) == lex_lt(a@.skip(i as int), b@.skip(i as int)),
        decreases a.len() - i,
    {
        if a[i] != b[i] {
            return (a[i] as u32) < (b[i] as u32);
        }
        assert(a@.skip(i as int).drop_first() =~= a@.skip(i + 1));
        assert(b@.skip(i as int).drop_first() =~= b@.skip(i + 1));
        i += 1;
    }
    i == a.len() && i < b.len()
}

/// Whether `a` comes strictly before `b`.
pub fn str_lt(a: &str, b: &str) -> (r: bool)
    ensures
        r == lex_lt(a@, b@),
{
    let av = chars_of(a);
    let bv = chars_of(b);
    chars_lt(&av, &bv)
}


/// Whether `c` has the Unicode `White_Space` property, as
/// `char::is_whitespace` decides: tab to carriage return, space, next line,
/// no-break space, ogham space mark, the spaces from en quad to hair space,
/// the line and paragraph separators, narrow no-break space, medium
/// mathematical space and ideographic space.
pub open spec fn whitespace(c: char) -> bool {
    ('\u{9}' <= c && c <= '\u{d}') || c == ' ' || c == '\u{85}' || c == '\u{a0}' || c == '\u{1680}'
        || ('\u{2000}' <= c && c <= '\u{200a}') || c == '\u{2028}' || c == '\u{2029}' || c == '\u{202f}'
        || c == '\u{205f}' || c == '\u{3000}'
}

/// Whether `c` is in the Unicode general category `Cc`, as
/// `char::is_control` decides: the C0 controls and DEL to the C1 controls.
pub open spec fn control(c: char) -> bool {
    c <= '\u{1f}' || ('\u{7f}' <= c && c <= '\u{9f}')
}

/// Whether `c` is whitespace.
pub(crate) fn char_is_whitespace(c: char) -> (r: bool)
    ensures
        r == whitespace(c),
{
    ('\u{9}' <= c && c <= '\u{d}') || c == ' ' || c == '\u{85}' || c == '\u{a0}' || c == '\u{1680}'
        || ('\u{2000}' <= c && c <= '\u{200a}') || c == '\u{2028}' || c == '\u{2029}' || c == '\u{202f}'
        || c == '\u{205f}' || c == '\u{3000}'
}

/// Whether `c` is a control character.
pub(crate) fn char_is_control(c: char) -> (r: bool)
    ensures
        r == control(c),
{
    c <= '\u{1f}' || ('\u{7f}' <= c && c <= '\u{9f}')
}

/// `s` without its leading whitespace.
pub open spec fn trim_start(s: Seq<char>) -> Seq<char>
    decreases s.len(),
{
    if s.len() > 0 && whitespace(s[0]) {
        trim_start(s.drop_first())
    } else {
        s
    }
}

/// `s` without its trailing whitespace.
pub open spec fn trim_end(s: Seq<char>) -> Seq<char>
    decreases s.len(),
{
    if s.len() > 0 && whitespace(s.last()) {
        trim_end(s.drop_last())
    } else {
        s
    }
}

/// `s` without leading and trailing whitespace, as `str::trim` gives it.
pub open spec fn trimmed(s: Seq<char>) -> Seq<char> {
    trim_end(trim_start(s))
}

/// The first `n` characters of `s`, or all of them when there are fewer.
pub open spec fn take_at_most<A>(s: Seq<A>, n: nat) -> Seq<A> {
    if s.len() <= n {
        s
    } else {
        s.take(n as int)
    }
}

/// The number of bytes that UTF-8 uses for `c`.
pub open spec fn utf8_width(c: char) -> nat {
    if (c as u32) < 0x80 {
        1
    } else if (c as u32) < 0x800 {
        2
    } else if (c as u32) < 0x10000 {
        3
    } else {
        4
    }
}

/// The number of bytes of `s` in UTF-8.
pub open spec fn utf8_len(s: Seq<char>) -> nat
    decreases s.len(),
{
    if s.len() == 0 {
        0
    } else {
        utf8_width(s[0]) + utf8_len(s.drop_first())
    }
}

/// The longest prefix of `s` whose UTF-8 encoding has at most `n` bytes.
pub open spec fn byte_prefix(s: Seq<char>, n: nat) -> Seq<char>
    decreases s.len(),
{
    if s.len() == 0 {
        s
    } else if utf8_width(s[0]) <= n {
        seq![s[0]] + byte_prefix(s.drop_first(), (n - utf8_width(s[0])) as nat)
    } else {
        Seq::empty()
    }
}

/// Whether `String::truncate(n)` accepts `s`: either `s` has at most `n`
/// bytes, or byte `n` starts a character (else it panics).
pub open spec fn truncates_cleanly(s: Seq<char>, n: nat) -> bool {
    utf8_len(s) <= n || utf8_len(byte_prefix(s, n)) == n
}

/// A byte prefix fits in its bytes, so cutting it again changes nothing and
/// `String::truncate` accepts it.
pub proof fn lemma_byte_prefix_fits(s: Seq<char>, n: nat)
    ensures
        utf8_len(byte_prefix(s, n)) <= n,
        byte_prefix(byte_prefix(s, n), n) == byte_prefix(s, n),
        truncates_cleanly(byte_prefix(s, n), n),
    decreases s.len(),
{
    if s.len() > 0 && utf8_width(s[0]) <= n {
        let w = utf8_width(s[0]);
        let rest = byte_prefix(s.drop_first(), (n - w) as nat);
        lemma_byte_prefix_fits(s.drop_first(), (n - w) as nat);
        let p = seq![s[0]] + rest;
        assert(p.drop_first() =~= rest);
        lemma_byte_prefix_of_short(p, n);
    } else {
        lemma_byte_prefix_of_short(byte_prefix(s, n), n);
    }
}

/// A text of at most `n` bytes is its own byte prefix.
pub proof fn lemma_byte_prefix_of_short(s: Seq<char>, n: nat)
    requires
        utf8_len(s) <= n,
    ensures
        byte_prefix(s, n) == s,
    decreases s.len(),
{
    if s.len() > 0 {
        lemma_byte_prefix_of_short(s.drop_first(), (n - utf8_width(s[0])) as nat);
        assert(seq![s[0]] + s.drop_first() =~= s);
    }
}

fn char_width(c: char) -> (w: usize)
    ensures
        w == utf8_width(c),
{
    let u = c as u32;
    if u < 0x80 {
        1
    } else if u < 0x800 {
        2
    } else if u < 0x10000 {
        3
    } else {
        4
    }
}

/// `s` cut to its first `n` bytes, as `String::truncate` does where it does
/// not panic.
pub fn truncate_bytes(s: &String, n: usize) -> (r: String)
    ensures
        r@ == byte_prefix(s@, n as nat),
{
    let v = chars_of(s.as_str());
    let mut out = String::new();
    let mut budget: usize = n;
    let mut i: usize = 0;
    assert(v@.skip(0) =~= v@);
    while i < v.len()
        invariant
            i <= v@.len(),
            v@ == s@,
            out@ + byte_prefix(v@.skip(i as int), budget as nat) == byte_prefix(s@, n as nat),
        decreases v@.len() - i,
    {
        let w = char_width(v[i]);
        if w > budget {
            assert(out@ + Seq::<char>::empty() =~= out@);
            return out;
        }
        assert(v@.skip(i as int).drop_first() =~= v@.skip(i + 1));
        assert(v@.skip(i as int)[0] == v@[i as int]);
        push_char(&mut out, v[i]);
        budget = budget - w;
        i += 1;
    }
    assert(v@.skip(i as int) =~= Seq::<char>::empty());
    assert(out@ + Seq::<char>::empty() =~= out@);
    out
}

/// A copy of `v[from..to]`.
pub fn copy_range(v: &Vec<char>, from: usize, to: usize) -> (r: Vec<char>)
    requires
        from <= to <= v@.len(),
    ensures
        r@ == v@.subrange(from as int, to as int),
{
    let mut r: Vec<char> = Vec::new();
    let mut i = from;
    while i < to
        invariant
            from <= i <= to,
            to <= v@.len(),
            r@ == v@.subrange(from as int, i as int),
        decreases to - i,
    {
        r.push(v[i]);
        assert(v@.subrange(from as int, i + 1) == v@.subrange(from as int, i as int).push(v@[i as int]));
        i += 1;
    }
    r
}

/// `v` without leading and trailing whitespace.
pub fn trim_chars(v: &Vec<char>) -> (r: Vec<char>)
    ensures
        r@ == trimmed(v@),
{
    let n = v.len();
    let mut start: usize = 0;
    assert(v@.skip(0) =~= v@);
    while start < n && char_is_whitespace(v[start])
        invariant
            start <= n,
            n == v@.len(),
            trim_start(v@) == trim_start(v@.skip(start as int)),
        decreases n - start,
    {
        assert(v@.skip(start as int).drop_first() =~= v@.skip(start + 1));
        start += 1;
    }
    assert(trim_start(v@) == v@.subrange(start as int, n as int)) by {
        assert(v@.skip(start as int) =~= v@.subrange(start as int, n as int));
    }
    let mut end: usize = n;
    while end > start && char_is_whitespace(v[end - 1])
        invariant
            start <= end <= n,
            n == v@.len(),
            trimmed(v@) == trim_end(v@.subrange(start as int, end as int)),
        decreases end - start,
    {
        assert(v@.subrange(start as int, end as int).drop_last() =~= v@.subrange(start as int, end - 1));
        assert(v@.subrange(start as int, end as int).last() == v@[end - 1]);
        end -= 1;
    }
    copy_range(v, start, end)
}

/// `s` without leading and trailing whitespace.
pub fn trim_string(s: &String) -> (r: String)
    ensures
        r@ == trimmed(s@),
{
    let v = chars_of(s.as_str());
    let t = trim_chars(&v);
    string_of(&t)
}

/// Whether `s` is exactly the characters of `v`.
pub fn chars_eq(a: &Vec<char>, b: &Vec<char>) -> (r: bool)
    ensures
        r == (a@ == b@),
{
    if a.len() != b.len() {
        return false;
    }
    let mut i: usize = 0;
    while i < a.len()
        invariant
            i <= a@.len(),
            a@.len() == b@.len(),
            forall|j: int| 0 <= j < i ==> a@[j] == b@[j],
        decreases a@.len() - i,
    {
        if a[i] != b[i] {
            return false;
        }
        i += 1;
    }
    assert(a@ =~= b@);
    true
}


/// `s` without its control characters.
pub open spec fn drop_controls(s: Seq<char>) -> Seq<char>
    decreases s.len(),
{
    if s.len() == 0 {
        s
    } else if control(s.last()) {
        drop_controls(s.drop_last())
    } else {
        drop_controls(s.drop_last()).push(s.last())
    }
}

/// The first `max` characters of `v` that are not control characters.
pub fn first_non_controls(v: &Vec<char>, max: usize) -> (r: Vec<char>)
    ensures
        r@ == take_at_most(drop_controls(v@), max as nat),
{
    let mut out: Vec<char> = Vec::new();
    assert(v@.take(0) =~= Seq::<char>::empty());
    for i in 0..v.len()
        invariant
            out@ == take_at_most(drop_controls(v@.take(i as int)), max as nat),
    {
        assert(v@.take(i + 1).drop_last() =~= v@.take(i as int));
        assert(v@.take(i + 1).last() == v@[i as int]);
        if !char_is_control(v[i]) && out.len() < max {
            out.push(v[i]);
        }
        proof {
            let before = drop_controls(v@.take(i as int));
            if !control(v@[i as int]) && before.len() >= max {
                assert(before.push(v@[i as int]).take(max as int) =~= before.take(max as int));
            }
        }
    }
    assert(v@.take(v.len() as int) =~= v@);
    out
}

/// The first `max` characters of `v`.
pub fn first_chars(v: &Vec<char>, max: usize) -> (r: Vec<char>)
    ensures
        r@ == take_at_most(v@, max as nat),
{
    if v.len() <= max {
        copy_range(v, 0, v.len())
    } else {
        copy_range(v, 0, max)
    }
}


/// The decimal digit for `d < 10`.
pub open spec fn digit_char(d: nat) -> char {
    ((d + 48) as u8) as char
}

/// The decimal representation of `n`, without leading zeros.
pub open spec fn decimal(n: nat) -> Seq<char>
    decreases n,
{
    if n < 10 {
        seq![digit_char(n)]
    } else {
        decimal(n / 10).push(digit_char(n % 10))
    }
}

/// Appends the decimal representation of `n` to `out`.
pub fn push_decimal(out: &mut String, n: u64)
    ensures
        final(out)@ == old(out)@ + decimal(n as nat),
    decreases n,
{
    if n >= 10 {
        push_decimal(out, n / 10);
    }
    let d: u8 = (n % 10) as u8;
    let c: char = (d + 48u8) as char;
    push_char(out, c);
    assert(out@ =~= old(out)@ + decimal(n as nat));
}

/// The decimal representation of `n`.
pub fn decimal_string(n: u64) -> (r: String)
    ensures
        r@ == decimal(n as nat),
{
    let mut r = String::new();
    push_decimal(&mut r, n);
    assert(r@ =~= decimal(n as nat));
    r
}

/// `a` followed by `b`.
pub fn concat_str(a: &str, b: &str) -> (r: String)
    ensures
        r@ == a@ + b@,
{
    let mut r = a.to_owned();
    let v = chars_of(b);
    for i in 0..v.len()
        invariant
            r@ == a@ + v@.take(i as int),
            v@ == b@,
    {
        push_char(&mut r, v[i]);
        assert(v@.take(i + 1) == v@.take(i as int).push(v@[i as int]));
    }
    assert(v@.take(v.len() as int) =~= v@);
    r
}


/// `s` with every occurrence of the non-empty `pat` replaced by `rep`,
/// scanning from the left without overlaps, as `str::replace` does.
pub open spec fn replace_all(s: Seq<char>, pat: Seq<char>, rep: Seq<char>) -> Seq<char>
    decreases s.len(),
{
    if pat.len() == 0 || s.len() < pat.len() {
        s
    } else if s.take(pat.len() as int) == pat {
        rep + replace_all(s.skip(pat.len() as int), pat, rep)
    } else {
        seq![s[0]] + replace_all(s.drop_first(), pat, rep)
    }
}

fn matches_at(v: &Vec<char>, i: usize, pat: &Vec<char>) -> (r: bool)
    requires
        i + pat@.len() <= v@.len(),
    ensures
        r == (v@.skip(i as int).take(pat@.len() as int) == pat@),
{
    let mut j: usize = 0;
    while j < pat.len()
        invariant
            j <= pat@.len(),
            i + pat@.len() <= v@.len(),
            pat@.len() == pat.len(),
            v@.len() == v.len(),
            forall|k: int| 0 <= k < j ==> v@[i + k] == pat@[k],
        decreases pat@.len() - j,
    {
        if v[i + j] != pat[j] {
            assert(v@.skip(i as int).take(pat@.len() as int)[j as int] != pat@[j as int]);
            return false;
        }
        j += 1;
    }
    assert(v@.skip(i as int).take(pat@.len() as int) =~= pat@);
    true
}

/// `s` with every occurrence of `pat` replaced by `rep`.
pub fn replace_str(s: &str, pat: &str, rep: &str) -> (r: String)
    requires
        pat@.len() > 0,
    ensures
        r@ == replace_all(s@, pat@, rep@),
{
    let v = chars_of(s);
    let p = chars_of(pat);
    let q = chars_of(rep);
    let mut out = String::new();
    let mut i: usize = 0;
    assert(v@.skip(0) =~= v@);
    while i < v.len()
        invariant
            i <= v@.len(),
            v@ == s@,
            p@ == pat@,
            q@ == rep@,
            p@.len() > 0,
            out@ + replace_all(v@.skip(i as int), p@, q@) == replace_all(s@, pat@, rep@),
        decreases v@.len() - i,
    {
        let ghost rest = v@.skip(i as int);
        if p.len() <= v.len() - i && matches_at(&v, i, &p) {
            let ghost base = out@;
            for k in 0..q.len()
                invariant
                    out@ == base + q@.take(k as int),
            {
                push_char(&mut out, q[k]);
                assert(q@.take(k + 1) =~= q@.take(k as int).push(q@[k as int]));
            }
            assert(q@.take(q@.len() as int) =~= q@);
            assert(rest.skip(p@.len() as int) =~= v@.skip(i + p@.len()));
            assert(rest.len() >= p@.len());
            assert(replace_all(rest, p@, q@) == q@ + replace_all(rest.skip(p@.len() as int), p@, q@));
            assert(base + (q@ + replace_all(v@.skip(i + p@.len()), p@, q@)) =~= (base + q@) + replace_all(v@.skip(i + p@.len()), p@, q@));
            i = i + p.len();
        } else {
            let ghost base = out@;
            push_char(&mut out, v[i]);
            assert(rest.drop_first() =~= v@.skip(i + 1));
            assert(rest[0] == v@[i as int]);
            proof {
                if rest.len() >= p@.len() {
                    assert(rest.take(p@.len() as int) != p@);
                }
            }
            assert(base + (seq![v@[i as int]] + replace_all(v@.skip(i + 1), p@, q@)) =~= base.push(v@[i as int]) + replace_all(v@.skip(i + 1), p@, q@));
            i = i + 1;
        }
    }
    assert(v@.skip(i as int) =~= Seq::<char>::empty());
    assert(out@ + Seq::<char>::empty() =~= out@);
    out
}


/// `utf8_len` adds up over concatenation.
pub proof fn lemma_utf8_len_concat(a: Seq<char>, b: Seq<char>)
    ensures
        utf8_len(a + b) == utf8_len(a) + utf8_len(b),
    decreases a.len(),
{
    if a.len() > 0 {
        lemma_utf8_len_concat(a.drop_first(), b);
        assert((a + b).drop_first() =~= a.drop_first() + b);
    } else {
        assert(a + b =~= b);
    }
}

/// `utf8_len` is the length of std's UTF-8 encoding, which is what
/// `str::len` returns.
pub proof fn lemma_utf8_len_is_encoding_len(s: Seq<char>)
    ensures
        vstd::utf8::encode_utf8(s).len() == utf8_len(s),
    decreases s.len(),
{
    if s.len() > 0 {
        vstd::utf8::char_is_scalar(s[0]);
        lemma_utf8_len_is_encoding_len(s.drop_first());
    }
}

/// Whether `s` takes more than `limit` bytes in UTF-8.
pub fn utf8_len_exceeds(s: &str, limit: usize) -> (r: bool)
    ensures
        r == (utf8_len(s@) > limit),
{
    let v = chars_of(s);
    let mut count: usize = 0;
    let mut i: usize = 0;
    assert(v@.take(0) =~= Seq::<char>::empty());
    while i < v.len()
        invariant
            i <= v@.len(),
            v@ == s@,
            count == utf8_len(v@.take(i as int)),
            count <= limit,
        decreases v@.len() - i,
    {
        let w = char_width(v[i]);
        proof {
            assert(v@.take(i + 1) =~= v@.take(i as int) + seq![v@[i as int]]);
            lemma_utf8_len_concat(v@.take(i as int), seq![v@[i as int]]);
            assert(utf8_len(seq![v@[i as int]]) == utf8_width(v@[i as int])) by {
                let one = seq![v@[i as int]];
                assert(one.drop_first() =~= Seq::<char>::empty());
                assert(utf8_len(one.drop_first()) == 0);
                assert(one[0] == v@[i as int]);
            }
        }
        if w > limit - count {
            proof {
                assert(v@ =~= v@.take(i + 1) + v@.skip(i + 1));
                lemma_utf8_len_concat(v@.take(i + 1), v@.skip(i + 1));
            }
            return true;
        }
        count = count + w;
        i += 1;
    }
    assert(v@.take(i as int) =~= v@);
    false
}


proof fn lemma_decimal_len(n: nat)
    ensures
        decimal(n).len() >= 1,
        n >= 10 ==> decimal(n).len() >= 2,
    decreases n,
{
    if n >= 10 {
        lemma_decimal_len(n / 10);
    }
}

/// Different numbers have different decimal representations.
pub proof fn lemma_decimal_injective(a: nat, b: nat)
    requires
        decimal(a) == decimal(b),
    ensures
        a == b,
    decreases a,
{
    lemma_decimal_len(a);
    lemma_decimal_len(b);
    if a < 10 && b < 10 {
        assert(decimal(a)[0] == digit_char(a));
        assert(decimal(b)[0] == digit_char(b));
        assert(((a + 48) as u8) as char == ((b + 48) as u8) as char);
        vstd::utf8::char_u32_cast(digit_char(a), digit_char(a) as u32);
    } else if a >= 10 && b >= 10 {
        assert(decimal(a).last() == digit_char(a % 10));
        assert(decimal(b).last() == digit_char(b % 10));
        assert(decimal(a).drop_last() =~= decimal(a / 10));
        assert(decimal(b).drop_last() =~= decimal(b / 10));
        lemma_decimal_injective(a / 10, b / 10);
        assert(((a % 10 + 48) as u8) as char == ((b % 10 + 48) as u8) as char);
    }
}

} // verus!
