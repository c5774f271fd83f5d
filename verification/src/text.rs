//! Small verified helpers over characters and strings: conversion between
//! `String` and `Vec<char>`, decimal formatting and parsing, splitting,
//! substring search, and a trusted wrapper around unicode lowercasing.

use vstd::prelude::*;
use vstd::string::StrSliceExecFns;

verus! {

/// The characters of a string, in order.
pub fn chars_of(s: &str) -> (r: Vec<char>)
    ensures
        r@ == s@,
{
    let n = s.unicode_len();
    let mut v: Vec<char> = Vec::new();
    let mut i: usize = 0;
    while i < n
        invariant
            i <= n,
            n == s@.len(),
            v@ =~= s@.subrange(0, i as int),
        decreases n - i,
    {
        let c = s.get_char(i);
        v.push(c);
        i = i + 1;
    }
    proof {
        assert(v@ =~= s@);
    }
    v
}

/// Relies on `String: FromIterator<char>`: collecting yields exactly the
/// characters of the vector, in order.
#[verifier::external_body]
pub fn string_from_chars(v: &Vec<char>) -> (r: String)
    ensures
        r@ == v@,
{
    v.iter().collect()
}

/// Relies on `slug::slugify`; the result depends on the characters alone.
pub uninterp spec fn slug_of(s: Seq<char>) -> Seq<char>;

/// Relies on `slug::slugify`: the ascii file-name-safe slug of the text.
#[verifier::external_body]
pub fn slugify(s: &str) -> (r: String)
    ensures
        r@ == slug_of(s@),
{
    slug::slugify(s)
}

/// Relies on `str::to_lowercase`; the result depends on the characters alone.
pub uninterp spec fn lower_of(s: Seq<char>) -> Seq<char>;

/// Relies on `str::to_lowercase`: unicode lowercasing of every character.
#[verifier::external_body]
pub fn lowercase(s: &str) -> (r: String)
    ensures
        r@ == lower_of(s@),
{
    s.to_lowercase()
}

pub open spec fn is_digit(c: char) -> bool {
    '0' <= c && c <= '9'
}

pub open spec fn digit_val(c: char) -> nat {
    ((c as int) - ('0' as int)) as nat
}

pub open spec fn digit_char(d: nat) -> char {
    if d == 0 {
        '0'
    } else if d == 1 {
        '1'
    } else if d == 2 {
        '2'
    } else if d == 3 {
        '3'
    } else if d == 4 {
        '4'
    } else if d == 5 {
        '5'
    } else if d == 6 {
        '6'
    } else if d == 7 {
        '7'
    } else if d == 8 {
        '8'
    } else {
        '9'
    }
}

/// Decimal digits of `n`, most significant first, with no leading zeros
/// (except for `n == 0` itself).
pub open spec fn spec_digits(n: nat) -> Seq<char>
    decreases n,
{
    if n < 10 {
        seq![digit_char(n)]
    } else {
        spec_digits(n / 10).push(digit_char(n % 10))
    }
}

fn digit_to_char(d: u64) -> (c: char)
    requires
        d < 10,
    ensures
        c == digit_char(d as nat),
{
    if d == 0 {
        '0'
    } else if d == 1 {
        '1'
    } else if d == 2 {
        '2'
    } else if d == 3 {
        '3'
    } else if d == 4 {
        '4'
    } else if d == 5 {
        '5'
    } else if d == 6 {
        '6'
    } else if d == 7 {
        '7'
    } else if d == 8 {
        '8'
    } else {
        '9'
    }
}

pub fn u64_digits(n: u64) -> (r: Vec<char>)
    ensures
        r@ == spec_digits(n as nat),
    decreases n,
{
    if n < 10 {
        let mut v: Vec<char> = Vec::new();
        v.push(digit_to_char(n));
        proof {
            assert(v@ =~= spec_digits(n as nat));
        }
        v
    } else {
        let mut v = u64_digits(n / 10);
        v.push(digit_to_char(n % 10));
        v
    }
}

/// `n` written in decimal.
pub fn u64_to_string(n: u64) -> (r: String)
    ensures
        r@ == spec_digits(n as nat),
{
    let v = u64_digits(n);
    string_from_chars(&v)
}

/// Decimal rendering of a possibly negative number.
pub open spec fn spec_i64_string(n: int) -> Seq<char> {
    if n < 0 {
        seq!['-'] + spec_digits((-n) as nat)
    } else {
        spec_digits(n as nat)
    }
}

pub fn i64_to_string(n: i64) -> (r: String)
    requires
        n > i64::MIN,
    ensures
        r@ == spec_i64_string(n as int),
{
    if n < 0 {
        let mut v: Vec<char> = Vec::new();
        v.push('-');
        let mut d = u64_digits((-n) as u64);
        v.append(&mut d);
        proof {
            assert(v@ =~= spec_i64_string(n as int));
        }
        string_from_chars(&v)
    } else {
        u64_to_string(n as u64)
    }
}

/// `n` written with at least two digits, zero padded.
pub open spec fn spec_pad2(n: nat) -> Seq<char> {
    if n < 10 {
        seq!['0'] + spec_digits(n)
    } else {
        spec_digits(n)
    }
}

pub fn pad2(n: u64) -> (r: Vec<char>)
    ensures
        r@ == spec_pad2(n as nat),
{
    if n < 10 {
        let mut v: Vec<char> = Vec::new();
        v.push('0');
        let mut d = u64_digits(n);
        v.append(&mut d);
        proof {
            assert(v@ =~= spec_pad2(n as nat));
        }
        v
    } else {
        u64_digits(n)
    }
}

/// The numeric value of a digit sequence, most significant first.
pub open spec fn spec_digits_val(s: Seq<char>) -> nat
    decreases s.len(),
{
    if s.len() == 0 {
        0
    } else {
        spec_digits_val(s.drop_last()) * 10 + digit_val(s.last())
    }
}

pub open spec fn all_digits(s: Seq<char>) -> bool {
    forall|i: int| 0 <= i < s.len() ==> is_digit(#[trigger] s[i])
}

/// A digit string parses when it is non-empty, at most 18 digits long
/// (so that its value always fits in a machine word), and all digits.
pub open spec fn spec_parse_u64(s: Seq<char>) -> Option<u64> {
    if 0 < s.len() <= 18 && all_digits(s) {
        Some(spec_digits_val(s) as u64)
    } else {
        None
    }
}

proof fn lemma_digits_val_bound(s: Seq<char>)
    requires
        all_digits(s),
        s.len() <= 18,
    ensures
        spec_digits_val(s) < 0x1000_0000_0000_0000,
{
    lemma_digits_val_small(s, 18);
    assert(pow10(18) <= 0x1000_0000_0000_0000) by {
        reveal_with_fuel(pow10, 19);
    }
}

pub open spec fn pow10(k: nat) -> nat
    decreases k,
{
    if k == 0 {
        1
    } else {
        10 * pow10((k - 1) as nat)
    }
}

proof fn lemma_digits_val_small(s: Seq<char>, k: int)
    requires
        all_digits(s),
        s.len() <= k,
        0 <= k <= 18,
    ensures
        spec_digits_val(s) < pow10(k as nat),
    decreases s.len(),
{
    if s.len() == 0 {
        assert(pow10(k as nat) >= 1) by {
            lemma_pow10_pos(k as nat);
        }
    } else {
        assert(all_digits(s.drop_last())) by {
            assert(forall|i: int|
                0 <= i < s.len() - 1 ==> is_digit(#[trigger] s.drop_last()[i]) == is_digit(s[i]));
        }
        lemma_digits_val_small(s.drop_last(), k - 1);
        assert(digit_val(s.last()) <= 9);
        assert(spec_digits_val(s.drop_last()) * 10 + 9 < pow10(k as nat)) by (nonlinear_arith)
            requires
                spec_digits_val(s.drop_last()) < pow10((k - 1) as nat),
                pow10(k as nat) == 10 * pow10((k - 1) as nat),
        ;
    }
}

pub proof fn lemma_pow10_pos(k: nat)
    ensures
        pow10(k) >= 1,
    decreases k,
{
    if k > 0 {
        lemma_pow10_pos((k - 1) as nat);
    }
}

/// Parse a run of decimal digits.  Returns the value exactly when the run is
/// non-empty, all digits, and short enough to fit (at most 18 digits).
pub fn parse_u64(s: &Vec<char>, from: usize, to: usize) -> (r: Option<u64>)
    requires
        from <= to <= s@.len(),
    ensures
        r == spec_parse_u64(s@.subrange(from as int, to as int)),
        r matches Some(v) ==> v < 0x1000_0000_0000_0000,
{
    let ghost seg = s@.subrange(from as int, to as int);
    if to - from == 0 || to - from > 18 {
        return None;
    }
    let mut val: u64 = 0;
    let mut i: usize = from;
    while i < to
        invariant
            from <= i <= to <= s@.len(),
            0 < to - from <= 18,
            seg == s@.subrange(from as int, to as int),
            all_digits(seg.subrange(0, i - from)),
            val == spec_digits_val(seg.subrange(0, i - from)),
            val < 0x1000_0000_0000_0000,
        decreases to - i,
    {
        let c = s[i];
        if !('0' <= c && c <= '9') {
            proof {
                assert(seg[i - from] == c);
                assert(!all_digits(seg));
            }
            return None;
        }
        let d: u64 = (c as u32 as u64) - ('0' as u32 as u64);
        proof {
            assert(d == digit_val(c));
            assert(d <= 9);
            let pre = seg.subrange(0, i - from);
            lemma_digits_val_small(pre, 17);
            assert(pow10(17) == 100_000_000_000_000_000) by {
                reveal_with_fuel(pow10, 18);
            }
            assert(pre.push(c) =~= seg.subrange(0, i + 1 - from));
            assert(seg.subrange(0, i + 1 - from).drop_last() =~= pre);
            assert(all_digits(seg.subrange(0, i + 1 - from)));
        }
        val = val * 10 + d;
        i = i + 1;
    }
    proof {
        assert(seg.subrange(0, to - from) =~= seg);
        lemma_digits_val_bound(seg);
    }
    Some(val)
}

/// A copy of `v[from..to]`.
pub fn subvec(v: &Vec<char>, from: usize, to: usize) -> (r: Vec<char>)
    requires
        from <= to <= v@.len(),
    ensures
        r@ == v@.subrange(from as int, to as int),
{
    let mut r: Vec<char> = Vec::new();
    let mut i: usize = from;
    while i < to
        invariant
            from <= i <= to <= v@.len(),
            r@ =~= v@.subrange(from as int, i as int),
        decreases to - i,
    {
        r.push(v[i]);
        i = i + 1;
    }
    r
}

/// Splitting on two separator characters (pass the same character twice to
/// split on one).  The empty text yields one empty segment.
pub open spec fn spec_split(s: Seq<char>, a: char, b: char) -> Seq<Seq<char>>
    decreases s.len(),
{
    if s.len() == 0 {
        seq![Seq::<char>::empty()]
    } else if s[0] == a || s[0] == b {
        seq![Seq::<char>::empty()] + spec_split(s.drop_first(), a, b)
    } else {
        let r = spec_split(s.drop_first(), a, b);
        seq![seq![s[0]] + r[0]] + r.drop_first()
    }
}

pub proof fn lemma_split_nonempty(s: Seq<char>, a: char, b: char)
    ensures
        1 <= spec_split(s, a, b).len() <= s.len() + 1,
    decreases s.len(),
{
    if s.len() > 0 {
        lemma_split_nonempty(s.drop_first(), a, b);
    }
}

fn split_from(v: &Vec<char>, i: usize, a: char, b: char) -> (r: Vec<Vec<char>>)
    requires
        i <= v@.len(),
    ensures
        r.deep_view() == spec_split(v@.skip(i as int), a, b),
        r@.len() >= 1,
    decreases v@.len() - i,
{
    let ghost s = v@.skip(i as int);
    if i == v.len() {
        let mut r: Vec<Vec<char>> = Vec::new();
        r.push(Vec::new());
        proof {
            assert(s =~= Seq::<char>::empty());
            assert(r.deep_view() =~~= spec_split(s, a, b));
        }
        r
    } else {
        let c = v[i];
        proof {
            assert(s[0] == c);
            assert(s.drop_first() =~= v@.skip(i as int + 1));
        }
        let mut r = split_from(v, i + 1, a, b);
        if c == a || c == b {
            r.insert(0, Vec::new());
            proof {
                assert(r.deep_view() =~~= spec_split(s, a, b));
            }
            r
        } else {
            let mut first = r.remove(0);
            first.insert(0, c);
            r.insert(0, first);
            proof {
                let sub = spec_split(s.drop_first(), a, b);
                assert(r.deep_view() =~~= seq![seq![s[0]] + sub[0]] + sub.drop_first());
                assert(r.deep_view() =~~= spec_split(s, a, b));
            }
            r
        }
    }
}

/// Split `v` at every occurrence of `a` or `b`.
pub fn split_by(v: &Vec<char>, a: char, b: char) -> (r: Vec<Vec<char>>)
    ensures
        r.deep_view() == spec_split(v@, a, b),
        r@.len() >= 1,
{
    let r = split_from(v, 0, a, b);
    proof {
        assert(v@.skip(0) =~= v@);
    }
    r
}

/// Whether `sub` occurs in `s` starting at position `i`.
pub open spec fn occurs_at(s: Seq<char>, sub: Seq<char>, i: int) -> bool {
    0 <= i && i + sub.len() <= s.len() && s.subrange(i, i + sub.len()) == sub
}

pub open spec fn spec_contains(s: Seq<char>, sub: Seq<char>) -> bool {
    exists|i: int| occurs_at(s, sub, i)
}

/// Naive substring search.
pub fn contains_seq(s: &Vec<char>, sub: &Vec<char>) -> (r: bool)
    ensures
        r == spec_contains(s@, sub@),
{
    let n = s.len();
    let m = sub.len();
    if m > n {
        proof {
            assert forall|i: int| !occurs_at(s@, sub@, i) by {}
        }
        return false;
    }
    if m == 0 {
        proof {
            assert(s@.subrange(0, 0) =~= sub@);
            assert(occurs_at(s@, sub@, 0));
        }
        return true;
    }
    let mut i: usize = 0;
    while i <= n - m
        invariant
            1 <= m <= n,
            n == s@.len(),
            m == sub@.len(),
            i <= n - m + 1,
            forall|j: int| 0 <= j < i ==> !occurs_at(s@, sub@, j),
        decreases n - m + 1 - i,
    {
        if matches_at(s, sub, i) {
            return true;
        }
        i = i + 1;
    }
    proof {
        assert forall|j: int| !occurs_at(s@, sub@, j) by {
            if 0 <= j && j + m <= n {
                assert(j < i);
            }
        }
    }
    false
}

fn matches_at(s: &Vec<char>, sub: &Vec<char>, i: usize) -> (r: bool)
    requires
        i + sub@.len() <= s@.len(),
    ensures
        r == occurs_at(s@, sub@, i as int),
{
    let n = s.len();
    let m = sub.len();
    let mut k: usize = 0;
    while k < m
        invariant
            i + m <= n,
            n == s@.len(),
            m == sub@.len(),
            k <= m,
            forall|x: int| 0 <= x < k ==> s@[i + x] == sub@[x],
        decreases m - k,
    {
        if s[i + k] != sub[k] {
            proof {
                assert(s@.subrange(i as int, i + m)[k as int] == s@[i + k]);
            }
            return false;
        }
        k = k + 1;
    }
    proof {
        assert(s@.subrange(i as int, i + m) =~= sub@);
    }
    true
}

/// Case-insensitive (unicode-lowercased) substring test, the shape used by
/// the record filters: does `lower_of(hay)` contain `lower_of(needle)`?
pub fn contains_ci(hay: &str, needle: &str) -> (r: bool)
    ensures
        r == spec_contains(lower_of(hay@), lower_of(needle@)),
{
    let h = lowercase(hay);
    let n = lowercase(needle);
    let hv = chars_of(h.as_str());
    let nv = chars_of(n.as_str());
    contains_seq(&hv, &nv)
}

/// Whether `s` ends with `suffix`.
pub open spec fn spec_ends_with(s: Seq<char>, suffix: Seq<char>) -> bool {
    s.len() >= suffix.len() && s.subrange(s.len() - suffix.len(), s.len() as int) == suffix
}

pub fn ends_with_seq(s: &Vec<char>, suffix: &Vec<char>) -> (r: bool)
    ensures
        r == spec_ends_with(s@, suffix@),
{
    let n = s.len();
    let m = suffix.len();
    if m > n {
        return false;
    }
    let mut k: usize = 0;
    while k < m
        invariant
            m <= n,
            n == s@.len(),
            m == suffix@.len(),
            k <= m,
            forall|x: int| 0 <= x < k ==> s@[n - m + x] == suffix@[x],
        decreases m - k,
    {
        if s[n - m + k] != suffix[k] {
            proof {
                assert(s@.subrange(n - m, n as int)[k as int] == s@[n - m + k]);
            }
            return false;
        }
        k = k + 1;
    }
    proof {
        assert(s@.subrange(n - m, n as int) =~= suffix@);
    }
    true
}


/// First pair with the given key, in a string association list.
pub open spec fn spec_assoc(pairs: Seq<(String, String)>, key: Seq<char>) -> Option<Seq<char>>
    decreases pairs.len(),
{
    if pairs.len() == 0 {
        None
    } else if pairs[0].0@ == key {
        Some(pairs[0].1@)
    } else {
        spec_assoc(pairs.drop_first(), key)
    }
}

fn assoc_get_from<'a>(pairs: &'a Vec<(String, String)>, j: usize, key: &String) -> (r: Option<
    &'a String,
>)
    requires
        j <= pairs@.len(),
    ensures
        match r {
            Some(v) => spec_assoc(pairs@.skip(j as int), key@) == Some(v@),
            None => spec_assoc(pairs@.skip(j as int), key@) is None,
        },
    decreases pairs@.len() - j,
{
    let ghost s = pairs@.skip(j as int);
    if j == pairs.len() {
        proof {
            assert(s =~= Seq::<(String, String)>::empty());
        }
        None
    } else {
        proof {
            assert(s[0] == pairs@[j as int]);
            assert(s.drop_first() =~= pairs@.skip(j as int + 1));
        }
        let p = &pairs[j];
        if p.0 == *key {
            Some(&p.1)
        } else {
            assoc_get_from(pairs, j + 1, key)
        }
    }
}

/// First pair with the given key.
pub fn assoc_get<'a>(pairs: &'a Vec<(String, String)>, key: &String) -> (r: Option<&'a String>)
    ensures
        match r {
            Some(v) => spec_assoc(pairs@, key@) == Some(v@),
            None => spec_assoc(pairs@, key@) is None,
        },
{
    let r = assoc_get_from(pairs, 0, key);
    proof {
        assert(pairs@.skip(0) =~= pairs@);
    }
    r
}

pub open spec fn is_space(c: char) -> bool {
    c == ' ' || c == '\t' || c == '\n' || c == '\r'
}

/// Length of the run of non-space characters at the head of `s`.
pub open spec fn word_run(s: Seq<char>) -> nat
    decreases s.len(),
{
    if s.len() > 0 && !is_space(s[0]) {
        1 + word_run(s.drop_first())
    } else {
        0
    }
}

proof fn lemma_word_run(s: Seq<char>)
    ensures
        word_run(s) <= s.len(),
    decreases s.len(),
{
    if s.len() > 0 && !is_space(s[0]) {
        lemma_word_run(s.drop_first());
    }
}

proof fn lemma_word_run_is(s: Seq<char>, k: int)
    requires
        0 <= k <= s.len(),
        forall|i: int| 0 <= i < k ==> !is_space(#[trigger] s[i]),
        k < s.len() ==> is_space(s[k]),
    ensures
        word_run(s) == k,
    decreases s.len(),
{
    if s.len() > 0 && !is_space(s[0]) {
        assert(k >= 1);
        assert(forall|i: int|
            0 <= i < k - 1 ==> is_space(#[trigger] s.drop_first()[i]) == is_space(s[i + 1]));
        lemma_word_run_is(s.drop_first(), k - 1);
    } else {
        assert(k == 0);
    }
}

/// The first whitespace-separated word of `s`, if any.
pub open spec fn spec_first_word(s: Seq<char>) -> Option<Seq<char>>
    decreases s.len(),
{
    if s.len() == 0 {
        None
    } else if is_space(s[0]) {
        spec_first_word(s.drop_first())
    } else {
        Some(s.subrange(0, word_run(s) as int))
    }
}

fn space_char(c: char) -> (b: bool)
    ensures
        b == is_space(c),
{
    c == ' ' || c == '\t' || c == '\n' || c == '\r'
}

fn first_word_from(v: &Vec<char>, i: usize) -> (r: Option<Vec<char>>)
    requires
        i <= v@.len(),
    ensures
        match r {
            Some(w) => spec_first_word(v@.skip(i as int)) == Some(w@),
            None => spec_first_word(v@.skip(i as int)) is None,
        },
    decreases v@.len() - i,
{
    let ghost s = v@.skip(i as int);
    if i == v.len() {
        proof {
            assert(s =~= Seq::<char>::empty());
        }
        None
    } else {
        proof {
            assert(s[0] == v@[i as int]);
            assert(s.drop_first() =~= v@.skip(i as int + 1));
        }
        if space_char(v[i]) {
            first_word_from(v, i + 1)
        } else {
            let mut j = i;
            while j < v.len() && !space_char(v[j])
                invariant
                    i <= j <= v@.len(),
                    forall|x: int| i <= x < j ==> !is_space(#[trigger] v@[x]),
                decreases v@.len() - j,
            {
                j = j + 1;
            }
            proof {
                assert(forall|x: int|
                    0 <= x < j - i ==> is_space(#[trigger] s[x]) == is_space(v@[i + x]));
                if j < v@.len() {
                    assert(s[j - i] == v@[j as int]);
                }
                lemma_word_run_is(s, j - i);
            }
            let w = subvec(v, i, j);
            proof {
                assert(w@ =~= s.subrange(0, word_run(s) as int));
            }
            Some(w)
        }
    }
}

/// The first whitespace-separated word of `s`, if any.
pub fn first_word(s: &str) -> (r: Option<String>)
    ensures
        match r {
            Some(w) => spec_first_word(s@) == Some(w@),
            None => spec_first_word(s@) is None,
        },
{
    let v = chars_of(s);
    proof {
        assert(v@.skip(0) =~= v@);
    }
    match first_word_from(&v, 0) {
        Some(w) => Some(string_from_chars(&w)),
        None => None,
    }
}

/// Powers of ten that fit comfortably in a machine word.
pub fn pow10_u64(k: u64) -> (r: u64)
    requires
        k <= 4,
    ensures
        r == pow10(k as nat),
        1 <= r <= 10000,
{
    proof {
        reveal_with_fuel(pow10, 6);
    }
    if k == 0 {
        1
    } else if k == 1 {
        10
    } else if k == 2 {
        100
    } else if k == 3 {
        1000
    } else {
        10000
    }
}

/// The value of the fraction digits `frac`, scaled to `fd` decimal places:
/// the first `fd` digits, right-padded with zeros; extra digits are cut.
pub open spec fn spec_frac_value(frac: Seq<char>, fd: nat) -> Option<nat> {
    if frac.len() >= 1 && frac.len() <= 18 && all_digits(frac) {
        let taken = if frac.len() <= fd {
            frac
        } else {
            frac.subrange(0, fd as int)
        };
        Some(spec_digits_val(taken) * pow10((fd - taken.len()) as nat))
    } else {
        None
    }
}

/// The largest scaled value the document parsers accept.
pub open spec fn scaled_limit() -> nat {
    1_000_000_000
}

/// The textual spellings of the non-finite floats a document may carry.
pub open spec fn spec_float_special(s: Seq<char>) -> bool {
    ||| s == ".nan"@
    ||| s == ".NaN"@
    ||| s == ".NAN"@
    ||| s == ".inf"@
    ||| s == ".Inf"@
    ||| s == ".INF"@
}

/// A decimal written with up to `fd` fraction digits, read to an integer
/// scaled by `10^fd`; negative values, and the NaN and infinity spellings,
/// read as zero (a non-normal quantity, dropped downstream, but not an
/// error); values over a billion scaled units, and malformed text, do not
/// parse.
pub open spec fn spec_parse_scaled(s: Seq<char>, fd: nat) -> Option<u64> {
    let signed = s.len() > 0 && (s[0] == '-' || s[0] == '+');
    let neg = s.len() > 0 && s[0] == '-';
    let sbody = if signed {
        s.drop_first()
    } else {
        s
    };
    if spec_float_special(sbody) {
        Some(0)
    } else {
        spec_parse_scaled_number(s, fd)
    }
}

pub open spec fn spec_parse_scaled_number(s: Seq<char>, fd: nat) -> Option<u64> {
    let neg = s.len() > 0 && s[0] == '-';
    let body = if neg {
        s.drop_first()
    } else {
        s
    };
    let parts = spec_split(body, '.', '.');
    if parts.len() == 1 {
        match spec_parse_u64(parts[0]) {
            Some(v) => if v * pow10(fd) <= scaled_limit() {
                Some(
                    if neg {
                        0
                    } else {
                        (v * pow10(fd)) as u64
                    },
                )
            } else {
                None
            },
            None => None,
        }
    } else if parts.len() == 2 {
        match (spec_parse_u64(parts[0]), spec_frac_value(parts[1], fd)) {
            (Some(v), Some(f)) => if v * pow10(fd) + f <= scaled_limit() {
                Some(
                    if neg {
                        0
                    } else {
                        (v * pow10(fd) + f) as u64
                    },
                )
            } else {
                None
            },
            _ => None,
        }
    } else {
        None
    }
}

fn frac_value(frac: &Vec<char>, fd: u64) -> (r: Option<u64>)
    requires
        1 <= fd <= 4,
    ensures
        match r {
            Some(v) => spec_frac_value(frac@, fd as nat) == Some(v as nat) && v <= 100_000_000,
            None => spec_frac_value(frac@, fd as nat) is None,
        },
{
    let n = frac.len();
    if n == 0 || n > 18 {
        return None;
    }
    let mut i: usize = 0;
    while i < n
        invariant
            i <= n,
            n == frac@.len(),
            forall|x: int| 0 <= x < i ==> is_digit(#[trigger] frac@[x]),
        decreases n - i,
    {
        let c = frac[i];
        if !('0' <= c && c <= '9') {
            proof {
                assert(!all_digits(frac@));
            }
            return None;
        }
        i = i + 1;
    }
    let tl: usize = if n <= fd as usize {
        n
    } else {
        fd as usize
    };
    let ghost taken = if frac@.len() <= fd as nat {
        frac@
    } else {
        frac@.subrange(0, fd as int)
    };
    proof {
        assert(frac@.subrange(0, tl as int) =~= taken);
        assert(all_digits(taken));
    }
    let tv = match parse_u64(frac, 0, tl) {
        Some(v) => v,
        None => {
            proof {
                assert(false);
            }
            0
        },
    };
    let pw = pow10_u64(fd - tl as u64);
    proof {
        lemma_digits_val_small(taken, 4);
        assert(pow10(4) == 10000) by {
            reveal_with_fuel(pow10, 5);
        }
        assert(tv * pw <= 100_000_000) by (nonlinear_arith)
            requires
                tv < 10000,
                pw <= 10000,
        ;
    }
    Some(tv * pw)
}

/// Parse a decimal with up to `fd` fraction digits into an integer scaled by
/// `10^fd`.
fn chars_are(v: &Vec<char>, lit: &str) -> (r: bool)
    ensures
        r == (v@ == lit@),
{
    let a = string_from_chars(v);
    let b = lit.to_owned();
    a == b
}

pub fn parse_scaled(s: &str, fd: u64) -> (r: Option<u64>)
    requires
        1 <= fd <= 4,
    ensures
        r == spec_parse_scaled(s@, fd as nat),
        r matches Some(v) ==> v <= 1_000_000_000,
{
    let v = chars_of(s);
    let signed = v.len() > 0 && (v[0] == '-' || v[0] == '+');
    let sbody = if signed {
        subvec(&v, 1, v.len())
    } else {
        subvec(&v, 0, v.len())
    };
    proof {
        if signed {
            assert(sbody@ =~= s@.drop_first());
        } else {
            assert(sbody@ =~= s@);
        }
    }
    if chars_are(&sbody, ".nan") || chars_are(&sbody, ".NaN") || chars_are(&sbody, ".NAN")
        || chars_are(&sbody, ".inf") || chars_are(&sbody, ".Inf") || chars_are(&sbody, ".INF") {
        return Some(0);
    }
    let neg = v.len() > 0 && v[0] == '-';
    let body = if neg {
        subvec(&v, 1, v.len())
    } else {
        subvec(&v, 0, v.len())
    };
    proof {
        if neg {
            assert(body@ =~= s@.drop_first());
        } else {
            assert(body@ =~= s@);
        }
    }
    let parts = split_by(&body, '.', '.');
    let pw = pow10_u64(fd);
    if parts.len() == 1 {
        proof {
            assert(parts@[0]@ == parts.deep_view()[0]);
            assert(parts@[0]@.subrange(0, parts@[0]@.len() as int) =~= parts@[0]@);
        }
        let p0 = &parts[0];
        match parse_u64(p0, 0, p0.len()) {
            Some(v0) => {
                if v0 > 1_000_000_000 {
                    proof {
                        lemma_pow10_pos(fd as nat);
                        assert(v0 * pow10(fd as nat) >= v0) by (nonlinear_arith)
                            requires
                                pow10(fd as nat) >= 1,
                                v0 >= 0,
                        ;
                    }
                    return None;
                }
                proof {
                    assert(v0 * pw <= 10_000_000_000_000) by (nonlinear_arith)
                        requires
                            v0 <= 1_000_000_000,
                            pw <= 10000,
                            0 <= v0,
                            0 <= pw,
                    ;
                }
                let whole = v0 * pw;
                if whole <= 1_000_000_000 {
                    if neg {
                        Some(0)
                    } else {
                        Some(whole)
                    }
                } else {
                    None
                }
            },
            None => None,
        }
    } else if parts.len() == 2 {
        proof {
            assert(parts@[0]@ == parts.deep_view()[0]);
            assert(parts@[1]@ == parts.deep_view()[1]);
            assert(parts@[0]@.subrange(0, parts@[0]@.len() as int) =~= parts@[0]@);
        }
        let p0 = &parts[0];
        let v0 = match parse_u64(p0, 0, p0.len()) {
            Some(v0) => v0,
            None => {
                return None;
            },
        };
        let f = match frac_value(&parts[1], fd) {
            Some(f) => f,
            None => {
                return None;
            },
        };
        if v0 > 1_000_000_000 {
            proof {
                lemma_pow10_pos(fd as nat);
                assert(v0 * pow10(fd as nat) >= v0) by (nonlinear_arith)
                    requires
                        pow10(fd as nat) >= 1,
                        v0 >= 0,
                ;
            }
            return None;
        }
        proof {
            assert(v0 * pw <= 10_000_000_000_000) by (nonlinear_arith)
                requires
                    v0 <= 1_000_000_000,
                    pw <= 10000,
                    0 <= v0,
                    0 <= pw,
            ;
        }
        let whole = v0 * pw + f;
        if whole <= 1_000_000_000 {
            if neg {
                Some(0)
            } else {
                Some(whole)
            }
        } else {
            None
        }
    } else {
        None
    }
}

/// The text reproduced with 1-based line numbers, one `n. line` per line,
/// as parse diagnostics show it.
pub open spec fn spec_numbered_lines(lines: Seq<Seq<char>>, start: nat) -> Seq<char>
    decreases lines.len(),
{
    if lines.len() == 0 {
        Seq::empty()
    } else {
        spec_digits(start) + seq![' '] + lines[0] + seq!['\n'] + spec_numbered_lines(
            lines.drop_first(),
            start + 1,
        )
    }
}

pub open spec fn spec_line_numbered(text: Seq<char>) -> Seq<char> {
    spec_numbered_lines(spec_split(text, '\n', '\n'), 1)
}

fn numbered_from(lines: &Vec<Vec<char>>, i: usize, start: u64) -> (r: Vec<char>)
    requires
        i <= lines@.len(),
        start + lines@.len() - i <= u64::MAX,
    ensures
        r@ == spec_numbered_lines(lines.deep_view().skip(i as int), start as nat),
    decreases lines@.len() - i,
{
    let ghost s = lines.deep_view().skip(i as int);
    if i == lines.len() {
        proof {
            assert(s =~~= Seq::<Seq<char>>::empty());
        }
        Vec::new()
    } else {
        proof {
            assert(s[0] == lines.deep_view()[i as int]);
            assert(s[0] =~= lines@[i as int]@);
            assert(s.drop_first() =~~= lines.deep_view().skip(i as int + 1));
        }
        let mut out = u64_digits(start);
        out.push(' ');
        let mut line = subvec(&lines[i], 0, lines[i].len());
        out.append(&mut line);
        out.push('\n');
        let mut rest = numbered_from(lines, i + 1, start + 1);
        out.append(&mut rest);
        proof {
            assert(out@ =~= spec_numbered_lines(s, start as nat));
        }
        out
    }
}

/// Reproduce `text` with 1-based line numbers, for parse diagnostics.
/// (The length bound keeps the line counter inside a machine word.)
pub fn line_numbered(text: &str) -> (r: String)
    requires
        text@.len() < 0xffff_ffff_0000_0000,
    ensures
        r@ == spec_line_numbered(text@),
{
    let v = chars_of(text);
    let lines = split_by(&v, '\n', '\n');
    proof {
        assert(lines.deep_view().skip(0) =~~= lines.deep_view());
        lemma_split_nonempty(v@, '\n', '\n');
        assert(lines@.len() == lines.deep_view().len());
    }
    let out = numbered_from(&lines, 0, 1);
    string_from_chars(&out)
}

} // verus!
