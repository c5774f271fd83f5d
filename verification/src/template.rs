//! The document template engine.
//!
//! A template is plain text with placeholder tokens of the form `__KEY__`,
//! where the key is a non-empty run of upper-case letters, digits and
//! hyphens.  Filling replaces each whole token whose key the mapping knows
//! by the mapped value, in one left-to-right pass; keys the mapping does not
//! know are kept verbatim and stay queryable for a later pass.  Mapping
//! entries that never occur in the template are silently ignored.

use vstd::prelude::*;
use crate::text::{chars_of, string_from_chars, subvec};

verus! {

pub open spec fn is_key_char(c: char) -> bool {
    ('A' <= c && c <= 'Z') || ('0' <= c && c <= '9') || c == '-'
}

/// Length of the run of key characters at the head of `s`.
pub open spec fn key_run(s: Seq<char>) -> nat
    decreases s.len(),
{
    if s.len() > 0 && is_key_char(s[0]) {
        1 + key_run(s.drop_first())
    } else {
        0
    }
}

proof fn lemma_key_run(s: Seq<char>)
    ensures
        key_run(s) <= s.len(),
        forall|i: int| 0 <= i < key_run(s) ==> is_key_char(#[trigger] s[i]),
        key_run(s) < s.len() ==> !is_key_char(s[key_run(s) as int]),
    decreases s.len(),
{
    if s.len() > 0 && is_key_char(s[0]) {
        lemma_key_run(s.drop_first());
        assert(forall|i: int|
            1 <= i < key_run(s) ==> is_key_char(#[trigger] s[i]) == is_key_char(
                s.drop_first()[i - 1],
            ));
    }
}

proof fn lemma_key_run_is(s: Seq<char>, k: int)
    requires
        0 <= k <= s.len(),
        forall|i: int| 0 <= i < k ==> is_key_char(#[trigger] s[i]),
        k < s.len() ==> !is_key_char(s[k]),
    ensures
        key_run(s) == k,
    decreases s.len(),
{
    if s.len() > 0 && is_key_char(s[0]) {
        assert(k >= 1);
        assert(forall|i: int|
            0 <= i < k - 1 ==> is_key_char(#[trigger] s.drop_first()[i]) == is_key_char(s[i + 1]));
        lemma_key_run_is(s.drop_first(), k - 1);
    } else {
        assert(k == 0);
    }
}

/// Whether `t` starts with a whole placeholder token `__KEY__`.
pub open spec fn has_head_token(t: Seq<char>) -> bool {
    let k = key_run(t.skip(2));
    &&& t.len() >= 4 + k
    &&& k > 0
    &&& t[0] == '_'
    &&& t[1] == '_'
    &&& t[2 + k as int] == '_'
    &&& t[3 + k as int] == '_'
}

pub open spec fn head_key_len(t: Seq<char>) -> nat {
    key_run(t.skip(2))
}

pub open spec fn head_token_key(t: Seq<char>) -> Seq<char> {
    t.subrange(2, 2 + head_key_len(t) as int)
}

/// The key-to-value mapping built from a pair list; on a repeated key the
/// earlier pair wins, as the scanning lookup does.
pub open spec fn pairs_map(pairs: Seq<(String, String)>) -> Map<Seq<char>, Seq<char>>
    decreases pairs.len(),
{
    if pairs.len() == 0 {
        Map::empty()
    } else {
        pairs_map(pairs.drop_first()).insert(pairs[0].0@, pairs[0].1@)
    }
}

/// One left-to-right filling pass over `t`.
pub open spec fn spec_fill(t: Seq<char>, m: Map<Seq<char>, Seq<char>>) -> Seq<char>
    decreases t.len(),
{
    if t.len() == 0 {
        t
    } else if has_head_token(t) {
        let k = head_key_len(t);
        let rest = t.skip(4 + k as int);
        if m.contains_key(head_token_key(t)) {
            m[head_token_key(t)] + spec_fill(rest, m)
        } else {
            t.subrange(0, 4 + k as int) + spec_fill(rest, m)
        }
    } else {
        seq![t[0]] + spec_fill(t.drop_first(), m)
    }
}

/// The placeholder keys of `t`, in order of occurrence.
pub open spec fn spec_keywords(t: Seq<char>) -> Seq<Seq<char>>
    decreases t.len(),
{
    if t.len() == 0 {
        Seq::empty()
    } else if has_head_token(t) {
        seq![head_token_key(t)] + spec_keywords(t.skip(4 + head_key_len(t) as int))
    } else {
        spec_keywords(t.drop_first())
    }
}

fn key_char(c: char) -> (b: bool)
    ensures
        b == is_key_char(c),
{
    ('A' <= c && c <= 'Z') || ('0' <= c && c <= '9') || c == '-'
}

/// Whether a whole token starts at position `i`; returns its key length.
fn token_at(t: &Vec<char>, i: usize) -> (r: Option<usize>)
    requires
        i < t@.len(),
    ensures
        match r {
            Some(k) => {
                &&& has_head_token(t@.skip(i as int))
                &&& k == head_key_len(t@.skip(i as int))
                &&& 0 < k
                &&& i + 4 + k <= t@.len()
            },
            None => !has_head_token(t@.skip(i as int)),
        },
{
    let ghost s = t@.skip(i as int);
    let n = t.len();
    if t[i] != '_' {
        proof {
            assert(s[0] == t@[i as int]);
        }
        return None;
    }
    if i + 1 >= n || t[i + 1] != '_' {
        proof {
            lemma_key_run(s.skip(2));
            if i + 1 < n {
                assert(s[1] == t@[i + 1]);
            }
        }
        return None;
    }
    let mut j = i + 2;
    while j < n && key_char(t[j])
        invariant
            i + 2 <= j <= n,
            n == t@.len(),
            forall|x: int| i + 2 <= x < j ==> is_key_char(#[trigger] t@[x]),
        decreases n - j,
    {
        j = j + 1;
    }
    let k = j - (i + 2);
    proof {
        assert(s.skip(2) =~= t@.skip(i + 2));
        assert(forall|x: int|
            0 <= x < k ==> is_key_char(#[trigger] t@.skip(i + 2)[x]) == is_key_char(t@[i + 2 + x]));
        if k < t@.skip(i + 2).len() {
            assert(t@.skip(i + 2)[k as int] == t@[j as int]);
        }
        lemma_key_run_is(t@.skip(i + 2), k as int);
        assert(head_key_len(s) == k);
        assert(s[0] == t@[i as int] && s[1] == t@[i + 1]);
    }
    if k == 0 {
        return None;
    }
    if j >= n - 1 {
        proof {
            assert(s.len() == n - i);
        }
        return None;
    }
    proof {
        assert(s[2 + k as int] == t@[j as int]);
        assert(s[3 + k as int] == t@[j + 1]);
    }
    if t[j] == '_' && t[j + 1] == '_' {
        Some(k)
    } else {
        None
    }
}

fn lookup_from<'a>(pairs: &'a Vec<(String, String)>, j: usize, key: &String) -> (r: Option<
    &'a String,
>)
    requires
        j <= pairs@.len(),
    ensures
        match r {
            Some(v) => pairs_map(pairs@.skip(j as int)).contains_key(key@) && pairs_map(
                pairs@.skip(j as int),
            )[key@] == v@,
            None => !pairs_map(pairs@.skip(j as int)).contains_key(key@),
        },
    decreases pairs@.len() - j,
{
    let ghost s = pairs@.skip(j as int);
    if j == pairs.len() {
        proof {
            assert(s =~= Seq::<(String, String)>::empty());
        }
        None
    } else {
        proof {
            assert(s[0] == pairs@[j as int]);
            assert(s.drop_first() =~= pairs@.skip(j as int + 1));
        }
        let p = &pairs[j];
        if p.0 == *key {
            Some(&p.1)
        } else {
            lookup_from(pairs, j + 1, key)
        }
    }
}

fn fill_from(t: &Vec<char>, i: usize, pairs: &Vec<(String, String)>) -> (r: Vec<char>)
    requires
        i <= t@.len(),
    ensures
        r@ == spec_fill(t@.skip(i as int), pairs_map(pairs@)),
    decreases t@.len() - i,
{
    let ghost s = t@.skip(i as int);
    let ghost m = pairs_map(pairs@);
    if i == t.len() {
        proof {
            assert(s =~= Seq::<char>::empty());
        }
        Vec::new()
    } else if let Some(k) = token_at(t, i) {
        let key = subvec(t, i + 2, i + 2 + k);
        proof {
            assert(key@ =~= head_token_key(s));
            assert(s.skip(4 + k as int) =~= t@.skip(i + 4 + k));
        }
        let key_s = string_from_chars(&key);
        match lookup_from(pairs, 0, &key_s) {
            Some(v) => {
                proof {
                    assert(pairs@.skip(0) =~= pairs@);
                }
                let mut out = chars_of(v.as_str());
                let mut rest = fill_from(t, i + 4 + k, pairs);
                out.append(&mut rest);
                proof {
                    assert(out@ =~= spec_fill(s, m));
                }
                out
            },
            None => {
                proof {
                    assert(pairs@.skip(0) =~= pairs@);
                }
                let mut out = subvec(t, i, i + 4 + k);
                let mut rest = fill_from(t, i + 4 + k, pairs);
                out.append(&mut rest);
                proof {
                    assert(t@.subrange(i as int, i + 4 + k) =~= s.subrange(0, 4 + k as int));
                    assert(out@ =~= spec_fill(s, m));
                }
                out
            },
        }
    } else {
        let mut out: Vec<char> = Vec::new();
        out.push(t[i]);
        let mut rest = fill_from(t, i + 1, pairs);
        out.append(&mut rest);
        proof {
            assert(s[0] == t@[i as int]);
            assert(s.drop_first() =~= t@.skip(i as int + 1));
            assert(out@ =~= spec_fill(s, m));
        }
        out
    }
}

fn keywords_from(t: &Vec<char>, i: usize) -> (r: Vec<String>)
    requires
        i <= t@.len(),
    ensures
        r.deep_view() == spec_keywords(t@.skip(i as int)),
    decreases t@.len() - i,
{
    let ghost s = t@.skip(i as int);
    if i == t.len() {
        proof {
            assert(s =~= Seq::<char>::empty());
        }
        let r: Vec<String> = Vec::new();
        proof {
            assert(r.deep_view() =~~= spec_keywords(s));
        }
        r
    } else if let Some(k) = token_at(t, i) {
        let key = subvec(t, i + 2, i + 2 + k);
        proof {
            assert(key@ =~= head_token_key(s));
            assert(s.skip(4 + k as int) =~= t@.skip(i + 4 + k));
        }
        let key_s = string_from_chars(&key);
        let mut r = keywords_from(t, i + 4 + k);
        let mut out: Vec<String> = Vec::new();
        out.push(key_s);
        out.append(&mut r);
        proof {
            assert(out.deep_view() =~~= spec_keywords(s));
        }
        out
    } else {
        proof {
            assert(s.drop_first() =~= t@.skip(i as int + 1));
        }
        let r = keywords_from(t, i + 1);
        proof {
            assert(r.deep_view() =~~= spec_keywords(s));
        }
        r
    }
}

/// The keys of all placeholder tokens in `s`, in order of occurrence.
pub fn list_keywords(s: &str) -> (r: Vec<String>)
    ensures
        r.deep_view() == spec_keywords(s@),
{
    let t = chars_of(s);
    let r = keywords_from(&t, 0);
    proof {
        assert(t@.skip(0) =~= t@);
    }
    r
}

/// A template text under construction: `new`, any number of filling passes,
/// then `finalize`.
pub struct Templater {
    pub text: String,
}

/// The frozen result of filling: the final text and the keys that stayed
/// unresolved, still queryable for a follow-up pass.
pub struct Filled {
    pub filled: String,
    pub remaining: Vec<String>,
}

impl Templater {
    pub fn new(text: &str) -> (r: Templater)
        ensures
            r.text@ == text@,
    {
        Templater { text: text.to_owned() }
    }

    /// One filling pass with the given key-value pairs.
    pub fn fill_in_data(&self, pairs: &Vec<(String, String)>) -> (r: Templater)
        ensures
            r.text@ == spec_fill(self.text@, pairs_map(pairs@)),
    {
        let t = chars_of(self.text.as_str());
        let out = fill_from(&t, 0, pairs);
        proof {
            assert(t@.skip(0) =~= t@);
        }
        Templater { text: string_from_chars(&out) }
    }

    /// One filling pass that substitutes a single field.
    pub fn fill_in_field(&self, field: &str, value: &str) -> (r: Templater)
        ensures
            r.text@ == spec_fill(self.text@, map![field@ => value@]),
    {
        let mut pairs: Vec<(String, String)> = Vec::new();
        pairs.push((field.to_owned(), value.to_owned()));
        proof {
            assert(pairs@.drop_first() =~= Seq::<(String, String)>::empty());
            assert(pairs_map(pairs@.drop_first()) =~= Map::<Seq<char>, Seq<char>>::empty());
            assert(pairs_map(pairs@) =~= Map::<Seq<char>, Seq<char>>::empty().insert(
                field@,
                value@,
            ));
            assert(pairs_map(pairs@) =~= map![field@ => value@]);
        }
        self.fill_in_data(&pairs)
    }

    /// Freeze the text: no further substitution, but the unresolved keys are
    /// reported for follow-up prompts.
    pub fn finalize(self) -> (r: Filled)
        ensures
            r.filled@ == self.text@,
            r.remaining.deep_view() == spec_keywords(self.text@),
    {
        let remaining = list_keywords(self.text.as_str());
        Filled { filled: self.text, remaining }
    }
}

pub open spec fn underscore_free(s: Seq<char>) -> bool {
    forall|i: int| 0 <= i < s.len() ==> s[i] != '_'
}

/// A template is clean when every `_` in it belongs to a whole placeholder
/// token.
pub open spec fn clean_template(t: Seq<char>) -> bool
    decreases t.len(),
{
    if t.len() == 0 {
        true
    } else if has_head_token(t) {
        clean_template(t.skip(4 + head_key_len(t) as int))
    } else {
        t[0] != '_' && clean_template(t.drop_first())
    }
}

/// The mapping supplies every placeholder of `t`.
pub open spec fn covers(t: Seq<char>, m: Map<Seq<char>, Seq<char>>) -> bool {
    forall|i: int| 0 <= i < spec_keywords(t).len() ==> m.contains_key(#[trigger] spec_keywords(t)[i])
}

pub open spec fn values_underscore_free(m: Map<Seq<char>, Seq<char>>) -> bool {
    forall|k: Seq<char>| m.contains_key(k) ==> underscore_free(#[trigger] m[k])
}

proof fn lemma_fill_underscore_free(t: Seq<char>, m: Map<Seq<char>, Seq<char>>)
    requires
        clean_template(t),
        covers(t, m),
        values_underscore_free(m),
    ensures
        underscore_free(spec_fill(t, m)),
    decreases t.len(),
{
    if t.len() == 0 {
    } else if has_head_token(t) {
        let k = head_key_len(t);
        let key = head_token_key(t);
        let rest = t.skip(4 + k as int);
        assert(spec_keywords(t)[0] == key);
        assert(m.contains_key(key));
        assert(covers(rest, m)) by {
            assert(forall|i: int|
                0 <= i < spec_keywords(rest).len() ==> spec_keywords(t)[i + 1]
                    == #[trigger] spec_keywords(rest)[i]);
        }
        lemma_fill_underscore_free(rest, m);
        assert(underscore_free(m[key] + spec_fill(rest, m)));
    } else {
        assert(covers(t.drop_first(), m)) by {
            assert(spec_keywords(t.drop_first()) == spec_keywords(t));
        }
        lemma_fill_underscore_free(t.drop_first(), m);
        assert(underscore_free(seq![t[0]] + spec_fill(t.drop_first(), m)));
    }
}

proof fn lemma_underscore_free_no_keywords(s: Seq<char>)
    requires
        underscore_free(s),
    ensures
        spec_keywords(s) =~= Seq::<Seq<char>>::empty(),
    decreases s.len(),
{
    if s.len() > 0 {
        assert(s[0] != '_');
        assert(!has_head_token(s));
        assert(underscore_free(s.drop_first())) by {
            assert(forall|i: int|
                0 <= i < s.len() - 1 ==> #[trigger] s.drop_first()[i] == s[i + 1]);
        }
        lemma_underscore_free_no_keywords(s.drop_first());
    }
}

/// LAW (round-trip, template side): filling a clean template with a mapping
/// that supplies every one of its placeholders, with values that introduce no
/// delimiter character, resolves every placeholder: the filled text has no
/// placeholder left.  (A value holding `_` can manufacture a new token out of
/// surrounding text, so such values are excluded.)
pub proof fn lemma_fill_resolves_all_keywords(t: Seq<char>, m: Map<Seq<char>, Seq<char>>)
    requires
        clean_template(t),
        covers(t, m),
        values_underscore_free(m),
    ensures
        spec_keywords(spec_fill(t, m)) =~= Seq::<Seq<char>>::empty(),
{
    lemma_fill_underscore_free(t, m);
    lemma_underscore_free_no_keywords(spec_fill(t, m));
}

} // verus!
