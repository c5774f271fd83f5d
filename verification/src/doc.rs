//! The structured document tree and its path accessors.
//!
//! A document is a tree of scalar, sequence and mapping nodes.  The outside
//! yaml parser produces it (behind a trusted wrapper); everything read from
//! it afterwards goes through the verified accessors here.  Paths are
//! `/`- or `.`-separated; a segment selects a mapping key, or an index in a
//! sequence.  A missing segment is an absent value, never an error.

use vstd::prelude::*;
use crate::text::{
    chars_of, string_from_chars, spec_split, spec_parse_u64, parse_u64, spec_i64_string,
    i64_to_string,
};
use crate::error::StoreError;

verus! {

/// One node of a parsed document.  Mapping entries keep insertion order;
/// a key occurring twice is resolved to its first entry.
#[derive(Debug)]
pub enum Node {
    Null,
    Bool(bool),
    Int(i64),
    Str(String),
    List(Vec<Node>),
    Dict(Vec<(String, Node)>),
}

/// First entry with the given key.
pub open spec fn spec_dict_get(entries: Seq<(String, Node)>, key: Seq<char>) -> Option<Node>
    decreases entries.len(),
{
    if entries.len() == 0 {
        None
    } else if entries[0].0@ == key {
        Some(entries[0].1)
    } else {
        spec_dict_get(entries.drop_first(), key)
    }
}

pub open spec fn spec_path_segments(path: Seq<char>) -> Seq<Seq<char>> {
    spec_split(path, '/', '.')
}

/// Walk the tree along the segments: mapping keys and sequence indices.
pub open spec fn spec_get(n: Node, segs: Seq<Seq<char>>) -> Option<Node>
    decreases segs.len(),
{
    if segs.len() == 0 {
        Some(n)
    } else {
        match n {
            Node::Dict(entries) => match spec_dict_get(entries@, segs[0]) {
                Some(c) => spec_get(c, segs.drop_first()),
                None => None,
            },
            Node::List(items) => match spec_parse_u64(segs[0]) {
                Some(i) => if (i as int) < items@.len() {
                    spec_get(items@[i as int], segs.drop_first())
                } else {
                    None
                },
                None => None,
            },
            _ => None,
        }
    }
}

pub open spec fn spec_get_path(n: Node, path: Seq<char>) -> Option<Node> {
    spec_get(n, spec_path_segments(path))
}

pub open spec fn spec_get_str(n: Node, path: Seq<char>) -> Option<Seq<char>> {
    match spec_get_path(n, path) {
        Some(Node::Str(s)) => Some(s@),
        _ => None,
    }
}

pub open spec fn spec_get_int(n: Node, path: Seq<char>) -> Option<i64> {
    match spec_get_path(n, path) {
        Some(Node::Int(i)) => Some(i),
        _ => None,
    }
}

pub open spec fn spec_get_bool(n: Node, path: Seq<char>) -> Option<bool> {
    match spec_get_path(n, path) {
        Some(Node::Bool(b)) => Some(b),
        _ => None,
    }
}

/// A scalar rendered as text: strings as they are, integers in decimal,
/// booleans as `true` / `false`.  (The one `i64` value whose negation does
/// not fit is not rendered.)
pub open spec fn spec_scalar_string(n: Node) -> Option<Seq<char>> {
    match n {
        Node::Str(s) => Some(s@),
        Node::Int(i) => if i > i64::MIN {
            Some(spec_i64_string(i as int))
        } else {
            None
        },
        Node::Bool(b) => Some(if b {
            "true"@
        } else {
            "false"@
        }),
        _ => None,
    }
}

pub open spec fn spec_get_to_string(n: Node, path: Seq<char>) -> Option<Seq<char>> {
    match spec_get_path(n, path) {
        Some(c) => spec_scalar_string(c),
        None => None,
    }
}

fn dict_find_from<'a>(entries: &'a Vec<(String, Node)>, j: usize, key: &String) -> (r: Option<
    &'a Node,
>)
    requires
        j <= entries@.len(),
    ensures
        match r {
            Some(c) => spec_dict_get(entries@.skip(j as int), key@) == Some(*c),
            None => spec_dict_get(entries@.skip(j as int), key@) is None,
        },
    decreases entries@.len() - j,
{
    let ghost s = entries@.skip(j as int);
    if j == entries.len() {
        proof {
            assert(s =~= Seq::<(String, Node)>::empty());
        }
        None
    } else {
        proof {
            assert(s[0] == entries@[j as int]);
            assert(s.drop_first() =~= entries@.skip(j as int + 1));
        }
        let e = &entries[j];
        if e.0 == *key {
            Some(&e.1)
        } else {
            dict_find_from(entries, j + 1, key)
        }
    }
}

fn get_segs<'a>(n: &'a Node, segs: &Vec<Vec<char>>, i: usize) -> (r: Option<&'a Node>)
    requires
        i <= segs@.len(),
    ensures
        match r {
            Some(c) => spec_get(*n, segs.deep_view().skip(i as int)) == Some(*c),
            None => spec_get(*n, segs.deep_view().skip(i as int)) is None,
        },
    decreases segs@.len() - i,
{
    let ghost ss = segs.deep_view().skip(i as int);
    if i == segs.len() {
        proof {
            assert(ss =~~= Seq::<Seq<char>>::empty());
        }
        Some(n)
    } else {
        proof {
            assert(ss[0] == segs.deep_view()[i as int]);
            assert(ss[0] =~= segs@[i as int]@);
            assert(ss.drop_first() =~~= segs.deep_view().skip(i as int + 1));
        }
        match n {
            Node::Dict(entries) => {
                let key = string_from_chars(&segs[i]);
                match dict_find_from(entries, 0, &key) {
                    Some(c) => {
                        proof {
                            assert(entries@.skip(0) =~= entries@);
                        }
                        get_segs(c, segs, i + 1)
                    },
                    None => {
                        proof {
                            assert(entries@.skip(0) =~= entries@);
                        }
                        None
                    },
                }
            },
            Node::List(items) => {
                let seg = &segs[i];
                proof {
                    assert(seg@.subrange(0, seg@.len() as int) =~= seg@);
                }
                match parse_u64(seg, 0, seg.len()) {
                    Some(idx) => {
                        if idx < items.len() as u64 {
                            get_segs(&items[idx as usize], segs, i + 1)
                        } else {
                            None
                        }
                    },
                    None => None,
                }
            },
            _ => None,
        }
    }
}

impl Node {
    /// The node at `path`, or nothing when any segment is absent.
    pub fn get<'a>(&'a self, path: &str) -> (r: Option<&'a Node>)
        ensures
            match r {
                Some(c) => spec_get_path(*self, path@) == Some(*c),
                None => spec_get_path(*self, path@) is None,
            },
    {
        let p = chars_of(path);
        let segs = crate::text::split_by(&p, '/', '.');
        let r = get_segs(self, &segs, 0);
        proof {
            assert(segs.deep_view().skip(0) =~~= segs.deep_view());
        }
        r
    }

    /// The string at `path`.
    pub fn get_str<'a>(&'a self, path: &str) -> (r: Option<&'a String>)
        ensures
            match r {
                Some(s) => spec_get_str(*self, path@) == Some(s@),
                None => spec_get_str(*self, path@) is None,
            },
    {
        match self.get(path) {
            Some(Node::Str(s)) => Some(s),
            _ => None,
        }
    }

    /// The integer at `path`.
    pub fn get_int(&self, path: &str) -> (r: Option<i64>)
        ensures
            r == spec_get_int(*self, path@),
    {
        match self.get(path) {
            Some(Node::Int(i)) => Some(*i),
            _ => None,
        }
    }

    /// The boolean at `path`.
    pub fn get_bool(&self, path: &str) -> (r: Option<bool>)
        ensures
            r == spec_get_bool(*self, path@),
    {
        match self.get(path) {
            Some(Node::Bool(b)) => Some(*b),
            _ => None,
        }
    }

    /// The mapping entries at `path`.
    pub fn get_hash<'a>(&'a self, path: &str) -> (r: Option<&'a Vec<(String, Node)>>)
        ensures
            match r {
                Some(es) => spec_get_path(*self, path@) == Some(Node::Dict(*es)),
                None => !(spec_get_path(*self, path@) matches Some(Node::Dict(_))),
            },
    {
        match self.get(path) {
            Some(Node::Dict(es)) => Some(es),
            _ => None,
        }
    }

    /// The list at `path` read as text items: the scalar elements rendered
    /// as text; a list with a non-scalar element, or anything else at the
    /// path, is no list of strings.
    pub fn get_list_of_strings(&self, path: &str) -> (r: Option<Vec<String>>)
        ensures
            match r {
                Some(v) => spec_get_list_of_strings(*self, path@) == Some(v.deep_view()),
                None => spec_get_list_of_strings(*self, path@) is None,
            },
    {
        match self.get(path) {
            Some(Node::List(xs)) => {
                proof {
                    assert(xs@.skip(0) =~= xs@);
                }
                scalar_strings_from(xs, 0)
            },
            _ => None,
        }
    }

    /// Whether anything at all stands at `path`.
    pub fn field_exists(&self, path: &str) -> (r: bool)
        ensures
            r == (spec_get_path(*self, path@) is Some),
    {
        self.get(path).is_some()
    }

    /// The node rendered as scalar text, when it is one.
    pub fn scalar_string(&self) -> (r: Option<String>)
        ensures
            match r {
                Some(s) => spec_scalar_string(*self) == Some(s@),
                None => spec_scalar_string(*self) is None,
            },
    {
        match self {
            Node::Str(s) => Some(s.clone()),
            Node::Int(i) => {
                if *i > i64::MIN {
                    Some(i64_to_string(*i))
                } else {
                    None
                }
            },
            Node::Bool(b) => {
                if *b {
                    Some("true".to_owned())
                } else {
                    Some("false".to_owned())
                }
            },
            _ => None,
        }
    }

    /// The scalar at `path` rendered as text.
    pub fn get_to_string(&self, path: &str) -> (r: Option<String>)
        ensures
            match r {
                Some(s) => spec_get_to_string(*self, path@) == Some(s@),
                None => spec_get_to_string(*self, path@) is None,
            },
    {
        match self.get(path) {
            Some(Node::Str(s)) => Some(s.clone()),
            Some(Node::Int(i)) => {
                if *i > i64::MIN {
                    Some(i64_to_string(*i))
                } else {
                    None
                }
            },
            Some(Node::Bool(b)) => {
                if *b {
                    Some("true".to_owned())
                } else {
                    Some("false".to_owned())
                }
            },
            _ => None,
        }
    }
}

/// The elements of a list of scalars, each rendered as text.
pub open spec fn spec_scalar_strings(xs: Seq<Node>) -> Option<Seq<Seq<char>>>
    decreases xs.len(),
{
    if xs.len() == 0 {
        Some(Seq::empty())
    } else {
        match (spec_scalar_string(xs[0]), spec_scalar_strings(xs.drop_first())) {
            (Some(h), Some(rest)) => Some(seq![h] + rest),
            _ => None,
        }
    }
}

pub open spec fn spec_get_list_of_strings(n: Node, path: Seq<char>) -> Option<Seq<Seq<char>>> {
    match spec_get_path(n, path) {
        Some(Node::List(xs)) => spec_scalar_strings(xs@),
        _ => None,
    }
}

fn scalar_strings_from(xs: &Vec<Node>, i: usize) -> (r: Option<Vec<String>>)
    requires
        i <= xs@.len(),
    ensures
        match r {
            Some(v) => spec_scalar_strings(xs@.skip(i as int)) == Some(v.deep_view()),
            None => spec_scalar_strings(xs@.skip(i as int)) is None,
        },
    decreases xs@.len() - i,
{
    let ghost s = xs@.skip(i as int);
    if i == xs.len() {
        proof {
            assert(s =~= Seq::<Node>::empty());
        }
        let v: Vec<String> = Vec::new();
        proof {
            assert(v.deep_view() =~~= Seq::<Seq<char>>::empty());
        }
        Some(v)
    } else {
        proof {
            assert(s[0] == xs@[i as int]);
            assert(s.drop_first() =~= xs@.skip(i as int + 1));
        }
        match xs[i].scalar_string() {
            None => None,
            Some(h) => match scalar_strings_from(xs, i + 1) {
                None => None,
                Some(rest) => {
                    let mut v: Vec<String> = Vec::new();
                    v.push(h);
                    let mut r2 = rest;
                    v.append(&mut r2);
                    proof {
                        assert(v.deep_view() =~~= spec_scalar_strings(s).unwrap());
                    }
                    Some(v)
                },
            },
        }
    }
}

#[verifier::external_type_specification]
#[verifier::external_body]
pub struct ExYaml(yaml_rust::Yaml);

/// Relies on the `yaml_rust::Yaml` constructors: each variant is carried to
/// the matching `Node` variant, fields moved one to one.  Floats keep their
/// textual form, a non-string mapping key falls back to the empty string,
/// aliases and bad values to `Null`.
#[verifier::external_body]
fn node_of_yaml(y: &yaml_rust::Yaml) -> Node {
    match y {
        yaml_rust::Yaml::Real(s) => Node::Str(s.clone()),
        yaml_rust::Yaml::Integer(i) => Node::Int(*i),
        yaml_rust::Yaml::String(s) => Node::Str(s.clone()),
        yaml_rust::Yaml::Boolean(b) => Node::Bool(*b),
        yaml_rust::Yaml::Array(a) => Node::List(a.iter().map(node_of_yaml).collect()),
        yaml_rust::Yaml::Hash(h) => Node::Dict(
            h.iter().map(|(k, v)| (k.as_str().unwrap_or("").to_owned(), node_of_yaml(v))).collect(),
        ),
        _ => Node::Null,
    }
}

/// What the outside yaml parser yields on a text, as a `Node` tree; nothing
/// when the text is not a well-formed document.  Parsing is a function of
/// the text alone.
pub uninterp spec fn parsed_doc(text: Seq<char>) -> Option<Node>;

/// Relies on `yaml_rust::YamlLoader::load_from_str`: a deterministic parse
/// of the text; the first document of the stream is returned, converted by
/// `node_of_yaml`; a scan error carries the parser's message and marker
/// (line 1-based, column 0-based).
#[verifier::external_body]
pub fn parse_document(text: &str) -> (r: Result<Node, StoreError>)
    ensures
        r is Ok <==> parsed_doc(text@) is Some,
        r matches Ok(n) ==> parsed_doc(text@) == Some(n),
        r matches Err(e) ==> e is ParseFailure,
{
    match yaml_rust::YamlLoader::load_from_str(text) {
        Ok(docs) => match docs.into_iter().next() {
            Some(y) => Ok(node_of_yaml(&y)),
            None => Err(StoreError::ParseFailure {
                message: "empty document".to_owned(),
                line: 0,
                col: 0,
            }),
        },
        Err(e) => Err(StoreError::ParseFailure {
            message: e.to_string(),
            line: e.marker().line() as u64,
            col: e.marker().col() as u64,
        }),
    }
}

} // verus!
