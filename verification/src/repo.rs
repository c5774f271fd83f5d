//! Version status of record files.
//!
//! A repository handle is opened once per store scan; the full status list
//! is walked eagerly into a path-to-status cache, and point lookups answer
//! from it.  When the tool is unavailable or the directory is no repository,
//! the cache is empty and every lookup degrades to `Unknown` — never an
//! error.  Mutating commands are built here as plain argument vectors; the
//! caller spawns them.

use vstd::prelude::*;
use crate::text::{chars_of, string_from_chars, subvec};
use vstd::string::StringExecFns;

verus! {

/// A path's version-control state.
#[derive(Debug, Clone, Copy, PartialEq, Eq, Structural)]
pub enum GitStatus {
    IndexNew,
    IndexModified,
    IndexDeleted,
    IndexRenamed,
    IndexTypechange,
    WorkingNew,
    WorkingModified,
    WorkingDeleted,
    WorkingTypechange,
    WorkingRenamed,
    Ignored,
    Conflict,
    Current,
    Unknown,
}

/// The status encoded in the tool's raw bit set, tested in the fixed
/// priority order; unknown bit patterns degrade to `Unknown`.
pub open spec fn spec_status_of_bits(bits: u32) -> GitStatus {
    if bits & 0x0001 != 0 {
        GitStatus::IndexNew
    } else if bits & 0x0002 != 0 {
        GitStatus::IndexModified
    } else if bits & 0x0004 != 0 {
        GitStatus::IndexDeleted
    } else if bits & 0x0008 != 0 {
        GitStatus::IndexRenamed
    } else if bits & 0x0010 != 0 {
        GitStatus::IndexTypechange
    } else if bits & 0x0080 != 0 {
        GitStatus::WorkingNew
    } else if bits & 0x0100 != 0 {
        GitStatus::WorkingModified
    } else if bits & 0x0200 != 0 {
        GitStatus::WorkingDeleted
    } else if bits & 0x0400 != 0 {
        GitStatus::WorkingTypechange
    } else if bits & 0x0800 != 0 {
        GitStatus::WorkingRenamed
    } else if bits & 0x4000 != 0 {
        GitStatus::Ignored
    } else if bits & 0x8000 != 0 {
        GitStatus::Conflict
    } else {
        GitStatus::Unknown
    }
}

impl GitStatus {
    /// Decode the tool's raw status bits.
    pub fn from_bits(bits: u32) -> (r: GitStatus)
        ensures
            r == spec_status_of_bits(bits),
    {
        if bits & 0x0001 != 0 {
            GitStatus::IndexNew
        } else if bits & 0x0002 != 0 {
            GitStatus::IndexModified
        } else if bits & 0x0004 != 0 {
            GitStatus::IndexDeleted
        } else if bits & 0x0008 != 0 {
            GitStatus::IndexRenamed
        } else if bits & 0x0010 != 0 {
            GitStatus::IndexTypechange
        } else if bits & 0x0080 != 0 {
            GitStatus::WorkingNew
        } else if bits & 0x0100 != 0 {
            GitStatus::WorkingModified
        } else if bits & 0x0200 != 0 {
            GitStatus::WorkingDeleted
        } else if bits & 0x0400 != 0 {
            GitStatus::WorkingTypechange
        } else if bits & 0x0800 != 0 {
            GitStatus::WorkingRenamed
        } else if bits & 0x4000 != 0 {
            GitStatus::Ignored
        } else if bits & 0x8000 != 0 {
            GitStatus::Conflict
        } else {
            GitStatus::Unknown
        }
    }

    /// The one-character marker shown in listings (the spelled-out name for
    /// the rarer states, nothing for unknown).
    pub open spec fn spec_symbol(self) -> Seq<char> {
        match self {
            GitStatus::Conflict => "X"@,
            GitStatus::Current => "+"@,
            GitStatus::WorkingNew => "+"@,
            GitStatus::WorkingModified => "~"@,
            GitStatus::IndexNew => "+"@,
            GitStatus::IndexModified => "\u{2713}"@,
            GitStatus::Unknown => ""@,
            GitStatus::IndexDeleted => "IndexDeleted"@,
            GitStatus::IndexRenamed => "IndexRenamed"@,
            GitStatus::IndexTypechange => "IndexTypechange"@,
            GitStatus::WorkingDeleted => "WorkingDeleted"@,
            GitStatus::WorkingTypechange => "WorkingTypechange"@,
            GitStatus::WorkingRenamed => "WorkingRenamed"@,
            GitStatus::Ignored => "Ignored"@,
        }
    }

    pub fn symbol(&self) -> (r: String)
        ensures
            r@ == self.spec_symbol(),
    {
        match self {
            GitStatus::Conflict => "X".to_owned(),
            GitStatus::Current => "+".to_owned(),
            GitStatus::WorkingNew => "+".to_owned(),
            GitStatus::WorkingModified => "~".to_owned(),
            GitStatus::IndexNew => "+".to_owned(),
            GitStatus::IndexModified => "\u{2713}".to_owned(),
            GitStatus::Unknown => "".to_owned(),
            GitStatus::IndexDeleted => "IndexDeleted".to_owned(),
            GitStatus::IndexRenamed => "IndexRenamed".to_owned(),
            GitStatus::IndexTypechange => "IndexTypechange".to_owned(),
            GitStatus::WorkingDeleted => "WorkingDeleted".to_owned(),
            GitStatus::WorkingTypechange => "WorkingTypechange".to_owned(),
            GitStatus::WorkingRenamed => "WorkingRenamed".to_owned(),
            GitStatus::Ignored => "Ignored".to_owned(),
        }
    }
}

/// Raised when the version-control integration is unavailable.
#[derive(Debug)]
pub struct GitError;

impl GitError {
    pub fn description(&self) -> (r: String)
        ensures
            r@ == "version control is unavailable"@,
    {
        "version control is unavailable".to_owned()
    }
}

/// The status cache: a path-to-status association, later writes shadowing
/// earlier ones, every absent path `Unknown`.
#[derive(Debug)]
pub struct StatusCache {
    pub entries: Vec<(String, GitStatus)>,
}

pub open spec fn cache_view(c: StatusCache) -> Seq<(Seq<char>, GitStatus)> {
    Seq::new(c.entries@.len(), |i: int| (c.entries@[i].0@, c.entries@[i].1))
}

/// The last entry for `path`, or `Unknown`.
pub open spec fn spec_cache_lookup(entries: Seq<(Seq<char>, GitStatus)>, path: Seq<char>) -> GitStatus
    decreases entries.len(),
{
    if entries.len() == 0 {
        GitStatus::Unknown
    } else if entries.last().0 == path {
        entries.last().1
    } else {
        spec_cache_lookup(entries.drop_last(), path)
    }
}

/// Index of the last `/` in `p`, or -1.
pub open spec fn spec_last_slash(p: Seq<char>) -> int
    decreases p.len(),
{
    if p.len() == 0 {
        -1
    } else if p.last() == '/' {
        p.len() - 1
    } else {
        spec_last_slash(p.drop_last())
    }
}

/// The parent directory of a path that has one.
pub open spec fn spec_parent_of(p: Seq<char>) -> Seq<char> {
    p.subrange(0, spec_last_slash(p))
}

proof fn lemma_last_slash_bounds(p: Seq<char>)
    ensures
        -1 <= spec_last_slash(p) < p.len(),
        spec_last_slash(p) >= 0 ==> p[spec_last_slash(p)] == '/',
        forall|j: int| spec_last_slash(p) < j < p.len() ==> p[j] != '/',
    decreases p.len(),
{
    if p.len() > 0 && p.last() != '/' {
        lemma_last_slash_bounds(p.drop_last());
        assert(forall|j: int| 0 <= j < p.len() - 1 ==> p[j] == #[trigger] p.drop_last()[j]);
        assert forall|j: int| spec_last_slash(p) < j < p.len() implies p[j] != '/' by {
            if j < p.len() - 1 {
                assert(p.drop_last()[j] != '/');
            }
        }
    }
}

proof fn lemma_last_slash_is(p: Seq<char>, k: int)
    requires
        0 <= k < p.len(),
        p[k] == '/',
        forall|j: int| k < j < p.len() ==> p[j] != '/',
    ensures
        spec_last_slash(p) == k,
    decreases p.len(),
{
    if k == p.len() - 1 {
    } else {
        assert(p.last() != '/');
        assert(forall|j: int| 0 <= j < p.len() - 1 ==> #[trigger] p.drop_last()[j] == p[j]);
        lemma_last_slash_is(p.drop_last(), k);
    }
}

proof fn lemma_no_slash(p: Seq<char>)
    requires
        forall|j: int| 0 <= j < p.len() ==> p[j] != '/',
    ensures
        spec_last_slash(p) == -1,
    decreases p.len(),
{
    if p.len() > 0 {
        assert(forall|j: int| 0 <= j < p.len() - 1 ==> #[trigger] p.drop_last()[j] == p[j]);
        lemma_no_slash(p.drop_last());
    }
}

/// Index of the last `/`, or nothing.
pub fn last_slash(p: &Vec<char>) -> (r: Option<usize>)
    ensures
        match r {
            Some(k) => spec_last_slash(p@) == k && k < p@.len(),
            None => spec_last_slash(p@) == -1,
        },
{
    let n = p.len();
    let mut i: usize = n;
    while i > 0
        invariant
            i <= n,
            n == p@.len(),
            forall|j: int| i <= j < n ==> p@[j] != '/',
        decreases i,
    {
        i = i - 1;
        if p[i] == '/' {
            proof {
                lemma_last_slash_is(p@, i as int);
            }
            return Some(i);
        }
    }
    proof {
        lemma_no_slash(p@);
    }
    None
}

/// What the one eager pass turns the tool's status list into: for every file
/// entry (no trailing `/`), its immediate parent directory gets the entry's
/// status too, then the path itself; later entries shadow earlier ones.
pub open spec fn spec_built_entries(root: Seq<char>, es: Seq<(Seq<char>, u32)>) -> Seq<
    (Seq<char>, GitStatus),
>
    decreases es.len(),
{
    if es.len() == 0 {
        Seq::empty()
    } else {
        let p = root + seq!['/'] + es[0].0;
        let st = spec_status_of_bits(es[0].1);
        let head: Seq<(Seq<char>, GitStatus)> = if es[0].0.len() == 0 || es[0].0.last() == '/' {
            seq![(p, st)]
        } else {
            seq![(spec_parent_of(p), st), (p, st)]
        };
        head + spec_built_entries(root, es.drop_first())
    }
}

/// Build the cache from the raw status list: each entry keyed under
/// `root/<path>`, a file's status propagated to its immediate parent.
pub fn build_cache(root: &str, entries: &Vec<(String, u32)>) -> (r: StatusCache)
    ensures
        cache_view(r) == spec_built_entries(root@, Seq::new(entries@.len(), |i: int| (entries@[i].0@, entries@[i].1))),
{
    let ghost es = Seq::new(entries@.len(), |i: int| (entries@[i].0@, entries@[i].1));
    let rootv = chars_of(root);
    let mut out: Vec<(String, GitStatus)> = Vec::new();
    let n = entries.len();
    let mut i: usize = 0;
    proof {
        assert(es.skip(0) =~= es);
        assert(Seq::new(out@.len(), |x: int| (out@[x].0@, out@[x].1)) + spec_built_entries(
            root@,
            es.skip(0),
        ) =~~= spec_built_entries(root@, es));
    }
    while i < n
        invariant
            i <= n,
            n == entries@.len(),
            es == Seq::new(entries@.len(), |x: int| (entries@[x].0@, entries@[x].1)),
            rootv@ == root@,
            Seq::new(out@.len(), |x: int| (out@[x].0@, out@[x].1)) + spec_built_entries(
                root@,
                es.skip(i as int),
            ) =~~= spec_built_entries(root@, es),
        decreases n - i,
    {
        let ghost pre = Seq::new(out@.len(), |x: int| (out@[x].0@, out@[x].1));
        proof {
            assert(es.skip(i as int)[0] == es[i as int]);
            assert(es.skip(i as int).drop_first() =~= es.skip(i as int + 1));
        }
        let e = &entries[i];
        let rel = chars_of(e.0.as_str());
        let mut p = subvec(&rootv, 0, rootv.len());
        p.push('/');
        let mut relc = subvec(&rel, 0, rel.len());
        p.append(&mut relc);
        proof {
            assert(p@ =~= root@ + seq!['/'] + e.0@);
        }
        let st = GitStatus::from_bits(e.1);
        let is_dir = rel.len() == 0 || rel[rel.len() - 1] == '/';
        if !is_dir {
            match last_slash(&p) {
                Some(k) => {
                    proof {
                        lemma_last_slash_bounds(p@);
                    }
                    let parent = crate::text::subvec(&p, 0, k);
                    out.push((string_from_chars(&parent), st));
                },
                None => {
                    // unreachable: the key always holds the '/' that joins
                    // the root and the entry path
                    proof {
                        assert(p@[root@.len() as int] == '/');
                        lemma_last_slash_bounds(p@);
                        assert(false);
                    }
                },
            }
        }
        out.push((string_from_chars(&p), st));
        proof {
            let post = Seq::new(out@.len(), |x: int| (out@[x].0@, out@[x].1));
            assert(post + spec_built_entries(root@, es.skip(i as int + 1)) =~~= spec_built_entries(
                root@,
                es,
            ));
        }
        i = i + 1;
    }
    proof {
        assert(es.skip(n as int) =~= Seq::<(Seq<char>, u32)>::empty());
    }
    let r = StatusCache { entries: out };
    proof {
        assert(cache_view(r) =~~= spec_built_entries(root@, es));
    }
    r
}

impl StatusCache {
    /// A cache that answers `Unknown` for every path.
    pub fn empty() -> (r: StatusCache)
        ensures
            cache_view(r) == Seq::<(Seq<char>, GitStatus)>::empty(),
    {
        let r = StatusCache { entries: Vec::new() };
        proof {
            assert(cache_view(r) =~= Seq::<(Seq<char>, GitStatus)>::empty());
        }
        r
    }

    /// The cached status of `path`, `Unknown` when absent.
    pub fn get_status(&self, path: &str) -> (r: GitStatus)
        ensures
            r == spec_cache_lookup(cache_view(*self), path@),
    {
        let path_owned = path.to_owned();
        let n = self.entries.len();
        let mut i: usize = n;
        proof {
            assert(cache_view(*self).take(n as int) =~= cache_view(*self));
        }
        while i > 0
            invariant
                path_owned@ == path@,
                i <= n,
                n == self.entries@.len(),
                spec_cache_lookup(cache_view(*self).take(i as int), path@) == spec_cache_lookup(
                    cache_view(*self),
                    path@,
                ),
            decreases i,
        {
            i = i - 1;
            proof {
                assert(cache_view(*self).take(i as int + 1).last() == cache_view(*self)[i as int]);
                assert(cache_view(*self).take(i as int + 1).drop_last() =~= cache_view(
                    *self,
                ).take(i as int));
            }
            let e = &self.entries[i];
            if e.0 == path_owned {
                return e.1;
            }
        }
        proof {
            assert(cache_view(*self).take(0) =~= Seq::<(Seq<char>, GitStatus)>::empty());
        }
        GitStatus::Unknown
    }
}

/// LAW (status fallback): a lookup against an absent or failed
/// version-control integration — the empty cache — answers `Unknown` for
/// every path, and never an error.
pub proof fn lemma_status_fallback(path: Seq<char>)
    ensures
        spec_cache_lookup(Seq::<(Seq<char>, GitStatus)>::empty(), path) == GitStatus::Unknown,
{
}

/// Relies on `git2::Repository::open` and `git2::Repository::statuses`
/// (untracked files included, ignored files excluded): the status list of
/// the working tree at `path`, one entry per path (relative to the tree
/// root, directories with a trailing `/`) with its raw status bits; nothing
/// when there is no repository there or the walk fails.
#[verifier::external_body]
fn repo_status_entries(path: &str) -> Option<Vec<(String, u32)>> {
    let repo = git2::Repository::open(path).ok()?;
    let mut opts = git2::StatusOptions::new();
    opts.include_ignored(false).include_untracked(true);
    let statuses = repo.statuses(Some(&mut opts)).ok()?;
    Some(statuses.iter().map(|e| (e.path().unwrap_or("").to_owned(), e.status().bits())).collect())
}

/// A working tree with its one-shot status cache.
#[derive(Debug)]
pub struct Repository {
    pub workdir: String,
    pub cache: StatusCache,
}

impl Repository {
    /// Open the repository at `path` and walk its status list once.  Both
    /// outcomes are non-fatal: on any failure of the underlying tool the
    /// cache is empty and every lookup answers `Unknown`.
    pub fn new(path: &str) -> (r: Repository)
        ensures
            r.workdir@ == path@,
    {
        match repo_status_entries(path) {
            Some(entries) => Repository {
                workdir: path.to_owned(),
                cache: build_cache(path, &entries),
            },
            None => Repository { workdir: path.to_owned(), cache: StatusCache::empty() },
        }
    }

    /// The cached status of `path`, `Unknown` when absent.
    pub fn get_status(&self, path: &str) -> (r: GitStatus)
        ensures
            r == spec_cache_lookup(cache_view(self.cache), path@),
    {
        self.cache.get_status(path)
    }

    /// The argument vector of one version-control invocation against this
    /// working tree, as the caller must spawn it: the explicit work-tree and
    /// control-directory pair, the subcommand, then its own arguments.
    pub fn command_args(&self, command: &str, extra: &Vec<String>) -> (r: Vec<String>)
        ensures
            r.deep_view() =~= seq![
                "--work-tree"@,
                self.workdir@,
                "--git-dir"@,
                self.workdir@ + "/.git"@,
                command@,
            ] + extra.deep_view(),
    {
        let mut r: Vec<String> = Vec::new();
        r.push("--work-tree".to_owned());
        r.push(self.workdir.clone());
        r.push("--git-dir".to_owned());
        r.push(self.workdir.clone().concat("/.git"));
        r.push(command.to_owned());
        let n = extra.len();
        let mut i: usize = 0;
        while i < n
            invariant
                i <= n,
                n == extra@.len(),
                r.deep_view() =~~= seq![
                    "--work-tree"@,
                    self.workdir@,
                    "--git-dir"@,
                    self.workdir@ + "/.git"@,
                    command@,
                ] + extra.deep_view().take(i as int),
            decreases n - i,
        {
            let ghost prev = r.deep_view();
            r.push(extra[i].clone());
            proof {
                assert(r.deep_view() =~~= prev.push(extra@[i as int]@));
                assert(extra.deep_view()[i as int] == extra@[i as int]@);
                assert(extra.deep_view().take(i + 1) =~~= extra.deep_view().take(i as int).push(
                    extra@[i as int]@,
                ));
            }
            i = i + 1;
        }
        proof {
            assert(extra.deep_view().take(n as int) =~~= extra.deep_view());
        }
        r
    }
}

} // verus!
