//! The project store's directory planning.
//!
//! The store root holds a working directory, one archive directory per past
//! year, and the templates.  The caller lists directories and reads files;
//! everything decided about those listings — which years exist, which
//! directories a query must scan and in what order, which file inside a
//! record folder is the record, which opened records survive a batch — is
//! verified here.

use vstd::prelude::*;
use crate::project::Project;
use crate::repo::{StatusCache, cache_view, spec_cache_lookup};
use crate::text::{
    spec_digits, u64_to_string, spec_parse_u64, parse_u64, chars_of, string_from_chars,
    spec_ends_with, ends_with_seq,
};
use vstd::string::StringExecFns;
use vstd::multiset::Multiset;

verus! {

/// A record's lifecycle stage: active, archived under a year, a document
/// skeleton, or the logical union of working and every archive year (never
/// a physical directory).
#[derive(Debug, Clone, Copy, PartialEq, Eq, Structural)]
pub enum StorageDir {
    Working,
    Archive(u64),
    Templates,
    All,
}

/// The store layout: the root and the configurable names of its working,
/// archive and templates directories.
#[derive(Debug)]
pub struct Storage {
    pub root: String,
    pub working: String,
    pub archive: String,
    pub templates: String,
}

impl Storage {
    pub fn new(root: &str, working: &str, archive: &str, templates: &str) -> (r: Storage)
        ensures
            r.root@ == root@,
            r.working@ == working@,
            r.archive@ == archive@,
            r.templates@ == templates@,
    {
        Storage {
            root: root.to_owned(),
            working: working.to_owned(),
            archive: archive.to_owned(),
            templates: templates.to_owned(),
        }
    }

    pub open spec fn spec_working_dir(self) -> Seq<char> {
        self.root@ + "/"@ + self.working@
    }

    pub open spec fn spec_archive_dir(self) -> Seq<char> {
        self.root@ + "/"@ + self.archive@
    }

    pub open spec fn spec_templates_dir(self) -> Seq<char> {
        self.root@ + "/"@ + self.templates@
    }

    pub open spec fn spec_archive_year_dir(self, year: u64) -> Seq<char> {
        self.spec_archive_dir() + "/"@ + spec_digits(year as nat)
    }

    pub fn working_dir(&self) -> (r: String)
        ensures
            r@ == self.spec_working_dir(),
    {
        let mut s = self.root.clone();
        s = StringExecFns::concat(s, "/");
        s = StringExecFns::concat(s, self.working.as_str());
        s
    }

    pub fn archive_dir(&self) -> (r: String)
        ensures
            r@ == self.spec_archive_dir(),
    {
        let mut s = self.root.clone();
        s = StringExecFns::concat(s, "/");
        s = StringExecFns::concat(s, self.archive.as_str());
        s
    }

    pub fn templates_dir(&self) -> (r: String)
        ensures
            r@ == self.spec_templates_dir(),
    {
        let mut s = self.root.clone();
        s = StringExecFns::concat(s, "/");
        s = StringExecFns::concat(s, self.templates.as_str());
        s
    }

    pub fn archive_year_dir(&self, year: u64) -> (r: String)
        ensures
            r@ == self.spec_archive_year_dir(year),
    {
        let mut s = self.archive_dir();
        s = StringExecFns::concat(s, "/");
        s = StringExecFns::concat(s, u64_to_string(year).as_str());
        s
    }

    /// Where an archived record's folder belongs: under the given year,
    /// keeping the folder's own name.
    pub fn archive_target_dir(&self, year: u64, folder_name: &str) -> (r: String)
        ensures
            r@ == self.spec_archive_year_dir(year) + "/"@ + folder_name@,
    {
        let mut s = self.archive_year_dir(year);
        s = StringExecFns::concat(s, "/");
        s = StringExecFns::concat(s, folder_name);
        s
    }
}

/// The archive years named by the entries of the archive directory: exactly
/// the names that read as numbers, in listing order.
pub open spec fn spec_years_of(es: Seq<Seq<char>>) -> Seq<u64>
    decreases es.len(),
{
    if es.len() == 0 {
        Seq::empty()
    } else {
        (match spec_parse_u64(es[0]) {
            Some(y) => seq![y],
            None => Seq::<u64>::empty(),
        }) + spec_years_of(es.drop_first())
    }
}

pub open spec fn spec_sorted(s: Seq<u64>) -> bool {
    forall|i: int, j: int| 0 <= i < j < s.len() ==> s[i] <= s[j]
}

proof fn lemma_insert_to_multiset(s: Seq<u64>, i: int, x: u64)
    requires
        0 <= i <= s.len(),
    ensures
        s.insert(i, x).to_multiset() =~= s.to_multiset().insert(x),
{
    broadcast use vstd::seq_lib::group_to_multiset_ensures;

    let t = s.insert(i, x);
    assert(t.remove(i) =~= s);
    assert(t.remove(i).to_multiset() =~= t.to_multiset().remove(t[i]));
    assert(t[i] == x);
    assert(t.contains(x));
    assert(t.to_multiset().count(x) > 0);
    assert(s.to_multiset() =~= t.to_multiset().remove(x));
    assert(t.to_multiset() =~= s.to_multiset().insert(x));
}

/// Insert `x` into the already sorted `v`, keeping it sorted.
fn sorted_insert(v: &mut Vec<u64>, x: u64)
    requires
        spec_sorted(old(v)@),
    ensures
        spec_sorted(final (v)@),
        final (v)@.to_multiset() == old(v)@.to_multiset().insert(x),
    {
    let ghost v0 = v@;
    let n = v.len();
    let mut i: usize = 0;
    while i < n && v[i] <= x
        invariant
            i <= n,
            n == v@.len(),
            v@ == v0,
            forall|j: int| 0 <= j < i ==> v@[j] <= x,
        decreases n - i,
    {
        i = i + 1;
    }
    v.insert(i, x);
    proof {
        lemma_insert_to_multiset(v0, i as int, x);
        assert(v@.to_multiset() =~= v0.to_multiset().insert(x));
        assert forall|a: int, b: int| 0 <= a < b < v@.len() implies v@[a] <= v@[b] by {
            if a < i && b < i {
            } else if a < i && b == i {
            } else if a < i {
                assert(v@[b] == v0[b - 1]);
                if i <= b - 1 {
                    assert(v0[i as int] <= v0[b - 1]);
                    assert(x < v0[i as int] || i == n);
                }
            } else if a == i {
                assert(v@[b] == v0[b - 1]);
                assert(i < n ==> x < v0[i as int]);
                assert(v0[i as int] <= v0[b - 1]);
            } else {
                assert(v@[a] == v0[a - 1] && v@[b] == v0[b - 1]);
            }
        }
    }
}

/// The archive years among the listed names, ascending; names that are not
/// numbers are not years.
pub fn list_years(entries: &Vec<String>) -> (r: Vec<u64>)
    ensures
        spec_sorted(r@),
        r@.to_multiset() == spec_years_of(entries.deep_view()).to_multiset(),
{
    broadcast use vstd::seq_lib::group_to_multiset_ensures;

    let ghost es = entries.deep_view();
    let n = entries.len();
    let mut out: Vec<u64> = Vec::new();
    let mut i: usize = 0;
    proof {
        assert(es.skip(0) =~~= es);
        assert(out@.to_multiset().add(spec_years_of(es.skip(0)).to_multiset()) =~= spec_years_of(
            es,
        ).to_multiset());
    }
    while i < n
        invariant
            i <= n,
            n == entries@.len(),
            es == entries.deep_view(),
            spec_sorted(out@),
            out@.to_multiset().add(spec_years_of(es.skip(i as int)).to_multiset())
                == spec_years_of(es).to_multiset(),
        decreases n - i,
    {
        proof {
            assert(es.skip(i as int)[0] == es[i as int]);
            assert(es[i as int] =~= entries@[i as int]@);
            assert(es.skip(i as int).drop_first() =~~= es.skip(i as int + 1));
        }
        let name = chars_of(entries[i].as_str());
        proof {
            assert(name@.subrange(0, name@.len() as int) =~= name@);
        }
        let ghost pre = out@;
        match parse_u64(&name, 0, name.len()) {
            Some(y) => {
                sorted_insert(&mut out, y);
                proof {
                    let tail = spec_years_of(es.skip(i as int));
                    assert(tail =~= seq![y] + spec_years_of(es.skip(i as int + 1)));
                    assert(seq![y].to_multiset() =~= Multiset::<u64>::empty().insert(y)) by {
                        assert(seq![y] =~= Seq::<u64>::empty().push(y));
                        lemma_empty_to_multiset();
                        Seq::<u64>::empty().to_multiset_ensures();
                        assert(Seq::<u64>::empty().push(y).to_multiset() =~= Seq::<
                            u64,
                        >::empty().to_multiset().insert(y));
                    }
                    lemma_concat_multiset(seq![y], spec_years_of(es.skip(i as int + 1)));
                    assert(out@.to_multiset().add(
                        spec_years_of(es.skip(i as int + 1)).to_multiset(),
                    ) =~= spec_years_of(es).to_multiset());
                }
            },
            None => {
                proof {
                    assert(spec_years_of(es.skip(i as int)) =~= spec_years_of(
                        es.skip(i as int + 1),
                    ));
                }
            },
        }
        i = i + 1;
    }
    proof {
        assert(es.skip(n as int) =~~= Seq::<Seq<char>>::empty());
        assert(spec_years_of(es.skip(n as int)).to_multiset() =~= Multiset::<u64>::empty());
        assert(out@.to_multiset() =~= spec_years_of(es).to_multiset());
    }
    out
}

proof fn lemma_empty_to_multiset()
    ensures
        Seq::<u64>::empty().to_multiset() =~= Multiset::<u64>::empty(),
{
    broadcast use vstd::seq_lib::group_to_multiset_ensures;

    assert forall|a: u64| Seq::<u64>::empty().to_multiset().count(a) == 0 by {
        assert(!Seq::<u64>::empty().contains(a));
    }
}

proof fn lemma_concat_multiset(a: Seq<u64>, b: Seq<u64>)
    ensures
        (a + b).to_multiset() =~= a.to_multiset().add(b.to_multiset()),
    decreases b.len(),
{
    broadcast use vstd::seq_lib::group_to_multiset_ensures;

    if b.len() == 0 {
        assert(a + b =~= a);
        lemma_empty_to_multiset();
        assert((a + b).to_multiset() =~= a.to_multiset().add(b.to_multiset()));
    } else {
        assert(a + b =~= (a + b.drop_last()).push(b.last()));
        assert(b =~= b.drop_last().push(b.last()));
        lemma_concat_multiset(a, b.drop_last());
        assert((a + b.drop_last()).push(b.last()).to_multiset() =~= (a
            + b.drop_last()).to_multiset().insert(b.last()));
        assert(b.drop_last().push(b.last()).to_multiset() =~= b.drop_last().to_multiset().insert(
            b.last(),
        ));
        assert((a + b).to_multiset() =~= a.to_multiset().add(b.to_multiset()));
    }
}

/// The directories one query must scan, in order: archives ascending, the
/// working directory last; a year without a directory yields nothing at
/// all — an empty scan, never an error.
pub open spec fn spec_scan_dirs(st: Storage, dir: StorageDir, years: Seq<u64>) -> Seq<Seq<char>> {
    match dir {
        StorageDir::Working => seq![st.spec_working_dir()],
        StorageDir::Templates => seq![st.spec_templates_dir()],
        StorageDir::Archive(y) => if years.contains(y) {
            seq![st.spec_archive_year_dir(y)]
        } else {
            Seq::empty()
        },
        StorageDir::All => Seq::new(years.len(), |i: int| st.spec_archive_year_dir(years[i]))
            + seq![st.spec_working_dir()],
    }
}

impl Storage {
    /// Plan a scan: which directories to read, in which order, given the
    /// archive years that exist.
    pub fn scan_dirs(&self, dir: &StorageDir, years: &Vec<u64>) -> (r: Vec<String>)
        ensures
            r.deep_view() == spec_scan_dirs(*self, *dir, years@),
    {
        match dir {
            StorageDir::Working => {
                let mut r: Vec<String> = Vec::new();
                r.push(self.working_dir());
                proof {
                    assert(r.deep_view() =~~= spec_scan_dirs(*self, *dir, years@));
                }
                r
            },
            StorageDir::Templates => {
                let mut r: Vec<String> = Vec::new();
                r.push(self.templates_dir());
                proof {
                    assert(r.deep_view() =~~= spec_scan_dirs(*self, *dir, years@));
                }
                r
            },
            StorageDir::Archive(y) => {
                let mut found = false;
                let n = years.len();
                let mut i: usize = 0;
                while i < n
                    invariant
                        i <= n,
                        n == years@.len(),
                        found == exists|j: int| 0 <= j < i && years@[j] == *y,
                    decreases n - i,
                {
                    if years[i] == *y {
                        found = true;
                    }
                    i = i + 1;
                }
                let mut r: Vec<String> = Vec::new();
                if found {
                    r.push(self.archive_year_dir(*y));
                }
                proof {
                    if found {
                        assert(years@.contains(*y));
                    } else {
                        assert(!years@.contains(*y)) by {
                            if years@.contains(*y) {
                                let j = choose|j: int| 0 <= j < years@.len() && years@[j] == *y;
                                assert(j < i);
                            }
                        }
                    }
                    assert(r.deep_view() =~~= spec_scan_dirs(*self, *dir, years@));
                }
                r
            },
            StorageDir::All => {
                let mut r: Vec<String> = Vec::new();
                let n = years.len();
                let mut i: usize = 0;
                while i < n
                    invariant
                        i <= n,
                        n == years@.len(),
                        r.deep_view() =~~= Seq::new(
                            i as nat,
                            |j: int| self.spec_archive_year_dir(years@[j]),
                        ),
                    decreases n - i,
                {
                    let ghost prev = r.deep_view();
                    r.push(self.archive_year_dir(years[i]));
                    proof {
                        assert(r.deep_view() =~~= prev.push(
                            self.spec_archive_year_dir(years@[i as int]),
                        ));
                        assert(Seq::new(
                            (i + 1) as nat,
                            |j: int| self.spec_archive_year_dir(years@[j]),
                        ) =~~= Seq::new(
                            i as nat,
                            |j: int| self.spec_archive_year_dir(years@[j]),
                        ).push(self.spec_archive_year_dir(years@[i as int])));
                    }
                    i = i + 1;
                }
                let ghost prev = r.deep_view();
                r.push(self.working_dir());
                proof {
                    assert(r.deep_view() =~~= prev.push(self.spec_working_dir()));
                    assert(r.deep_view() =~~= spec_scan_dirs(*self, *dir, years@));
                }
                r
            },
        }
    }
}

/// LAW (scan isolation, missing year): planning a scan of an archive year
/// that does not exist yields no directories at all — an empty listing,
/// never an error.
pub proof fn lemma_missing_year_scans_nothing(st: Storage, y: u64, years: Seq<u64>)
    requires
        !years.contains(y),
    ensures
        spec_scan_dirs(st, StorageDir::Archive(y), years) == Seq::<Seq<char>>::empty(),
{
}

/// The first listed name with the record extension; no match is a
/// does-not-exist outcome for the caller.
pub fn choose_record_file(entries: &Vec<String>, ext: &str) -> (r: Option<usize>)
    ensures
        match r {
            Some(i) => i < entries@.len() && spec_ends_with(
                entries.deep_view()[i as int],
                "."@ + ext@,
            ) && forall|j: int|
                0 <= j < i ==> !spec_ends_with(entries.deep_view()[j], "."@ + ext@),
            None => forall|j: int|
                0 <= j < entries@.len() ==> !spec_ends_with(entries.deep_view()[j], "."@ + ext@),
        },
{
    let mut suffix: Vec<char> = Vec::new();
    suffix.push('.');
    let mut e = chars_of(ext);
    suffix.append(&mut e);
    proof {
        reveal_strlit(".");
        assert("."@ =~= seq!['.']);
        assert(suffix@ =~= "."@ + ext@);
    }
    let n = entries.len();
    let mut i: usize = 0;
    while i < n
        invariant
            i <= n,
            n == entries@.len(),
            suffix@ == "."@ + ext@,
            forall|j: int| 0 <= j < i ==> !spec_ends_with(entries.deep_view()[j], "."@ + ext@),
        decreases n - i,
    {
        let name = chars_of(entries[i].as_str());
        proof {
            assert(name@ == entries.deep_view()[i as int]);
        }
        if ends_with_seq(&name, &suffix) {
            return Some(i);
        }
        i = i + 1;
    }
    None
}

/// Keep the records of a batch that opened, in order: one corrupt or
/// missing record file never blocks listing the rest.
pub fn collect_opened(results: Vec<Option<Project>>) -> (r: Vec<Project>)
    ensures
        r@ == spec_opened(results@),
{
    let ghost all = results@;
    let mut rest = results;
    let mut out: Vec<Project> = Vec::new();
    while rest.len() > 0
        invariant
            out@ + spec_opened(rest@) =~= spec_opened(all),
        decreases rest@.len(),
    {
        let ghost pre = rest@;
        let head = rest.remove(0);
        proof {
            assert(pre.drop_first() =~= rest@);
        }
        match head {
            Some(p) => {
                out.push(p);
            },
            None => {},
        }
        proof {
            assert(out@ + spec_opened(rest@) =~= spec_opened(all));
        }
    }
    proof {
        assert(rest@ =~= Seq::<Option<Project>>::empty());
        assert(out@ =~= spec_opened(all));
    }
    out
}

/// The records of a batch that opened, in order.
pub open spec fn spec_opened(rs: Seq<Option<Project>>) -> Seq<Project>
    decreases rs.len(),
{
    if rs.len() == 0 {
        Seq::empty()
    } else {
        (match rs[0] {
            Some(p) => seq![p],
            None => Seq::<Project>::empty(),
        }) + spec_opened(rs.drop_first())
    }
}

/// Attach to every opened record the status of its directory, from the one
/// cache built for this scan.
pub fn attach_statuses(projects: &mut Vec<Project>, cache: &StatusCache)
    ensures
        final (projects)@.len() == old(projects)@.len(),
        forall|i: int|
            0 <= i < old(projects)@.len() ==> {
                &&& (#[trigger] final (projects)@[i]).spec_doc() == old(projects)@[i].spec_doc()
                &&& final (projects)@[i].spec_content() == old(projects)@[i].spec_content()
                &&& final (projects)@[i].spec_file() == old(projects)@[i].spec_file()
                &&& final (projects)@[i].spec_status() == Some(
                    spec_cache_lookup(
                        cache_view(*cache),
                        crate::project::spec_dir_of(old(projects)@[i].spec_file()),
                    ),
                )
            },
{
    let n = projects.len();
    let mut i: usize = 0;
    while i < n
        invariant
            i <= n,
            n == projects@.len(),
            projects@.len() == old(projects)@.len(),
            forall|j: int| i <= j < n ==> #[trigger] projects@[j] == old(projects)@[j],
            forall|j: int|
                0 <= j < i ==> {
                    &&& (#[trigger] projects@[j]).spec_doc() == old(projects)@[j].spec_doc()
                    &&& projects@[j].spec_content() == old(projects)@[j].spec_content()
                    &&& projects@[j].spec_file() == old(projects)@[j].spec_file()
                    &&& projects@[j].spec_status() == Some(
                        spec_cache_lookup(
                            cache_view(*cache),
                            crate::project::spec_dir_of(old(projects)@[j].spec_file()),
                        ),
                    )
                },
        decreases n - i,
    {
        let ghost pre = projects@;
        let d = projects[i].dir();
        let st = cache.get_status(d.as_str());
        let mut p = projects.remove(i);
        p.set_git_status(st);
        projects.insert(i, p);
        proof {
            assert(projects@ =~= pre.update(i as int, p));
        }
        i = i + 1;
    }
}

} // verus!
