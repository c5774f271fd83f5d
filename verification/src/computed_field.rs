//! Computed fields: derived accessors that are reachable by name through an
//! ordinary `get`, although they are not stored in the document.  A fixed
//! tagged variant per field name, a total mapping from variant to extraction
//! over the parsed document, and an `Invalid` fallback for unrecognized
//! names — never runtime method-name dispatch.

use vstd::prelude::*;
use crate::project::{
    Project, spec_responsible, spec_offer_number, spec_invoice_number_str,
    spec_invoice_number_long, spec_name, spec_modified_date, spec_index, spec_employees_string,
    spec_wages, spec_format, spec_age, spec_our_bad, spec_their_bad, spec_bills_ok,
    spec_invoice_views, spec_dir_of,
};
use crate::doc::{Node, spec_get_str, spec_get_to_string};
use crate::dates::{SimpleDate, spec_format_ymd_dotted, format_ymd_dotted, today};
use crate::bill::{spec_money_string, money_string, views_net};
use crate::text::{
    spec_digits, u64_to_string, spec_i64_string, i64_to_string, spec_contains, contains_ci,
    lower_of, chars_of, string_from_chars, subvec,
};
use vstd::string::StringExecFns;

verus! {

/// The accessible field names that are computed, not stored.
#[derive(Debug, Clone, Copy, PartialEq, Eq, Structural)]
pub enum ComputedField {
    Responsible,
    OfferNumber,
    InvoiceNumber,
    InvoiceNumberLong,
    Name,
    Final,
    Age,
    OurBad,
    TheirBad,
    Year,
    Employees,
    ClientFullName,
    Wages,
    SortIndex,
    Date,
    Invalid,
    Format,
    Dir,
}

pub open spec fn spec_field_from(s: Seq<char>) -> ComputedField {
    if s == "Responsible"@ {
        ComputedField::Responsible
    } else if s == "OfferNumber"@ {
        ComputedField::OfferNumber
    } else if s == "InvoiceNumber"@ {
        ComputedField::InvoiceNumber
    } else if s == "InvoiceNumberLong"@ {
        ComputedField::InvoiceNumberLong
    } else if s == "Name"@ {
        ComputedField::Name
    } else if s == "Final"@ {
        ComputedField::Final
    } else if s == "Age"@ {
        ComputedField::Age
    } else if s == "OurBad"@ {
        ComputedField::OurBad
    } else if s == "TheirBad"@ {
        ComputedField::TheirBad
    } else if s == "Year"@ {
        ComputedField::Year
    } else if s == "Employees"@ {
        ComputedField::Employees
    } else if s == "ClientFullName"@ {
        ComputedField::ClientFullName
    } else if s == "Wages"@ {
        ComputedField::Wages
    } else if s == "SortIndex"@ {
        ComputedField::SortIndex
    } else if s == "Date"@ {
        ComputedField::Date
    } else if s == "Format"@ {
        ComputedField::Format
    } else if s == "Dir"@ {
        ComputedField::Dir
    } else {
        ComputedField::Invalid
    }
}

fn str_is(a: &str, b: &str) -> (r: bool)
    ensures
        r == (a@ == b@),
{
    let x = a.to_owned();
    let y = b.to_owned();
    x == y
}

/// `pre` (plus a path separator) stripped off the front of `p`.
pub open spec fn spec_strip_prefix(p: Seq<char>, pre: Seq<char>) -> Option<Seq<char>> {
    if p.len() >= pre.len() && p.subrange(0, pre.len() as int) == pre {
        if p.len() == pre.len() {
            Some(Seq::empty())
        } else if p[pre.len() as int] == '/' {
            Some(p.skip(pre.len() as int + 1))
        } else {
            None
        }
    } else {
        None
    }
}

fn strip_prefix_path(p: &str, pre: &str) -> (r: Option<String>)
    ensures
        match r {
            Some(s) => spec_strip_prefix(p@, pre@) == Some(s@),
            None => spec_strip_prefix(p@, pre@) is None,
        },
{
    let pv = chars_of(p);
    let prev = chars_of(pre);
    let n = pv.len();
    let m = prev.len();
    if m > n {
        return None;
    }
    let mut k: usize = 0;
    while k < m
        invariant
            m <= n,
            n == pv@.len(),
            m == prev@.len(),
            k <= m,
            pv@ == p@,
            prev@ == pre@,
            forall|x: int| 0 <= x < k ==> pv@[x] == prev@[x],
        decreases m - k,
    {
        if pv[k] != prev[k] {
            proof {
                assert(p@.subrange(0, pre@.len() as int)[k as int] == p@[k as int]);
            }
            return None;
        }
        k = k + 1;
    }
    proof {
        assert(p@.subrange(0, pre@.len() as int) =~= pre@);
    }
    if n == m {
        proof {
            assert(Seq::<char>::empty() =~= pv@.subrange(m as int, m as int));
        }
        let e = subvec(&pv, m, m);
        Some(string_from_chars(&e))
    } else if pv[m] == '/' {
        let rest = subvec(&pv, m + 1, n);
        proof {
            assert(rest@ =~= p@.skip(pre@.len() as int + 1));
        }
        Some(string_from_chars(&rest))
    } else {
        None
    }
}

/// What the computed field yields on a record: a total function of the
/// parsed document, the record's path, the store root, the configured
/// default tax rate and the day taken as today.
pub open spec fn spec_computed(
    cf: ComputedField,
    doc: Node,
    path: Seq<char>,
    storage: Seq<char>,
    dtax: u64,
    today_d: SimpleDate,
) -> Option<Seq<char>> {
    match cf {
        ComputedField::Responsible => spec_responsible(doc),
        ComputedField::OfferNumber => spec_offer_number(doc),
        ComputedField::InvoiceNumber => spec_invoice_number_str(doc),
        ComputedField::InvoiceNumberLong => spec_invoice_number_long(doc),
        ComputedField::Name => spec_name(doc),
        ComputedField::Final => if spec_bills_ok(doc, dtax) && views_net(
            spec_invoice_views(doc, dtax),
        ) <= i64::MAX {
            Some(spec_money_string((views_net(spec_invoice_views(doc, dtax)) / 1000) as nat))
        } else {
            None
        },
        ComputedField::Age => match spec_age(doc, today_d) {
            Some(a) => Some(spec_i64_string(a) + " days"@),
            None => None,
        },
        ComputedField::OurBad => match spec_our_bad(doc, today_d) {
            Some(a) => Some(spec_digits((abs_of(a) / 7) as nat) + " weeks"@),
            None => None,
        },
        ComputedField::TheirBad => match spec_their_bad(doc, today_d) {
            Some(a) => Some(spec_digits((abs_of(a) / 7) as nat) + " weeks"@),
            None => None,
        },
        ComputedField::Year => match spec_modified_date(doc) {
            Some(d) => Some(spec_digits(d.year as nat)),
            None => None,
        },
        ComputedField::Employees => spec_employees_string(doc),
        ComputedField::ClientFullName => match (
            spec_get_str(doc, "client/first_name"@),
            spec_get_str(doc, "client/last_name"@),
        ) {
            (Some(f), Some(l)) => Some(f + " "@ + l),
            _ => None,
        },
        ComputedField::Wages => match spec_wages(doc) {
            Some(w) => Some(spec_money_string((w / 1000) as nat)),
            None => None,
        },
        ComputedField::SortIndex => spec_index(doc),
        ComputedField::Date => match spec_modified_date(doc) {
            Some(d) => Some(spec_format_ymd_dotted(d)),
            None => None,
        },
        ComputedField::Invalid => None,
        ComputedField::Format => spec_format(doc),
        ComputedField::Dir => spec_strip_prefix(spec_dir_of(spec_dir_of(path)), storage),
    }
}

pub open spec fn abs_of(a: int) -> int {
    if a < 0 {
        -a
    } else {
        a
    }
}

impl ComputedField {
    /// The variant a field name denotes; unrecognized names are `Invalid`.
    pub fn from(s: &str) -> (r: ComputedField)
        ensures
            r == spec_field_from(s@),
    {
        if str_is(s, "Responsible") {
            ComputedField::Responsible
        } else if str_is(s, "OfferNumber") {
            ComputedField::OfferNumber
        } else if str_is(s, "InvoiceNumber") {
            ComputedField::InvoiceNumber
        } else if str_is(s, "InvoiceNumberLong") {
            ComputedField::InvoiceNumberLong
        } else if str_is(s, "Name") {
            ComputedField::Name
        } else if str_is(s, "Final") {
            ComputedField::Final
        } else if str_is(s, "Age") {
            ComputedField::Age
        } else if str_is(s, "OurBad") {
            ComputedField::OurBad
        } else if str_is(s, "TheirBad") {
            ComputedField::TheirBad
        } else if str_is(s, "Year") {
            ComputedField::Year
        } else if str_is(s, "Employees") {
            ComputedField::Employees
        } else if str_is(s, "ClientFullName") {
            ComputedField::ClientFullName
        } else if str_is(s, "Wages") {
            ComputedField::Wages
        } else if str_is(s, "SortIndex") {
            ComputedField::SortIndex
        } else if str_is(s, "Date") {
            ComputedField::Date
        } else if str_is(s, "Format") {
            ComputedField::Format
        } else if str_is(s, "Dir") {
            ComputedField::Dir
        } else {
            ComputedField::Invalid
        }
    }

    /// Extract the computed field from a record; the store root, default tax
    /// rate and the day taken as today come from the caller's context.
    pub fn get(
        &self,
        project: &Project,
        storage_path: &str,
        default_tax: u64,
        today_d: SimpleDate,
    ) -> (r: Option<String>)
        requires
            today_d.in_supported_range(),
        ensures
            match r {
                Some(s) => spec_computed(
                    *self,
                    project.spec_doc(),
                    project.spec_file(),
                    storage_path@,
                    default_tax,
                    today_d,
                ) == Some(s@),
                None => spec_computed(
                    *self,
                    project.spec_doc(),
                    project.spec_file(),
                    storage_path@,
                    default_tax,
                    today_d,
                ) is None,
            },
    {
        match self {
            ComputedField::Responsible => match project.responsible() {
                Some(s) => Some(s.clone()),
                None => None,
            },
            ComputedField::OfferNumber => project.offer().number(),
            ComputedField::InvoiceNumber => project.invoice().number_str(),
            ComputedField::InvoiceNumberLong => project.invoice().number_long_str(),
            ComputedField::Name => match project.name() {
                Some(s) => Some(s.clone()),
                None => None,
            },
            ComputedField::Final => match project.sum_sold(default_tax) {
                Ok(cents) => Some(money_string(cents as u64)),
                Err(_) => None,
            },
            ComputedField::Age => match project.age_at(today_d) {
                Some(a) => {
                    let mut s = i64_to_string(a);
                    s = StringExecFns::concat(s, " days");
                    Some(s)
                },
                None => None,
            },
            ComputedField::OurBad => match project.our_bad_at(today_d) {
                Some(a) => {
                    let w: i64 = if a < 0 {
                        -a
                    } else {
                        a
                    };
                    let mut s = u64_to_string((w as u64) / 7);
                    s = StringExecFns::concat(s, " weeks");
                    Some(s)
                },
                None => None,
            },
            ComputedField::TheirBad => match project.their_bad_at(today_d) {
                Some(a) => {
                    let w: i64 = if a < 0 {
                        -a
                    } else {
                        a
                    };
                    let mut s = u64_to_string((w as u64) / 7);
                    s = StringExecFns::concat(s, " weeks");
                    Some(s)
                },
                None => None,
            },
            ComputedField::Year => match project.modified_date() {
                Some(d) => Some(u64_to_string(d.year as u64)),
                None => None,
            },
            ComputedField::Employees => project.hours().employees_string(),
            ComputedField::ClientFullName => project.client().full_name(),
            ComputedField::Wages => match project.wages() {
                Some(w) => Some(money_string(w / 1000)),
                None => None,
            },
            ComputedField::SortIndex => project.index(),
            ComputedField::Date => match project.modified_date() {
                Some(d) => Some(format_ymd_dotted(d)),
                None => None,
            },
            ComputedField::Invalid => None,
            ComputedField::Format => match project.format() {
                Some(s) => Some(s.clone()),
                None => None,
            },
            ComputedField::Dir => {
                let d = project.dir();
                let parent = crate::project::dir_of(d.as_str());
                strip_prefix_path(parent.as_str(), storage_path)
            },
        }
    }
}

/// A by-name read of a record: the computed field of that name when it
/// yields a value (computed fields shadow stored fields of the same name),
/// else the stored scalar at that path.
pub open spec fn spec_project_get(
    doc: Node,
    path: Seq<char>,
    key: Seq<char>,
    storage: Seq<char>,
    dtax: u64,
    today_d: SimpleDate,
) -> Option<Seq<char>> {
    match spec_field_from(key) {
        ComputedField::Invalid => spec_get_to_string(doc, key),
        cf => match spec_computed(cf, doc, path, storage, dtax, today_d) {
            Some(v) => Some(v),
            None => spec_get_to_string(doc, key),
        },
    }
}

pub open spec fn spec_matches_filter(
    doc: Node,
    path: Seq<char>,
    key: Seq<char>,
    val: Seq<char>,
    storage: Seq<char>,
    dtax: u64,
    today_d: SimpleDate,
) -> bool {
    match spec_project_get(doc, path, key, storage, dtax, today_d) {
        Some(c) => spec_contains(lower_of(c), lower_of(val)),
        None => false,
    }
}

impl Project {
    /// Read a field by name: the computed field of that name when it yields
    /// a value, else the stored scalar at that path.
    pub fn get_with(
        &self,
        key: &str,
        storage_path: &str,
        default_tax: u64,
        today_d: SimpleDate,
    ) -> (r: Option<String>)
        requires
            today_d.in_supported_range(),
        ensures
            match r {
                Some(s) => spec_project_get(
                    self.spec_doc(),
                    self.spec_file(),
                    key@,
                    storage_path@,
                    default_tax,
                    today_d,
                ) == Some(s@),
                None => spec_project_get(
                    self.spec_doc(),
                    self.spec_file(),
                    key@,
                    storage_path@,
                    default_tax,
                    today_d,
                ) is None,
            },
    {
        let cf = ComputedField::from(key);
        if matches!(cf, ComputedField::Invalid) {
            self.yaml().get_to_string(key)
        } else {
            match cf.get(self, storage_path, default_tax, today_d) {
                Some(v) => Some(v),
                None => self.yaml().get_to_string(key),
            }
        }
    }

    /// As `get_with`, against the system clock, an empty store root and the
    /// stock tax rate.  (With a clock outside the supported years a fixed
    /// day stands in.)
    pub fn get(&self, key: &str) -> (r: Option<String>)
        ensures
            exists|t: SimpleDate|
                #[trigger] t.in_supported_range() && (match r {
                    Some(s) => spec_project_get(
                        self.spec_doc(),
                        self.spec_file(),
                        key@,
                        ""@,
                        1900,
                        t,
                    ) == Some(s@),
                    None => spec_project_get(
                        self.spec_doc(),
                        self.spec_file(),
                        key@,
                        ""@,
                        1900,
                        t,
                    ) is None,
                }),
    {
        let t0 = today();
        let t = if 1 <= t0.year && t0.year <= 9999 {
            t0
        } else {
            SimpleDate { year: 2000, month: 1, day: 1 }
        };
        proof {
            assert(t.in_supported_range());
        }
        self.get_with(key, "", 1900, t)
    }

    /// Case-insensitive filter on one field, by name.
    pub fn matches_filter_with(
        &self,
        key: &str,
        val: &str,
        storage_path: &str,
        default_tax: u64,
        today_d: SimpleDate,
    ) -> (r: bool)
        requires
            today_d.in_supported_range(),
        ensures
            r == spec_matches_filter(
                self.spec_doc(),
                self.spec_file(),
                key@,
                val@,
                storage_path@,
                default_tax,
                today_d,
            ),
    {
        match self.get_with(key, storage_path, default_tax, today_d) {
            Some(c) => contains_ci(c.as_str(), val),
            None => false,
        }
    }

    /// As `matches_filter_with`, against the system clock, an empty store
    /// root and the stock tax rate.
    pub fn matches_filter(&self, key: &str, val: &str) -> (r: bool)
        ensures
            exists|t: SimpleDate|
                #[trigger] t.in_supported_range() && r == spec_matches_filter(
                    self.spec_doc(),
                    self.spec_file(),
                    key@,
                    val@,
                    ""@,
                    1900,
                    t,
                ),
    {
        let t0 = today();
        let t = if 1 <= t0.year && t0.year <= 9999 {
            t0
        } else {
            SimpleDate { year: 2000, month: 1, day: 1 }
        };
        proof {
            assert(t.in_supported_range());
        }
        self.matches_filter_with(key, val, "", 1900, t)
    }
}

} // verus!
