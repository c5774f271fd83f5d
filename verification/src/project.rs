//! The record entity: an opened business document with its raw text, parsed
//! tree, file location and cached version status, together with its field
//! accessors, the accumulated validations, the readiness gates and the bill
//! computation.
//!
//! All file I/O stays with the caller: records are opened from content the
//! caller read, and new or edited content is handed back for the caller to
//! write.

use vstd::prelude::*;
use crate::doc::{
    Node, parsed_doc, parse_document, spec_get_str, spec_get_path, spec_get_bool, spec_get_int,
};
use crate::dates::{
    SimpleDate, spec_parse_dmy, spec_parse_dmy_range, spec_day_number, day_number, spec_add_days,
    add_days, spec_format_dmy, format_dmy, spec_format_ymd_compact, format_ymd_compact,
    spec_format_ymd_dashed, format_ymd_dashed, today,
};
use crate::doc::spec_scalar_string;
use crate::repo::{spec_last_slash, last_slash};
use crate::text::{
    slug_of, slugify, spec_contains, contains_ci, spec_line_numbered, line_numbered, chars_of,
    string_from_chars, subvec,
};
use crate::template::{Templater, spec_fill, spec_keywords, pairs_map, list_keywords};
use vstd::string::StringExecFns;
use vstd::string::StrSliceExecFns;
use crate::error::{ErrorList, SpecResult, StoreError, combine_specresults, spec_combined_fields};
use crate::text::{
    spec_assoc, assoc_get, spec_first_word, first_word, lower_of, lowercase, spec_parse_scaled,
    parse_scaled, pow10,
};
use crate::bill::{
    Bill, BillType, Product, BillItem, BillItemView, item_view, items_view, views_with_tax,
    views_net,
};
use crate::repo::GitStatus;

verus! {

/// An opened record: raw text and parsed tree always correspond (a record is
/// never constructed from text that does not parse), plus its file path and
/// the status tag the store attaches.
#[derive(Debug)]
pub struct Project {
    file_path: String,
    git_status: Option<GitStatus>,
    file_content: String,
    yaml: Node,
}

// ---------------------------------------------------------------------------
// field accessors over the parsed tree
// ---------------------------------------------------------------------------
/// The record's name: `event/name`, or a scalar `event`.
pub open spec fn spec_name(doc: Node) -> Option<Seq<char>> {
    match spec_get_str(doc, "event/name"@) {
        Some(s) => Some(s),
        None => spec_get_str(doc, "event"@),
    }
}

pub open spec fn spec_responsible(doc: Node) -> Option<Seq<char>> {
    spec_get_str(doc, "manager"@)
}

pub open spec fn spec_format(doc: Node) -> Option<Seq<char>> {
    spec_get_str(doc, "format"@)
}

pub open spec fn spec_canceled(doc: Node) -> bool {
    spec_get_bool(doc, "canceled"@) == Some(true)
}

/// The date scalar at `path`, read as `dd.mm.yyyy`.
pub open spec fn spec_date_at(doc: Node, path: Seq<char>) -> Option<SimpleDate> {
    match spec_get_str(doc, path) {
        Some(s) => spec_parse_dmy(s),
        None => None,
    }
}

/// The event date: the first event's begin, or the plain date field (also in
/// its range form `dd-dd.mm.yyyy`).
pub open spec fn spec_event_date(doc: Node) -> Option<SimpleDate> {
    match spec_date_at(doc, "event/dates/0/begin"@) {
        Some(d) => Some(d),
        None => match spec_date_at(doc, "date"@) {
            Some(d) => Some(d),
            None => match spec_get_str(doc, "date"@) {
                Some(s) => spec_parse_dmy_range(s),
                None => None,
            },
        },
    }
}

/// The date the record was last meaningfully dated: event begin, creation
/// date, plain date, or the range form of the plain date.
pub open spec fn spec_modified_date(doc: Node) -> Option<SimpleDate> {
    match spec_date_at(doc, "event/dates/0/begin"@) {
        Some(d) => Some(d),
        None => match spec_date_at(doc, "created"@) {
            Some(d) => Some(d),
            None => spec_event_date_fallback(doc),
        },
    }
}

pub open spec fn spec_event_date_fallback(doc: Node) -> Option<SimpleDate> {
    match spec_date_at(doc, "date"@) {
        Some(d) => Some(d),
        None => match spec_get_str(doc, "date"@) {
            Some(s) => spec_parse_dmy_range(s),
            None => None,
        },
    }
}

pub open spec fn spec_payed_date(doc: Node) -> Option<SimpleDate> {
    spec_date_at(doc, "invoice/payed_date"@)
}

pub open spec fn spec_wages_date(doc: Node) -> Option<SimpleDate> {
    spec_date_at(doc, "hours/wages_date"@)
}

pub open spec fn spec_offer_date(doc: Node) -> Option<SimpleDate> {
    spec_date_at(doc, "offer/date"@)
}

pub open spec fn spec_invoice_date(doc: Node) -> Option<SimpleDate> {
    spec_date_at(doc, "invoice/date"@)
}

pub open spec fn spec_invoice_number(doc: Node) -> Option<i64> {
    spec_get_int(doc, "invoice/number"@)
}

/// Every recorded employee marked paid: no recorded employees, or a wages
/// date set.
pub open spec fn spec_employees_payed(doc: Node) -> bool {
    match spec_get_path(doc, "hours/caterers"@) {
        Some(Node::Dict(es)) => es@.len() == 0 || spec_wages_date(doc) is Some,
        _ => true,
    }
}

impl Project {
    pub closed spec fn spec_doc(self) -> Node {
        self.yaml
    }

    pub closed spec fn spec_file(self) -> Seq<char> {
        self.file_path@
    }

    pub closed spec fn spec_content(self) -> Seq<char> {
        self.file_content@
    }

    pub closed spec fn spec_status(self) -> Option<GitStatus> {
        self.git_status
    }

    /// Raw text and parsed tree correspond.
    pub open spec fn wf(self) -> bool {
        parsed_doc(self.spec_content()) == Some(self.spec_doc())
    }

    /// Open a record from the text the caller read at `path`.  The text must
    /// parse; a record is never constructed in a degraded state.
    pub fn open_file_content(path: &str, content: &str) -> (r: Result<Project, StoreError>)
        ensures
            r is Ok <==> parsed_doc(content@) is Some,
            r matches Ok(p) ==> p.wf() && p.spec_file() == path@ && p.spec_content() == content@
                && p.spec_status() is None,
            r matches Err(e) ==> e is ParseFailure,
    {
        match parse_document(content) {
            Ok(yaml) => Ok(
                Project {
                    file_path: path.to_owned(),
                    git_status: None,
                    file_content: content.to_owned(),
                    yaml,
                },
            ),
            Err(e) => Err(e),
        }
    }

    /// Access to the parsed tree.
    pub fn yaml(&self) -> (r: &Node)
        ensures
            *r == self.spec_doc(),
    {
        &self.yaml
    }

    /// The record's raw text.
    pub fn file_content(&self) -> (r: &String)
        ensures
            r@ == self.spec_content(),
    {
        &self.file_content
    }

    pub fn file(&self) -> (r: String)
        ensures
            r@ == self.spec_file(),
    {
        self.file_path.clone()
    }

    pub fn set_file(&mut self, new_file: &str)
        ensures
            final (self).spec_file() == new_file@,
            final (self).spec_doc() == old(self).spec_doc(),
            final (self).spec_content() == old(self).spec_content(),
            final (self).spec_status() == old(self).spec_status(),
    {
        self.file_path = new_file.to_owned();
    }

    pub fn set_git_status(&mut self, status: GitStatus)
        ensures
            final (self).spec_status() == Some(status),
            final (self).spec_doc() == old(self).spec_doc(),
            final (self).spec_content() == old(self).spec_content(),
            final (self).spec_file() == old(self).spec_file(),
    {
        self.git_status = Some(status);
    }

    /// The attached status; `Unknown` until the store sets one.
    pub fn get_git_status(&self) -> (r: GitStatus)
        ensures
            r == match self.spec_status() {
                Some(s) => s,
                None => GitStatus::Unknown,
            },
    {
        match &self.git_status {
            Some(s) => *s,
            None => GitStatus::Unknown,
        }
    }

    pub fn name(&self) -> (r: Option<&String>)
        ensures
            match r {
                Some(s) => spec_name(self.spec_doc()) == Some(s@),
                None => spec_name(self.spec_doc()) is None,
            },
    {
        match self.yaml.get_str("event/name") {
            Some(s) => Some(s),
            None => self.yaml.get_str("event"),
        }
    }

    pub fn responsible(&self) -> (r: Option<&String>)
        ensures
            match r {
                Some(s) => spec_responsible(self.spec_doc()) == Some(s@),
                None => spec_responsible(self.spec_doc()) is None,
            },
    {
        self.yaml.get_str("manager")
    }

    pub fn format(&self) -> (r: Option<&String>)
        ensures
            match r {
                Some(s) => spec_format(self.spec_doc()) == Some(s@),
                None => spec_format(self.spec_doc()) is None,
            },
    {
        self.yaml.get_str("format")
    }

    pub fn canceled(&self) -> (r: bool)
        ensures
            r == spec_canceled(self.spec_doc()),
    {
        match self.yaml.get_bool("canceled") {
            Some(b) => b,
            None => false,
        }
    }

    /// Either `"canceled"` or `""`.
    pub fn canceled_string(&self) -> (r: &'static str)
        ensures
            r@ == if spec_canceled(self.spec_doc()) {
                "canceled"@
            } else {
                ""@
            },
    {
        if self.canceled() {
            "canceled"
        } else {
            ""
        }
    }

    fn date_at(&self, path: &str) -> (r: Option<SimpleDate>)
        ensures
            r == spec_date_at(self.spec_doc(), path@),
            r matches Some(d) ==> d.in_supported_range(),
    {
        match self.yaml.get_str(path) {
            Some(s) => crate::dates::parse_dmy_date(s.as_str()),
            None => None,
        }
    }

    pub fn event_date(&self) -> (r: Option<SimpleDate>)
        ensures
            r == spec_event_date(self.spec_doc()),
            r matches Some(d) ==> d.in_supported_range(),
    {
        match self.date_at("event/dates/0/begin") {
            Some(d) => Some(d),
            None => match self.date_at("date") {
                Some(d) => Some(d),
                None => match self.yaml.get_str("date") {
                    Some(s) => crate::dates::parse_dmy_date_range(s.as_str()),
                    None => None,
                },
            },
        }
    }

    pub fn modified_date(&self) -> (r: Option<SimpleDate>)
        ensures
            r == spec_modified_date(self.spec_doc()),
            r matches Some(d) ==> d.in_supported_range(),
    {
        match self.date_at("event/dates/0/begin") {
            Some(d) => Some(d),
            None => match self.date_at("created") {
                Some(d) => Some(d),
                None => match self.date_at("date") {
                    Some(d) => Some(d),
                    None => match self.yaml.get_str("date") {
                        Some(s) => crate::dates::parse_dmy_date_range(s.as_str()),
                        None => None,
                    },
                },
            },
        }
    }

    pub fn payed_date(&self) -> (r: Option<SimpleDate>)
        ensures
            r == spec_payed_date(self.spec_doc()),
    {
        self.date_at("invoice/payed_date")
    }

    pub fn payed_by_client(&self) -> (r: bool)
        ensures
            r == (spec_payed_date(self.spec_doc()) is Some),
    {
        self.payed_date().is_some()
    }

    /// The client-, offer-, invoice- and hours-specific accessors.
    pub fn client<'a>(&'a self) -> (r: Client<'a>)
        ensures
            r.inner == self,
    {
        Client { inner: self }
    }

    pub fn offer<'a>(&'a self) -> (r: Offer<'a>)
        ensures
            r.inner == self,
    {
        Offer { inner: self }
    }

    pub fn invoice<'a>(&'a self) -> (r: Invoice<'a>)
        ensures
            r.inner == self,
    {
        Invoice { inner: self }
    }

    pub fn hours<'a>(&'a self) -> (r: Hours<'a>)
        ensures
            r.inner == self,
    {
        Hours { inner: self }
    }
}

// ---------------------------------------------------------------------------
// validation: every check runs, all findings accumulate
// ---------------------------------------------------------------------------
/// The missing-field report of the record's own validation, in check order.
pub open spec fn spec_project_errors(doc: Node) -> Seq<Seq<char>> {
    let e0 = Seq::<Seq<char>>::empty();
    let e1 = if spec_name(doc) is None {
        e0.push("name"@)
    } else {
        e0
    };
    let e2 = if spec_event_date(doc) is None {
        e1.push("date"@)
    } else {
        e1
    };
    let e3 = if spec_responsible(doc) is None {
        e2.push("manager"@)
    } else {
        e2
    };
    if spec_format(doc) is None {
        e3.push("format"@)
    } else {
        e3
    }
}

impl Project {
    /// Own-document validation: name, event date, responsible person and
    /// output format must be present.  All findings accumulate.
    pub fn validate(&self) -> (r: SpecResult)
        ensures
            r is Ok <==> spec_project_errors(self.spec_doc()).len() == 0,
            r matches Err(e) ==> e.fields.deep_view() == spec_project_errors(self.spec_doc()),
    {
        let mut errors = ErrorList::new();
        if self.name().is_none() {
            errors.push("name");
        }
        if self.event_date().is_none() {
            errors.push("date");
        }
        if self.responsible().is_none() {
            errors.push("manager");
        }
        if self.format().is_none() {
            errors.push("format");
        }
        proof {
            assert(errors.fields.deep_view() =~~= spec_project_errors(self.spec_doc()));
        }
        if errors.is_empty() {
            Ok(())
        } else {
            Err(errors)
        }
    }
}

/// The gender and salutation tables the client validation derives the
/// addressing from; the caller configures them, `standard()` holds the
/// stock entries.
pub struct SalutationTable {
    pub gender_matches: Vec<(String, String)>,
    pub addressing: Vec<(String, String)>,
}

impl SalutationTable {
    /// The stock table: the common German titles, German salutations.
    pub fn standard() -> (r: SalutationTable)
        ensures
            r.gender_matches@.len() == 4,
            r.gender_matches@[0].0@ == "herr"@ && r.gender_matches@[0].1@ == "male"@,
            r.gender_matches@[1].0@ == "frau"@ && r.gender_matches@[1].1@ == "female"@,
            r.gender_matches@[2].0@ == "professor"@ && r.gender_matches@[2].1@ == "male"@,
            r.gender_matches@[3].0@ == "professorin"@ && r.gender_matches@[3].1@ == "female"@,
            r.addressing@.len() == 2,
            r.addressing@[0].0@ == "male"@ && r.addressing@[0].1@ == "Sehr geehrter"@,
            r.addressing@[1].0@ == "female"@ && r.addressing@[1].1@ == "Sehr geehrte"@,
    {
        let mut gender_matches: Vec<(String, String)> = Vec::new();
        gender_matches.push(("herr".to_owned(), "male".to_owned()));
        gender_matches.push(("frau".to_owned(), "female".to_owned()));
        gender_matches.push(("professor".to_owned(), "male".to_owned()));
        gender_matches.push(("professorin".to_owned(), "female".to_owned()));
        let mut addressing: Vec<(String, String)> = Vec::new();
        addressing.push(("male".to_owned(), "Sehr geehrter".to_owned()));
        addressing.push(("female".to_owned(), "Sehr geehrte".to_owned()));
        SalutationTable { gender_matches, addressing }
    }
}

/// The salutation derived for the client: the first word of the title,
/// lowercased, looked up in the gender table, and the gender looked up in
/// the addressing table.
pub open spec fn spec_addressing(
    doc: Node,
    gender_matches: Seq<(String, String)>,
    addressing: Seq<(String, String)>,
) -> Option<Seq<char>> {
    match spec_get_str(doc, "client/title"@) {
        None => None,
        Some(title) => match spec_first_word(title) {
            None => None,
            Some(w) => match spec_assoc(gender_matches, lower_of(w)) {
                None => None,
                Some(g) => spec_assoc(addressing, g),
            },
        },
    }
}

/// The missing-field report of the client validation, in check order.
pub open spec fn spec_client_errors(
    doc: Node,
    gender_matches: Seq<(String, String)>,
    addressing: Seq<(String, String)>,
) -> Seq<Seq<char>> {
    let e0 = Seq::<Seq<char>>::empty();
    let e1 = if spec_get_path(doc, "client/address"@) is None {
        e0.push("client/address"@)
    } else {
        e0
    };
    let e2 = if spec_get_path(doc, "client/title"@) is None {
        e1.push("client/title"@)
    } else {
        e1
    };
    let e3 = if spec_get_path(doc, "client/last_name"@) is None {
        e2.push("client/last_name"@)
    } else {
        e2
    };
    let e4 = if spec_get_path(doc, "client/first_name"@) is None {
        e3.push("client/first_name"@)
    } else {
        e3
    };
    if spec_addressing(doc, gender_matches, addressing) is None {
        e4.push("client_addressing"@)
    } else {
        e4
    }
}

/// Client-specific accessors of a record.
pub struct Client<'a> {
    pub inner: &'a Project,
}

impl<'a> Client<'a> {
    pub fn title(&self) -> (r: Option<&String>)
        ensures
            match r {
                Some(s) => spec_get_str(self.inner.spec_doc(), "client/title"@) == Some(s@),
                None => spec_get_str(self.inner.spec_doc(), "client/title"@) is None,
            },
    {
        self.inner.yaml().get_str("client/title")
    }

    pub fn first_name(&self) -> (r: Option<&String>)
        ensures
            match r {
                Some(s) => spec_get_str(self.inner.spec_doc(), "client/first_name"@) == Some(s@),
                None => spec_get_str(self.inner.spec_doc(), "client/first_name"@) is None,
            },
    {
        self.inner.yaml().get_str("client/first_name")
    }

    pub fn last_name(&self) -> (r: Option<&String>)
        ensures
            match r {
                Some(s) => spec_get_str(self.inner.spec_doc(), "client/last_name"@) == Some(s@),
                None => spec_get_str(self.inner.spec_doc(), "client/last_name"@) is None,
            },
    {
        self.inner.yaml().get_str("client/last_name")
    }

    pub fn address(&self) -> (r: Option<&String>)
        ensures
            match r {
                Some(s) => spec_get_str(self.inner.spec_doc(), "client/address"@) == Some(s@),
                None => spec_get_str(self.inner.spec_doc(), "client/address"@) is None,
            },
    {
        self.inner.yaml().get_str("client/address")
    }

    /// Both names joined, when both are present.
    pub fn full_name(&self) -> (r: Option<String>)
        ensures
            match r {
                Some(s) => spec_get_str(self.inner.spec_doc(), "client/first_name"@) matches Some(
                    f,
                ) && spec_get_str(self.inner.spec_doc(), "client/last_name"@) matches Some(l) && s@
                    == f + " "@ + l,
                None => spec_get_str(self.inner.spec_doc(), "client/first_name"@) is None
                    || spec_get_str(self.inner.spec_doc(), "client/last_name"@) is None,
            },
    {
        match (self.first_name(), self.last_name()) {
            (Some(f), Some(l)) => {
                let mut s = f.clone();
                s = vstd::string::StringExecFns::concat(s, " ");
                s = vstd::string::StringExecFns::concat(s, l.as_str());
                Some(s)
            },
            _ => None,
        }
    }

    /// The salutation derived from the title through the tables.
    pub fn addressing(&self, table: &SalutationTable) -> (r: Option<String>)
        ensures
            match r {
                Some(s) => spec_addressing(
                    self.inner.spec_doc(),
                    table.gender_matches@,
                    table.addressing@,
                ) == Some(s@),
                None => spec_addressing(
                    self.inner.spec_doc(),
                    table.gender_matches@,
                    table.addressing@,
                ) is None,
            },
    {
        match self.title() {
            None => None,
            Some(title) => match first_word(title.as_str()) {
                None => None,
                Some(w) => {
                    let lw = lowercase(w.as_str());
                    match assoc_get(&table.gender_matches, &lw) {
                        None => None,
                        Some(g) => match assoc_get(&table.addressing, g) {
                            None => None,
                            Some(a) => Some(a.clone()),
                        },
                    }
                },
            },
        }
    }

    /// Client validation: address, title, both names present, and a
    /// salutation resolvable through the tables.  All findings accumulate.
    pub fn validate(&self, table: &SalutationTable) -> (r: SpecResult)
        ensures
            r is Ok <==> spec_client_errors(
                self.inner.spec_doc(),
                table.gender_matches@,
                table.addressing@,
            ).len() == 0,
            r matches Err(e) ==> e.fields.deep_view() == spec_client_errors(
                self.inner.spec_doc(),
                table.gender_matches@,
                table.addressing@,
            ),
    {
        let mut errors = ErrorList::new();
        if !self.inner.yaml().field_exists("client/address") {
            errors.push("client/address");
        }
        if !self.inner.yaml().field_exists("client/title") {
            errors.push("client/title");
        }
        if !self.inner.yaml().field_exists("client/last_name") {
            errors.push("client/last_name");
        }
        if !self.inner.yaml().field_exists("client/first_name") {
            errors.push("client/first_name");
        }
        if self.addressing(table).is_none() {
            errors.push("client_addressing");
        }
        proof {
            assert(errors.fields.deep_view() =~~= spec_client_errors(
                self.inner.spec_doc(),
                table.gender_matches@,
                table.addressing@,
            ));
        }
        if errors.is_empty() {
            Ok(())
        } else {
            Err(errors)
        }
    }
}

/// The missing-field report of the offer validation, in check order.
pub open spec fn spec_offer_errors(doc: Node) -> Seq<Seq<char>> {
    let e0 = Seq::<Seq<char>>::empty();
    let e1 = if spec_get_path(doc, "offer.date"@) is None {
        e0.push("offer.date"@)
    } else {
        e0
    };
    let e2 = if spec_get_path(doc, "offer.appendix"@) is None {
        e1.push("offer.appendix"@)
    } else {
        e1
    };
    let e3 = if spec_get_path(doc, "manager"@) is None {
        e2.push("manager"@)
    } else {
        e2
    };
    if spec_offer_date(doc) is None {
        e3.push("offer_date_format"@)
    } else {
        e3
    }
}

/// Offer-specific accessors of a record.
pub struct Offer<'a> {
    pub inner: &'a Project,
}

impl<'a> Offer<'a> {
    pub fn date(&self) -> (r: Option<SimpleDate>)
        ensures
            r == spec_offer_date(self.inner.spec_doc()),
            r matches Some(d) ==> d.in_supported_range(),
    {
        self.inner.date_at("offer/date")
    }

    pub fn appendix(&self) -> (r: Option<i64>)
        ensures
            r == spec_get_int(self.inner.spec_doc(), "offer/appendix"@),
    {
        self.inner.yaml().get_int("offer/appendix")
    }

    /// The offer number: `A<yyyymmdd>-<appendix>`, appendix 1 when unset.
    pub fn number(&self) -> (r: Option<String>)
        ensures
            match r {
                Some(s) => spec_offer_number(self.inner.spec_doc()) == Some(s@),
                None => spec_offer_number(self.inner.spec_doc()) is None,
            },
    {
        match self.date() {
            None => None,
            Some(d) => {
                let app = match self.appendix() {
                    Some(a) => {
                        if 0 <= a {
                            a as u64
                        } else {
                            1
                        }
                    },
                    None => 1,
                };
                let mut s = String::new();
                s = vstd::string::StringExecFns::concat(s, "A");
                s = vstd::string::StringExecFns::concat(
                    s,
                    crate::dates::format_ymd_compact(d).as_str(),
                );
                s = vstd::string::StringExecFns::concat(s, "-");
                s = vstd::string::StringExecFns::concat(s, crate::text::u64_to_string(app).as_str());
                proof {
                    assert(s@ =~= spec_offer_number(self.inner.spec_doc()).unwrap());
                }
                Some(s)
            },
        }
    }

    /// Offer validation: offer date, appendix and manager present, and the
    /// offer date in a readable form.  All findings accumulate.
    pub fn validate(&self) -> (r: SpecResult)
        ensures
            r is Ok <==> spec_offer_errors(self.inner.spec_doc()).len() == 0,
            r matches Err(e) ==> e.fields.deep_view() == spec_offer_errors(self.inner.spec_doc()),
    {
        let mut errors = ErrorList::new();
        if !self.inner.yaml().field_exists("offer.date") {
            errors.push("offer.date");
        }
        if !self.inner.yaml().field_exists("offer.appendix") {
            errors.push("offer.appendix");
        }
        if !self.inner.yaml().field_exists("manager") {
            errors.push("manager");
        }
        if self.date().is_none() {
            errors.push("offer_date_format");
        }
        proof {
            assert(errors.fields.deep_view() =~~= spec_offer_errors(self.inner.spec_doc()));
        }
        if errors.is_empty() {
            Ok(())
        } else {
            Err(errors)
        }
    }
}

/// The offer number rendered from the offer date and appendix.
pub open spec fn spec_offer_number(doc: Node) -> Option<Seq<char>> {
    match spec_offer_date(doc) {
        None => None,
        Some(d) => {
            let app: u64 = match spec_get_int(doc, "offer/appendix"@) {
                Some(a) => if 0 <= a {
                    a as u64
                } else {
                    1
                },
                None => 1,
            };
            Some(
                "A"@ + crate::dates::spec_format_ymd_compact(d) + "-"@ + crate::text::spec_digits(
                    app as nat,
                ),
            )
        },
    }
}

/// The missing-field report of the invoice validation, in check order.
pub open spec fn spec_invoice_errors(doc: Node) -> Seq<Seq<char>> {
    let e0 = Seq::<Seq<char>>::empty();
    let e1 = if spec_get_path(doc, "invoice.number"@) is None {
        e0.push("invoice.number"@)
    } else {
        e0
    };
    if spec_invoice_date(doc) is None {
        e1.push("invoice_date"@)
    } else {
        e1
    }
}

/// Invoice-specific accessors of a record.
pub struct Invoice<'a> {
    pub inner: &'a Project,
}

impl<'a> Invoice<'a> {
    pub fn date(&self) -> (r: Option<SimpleDate>)
        ensures
            r == spec_invoice_date(self.inner.spec_doc()),
            r matches Some(d) ==> d.in_supported_range(),
    {
        self.inner.date_at("invoice/date")
    }

    pub fn number(&self) -> (r: Option<i64>)
        ensures
            r == spec_invoice_number(self.inner.spec_doc()),
    {
        self.inner.yaml().get_int("invoice/number")
    }

    /// The pretty invoice number, `R<number>`.
    pub fn number_str(&self) -> (r: Option<String>)
        ensures
            match r {
                Some(s) => spec_invoice_number_str(self.inner.spec_doc()) == Some(s@),
                None => spec_invoice_number_str(self.inner.spec_doc()) is None,
            },
    {
        match self.number() {
            Some(n) => {
                if 0 <= n {
                    let mut s = String::new();
                    s = vstd::string::StringExecFns::concat(s, "R");
                    let p = crate::text::string_from_chars(&pad3_digits(n as u64));
                    s = vstd::string::StringExecFns::concat(s, p.as_str());
                    proof {
                        assert(s@ =~= spec_invoice_number_str(self.inner.spec_doc()).unwrap());
                    }
                    Some(s)
                } else {
                    None
                }
            },
            None => None,
        }
    }

    /// The long invoice number including the invoice year, `R<year>-<number>`.
    pub fn number_long_str(&self) -> (r: Option<String>)
        ensures
            match r {
                Some(s) => spec_invoice_number_long(self.inner.spec_doc()) == Some(s@),
                None => spec_invoice_number_long(self.inner.spec_doc()) is None,
            },
    {
        match (self.number(), self.date()) {
            (Some(n), Some(d)) => {
                if 0 <= n {
                    let mut s = String::new();
                    s = vstd::string::StringExecFns::concat(s, "R");
                    s = vstd::string::StringExecFns::concat(
                        s,
                        crate::text::u64_to_string(d.year as u64).as_str(),
                    );
                    s = vstd::string::StringExecFns::concat(s, "-");
                    let p = crate::text::string_from_chars(&pad3_digits(n as u64));
                    s = vstd::string::StringExecFns::concat(s, p.as_str());
                    proof {
                        assert(s@ =~= spec_invoice_number_long(self.inner.spec_doc()).unwrap());
                    }
                    Some(s)
                } else {
                    None
                }
            },
            _ => None,
        }
    }

    /// Invoice validation: an invoice number, and an invoice date in a
    /// readable form.  All findings accumulate.
    pub fn validate(&self) -> (r: SpecResult)
        ensures
            r is Ok <==> spec_invoice_errors(self.inner.spec_doc()).len() == 0,
            r matches Err(e) ==> e.fields.deep_view() == spec_invoice_errors(self.inner.spec_doc()),
    {
        let mut errors = ErrorList::new();
        if !self.inner.yaml().field_exists("invoice.number") {
            errors.push("invoice.number");
        }
        if self.date().is_none() {
            errors.push("invoice_date");
        }
        proof {
            assert(errors.fields.deep_view() =~~= spec_invoice_errors(self.inner.spec_doc()));
        }
        if errors.is_empty() {
            Ok(())
        } else {
            Err(errors)
        }
    }
}

/// The pretty invoice number is zero padded to three digits: `R042`.
pub open spec fn spec_invoice_number_str(doc: Node) -> Option<Seq<char>> {
    match spec_invoice_number(doc) {
        Some(n) => if 0 <= n {
            Some("R"@ + crate::bill::spec_pad3(n as nat))
        } else {
            None
        },
        None => None,
    }
}

/// Digits zero padded to at least three places.
fn pad3_digits(n: u64) -> (r: Vec<char>)
    ensures
        r@ == crate::bill::spec_pad3(n as nat),
{
    let mut v: Vec<char> = Vec::new();
    if n < 10 {
        v.push('0');
        v.push('0');
    } else if n < 100 {
        v.push('0');
    }
    let mut d = crate::text::u64_digits(n);
    v.append(&mut d);
    proof {
        assert(v@ =~= crate::bill::spec_pad3(n as nat));
    }
    v
}

pub open spec fn spec_invoice_number_long(doc: Node) -> Option<Seq<char>> {
    match (spec_invoice_number(doc), spec_invoice_date(doc)) {
        (Some(n), Some(d)) => if 0 <= n {
            Some(
                "R"@ + crate::text::spec_digits(d.year as nat) + "-"@ + crate::bill::spec_pad3(
                    n as nat,
                ),
            )
        } else {
            None
        },
        _ => None,
    }
}

/// The missing-field report of the hours validation.
pub open spec fn spec_hours_errors(doc: Node) -> Seq<Seq<char>> {
    if !spec_employees_payed(doc) {
        Seq::<Seq<char>>::empty().push("employees_payed"@)
    } else {
        Seq::<Seq<char>>::empty()
    }
}

/// Hours- and employee-specific accessors of a record.
pub struct Hours<'a> {
    pub inner: &'a Project,
}

impl<'a> Hours<'a> {
    /// Whether every recorded employee has been marked paid.
    pub fn employees_payed(&self) -> (r: bool)
        ensures
            r == spec_employees_payed(self.inner.spec_doc()),
    {
        match self.inner.yaml().get_hash("hours/caterers") {
            Some(es) => {
                if es.len() == 0 {
                    true
                } else {
                    self.inner.date_at("hours/wages_date").is_some()
                }
            },
            None => true,
        }
    }

    /// Hours validation: every recorded employee marked paid.
    pub fn validate(&self) -> (r: SpecResult)
        ensures
            r is Ok <==> spec_hours_errors(self.inner.spec_doc()).len() == 0,
            r matches Err(e) ==> e.fields.deep_view() == spec_hours_errors(self.inner.spec_doc()),
    {
        let mut errors = ErrorList::new();
        if !self.employees_payed() {
            errors.push("employees_payed");
        }
        proof {
            assert(errors.fields.deep_view() =~~= spec_hours_errors(self.inner.spec_doc()));
        }
        if errors.is_empty() {
            Ok(())
        } else {
            Err(errors)
        }
    }
}

// ---------------------------------------------------------------------------
// readiness gates
// ---------------------------------------------------------------------------
pub open spec fn spec_offer_ready(
    doc: Node,
    gender_matches: Seq<(String, String)>,
    addressing: Seq<(String, String)>,
) -> bool {
    &&& spec_offer_errors(doc).len() == 0
    &&& spec_client_errors(doc, gender_matches, addressing).len() == 0
    &&& spec_project_errors(doc).len() == 0
}

pub open spec fn spec_invoice_ready(
    doc: Node,
    gender_matches: Seq<(String, String)>,
    addressing: Seq<(String, String)>,
) -> bool {
    spec_offer_ready(doc, gender_matches, addressing) && spec_invoice_errors(doc).len() == 0
}

impl Project {
    /// Ready to send an offer: the offer, client and own-document checks all
    /// pass; otherwise the concatenation of all three reports.
    pub fn is_ready_for_offer(&self, table: &SalutationTable) -> (r: SpecResult)
        ensures
            r is Ok <==> spec_offer_ready(self.spec_doc(), table.gender_matches@, table.addressing@),
            r matches Err(e) ==> e.fields.deep_view() == spec_offer_errors(self.spec_doc())
                + spec_client_errors(self.spec_doc(), table.gender_matches@, table.addressing@)
                + spec_project_errors(self.spec_doc()),
    {
        let mut rs: Vec<SpecResult> = Vec::new();
        rs.push(self.offer().validate());
        rs.push(self.client().validate(table));
        rs.push(self.validate());
        let ghost rsv = rs@;
        let r = combine_specresults(rs);
        proof {
            lemma_combined_three(rsv);
            assert(spec_combined_fields(rsv) =~~= spec_result_fields(rsv[0]) + spec_result_fields(
                rsv[1],
            ) + spec_result_fields(rsv[2]));
        }
        r
    }

    /// Ready to send an invoice: offer-ready and the invoice checks pass.
    pub fn is_ready_for_invoice(&self, table: &SalutationTable) -> (r: SpecResult)
        ensures
            r is Ok <==> spec_invoice_ready(
                self.spec_doc(),
                table.gender_matches@,
                table.addressing@,
            ),
            r matches Err(e) ==> e.fields.deep_view() == (spec_offer_errors(self.spec_doc())
                + spec_client_errors(self.spec_doc(), table.gender_matches@, table.addressing@)
                + spec_project_errors(self.spec_doc())) + spec_invoice_errors(self.spec_doc()),
    {
        let mut rs: Vec<SpecResult> = Vec::new();
        rs.push(self.is_ready_for_offer(table));
        rs.push(self.invoice().validate());
        let ghost rsv = rs@;
        let r = combine_specresults(rs);
        proof {
            lemma_combined_two(rsv);
            assert(spec_combined_fields(rsv) =~~= spec_result_fields(rsv[0]) + spec_result_fields(
                rsv[1],
            ));
        }
        r
    }
}

/// The report of one validation result.
pub open spec fn spec_result_fields(r: Result<(), ErrorList>) -> Seq<Seq<char>> {
    match r {
        Ok(()) => Seq::empty(),
        Err(e) => e.fields.deep_view(),
    }
}

proof fn lemma_combined_two(rs: Seq<Result<(), ErrorList>>)
    requires
        rs.len() == 2,
    ensures
        spec_combined_fields(rs) == spec_result_fields(rs[0]) + spec_result_fields(rs[1]),
{
    assert(rs.drop_first().drop_first() =~= Seq::<Result<(), ErrorList>>::empty());
    assert(spec_combined_fields(rs.drop_first().drop_first()) =~~= Seq::<Seq<char>>::empty());
    assert(spec_combined_fields(rs) == spec_result_fields(rs[0]) + spec_combined_fields(
        rs.drop_first(),
    ));
    assert(spec_combined_fields(rs.drop_first()) == spec_result_fields(rs.drop_first()[0])
        + spec_combined_fields(rs.drop_first().drop_first()));
    assert(rs.drop_first()[0] == rs[1]);
    assert(spec_combined_fields(rs) =~~= spec_result_fields(rs[0]) + spec_result_fields(rs[1]));
}

proof fn lemma_combined_three(rs: Seq<Result<(), ErrorList>>)
    requires
        rs.len() == 3,
    ensures
        spec_combined_fields(rs) == spec_result_fields(rs[0]) + spec_result_fields(rs[1])
            + spec_result_fields(rs[2]),
{
    lemma_combined_two(rs.drop_first());
    assert(rs.drop_first()[0] == rs[1] && rs.drop_first()[1] == rs[2]);
    assert(spec_combined_fields(rs) =~~= spec_result_fields(rs[0]) + spec_result_fields(rs[1])
        + spec_result_fields(rs[2]));
}

// ---------------------------------------------------------------------------
// laws
// ---------------------------------------------------------------------------
/// LAW (monotonic readiness): a record that is ready for an invoice passes
/// every offer-validation check as well.
pub proof fn lemma_invoice_ready_implies_offer_ready(
    doc: Node,
    gender_matches: Seq<(String, String)>,
    addressing: Seq<(String, String)>,
)
    ensures
        spec_invoice_ready(doc, gender_matches, addressing) ==> spec_offer_ready(
            doc,
            gender_matches,
            addressing,
        ),
{
}

/// LAW (accumulated validation): a record that lacks both its name and its
/// event date reports both field identifiers, never just the first failure.
pub proof fn lemma_accumulated_validation(doc: Node)
    requires
        spec_name(doc) is None,
        spec_event_date(doc) is None,
    ensures
        spec_project_errors(doc).contains("name"@),
        spec_project_errors(doc).contains("date"@),
{
    let e = spec_project_errors(doc);
    assert(e[0] == "name"@);
    assert(e[1] == "date"@);
}


// ---------------------------------------------------------------------------
// quantities, money and the bill computation
// ---------------------------------------------------------------------------
/// The scaled decimal at `path`: an integer node scaled up, or a decimal
/// string read with `fd` fraction digits.  Negative values read as zero;
/// values over a billion scaled units, and malformed text, do not read.
pub open spec fn spec_scaled_at(v: Node, path: Seq<char>, fd: nat) -> Option<u64> {
    match spec_get_path(v, path) {
        Some(Node::Int(i)) => if i < 0 {
            Some(0)
        } else if i * pow10(fd) <= 1_000_000_000 {
            Some((i * pow10(fd)) as u64)
        } else {
            None
        },
        Some(Node::Str(s)) => spec_parse_scaled(s@, fd),
        _ => None,
    }
}

fn scaled_at(v: &Node, path: &str, fd: u64) -> (r: Option<u64>)
    requires
        1 <= fd <= 4,
    ensures
        r == spec_scaled_at(*v, path@, fd as nat),
        r matches Some(x) ==> x <= 1_000_000_000,
{
    match v.get(path) {
        Some(Node::Int(i)) => {
            let i = *i;
            if i < 0 {
                proof {
                    crate::text::lemma_pow10_pos(fd as nat);
                }
                Some(0)
            } else {
                let pw = crate::text::pow10_u64(fd);
                proof {
                    crate::text::lemma_pow10_pos(fd as nat);
                    if i > 1_000_000_000 {
                        assert(i * pow10(fd as nat) > 1_000_000_000) by (nonlinear_arith)
                            requires
                                i > 1_000_000_000,
                                pow10(fd as nat) >= 1,
                        ;
                    }
                }
                if i > 1_000_000_000 {
                    None
                } else {
                    proof {
                        assert(0 <= i * pw <= 10_000_000_000_000i64) by (nonlinear_arith)
                            requires
                                0 <= i <= 1_000_000_000i64,
                                1 <= pw <= 10000i64,
                        ;
                    }
                    let scaled = i * (pw as i64);
                    if scaled <= 1_000_000_000 {
                        Some(scaled as u64)
                    } else {
                        None
                    }
                }
            }
        },
        Some(Node::Str(s)) => parse_scaled(s.as_str(), fd),
        _ => None,
    }
}

/// The recorded hours, in thousandths of an hour.
pub open spec fn spec_hours_total(doc: Node) -> Option<u64> {
    spec_scaled_at(doc, "hours/total"@, 3)
}

/// The configured hourly salary, in cents.
pub open spec fn spec_salary(doc: Node) -> Option<u64> {
    spec_scaled_at(doc, "hours/salary"@, 2)
}

/// Total recorded hours times hourly salary, in thousandths of a cent.
pub open spec fn spec_wages(doc: Node) -> Option<u64> {
    match (spec_hours_total(doc), spec_salary(doc)) {
        (Some(t), Some(s)) => Some((t * s) as u64),
        _ => None,
    }
}

impl<'a> Hours<'a> {
    /// The recorded hours, in thousandths of an hour.
    pub fn total(&self) -> (r: Option<u64>)
        ensures
            r == spec_hours_total(self.inner.spec_doc()),
            r matches Some(x) ==> x <= 1_000_000_000,
    {
        scaled_at(self.inner.yaml(), "hours/total", 3)
    }

    /// The hourly salary, in cents.
    pub fn salary(&self) -> (r: Option<u64>)
        ensures
            r == spec_salary(self.inner.spec_doc()),
            r matches Some(x) ==> x <= 1_000_000_000,
    {
        scaled_at(self.inner.yaml(), "hours/salary", 2)
    }
}

impl Project {
    /// Total recorded hours times hourly salary, in thousandths of a cent.
    pub fn wages(&self) -> (r: Option<u64>)
        ensures
            r == spec_wages(self.spec_doc()),
    {
        match (self.hours().total(), self.hours().salary()) {
            (Some(t), Some(s)) => {
                proof {
                    assert(t * s <= 1_000_000_000_000_000_000u64) by (nonlinear_arith)
                        requires
                            t <= 1_000_000_000u64,
                            s <= 1_000_000_000u64,
                    ;
                }
                Some(t * s)
            },
            _ => None,
        }
    }
}

/// A product entry's tax rate: its own readable `tax`, else the given
/// default (in basis points).
pub open spec fn spec_entry_tax(v: Node, dtax: u64) -> u64 {
    match spec_scaled_at(v, "tax"@, 4) {
        Some(t) => t,
        None => dtax,
    }
}

pub open spec fn spec_unit_view(v: Node) -> Option<Seq<char>> {
    match spec_get_path(v, "unit"@) {
        Some(Node::Str(u)) => Some(u@),
        _ => None,
    }
}

/// The two lines (offer, invoice) one product entry yields.  The offer line
/// carries the entry's amount; the invoice line what was sold, or the amount
/// less returns (never below zero).  An unreadable price or amount yields no
/// lines — the entry is in an unknown format.
pub open spec fn spec_entry_views(name: Seq<char>, v: Node, dtax: u64) -> Option<
    (BillItemView, BillItemView),
> {
    match (spec_scaled_at(v, "price"@, 2), spec_scaled_at(v, "amount"@, 3)) {
        (Some(p), Some(a)) => {
            let tax = spec_entry_tax(v, dtax);
            let returned: u64 = match spec_scaled_at(v, "returned"@, 3) {
                Some(x) => x,
                None => 0,
            };
            let inv_amount: int = match spec_scaled_at(v, "sold"@, 3) {
                Some(s) => s as int,
                None => if returned <= a {
                    a - returned
                } else {
                    0
                },
            };
            let o = BillItemView {
                amount: a as int,
                name: name,
                unit: spec_unit_view(v),
                price: p as int,
                tax: tax,
            };
            let i = BillItemView {
                amount: inv_amount,
                name: name,
                unit: spec_unit_view(v),
                price: p as int,
                tax: tax,
            };
            Some((o, i))
        },
        _ => None,
    }
}

/// The document's product list, when it has one.
pub open spec fn spec_products(doc: Node) -> Option<Seq<(String, Node)>> {
    match spec_get_path(doc, "products"@) {
        Some(Node::Dict(es)) => Some(es@),
        _ => None,
    }
}

/// Bill computation succeeds: a product list is present and every entry is
/// readable.
pub open spec fn spec_bills_ok(doc: Node, dtax: u64) -> bool {
    match spec_products(doc) {
        Some(es) => forall|i: int|
            0 <= i < es.len() ==> spec_entry_views(
                (#[trigger] es[i]).0@,
                es[i].1,
                dtax,
            ) is Some,
        None => false,
    }
}

/// The synthetic service line: recorded hours priced at the hourly salary,
/// tax free, included only when the hours are a positive quantity.
pub open spec fn spec_service_views(doc: Node) -> Seq<BillItemView> {
    match spec_hours_total(doc) {
        Some(t) => if t > 0 {
            seq![
                BillItemView {
                    amount: t as int,
                    name: "Service"@,
                    unit: Some("h"@),
                    price: (match spec_salary(doc) {
                        Some(s) => s as int,
                        None => 0,
                    }),
                    tax: 0,
                },
            ]
        } else {
            Seq::empty()
        },
        None => Seq::empty(),
    }
}

/// The offer lines of the product entries, in order; entries that are not a
/// positive quantity are dropped.
pub open spec fn spec_offer_entry_views(es: Seq<(String, Node)>, dtax: u64) -> Seq<BillItemView>
    decreases es.len(),
{
    if es.len() == 0 {
        Seq::empty()
    } else {
        let p = spec_offer_entry_views(es.drop_last(), dtax);
        match spec_entry_views(es.last().0@, es.last().1, dtax) {
            Some(oi) => if oi.0.amount > 0 {
                p.push(oi.0)
            } else {
                p
            },
            None => p,
        }
    }
}

/// The invoice lines of the product entries, likewise.
pub open spec fn spec_invoice_entry_views(es: Seq<(String, Node)>, dtax: u64) -> Seq<BillItemView>
    decreases es.len(),
{
    if es.len() == 0 {
        Seq::empty()
    } else {
        let p = spec_invoice_entry_views(es.drop_last(), dtax);
        match spec_entry_views(es.last().0@, es.last().1, dtax) {
            Some(oi) => if oi.1.amount > 0 {
                p.push(oi.1)
            } else {
                p
            },
            None => p,
        }
    }
}

/// Every line of the offer bill, service first.
pub open spec fn spec_offer_views(doc: Node, dtax: u64) -> Seq<BillItemView> {
    spec_service_views(doc) + spec_offer_entry_views(
        match spec_products(doc) {
            Some(es) => es,
            None => Seq::empty(),
        },
        dtax,
    )
}

/// Every line of the invoice bill, service first.
pub open spec fn spec_invoice_views(doc: Node, dtax: u64) -> Seq<BillItemView> {
    spec_service_views(doc) + spec_invoice_entry_views(
        match spec_products(doc) {
            Some(es) => es,
            None => Seq::empty(),
        },
        dtax,
    )
}

fn entry_items(name: &String, v: &Node, dtax: u64) -> (r: Option<(BillItem, BillItem)>)
    ensures
        match r {
            Some(oi) => {
                &&& spec_entry_views(name@, *v, dtax) == Some((item_view(oi.0), item_view(oi.1)))
                &&& 0 <= oi.0.amount <= 1_000_000_000
                &&& 0 <= oi.1.amount <= 1_000_000_000
                &&& 0 <= oi.0.product.price <= 1_000_000_000
                &&& 0 <= oi.1.product.price <= 1_000_000_000
            },
            None => spec_entry_views(name@, *v, dtax) is None,
        },
{
    let price = match scaled_at(v, "price", 2) {
        Some(p) => p,
        None => {
            return None;
        },
    };
    let amount = match scaled_at(v, "amount", 3) {
        Some(a) => a,
        None => {
            return None;
        },
    };
    let tax = match scaled_at(v, "tax", 4) {
        Some(t) => t,
        None => dtax,
    };
    let unit: Option<String> = match v.get("unit") {
        Some(Node::Str(u)) => Some(u.clone()),
        _ => None,
    };
    let unit2: Option<String> = match v.get("unit") {
        Some(Node::Str(u)) => Some(u.clone()),
        _ => None,
    };
    let returned = match scaled_at(v, "returned", 3) {
        Some(x) => x,
        None => 0,
    };
    let inv_amount = match scaled_at(v, "sold", 3) {
        Some(s) => s,
        None => if returned <= amount {
            amount - returned
        } else {
            0
        },
    };
    let o = BillItem {
        amount: amount as i64,
        product: Product { name: name.clone(), unit, price: price as i64, tax },
    };
    let i = BillItem {
        amount: inv_amount as i64,
        product: Product { name: name.clone(), unit: unit2, price: price as i64, tax },
    };
    proof {
        assert(item_view(o) == spec_entry_views(name@, *v, dtax).unwrap().0);
        assert(item_view(i) == spec_entry_views(name@, *v, dtax).unwrap().1);
    }
    Some((o, i))
}

impl Project {
    /// Build the two parallel bills (offer, invoice) from the synthetic
    /// service line and the document's product list, grouped by tax rate.
    /// A missing product list, or an unreadable entry, is a hard error.
    pub fn bills(&self, default_tax: u64) -> (r: Result<(Bill, Bill), StoreError>)
        ensures
            r is Ok <==> spec_bills_ok(self.spec_doc(), default_tax),
            r matches Ok(bb) ==> {
                &&& bb.0.wf()
                &&& bb.1.wf()
                &&& (forall|t: u64|
                    items_view(#[trigger] bb.0.spec_group(t)) == views_with_tax(
                        spec_offer_views(self.spec_doc(), default_tax),
                        t,
                    ))
                &&& (forall|t: u64|
                    items_view(#[trigger] bb.1.spec_group(t)) == views_with_tax(
                        spec_invoice_views(self.spec_doc(), default_tax),
                        t,
                    ))
                &&& bb.0.spec_net() == views_net(spec_offer_views(self.spec_doc(), default_tax))
                &&& bb.1.spec_net() == views_net(spec_invoice_views(self.spec_doc(), default_tax))
            },
            r matches Err(e) ==> e is UnknownFormat,
    {
        let ghost doc = self.spec_doc();
        let mut offer = Bill::new();
        let mut invoice = Bill::new();
        let mut has_service = false;
        proof {
            lemma_views_empty_props();
        }
        if let Some(total) = self.hours().total() {
            if total > 0 {
                let salary = match self.hours().salary() {
                    Some(s) => s,
                    None => 0,
                };
                let sp1 = Product {
                    name: "Service".to_owned(),
                    unit: Some("h".to_owned()),
                    price: salary as i64,
                    tax: 0,
                };
                let sp2 = Product {
                    name: "Service".to_owned(),
                    unit: Some("h".to_owned()),
                    price: salary as i64,
                    tax: 0,
                };
                let ghost sv = spec_service_views(doc)[0];
                let ghost empty_bill = offer;
                offer.add_item(total as i64, sp1);
                invoice.add_item(total as i64, sp2);
                has_service = true;
                proof {
                    let item1 = crate::bill::BillItem { amount: total as i64, product: sp1 };
                    let item2 = crate::bill::BillItem { amount: total as i64, product: sp2 };
                    assert(item_view(item1) == sv);
                    assert(item_view(item2) == sv);
                    lemma_singleton_group_views(offer, sv, spec_service_views(doc));
                    lemma_singleton_group_views(invoice, sv, spec_service_views(doc));
                    assert(views_net(spec_service_views(doc)) == sv.amount * sv.price) by {
                        assert(spec_service_views(doc).drop_last() =~= Seq::<
                            BillItemView,
                        >::empty());
                        assert(spec_service_views(doc).last() == sv);
                        lemma_views_empty_props();
                    }
                    assert(offer.spec_net() == sv.amount * sv.price);
                    assert(invoice.spec_net() == sv.amount * sv.price);
                }
            }
        }
        proof {
            if !has_service {
                assert(spec_service_views(doc) =~= Seq::<BillItemView>::empty());
                assert forall|t: u64|
                    items_view(#[trigger] offer.spec_group(t)) == views_with_tax(
                        spec_service_views(doc),
                        t,
                    ) by {
                    assert(items_view(offer.spec_group(t)) =~= Seq::<BillItemView>::empty());
                }
                assert forall|t: u64|
                    items_view(#[trigger] invoice.spec_group(t)) == views_with_tax(
                        spec_service_views(doc),
                        t,
                    ) by {
                    assert(items_view(invoice.spec_group(t)) =~= Seq::<BillItemView>::empty());
                }
                assert(offer.spec_net() == views_net(spec_service_views(doc)));
                assert(invoice.spec_net() == views_net(spec_service_views(doc)));
            }
        }
        let es = match self.yaml().get_hash("products") {
            Some(es) => es,
            None => {
                proof {
                    assert(spec_products(doc) is None);
                }
                return Err(StoreError::UnknownFormat);
            },
        };
        proof {
            assert(spec_products(doc) == Some(es@));
        }
        let ghost esv = es@;
        let n = es.len();
        let mut k: usize = 0;
        proof {
            assert(esv.take(0) =~= Seq::<(String, Node)>::empty());
            assert(spec_offer_entry_views(esv.take(0), default_tax) =~= Seq::<BillItemView>::empty());
            assert(spec_invoice_entry_views(esv.take(0), default_tax) =~= Seq::<
                BillItemView,
            >::empty());
            assert(spec_service_views(doc) + Seq::<BillItemView>::empty() =~= spec_service_views(
                doc,
            ));
            assert(spec_service_views(doc) + spec_offer_entry_views(esv.take(0), default_tax)
                =~= spec_service_views(doc));
            assert(spec_service_views(doc) + spec_invoice_entry_views(esv.take(0), default_tax)
                =~= spec_service_views(doc));
        }
        while k < n
            invariant
                doc == self.spec_doc(),
                spec_products(doc) == Some(esv),
                n == esv.len(),
                esv == es@,
                k <= n,
                offer.wf(),
                invoice.wf(),
                forall|j: int|
                    0 <= j < k ==> spec_entry_views(
                        (#[trigger] esv[j]).0@,
                        esv[j].1,
                        default_tax,
                    ) is Some,
                forall|t: u64|
                    items_view(#[trigger] offer.spec_group(t)) == views_with_tax(
                        spec_service_views(doc) + spec_offer_entry_views(
                            esv.take(k as int),
                            default_tax,
                        ),
                        t,
                    ),
                forall|t: u64|
                    items_view(#[trigger] invoice.spec_group(t)) == views_with_tax(
                        spec_service_views(doc) + spec_invoice_entry_views(
                            esv.take(k as int),
                            default_tax,
                        ),
                        t,
                    ),
                offer.spec_net() == views_net(
                    spec_service_views(doc) + spec_offer_entry_views(
                        esv.take(k as int),
                        default_tax,
                    ),
                ),
                invoice.spec_net() == views_net(
                    spec_service_views(doc) + spec_invoice_entry_views(
                        esv.take(k as int),
                        default_tax,
                    ),
                ),
            decreases n - k,
        {
            let e = &es[k];
            let ghost pre_offer = spec_service_views(doc) + spec_offer_entry_views(
                esv.take(k as int),
                default_tax,
            );
            let ghost pre_invoice = spec_service_views(doc) + spec_invoice_entry_views(
                esv.take(k as int),
                default_tax,
            );
            proof {
                assert(esv.take(k + 1).drop_last() =~= esv.take(k as int));
                assert(esv.take(k + 1).last() == esv[k as int]);
            }
            proof {
                assert(e.0 == esv[k as int].0 && e.1 == esv[k as int].1);
            }
            match entry_items(&e.0, &e.1, default_tax) {
                None => {
                    proof {
                        assert(spec_entry_views(esv[k as int].0@, esv[k as int].1, default_tax)
                            is None);
                        assert(!spec_bills_ok(doc, default_tax));
                    }
                    return Err(StoreError::UnknownFormat);
                },
                Some((o, i)) => {
                    let ghost ov = item_view(o);
                    let ghost iv = item_view(i);
                    if o.amount > 0 {
                        offer.add_item(o.amount, o.product);
                    }
                    if i.amount > 0 {
                        invoice.add_item(i.amount, i.product);
                    }
                    proof {
                        let post_offer = spec_service_views(doc) + spec_offer_entry_views(
                            esv.take(k + 1),
                            default_tax,
                        );
                        let post_invoice = spec_service_views(doc) + spec_invoice_entry_views(
                            esv.take(k + 1),
                            default_tax,
                        );
                        if ov.amount > 0 {
                            assert(post_offer =~= pre_offer.push(ov));
                        } else {
                            assert(post_offer =~= pre_offer);
                        }
                        if iv.amount > 0 {
                            assert(post_invoice =~= pre_invoice.push(iv));
                        } else {
                            assert(post_invoice =~= pre_invoice);
                        }
                        lemma_views_push_props(pre_offer, ov);
                        lemma_views_push_props(pre_invoice, iv);
                        assert forall|t: u64|
                            items_view(#[trigger] offer.spec_group(t)) =~= views_with_tax(
                                post_offer,
                                t,
                            ) by {}
                        assert forall|t: u64|
                            items_view(#[trigger] invoice.spec_group(t)) =~= views_with_tax(
                                post_invoice,
                                t,
                            ) by {}
                    }
                },
            }
            k = k + 1;
        }
        proof {
            assert(esv.take(n as int) =~= esv);
        }
        Ok((offer, invoice))
    }
}

proof fn lemma_views_empty_props()
    ensures
        forall|t: u64|
            views_with_tax(Seq::<BillItemView>::empty(), t) == Seq::<BillItemView>::empty(),
        views_net(Seq::<BillItemView>::empty()) == 0,
        items_view(Seq::<BillItem>::empty()) == Seq::<BillItemView>::empty(),
{
    assert(items_view(Seq::<BillItem>::empty()) =~= Seq::<BillItemView>::empty());
}

/// A bill whose only line carries view `sv` matches the one-line view
/// sequence `svs` group for group.
proof fn lemma_singleton_group_views(b: Bill, sv: BillItemView, svs: Seq<BillItemView>)
    requires
        svs.len() == 1,
        svs[0] == sv,
        b.spec_group(sv.tax).len() == 1,
        item_view(b.spec_group(sv.tax)[0]) == sv,
        forall|t: u64| t != sv.tax ==> #[trigger] b.spec_group(t) == Seq::<BillItem>::empty(),
    ensures
        forall|t: u64| items_view(#[trigger] b.spec_group(t)) == views_with_tax(svs, t),
{
    assert(svs.drop_last() =~= Seq::<BillItemView>::empty());
    assert(svs.last() == sv);
    lemma_views_empty_props();
    assert forall|t: u64| items_view(#[trigger] b.spec_group(t)) == views_with_tax(svs, t) by {
        assert(views_with_tax(svs.drop_last(), t) == views_with_tax(
            Seq::<BillItemView>::empty(),
            t,
        ));
        assert(views_with_tax(Seq::<BillItemView>::empty(), t) == Seq::<BillItemView>::empty());
        if t == sv.tax {
            assert(views_with_tax(svs, t) =~= seq![sv]);
            assert(items_view(b.spec_group(t)) =~= seq![sv]);
        } else {
            assert(views_with_tax(svs, t) =~= Seq::<BillItemView>::empty());
            assert(items_view(b.spec_group(t)) =~= Seq::<BillItemView>::empty());
        }
    }
}

/// Filtering and summing distribute over appending one view.
proof fn lemma_views_push_props(vs: Seq<BillItemView>, v: BillItemView)
    ensures
        views_with_tax(vs.push(v), v.tax) == views_with_tax(vs, v.tax).push(v),
        forall|t: u64| t != v.tax ==> views_with_tax(vs.push(v), t) == views_with_tax(vs, t),
        views_net(vs.push(v)) == views_net(vs) + v.amount * v.price,
{
    assert(vs.push(v).drop_last() =~= vs);
    assert(vs.push(v).last() == v);
}


// ---------------------------------------------------------------------------
// archive readiness and derived sums
// ---------------------------------------------------------------------------
/// The report of the bill check: one entry when the product list is missing
/// or unreadable.
pub open spec fn spec_redeem_errors(doc: Node, dtax: u64) -> Seq<Seq<char>> {
    if !spec_bills_ok(doc, dtax) {
        Seq::<Seq<char>>::empty().push("products"@)
    } else {
        Seq::<Seq<char>>::empty()
    }
}

/// Completely done: canceled records trivially; otherwise the bills compute
/// and every recorded employee has been paid.
pub open spec fn spec_archive_ready(doc: Node, dtax: u64) -> bool {
    spec_canceled(doc) || (spec_bills_ok(doc, dtax) && spec_hours_errors(doc).len() == 0)
}

impl Project {
    /// Ready to archive: canceled records always; otherwise the bill
    /// computation must succeed and every recorded employee must be paid.
    pub fn is_ready_for_archive(&self, default_tax: u64) -> (r: SpecResult)
        ensures
            r is Ok <==> spec_archive_ready(self.spec_doc(), default_tax),
            r matches Err(e) ==> e.fields.deep_view() == spec_redeem_errors(
                self.spec_doc(),
                default_tax,
            ) + spec_hours_errors(self.spec_doc()),
    {
        if self.canceled() {
            return Ok(());
        }
        let redeem: SpecResult = match self.bills(default_tax) {
            Ok(_) => Ok(()),
            Err(_) => {
                let mut e = ErrorList::new();
                e.push("products");
                Err(e)
            },
        };
        proof {
            match &redeem {
                Ok(()) => {},
                Err(e) => {
                    assert(e.fields.deep_view() =~~= spec_redeem_errors(
                        self.spec_doc(),
                        default_tax,
                    ));
                },
            }
        }
        let mut rs: Vec<SpecResult> = Vec::new();
        rs.push(redeem);
        rs.push(self.hours().validate());
        let ghost rsv = rs@;
        let r = combine_specresults(rs);
        proof {
            lemma_combined_two(rsv);
            assert(spec_combined_fields(rsv) =~~= spec_redeem_errors(self.spec_doc(), default_tax)
                + spec_hours_errors(self.spec_doc()));
        }
        r
    }

    /// The net total of the invoice bill, in cents (truncated).
    pub fn sum_sold(&self, default_tax: u64) -> (r: Result<i64, StoreError>)
        ensures
            r is Ok <==> spec_bills_ok(self.spec_doc(), default_tax) && views_net(
                spec_invoice_views(self.spec_doc(), default_tax),
            ) <= i64::MAX,
            r matches Ok(v) ==> v == views_net(spec_invoice_views(self.spec_doc(), default_tax))
                / 1000 && 0 <= v,
            r matches Err(e) ==> e is UnknownFormat || e is Overflow,
    {
        match self.bills(default_tax) {
            Err(e) => Err(StoreError::UnknownFormat),
            Ok((_, invoice)) => match invoice.net_total() {
                Some(v) => Ok(((v as u64) / 1000) as i64),
                None => Err(StoreError::Overflow),
            },
        }
    }
}

/// LAW (archive idempotence on canceled records): a record flagged canceled
/// is archive-ready whatever its bills or unpaid-employee state.
pub proof fn lemma_canceled_always_archive_ready(doc: Node, dtax: u64)
    ensures
        spec_canceled(doc) ==> spec_archive_ready(doc, dtax),
{
}

// ---------------------------------------------------------------------------
// employees, description, age
// ---------------------------------------------------------------------------
pub open spec fn spec_caterer_line(e: (String, Node)) -> Seq<char> {
    e.0@ + ": "@ + (match spec_scalar_string(e.1) {
        Some(s) => s,
        None => Seq::<char>::empty(),
    })
}

pub open spec fn spec_caterers_string(es: Seq<(String, Node)>) -> Seq<char>
    decreases es.len(),
{
    if es.len() == 0 {
        Seq::empty()
    } else if es.len() == 1 {
        spec_caterer_line(es[0])
    } else {
        spec_caterers_string(es.drop_last()) + ", "@ + spec_caterer_line(es.last())
    }
}

/// The recorded employees, one `name: hours` entry per caterer.
pub open spec fn spec_employees_string(doc: Node) -> Option<Seq<char>> {
    match spec_get_path(doc, "hours/caterers"@) {
        Some(Node::Dict(es)) => Some(spec_caterers_string(es@)),
        _ => None,
    }
}

fn caterer_line(e: &(String, Node)) -> (r: String)
    ensures
        r@ == spec_caterer_line(*e),
{
    let mut s = e.0.clone();
    s = StringExecFns::concat(s, ": ");
    let r = match e.1.scalar_string() {
        Some(v) => StringExecFns::concat(s, v.as_str()),
        None => s,
    };
    proof {
        assert(r@ =~= spec_caterer_line(*e));
    }
    r
}

fn caterers_string(es: &Vec<(String, Node)>) -> (r: String)
    ensures
        r@ == spec_caterers_string(es@),
{
    let n = es.len();
    let mut acc = String::new();
    let mut k: usize = 0;
    proof {
        assert(es@.take(0) =~= Seq::<(String, Node)>::empty());
    }
    while k < n
        invariant
            k <= n,
            n == es@.len(),
            acc@ == spec_caterers_string(es@.take(k as int)),
        decreases n - k,
    {
        proof {
            assert(es@.take(k + 1).drop_last() =~= es@.take(k as int));
            assert(es@.take(k + 1).last() == es@[k as int]);
        }
        let line = caterer_line(&es[k]);
        if k == 0 {
            acc = line;
        } else {
            acc = StringExecFns::concat(acc, ", ");
            acc = StringExecFns::concat(acc, line.as_str());
        }
        k = k + 1;
    }
    proof {
        assert(es@.take(n as int) =~= es@);
    }
    acc
}

impl<'a> Hours<'a> {
    /// The recorded employees as one line each, when any are recorded.
    pub fn employees_string(&self) -> (r: Option<String>)
        ensures
            match r {
                Some(s) => spec_employees_string(self.inner.spec_doc()) == Some(s@),
                None => spec_employees_string(self.inner.spec_doc()) is None,
            },
    {
        match self.inner.yaml().get_hash("hours/caterers") {
            Some(es) => Some(caterers_string(es)),
            None => None,
        }
    }
}

impl Project {
    /// The recorded employees, or the empty string when none are recorded.
    pub fn employees_string(&self) -> (r: String)
        ensures
            r@ == match spec_employees_string(self.spec_doc()) {
                Some(s) => s,
                None => Seq::<char>::empty(),
            },
    {
        match self.hours().employees_string() {
            Some(s) => s,
            None => String::new(),
        }
    }

    /// The employees line; an older name for `employees_string`.
    pub fn caterers(&self) -> (r: String)
        ensures
            r@ == match spec_employees_string(self.spec_doc()) {
                Some(s) => s,
                None => Seq::<char>::empty(),
            },
    {
        self.employees_string()
    }

    /// The long listing block: the responsible person and the employees.
    pub fn long_desc(&self) -> (r: String)
        ensures
            r@ == spec_long_desc(self.spec_doc()),
    {
        let mut out = String::new();
        match self.responsible() {
            Some(resp) => {
                out = StringExecFns::concat(out, "Responsible: ");
                out = StringExecFns::concat(out, resp.clone().as_str());
                out = StringExecFns::concat(out, "\n");
            },
            None => {},
        }
        match self.hours().employees_string() {
            Some(e) => {
                out = StringExecFns::concat(out, "\n");
                out = StringExecFns::concat(out, e.as_str());
                out = StringExecFns::concat(out, "\n");
            },
            None => {},
        }
        proof {
            assert(out@ =~= spec_long_desc(self.spec_doc()));
        }
        out
    }
}

pub open spec fn spec_long_desc(doc: Node) -> Seq<char> {
    (match spec_responsible(doc) {
        Some(r) => "Responsible: "@ + r + "\n"@,
        None => Seq::<char>::empty(),
    }) + (match spec_employees_string(doc) {
        Some(e) => "\n"@ + e + "\n"@,
        None => Seq::<char>::empty(),
    })
}

/// Days from the record's date to `today`.
pub open spec fn spec_age(doc: Node, today_d: SimpleDate) -> Option<int> {
    match spec_modified_date(doc) {
        Some(d) => Some(spec_day_number(today_d) - spec_day_number(d)),
        None => None,
    }
}

/// Days the invoice (or, unbilled, today) lies after the event.
pub open spec fn spec_our_bad(doc: Node, today_d: SimpleDate) -> Option<int> {
    match spec_event_date(doc) {
        None => None,
        Some(ev) => {
            let inv = match spec_invoice_date(doc) {
                Some(d) => d,
                None => today_d,
            };
            let diff = spec_day_number(inv) - spec_day_number(ev);
            if diff > 0 {
                Some(diff)
            } else {
                None
            }
        },
    }
}

/// Days from payment (or today) back to the invoice (or today).
pub open spec fn spec_their_bad(doc: Node, today_d: SimpleDate) -> Option<int> {
    let inv = match spec_invoice_date(doc) {
        Some(d) => d,
        None => today_d,
    };
    let payed = match spec_payed_date(doc) {
        Some(d) => d,
        None => today_d,
    };
    Some(spec_day_number(inv) - spec_day_number(payed))
}

impl Project {
    /// Days from the record's date to the given day.
    pub fn age_at(&self, today_d: SimpleDate) -> (r: Option<i64>)
        requires
            today_d.in_supported_range(),
        ensures
            match r {
                Some(v) => spec_age(self.spec_doc(), today_d) == Some(v as int),
                None => spec_age(self.spec_doc(), today_d) is None,
            },
    {
        match self.modified_date() {
            Some(d) => Some(day_number(today_d) - day_number(d)),
            None => None,
        }
    }

    /// Days from the record's date to today; nothing when the record is
    /// undated (or the clock is outside the supported years).
    pub fn age(&self) -> (r: Option<i64>)
        ensures
            r matches Some(v) ==> exists|t: SimpleDate|
                #[trigger] t.in_supported_range() && spec_age(self.spec_doc(), t) == Some(v as int),
            r matches Some(v) ==> spec_modified_date(self.spec_doc()) is Some,
    {
        let t = today();
        if 1 <= t.year && t.year <= 9999 {
            proof {
                assert(t.in_supported_range());
            }
            self.age_at(t)
        } else {
            None
        }
    }

    pub fn our_bad_at(&self, today_d: SimpleDate) -> (r: Option<i64>)
        requires
            today_d.in_supported_range(),
        ensures
            match r {
                Some(v) => spec_our_bad(self.spec_doc(), today_d) == Some(v as int)
                    && -4_000_000 < v < 4_000_000,
                None => spec_our_bad(self.spec_doc(), today_d) is None,
            },
    {
        match self.event_date() {
            None => None,
            Some(ev) => {
                let inv = match self.invoice().date() {
                    Some(d) => d,
                    None => today_d,
                };
                let diff = day_number(inv) - day_number(ev);
                if diff > 0 {
                    Some(diff)
                } else {
                    None
                }
            },
        }
    }

    /// Days the invoice (or, unbilled, today) lies after the event.
    pub fn our_bad(&self) -> (r: Option<i64>)
        ensures
            r matches Some(v) ==> exists|t: SimpleDate|
                #[trigger] t.in_supported_range() && spec_our_bad(self.spec_doc(), t) == Some(
                    v as int,
                ),
            r is Some ==> spec_event_date(self.spec_doc()) is Some,
    {
        let t = today();
        if 1 <= t.year && t.year <= 9999 {
            proof {
                assert(t.in_supported_range());
            }
            self.our_bad_at(t)
        } else {
            None
        }
    }

    pub fn their_bad_at(&self, today_d: SimpleDate) -> (r: Option<i64>)
        requires
            today_d.in_supported_range(),
        ensures
            match r {
                Some(v) => spec_their_bad(self.spec_doc(), today_d) == Some(v as int)
                    && -4_000_000 < v < 4_000_000,
                None => spec_their_bad(self.spec_doc(), today_d) is None,
            },
    {
        let inv = match self.invoice().date() {
            Some(d) => d,
            None => today_d,
        };
        let payed = match self.payed_date() {
            Some(d) => d,
            None => today_d,
        };
        Some(day_number(inv) - day_number(payed))
    }

    /// Days from payment (or today) back to the invoice (or today).
    pub fn their_bad(&self) -> (r: Option<i64>)
        ensures
            r matches Some(v) ==> exists|t: SimpleDate|
                #[trigger] t.in_supported_range() && spec_their_bad(self.spec_doc(), t) == Some(
                    v as int,
                ),
    {
        let t = today();
        if 1 <= t.year && t.year <= 9999 {
            proof {
                assert(t.in_supported_range());
            }
            self.their_bad_at(t)
        } else {
            None
        }
    }
}

// ---------------------------------------------------------------------------
// the storable face: naming, sort key, matching, file targets
// ---------------------------------------------------------------------------
/// The directory part of a path ('/'-separated), empty when it has none.
pub open spec fn spec_dir_of(p: Seq<char>) -> Seq<char> {
    if spec_last_slash(p) >= 0 {
        p.subrange(0, spec_last_slash(p))
    } else {
        Seq::empty()
    }
}

/// The last component of a path.
pub open spec fn spec_file_name_of(p: Seq<char>) -> Seq<char> {
    p.subrange(spec_last_slash(p) + 1, p.len() as int)
}

pub fn dir_of(p: &str) -> (r: String)
    ensures
        r@ == spec_dir_of(p@),
{
    let v = chars_of(p);
    match last_slash(&v) {
        Some(k) => {
            let d = subvec(&v, 0, k);
            string_from_chars(&d)
        },
        None => String::new(),
    }
}

pub fn file_name_of(p: &str) -> (r: String)
    ensures
        r@ == spec_file_name_of(p@),
{
    let v = chars_of(p);
    let n = v.len();
    match last_slash(&v) {
        Some(k) => {
            let d = subvec(&v, k + 1, n);
            string_from_chars(&d)
        },
        None => {
            proof {
                assert(p@.subrange(0, p@.len() as int) =~= p@);
            }
            p.to_owned()
        },
    }
}

/// The record's short listing name: its name, else `unnamed:` and its
/// folder.
pub open spec fn spec_short_desc(doc: Node, path: Seq<char>) -> Seq<char> {
    match spec_name(doc) {
        Some(n) => n,
        None => "unnamed: "@ + spec_file_name_of(spec_dir_of(path)),
    }
}

/// The sort key: the pretty invoice number and the compact date, undated
/// records have none, unnumbered ones sort last under a `zzz` prefix.
pub open spec fn spec_index(doc: Node) -> Option<Seq<char>> {
    match spec_modified_date(doc) {
        None => None,
        Some(d) => match spec_invoice_number_str(doc) {
            Some(n) => Some(n + spec_format_ymd_compact(d)),
            None => Some("zzz"@ + spec_format_ymd_compact(d)),
        },
    }
}

pub open spec fn spec_matches_search(doc: Node, path: Seq<char>, term: Seq<char>) -> bool {
    (match spec_invoice_number_str(doc) {
        Some(n) => spec_contains(lower_of(n), lower_of(term)),
        None => false,
    }) || spec_contains(lower_of(spec_short_desc(doc, path)), lower_of(term))
}

impl Project {
    /// The fixed extension of record files.
    pub fn file_extension() -> (r: String)
        ensures
            r@ == "yml"@,
    {
        "yml".to_owned()
    }

    /// The directory holding the record file.
    pub fn dir(&self) -> (r: String)
        ensures
            r@ == spec_dir_of(self.spec_file()),
    {
        dir_of(self.file_path.as_str())
    }

    /// The pretty invoice number, the record's stable prefix.
    pub fn prefix(&self) -> (r: Option<String>)
        ensures
            match r {
                Some(s) => spec_invoice_number_str(self.spec_doc()) == Some(s@),
                None => spec_invoice_number_str(self.spec_doc()) is None,
            },
    {
        self.invoice().number_str()
    }

    /// The sort key.
    pub fn index(&self) -> (r: Option<String>)
        ensures
            match r {
                Some(s) => spec_index(self.spec_doc()) == Some(s@),
                None => spec_index(self.spec_doc()) is None,
            },
    {
        match self.modified_date() {
            None => None,
            Some(d) => {
                let datepart = format_ymd_compact(d);
                match self.invoice().number_str() {
                    Some(n) => Some(StringExecFns::concat(n, datepart.as_str())),
                    None => Some(
                        StringExecFns::concat("zzz".to_owned(), datepart.as_str()),
                    ),
                }
            },
        }
    }

    /// The short listing name.
    pub fn short_desc(&self) -> (r: String)
        ensures
            r@ == spec_short_desc(self.spec_doc(), self.spec_file()),
    {
        match self.name() {
            Some(n) => n.clone(),
            None => {
                let d = self.dir();
                let f = file_name_of(d.as_str());
                StringExecFns::concat("unnamed: ".to_owned(), f.as_str())
            },
        }
    }

    /// Case-insensitive search across the salient fields: the pretty invoice
    /// number and the short name.
    pub fn matches_search(&self, term: &str) -> (r: bool)
        ensures
            r == spec_matches_search(self.spec_doc(), self.spec_file(), term@),
    {
        let by_number = match self.invoice().number_str() {
            Some(n) => contains_ci(n.as_str(), term),
            None => false,
        };
        if by_number {
            true
        } else {
            let sd = self.short_desc();
            contains_ci(sd.as_str(), term)
        }
    }

    /// The placeholder keys still unresolved in the raw text.
    pub fn empty_fields(&self) -> (r: Vec<String>)
        ensures
            r.deep_view() == spec_keywords(self.spec_content()),
    {
        list_keywords(self.file_content.as_str())
    }
}

/// The offer output file name: number, slug of the name, extension.
pub open spec fn spec_offer_file_name(doc: Node, ext: Seq<char>) -> Option<Seq<char>> {
    match (spec_offer_number(doc), spec_name(doc)) {
        (Some(num), Some(n)) => Some(num + " "@ + slug_of(n) + "."@ + ext),
        _ => None,
    }
}

/// The invoice output file name: number, slug of the name, invoice date,
/// extension.
pub open spec fn spec_invoice_file_name(doc: Node, ext: Seq<char>) -> Option<Seq<char>> {
    match (spec_invoice_number_str(doc), spec_name(doc), spec_invoice_date(doc)) {
        (Some(num), Some(n), Some(d)) => Some(
            num + " "@ + slug_of(n) + " "@ + spec_format_ymd_dashed(d) + "."@ + ext,
        ),
        _ => None,
    }
}

pub open spec fn spec_output_file_name(doc: Node, bt: BillType, ext: Seq<char>) -> Option<
    Seq<char>,
> {
    match bt {
        BillType::Offer => spec_offer_file_name(doc, ext),
        BillType::Invoice => spec_invoice_file_name(doc, ext),
    }
}

impl Project {
    /// Filename of the offer output file.
    pub fn offer_file_name(&self, extension: &str) -> (r: Option<String>)
        ensures
            match r {
                Some(s) => spec_offer_file_name(self.spec_doc(), extension@) == Some(s@),
                None => spec_offer_file_name(self.spec_doc(), extension@) is None,
            },
    {
        match (self.offer().number(), self.name()) {
            (Some(num), Some(n)) => {
                let s = slugify(n.as_str());
                let mut out = num;
                out = StringExecFns::concat(out, " ");
                out = StringExecFns::concat(out, s.as_str());
                out = StringExecFns::concat(out, ".");
                out = StringExecFns::concat(out, extension);
                Some(out)
            },
            _ => None,
        }
    }

    /// Filename of the invoice output file; carries the invoice date.
    pub fn invoice_file_name(&self, extension: &str) -> (r: Option<String>)
        ensures
            match r {
                Some(s) => spec_invoice_file_name(self.spec_doc(), extension@) == Some(s@),
                None => spec_invoice_file_name(self.spec_doc(), extension@) is None,
            },
    {
        match (self.invoice().number_str(), self.name(), self.invoice().date()) {
            (Some(num), Some(n), Some(d)) => {
                let s = slugify(n.as_str());
                let mut out = num;
                out = StringExecFns::concat(out, " ");
                out = StringExecFns::concat(out, s.as_str());
                out = StringExecFns::concat(out, " ");
                out = StringExecFns::concat(out, format_ymd_dashed(d).as_str());
                out = StringExecFns::concat(out, ".");
                out = StringExecFns::concat(out, extension);
                Some(out)
            },
            _ => None,
        }
    }

    /// The output file name of the chosen bill.
    pub fn output_file_name(&self, bill_type: &BillType, extension: &str) -> (r: Option<String>)
        ensures
            match r {
                Some(s) => spec_output_file_name(self.spec_doc(), *bill_type, extension@) == Some(
                    s@,
                ),
                None => spec_output_file_name(self.spec_doc(), *bill_type, extension@) is None,
            },
    {
        match bill_type {
            BillType::Offer => self.offer_file_name(extension),
            BillType::Invoice => self.invoice_file_name(extension),
        }
    }

    /// The offer output path under the configured output folder.
    pub fn offer_file(&self, output_folder: &str, extension: &str) -> (r: Option<String>)
        ensures
            match r {
                Some(s) => spec_offer_file_name(self.spec_doc(), extension@) matches Some(n) && s@
                    == output_folder@ + "/"@ + n,
                None => spec_offer_file_name(self.spec_doc(), extension@) is None,
            },
    {
        match self.offer_file_name(extension) {
            Some(n) => {
                let mut out = output_folder.to_owned();
                out = StringExecFns::concat(out, "/");
                out = StringExecFns::concat(out, n.as_str());
                Some(out)
            },
            None => None,
        }
    }

    /// The invoice output path under the configured output folder.
    pub fn invoice_file(&self, output_folder: &str, extension: &str) -> (r: Option<String>)
        ensures
            match r {
                Some(s) => spec_invoice_file_name(self.spec_doc(), extension@) matches Some(n)
                    && s@ == output_folder@ + "/"@ + n,
                None => spec_invoice_file_name(self.spec_doc(), extension@) is None,
            },
    {
        match self.invoice_file_name(extension) {
            Some(n) => {
                let mut out = output_folder.to_owned();
                out = StringExecFns::concat(out, "/");
                out = StringExecFns::concat(out, n.as_str());
                Some(out)
            },
            None => None,
        }
    }

    /// The output path of the chosen bill.
    pub fn output_file(&self, bill_type: &BillType, output_folder: &str, extension: &str) -> (r:
        Option<String>)
        ensures
            match r {
                Some(s) => spec_output_file_name(self.spec_doc(), *bill_type, extension@) matches
                    Some(n) && s@ == output_folder@ + "/"@ + n,
                None => spec_output_file_name(self.spec_doc(), *bill_type, extension@) is None,
            },
    {
        match bill_type {
            BillType::Offer => self.offer_file(output_folder, extension),
            BillType::Invoice => self.invoice_file(output_folder, extension),
        }
    }

    /// Where the caller must write a produced document: next to the record
    /// file, under the output file name.  Without the fields that name the
    /// file, the target cannot be determined.
    pub fn write_target(&self, bill_type: &BillType, extension: &str) -> (r: Result<
        String,
        StoreError,
    >)
        ensures
            r is Ok <==> spec_output_file_name(self.spec_doc(), *bill_type, extension@) is Some,
            r matches Ok(s) ==> spec_output_file_name(self.spec_doc(), *bill_type, extension@)
                matches Some(n) && s@ == spec_dir_of(self.spec_file()) + "/"@ + n,
            r matches Err(e) ==> e is CantDetermineTargetFile,
    {
        match self.output_file_name(bill_type, extension) {
            Some(n) => {
                let mut out = self.dir();
                out = StringExecFns::concat(out, "/");
                out = StringExecFns::concat(out, n.as_str());
                Ok(out)
            },
            None => Err(StoreError::CantDetermineTargetFile),
        }
    }

    /// The chosen bill rendered as semicolon-separated lines: the fixed
    /// header, then one line per item of a bill whose tax groups and net are
    /// exactly those of the chosen side.
    pub fn to_csv(&self, bill_type: &BillType, default_tax: u64) -> (r: Result<String, StoreError>)
        ensures
            r is Ok <==> spec_bills_ok(self.spec_doc(), default_tax),
            r matches Err(e) ==> e is UnknownFormat,
            r matches Ok(s) ==> exists|b: Bill|
                {
                    &&& #[trigger] crate::bill::spec_csv_bill(b) == s@
                    &&& b.wf()
                    &&& (forall|t: u64|
                        items_view(#[trigger] b.spec_group(t)) == views_with_tax(
                            spec_bill_views(self.spec_doc(), *bill_type, default_tax),
                            t,
                        ))
                    &&& b.spec_net() == views_net(
                        spec_bill_views(self.spec_doc(), *bill_type, default_tax),
                    )
                },
    {
        match self.bills(default_tax) {
            Err(_) => Err(StoreError::UnknownFormat),
            Ok((offer, invoice)) => match bill_type {
                BillType::Offer => {
                    let s = offer.to_csv();
                    proof {
                        assert(crate::bill::spec_csv_bill(offer) == s@);
                    }
                    Ok(s)
                },
                BillType::Invoice => {
                    let s = invoice.to_csv();
                    proof {
                        assert(crate::bill::spec_csv_bill(invoice) == s@);
                    }
                    Ok(s)
                },
            },
        }
    }
}

/// The line views of the chosen side of the bill pair.
pub open spec fn spec_bill_views(doc: Node, bt: BillType, dtax: u64) -> Seq<BillItemView> {
    match bt {
        BillType::Offer => spec_offer_views(doc, dtax),
        BillType::Invoice => spec_invoice_views(doc, dtax),
    }
}


// ---------------------------------------------------------------------------
// creation from a template, and partial edits
// ---------------------------------------------------------------------------
/// The configured values the system supplies to a new document.
pub struct TemplateDefaults {
    pub tax: String,
    pub salary: String,
    pub manager: String,
    pub version: String,
}

/// The system-supplied fill values of a template instantiation.
pub open spec fn spec_default_fill_map(
    template_name: Seq<char>,
    project_name: Seq<char>,
    event_date: Seq<char>,
    created_date: Seq<char>,
    tax: Seq<char>,
    salary: Seq<char>,
    manager: Seq<char>,
    version: Seq<char>,
) -> Map<Seq<char>, Seq<char>> {
    map![
        "VERSION"@ => version,
        "TIME-END"@ => ""@,
        "TIME-START"@ => ""@,
        "MANAGER"@ => manager,
        "SALARY"@ => salary,
        "TAX"@ => tax,
        "DATE-CREATED"@ => created_date,
        "DATE-EVENT"@ => event_date,
        "PROJECT-NAME"@ => project_name,
        "TEMPLATE"@ => template_name,
    ]
}

fn default_fill_pairs(
    template_name: &str,
    project_name: &str,
    event_date: &str,
    created_date: &str,
    d: &TemplateDefaults,
) -> (r: Vec<(String, String)>)
    ensures
        pairs_map(r@) == spec_default_fill_map(
            template_name@,
            project_name@,
            event_date@,
            created_date@,
            d.tax@,
            d.salary@,
            d.manager@,
            d.version@,
        ),
{
    let mut v: Vec<(String, String)> = Vec::new();
    v.push(("TEMPLATE".to_owned(), template_name.to_owned()));
    v.push(("PROJECT-NAME".to_owned(), project_name.to_owned()));
    v.push(("DATE-EVENT".to_owned(), event_date.to_owned()));
    v.push(("DATE-CREATED".to_owned(), created_date.to_owned()));
    v.push(("TAX".to_owned(), d.tax.clone()));
    v.push(("SALARY".to_owned(), d.salary.clone()));
    v.push(("MANAGER".to_owned(), d.manager.clone()));
    v.push(("TIME-START".to_owned(), "".to_owned()));
    v.push(("TIME-END".to_owned(), "".to_owned()));
    v.push(("VERSION".to_owned(), d.version.clone()));
    proof {
        assert(v@.skip(10) =~= Seq::<(String, String)>::empty());
        assert(pairs_map(v@.skip(10)) =~= Map::<Seq<char>, Seq<char>>::empty());
        assert(v@.skip(9)[0] == v@[9]);
        assert(v@.skip(9).drop_first() =~= v@.skip(10));
        assert(pairs_map(v@.skip(9)) =~= pairs_map(v@.skip(10)).insert(v@[9].0@, v@[9].1@));
        assert(v@.skip(8)[0] == v@[8]);
        assert(v@.skip(8).drop_first() =~= v@.skip(9));
        assert(pairs_map(v@.skip(8)) =~= pairs_map(v@.skip(9)).insert(v@[8].0@, v@[8].1@));
        assert(v@.skip(7)[0] == v@[7]);
        assert(v@.skip(7).drop_first() =~= v@.skip(8));
        assert(pairs_map(v@.skip(7)) =~= pairs_map(v@.skip(8)).insert(v@[7].0@, v@[7].1@));
        assert(v@.skip(6)[0] == v@[6]);
        assert(v@.skip(6).drop_first() =~= v@.skip(7));
        assert(pairs_map(v@.skip(6)) =~= pairs_map(v@.skip(7)).insert(v@[6].0@, v@[6].1@));
        assert(v@.skip(5)[0] == v@[5]);
        assert(v@.skip(5).drop_first() =~= v@.skip(6));
        assert(pairs_map(v@.skip(5)) =~= pairs_map(v@.skip(6)).insert(v@[5].0@, v@[5].1@));
        assert(v@.skip(4)[0] == v@[4]);
        assert(v@.skip(4).drop_first() =~= v@.skip(5));
        assert(pairs_map(v@.skip(4)) =~= pairs_map(v@.skip(5)).insert(v@[4].0@, v@[4].1@));
        assert(v@.skip(3)[0] == v@[3]);
        assert(v@.skip(3).drop_first() =~= v@.skip(4));
        assert(pairs_map(v@.skip(3)) =~= pairs_map(v@.skip(4)).insert(v@[3].0@, v@[3].1@));
        assert(v@.skip(2)[0] == v@[2]);
        assert(v@.skip(2).drop_first() =~= v@.skip(3));
        assert(pairs_map(v@.skip(2)) =~= pairs_map(v@.skip(3)).insert(v@[2].0@, v@[2].1@));
        assert(v@.skip(1)[0] == v@[1]);
        assert(v@.skip(1).drop_first() =~= v@.skip(2));
        assert(pairs_map(v@.skip(1)) =~= pairs_map(v@.skip(2)).insert(v@[1].0@, v@[1].1@));
        assert(v@.drop_first() =~= v@.skip(1));
        assert(pairs_map(v@) =~= pairs_map(v@.skip(1)).insert(v@[0].0@, v@[0].1@));
        assert(pairs_map(v@) =~~= spec_default_fill_map(
            template_name@,
            project_name@,
            event_date@,
            created_date@,
            d.tax@,
            d.salary@,
            d.manager@,
            d.version@,
        ));
    }
    v
}

/// Check a filled candidate text; a failure carries the text reproduced with
/// 1-based line numbers ahead of the parser's message, so the operator can
/// find the offending line.
fn parse_with_diagnostic(filled: &String) -> (r: Result<Node, StoreError>)
    ensures
        r is Ok <==> parsed_doc(filled@) is Some,
        r matches Ok(n) ==> parsed_doc(filled@) == Some(n),
        r matches Err(e) ==> e is ParseFailure,
        filled@.len() < 0xffff_ffff_0000_0000 ==> (r matches Err(StoreError::ParseFailure {
            message,
            line,
            col,
        }) ==> exists|tail: Seq<char>| message@ == spec_line_numbered(filled@) + tail),
{
    match parse_document(filled.as_str()) {
        Ok(n) => Ok(n),
        Err(StoreError::ParseFailure { message, line, col }) => {
            let chars = filled.as_str().unicode_len();
            if (chars as u64) < 0xffff_ffff_0000_0000u64 {
                let mut diag = line_numbered(filled.as_str());
                diag = StringExecFns::concat(diag, "\n");
                let ghost tail0 = "\n"@ + message@;
                diag = StringExecFns::concat(diag, message.as_str());
                proof {
                    assert(diag@ =~= spec_line_numbered(filled@) + tail0);
                }
                Err(StoreError::ParseFailure { message: diag, line, col })
            } else {
                Err(StoreError::ParseFailure { message, line, col })
            }
        },
        Err(e) => Err(e),
    }
}

/// The text of a template instantiated with the caller's values, then the
/// system defaults.
pub open spec fn spec_instantiated(
    template: Seq<char>,
    fill: Seq<(String, String)>,
    template_name: Seq<char>,
    project_name: Seq<char>,
    event_date: Seq<char>,
    created_date: Seq<char>,
    tax: Seq<char>,
    salary: Seq<char>,
    manager: Seq<char>,
    version: Seq<char>,
) -> Seq<char> {
    spec_fill(
        spec_fill(template, pairs_map(fill)),
        spec_default_fill_map(
            template_name,
            project_name,
            event_date,
            created_date,
            tax,
            salary,
            manager,
            version,
        ),
    )
}

impl Project {
    /// Create a record from a template: fill with the caller's values, then
    /// the computed system defaults (event date two weeks after `today_d`,
    /// creation date `today_d`, the configured tax, salary, manager and
    /// version), parse, and name the backing file after the project.  The
    /// caller writes the file; a parse failure carries the line-numbered
    /// candidate text.
    pub fn from_template_at(
        project_name: &str,
        template_name: &str,
        template_content: &str,
        fill: &Vec<(String, String)>,
        defaults: &TemplateDefaults,
        today_d: SimpleDate,
    ) -> (r: Result<Project, StoreError>)
        requires
            today_d.in_supported_range(),
            today_d.year <= 9000,
        ensures
            ({
                let filled = spec_instantiated(
                    template_content@,
                    fill@,
                    template_name@,
                    project_name@,
                    spec_format_dmy(spec_add_days(today_d, 14)),
                    spec_format_dmy(today_d),
                    defaults.tax@,
                    defaults.salary@,
                    defaults.manager@,
                    defaults.version@,
                );
                &&& (r is Ok <==> parsed_doc(filled) is Some)
                &&& (r matches Ok(p) ==> p.wf() && p.spec_content() == filled && p.spec_file()
                    == slug_of(project_name@) + ".yml"@ && p.spec_status() is None)
                &&& (r matches Err(e) ==> e is ParseFailure)
                &&& (filled.len() < 0xffff_ffff_0000_0000 ==> (r matches Err(
                    StoreError::ParseFailure { message, line, col },
                ) ==> exists|tail: Seq<char>| message@ == spec_line_numbered(filled) + tail))
            }),
    {
        let event_date = format_dmy(add_days(today_d, 14));
        let created_date = format_dmy(today_d);
        let filled_t = Templater::new(template_content).fill_in_data(fill);
        let dpairs = default_fill_pairs(
            template_name,
            project_name,
            event_date.as_str(),
            created_date.as_str(),
            defaults,
        );
        let finished = filled_t.fill_in_data(&dpairs).finalize();
        let filled = finished.filled;
        match parse_with_diagnostic(&filled) {
            Ok(yaml) => {
                let mut file_name = slugify(project_name);
                file_name = StringExecFns::concat(file_name, ".yml");
                Ok(
                    Project {
                        file_path: file_name,
                        git_status: None,
                        file_content: filled,
                        yaml,
                    },
                )
            },
            Err(e) => Err(e),
        }
    }

    /// As `from_template_at`, dated by the system clock.  (With a clock
    /// outside the supported years no dates can be computed and the
    /// instantiation is refused.)
    pub fn from_template(
        project_name: &str,
        template_name: &str,
        template_content: &str,
        fill: &Vec<(String, String)>,
        defaults: &TemplateDefaults,
    ) -> (r: Result<Project, StoreError>)
        ensures
            r matches Ok(p) ==> p.wf() && p.spec_file() == slug_of(project_name@) + ".yml"@
                && p.spec_status() is None,
            r matches Err(e) ==> e is ParseFailure || e is CantDetermineTargetFile,
            r matches Ok(p) ==> exists|t: SimpleDate|
                #[trigger] t.in_supported_range() && p.spec_content() == spec_instantiated(
                    template_content@,
                    fill@,
                    template_name@,
                    project_name@,
                    spec_format_dmy(spec_add_days(t, 14)),
                    spec_format_dmy(t),
                    defaults.tax@,
                    defaults.salary@,
                    defaults.manager@,
                    defaults.version@,
                ),
    {
        let t = today();
        if 1 <= t.year && t.year <= 9000 {
            proof {
                assert(t.in_supported_range());
            }
            Self::from_template_at(
                project_name,
                template_name,
                template_content,
                fill,
                defaults,
                t,
            )
        } else {
            Err(StoreError::CantDetermineTargetFile)
        }
    }

    /// Substitute one placeholder field in the raw text and check that the
    /// result still parses; the new text is returned for the caller to
    /// write.  A parse failure carries the line-numbered candidate text and
    /// leaves the record untouched.
    pub fn replace_field(&self, field: &str, value: &str) -> (r: Result<String, StoreError>)
        ensures
            r is Ok <==> parsed_doc(
                spec_fill(self.spec_content(), map![field@ => value@]),
            ) is Some,
            r matches Ok(s) ==> s@ == spec_fill(self.spec_content(), map![field@ => value@]),
            r matches Err(e) ==> e is ParseFailure,
    {
        let filled = Templater::new(self.file_content.as_str()).fill_in_field(
            field,
            value,
        ).finalize().filled;
        match parse_with_diagnostic(&filled) {
            Ok(_) => Ok(filled),
            Err(e) => Err(e),
        }
    }
}

} // verus!
