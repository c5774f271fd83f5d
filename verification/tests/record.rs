//! Validations, readiness gates, bills and computed fields on concrete
//! records.

use asciii::project::{Project, SalutationTable, TemplateDefaults};
use asciii::computed_field::ComputedField;
use asciii::dates::SimpleDate;
use asciii::bill::BillType;
use asciii::error::StoreError;

fn open(content: &str) -> Project {
    Project::open_file_content("working/test/test.yml", content).unwrap()
}

const READY: &str = "\
event:
  name: Fest
  dates:
    - begin: 24.12.2016
manager: Mia
format: 1.0
client:
  title: Herr
  first_name: Hans
  last_name: Mustermann
  address: Some Street 1
offer:
  date: 01.11.2016
  appendix: 1
invoice:
  number: 42
  date: 01.12.2016
products:
  Wine:
    amount: 2
    price: 10.00
    tax: 0.19
";

#[test]
fn accumulated_validation_reports_all_defects() {
    // a record missing both its name and its event date reports both
    let p = open("manager: Mia\nformat: 1.0\n");
    let report = p.validate().unwrap_err();
    assert!(report.fields.contains(&"name".to_string()));
    assert!(report.fields.contains(&"date".to_string()));
    assert_eq!(report.fields.len(), 2);
}

#[test]
fn validate_passes_on_a_complete_record() {
    let p = open(READY);
    assert!(p.validate().is_ok());
}

#[test]
fn client_validation_needs_a_resolvable_salutation() {
    let table = SalutationTable::standard();
    let p = open("client:\n  title: Captain\n  first_name: a\n  last_name: b\n  address: c\n");
    let report = p.client().validate(&table).unwrap_err();
    assert_eq!(report.fields, vec!["client_addressing".to_string()]);
    let q = open(READY);
    assert!(q.client().validate(&table).is_ok());
    assert_eq!(q.client().addressing(&table).unwrap(), "Sehr geehrter");
    assert_eq!(q.client().full_name().unwrap(), "Hans Mustermann");
}

#[test]
fn monotonic_readiness() {
    let table = SalutationTable::standard();
    let ready = open(READY);
    assert!(ready.is_ready_for_offer(&table).is_ok());
    assert!(ready.is_ready_for_invoice(&table).is_ok());
    // invoice data alone never makes a record invoice-ready: the offer
    // checks still run and fail
    let p = open("invoice:\n  number: 1\n  date: 01.12.2016\n");
    assert!(p.is_ready_for_invoice(&table).is_err());
    assert!(p.is_ready_for_offer(&table).is_err());
}

#[test]
fn invoice_validation_accumulates() {
    let p = open("event: x\n");
    let report = p.invoice().validate().unwrap_err();
    assert_eq!(
        report.fields,
        vec!["invoice.number".to_string(), "invoice_date".to_string()]
    );
}

#[test]
fn offer_validation_checks_the_date_format() {
    let p = open("offer:\n  date: not-a-date\n  appendix: 1\nmanager: m\n");
    let report = p.offer().validate().unwrap_err();
    assert_eq!(report.fields, vec!["offer_date_format".to_string()]);
}

#[test]
fn canceled_records_are_always_archive_ready() {
    // no products, employees unpaid -- canceled wins regardless
    let p = open("canceled: true\nhours:\n  caterers:\n    mia: 4\n");
    assert!(p.is_ready_for_archive(1900).is_ok());
    let q = open("hours:\n  caterers:\n    mia: 4\n");
    let report = q.is_ready_for_archive(1900).unwrap_err();
    assert!(report.fields.contains(&"products".to_string()));
    assert!(report.fields.contains(&"employees_payed".to_string()));
}

#[test]
fn archive_ready_with_bills_and_paid_employees() {
    let p = open(
        "products:\n  Wine:\n    amount: 1\n    price: 2.00\nhours:\n  caterers:\n    mia: 4\n  wages_date: 01.01.2017\n",
    );
    assert!(p.is_ready_for_archive(1900).is_ok());
}

#[test]
fn bill_grouping_by_tax() {
    // {A: 2 units @ 10.00, 19%} and {B: 1 unit @ 5.00, 7%}: two groups,
    // net 20.00 and 5.00
    let p = open(
        "products:\n  A:\n    amount: 2\n    price: 10.00\n    tax: 0.19\n  B:\n    amount: 1\n    price: 5.00\n    tax: 0.07\n",
    );
    let (offer, invoice) = p.bills(1900).unwrap();
    assert_eq!(offer.taxes(), vec![700u64, 1900u64]);
    // group nets are in thousandths of a cent
    assert_eq!(offer.group_net(1900).unwrap(), 2_000_000);
    assert_eq!(offer.group_net(700).unwrap(), 500_000);
    assert_eq!(invoice.net_total().unwrap(), 2_500_000);
    assert_eq!(p.sum_sold(1900).unwrap(), 2500);
}

#[test]
fn all_zero_quantities_yield_an_empty_bill() {
    let p = open("products:\n  A:\n    amount: 0\n    price: 10.00\n");
    let (offer, invoice) = p.bills(1900).unwrap();
    assert!(offer.taxes().is_empty());
    assert!(invoice.taxes().is_empty());
    assert_eq!(offer.net_total().unwrap(), 0);
}

#[test]
fn nan_quantities_are_dropped_not_errors() {
    // a non-finite quantity is non-normal: the entry is dropped, the bill
    // computation still succeeds
    let p = open("products:\n  A:\n    amount: .nan\n    price: 10.00\n");
    let (offer, invoice) = p.bills(1900).unwrap();
    assert!(offer.taxes().is_empty());
    assert!(invoice.taxes().is_empty());
    let q = open(
        "products:\n  A:\n    amount: .nan\n    price: 1.00\n  B:\n    amount: 2\n    price: 1.00\n",
    );
    let (qo, _) = q.bills(1900).unwrap();
    assert_eq!(qo.net_total().unwrap(), 2000 * 100);
}

#[test]
fn missing_product_list_is_a_hard_error() {
    let p = open("event: x\n");
    match p.bills(1900) {
        Err(StoreError::UnknownFormat) => {},
        other => panic!("expected an unknown-format error, got {:?}", other),
    }
}

#[test]
fn service_line_and_sold_amounts() {
    let p = open(
        "hours:\n  total: 3\n  salary: 9.00\nproducts:\n  A:\n    amount: 4\n    price: 1.00\n    sold: 2\n",
    );
    let (offer, invoice) = p.bills(0).unwrap();
    // service: 3 h at 9.00 tax free, plus 4 x 1.00 at the default rate 0
    assert_eq!(offer.net_total().unwrap(), 3000 * 900 + 4000 * 100);
    // the invoice carries only what was sold
    assert_eq!(invoice.net_total().unwrap(), 3000 * 900 + 2000 * 100);
    assert_eq!(p.wages().unwrap(), 3000 * 900);
}

#[test]
fn returned_amounts_reduce_the_invoice() {
    let p = open("products:\n  A:\n    amount: 4\n    price: 1.00\n    returned: 1\n");
    let (offer, invoice) = p.bills(0).unwrap();
    assert_eq!(offer.net_total().unwrap(), 4000 * 100);
    assert_eq!(invoice.net_total().unwrap(), 3000 * 100);
}

#[test]
fn csv_lists_items_by_tax_group() {
    let p = open("products:\n  A:\n    amount: 2\n    price: 10.00\n    tax: 0.19\n");
    let csv = p.to_csv(&BillType::Offer, 1900).unwrap();
    assert_eq!(csv, "#;Bezeichnung;Menge;EP;Steuer;Preis\n0;A;2;10.00;0.19;20.00\n");
}

#[test]
fn invoice_numbers_are_padded() {
    let p = open(READY);
    assert_eq!(p.invoice().number_str().unwrap(), "R042");
    assert_eq!(p.invoice().number_long_str().unwrap(), "R2016-042");
    assert_eq!(p.offer().number().unwrap(), "A20161101-1");
}

#[test]
fn sort_index_and_short_desc() {
    let p = open(READY);
    assert_eq!(p.index().unwrap(), "R04220161224");
    assert_eq!(p.short_desc(), "Fest");
    let unnamed = open("manager: Mia\n");
    assert_eq!(unnamed.short_desc(), "unnamed: test");
    // undated, unnumbered records have no sort key
    assert!(unnamed.index().is_none());
    let unnumbered = open("date: 01.02.2003\n");
    assert_eq!(unnumbered.index().unwrap(), "zzz20030201");
}

#[test]
fn search_and_filter_are_case_insensitive() {
    let p = open(READY);
    assert!(p.matches_search("fest"));
    assert!(p.matches_search("r042"));
    assert!(!p.matches_search("nothing"));
    assert!(p.matches_filter("Name", "FEST"));
    assert!(p.matches_filter("manager", "mia"));
    assert!(!p.matches_filter("manager", "bob"));
}

#[test]
fn computed_fields_dispatch_by_name() {
    let p = open(READY);
    let t = SimpleDate { year: 2017, month: 1, day: 1 };
    assert!(matches!(ComputedField::from("Responsible"), ComputedField::Responsible));
    assert!(matches!(ComputedField::from("bogus"), ComputedField::Invalid));
    assert_eq!(
        ComputedField::from("Responsible").get(&p, "", 1900, t).unwrap(),
        "Mia"
    );
    assert_eq!(
        ComputedField::from("InvoiceNumber").get(&p, "", 1900, t).unwrap(),
        "R042"
    );
    assert_eq!(ComputedField::from("Year").get(&p, "", 1900, t).unwrap(), "2016");
    assert_eq!(
        ComputedField::from("Date").get(&p, "", 1900, t).unwrap(),
        "2016.12.24"
    );
    assert_eq!(
        ComputedField::from("ClientFullName").get(&p, "", 1900, t).unwrap(),
        "Hans Mustermann"
    );
    assert_eq!(ComputedField::from("Final").get(&p, "", 1900, t).unwrap(), "20.00");
    // eight days after the event
    assert_eq!(ComputedField::from("Age").get(&p, "", 1900, t).unwrap(), "8 days");
    assert_eq!(p.get("manager").unwrap(), "Mia");
    assert!(p.get("nonexistent").is_none());
}

#[test]
fn computed_names_fall_back_to_stored_fields() {
    // `Date` names a computed field, but this record has no date to compute:
    // the stored field of that name answers instead
    let p = open("Date: venue hall\n");
    assert_eq!(p.get("Date").unwrap(), "venue hall");
    // with a computable value the computed field shadows the stored one
    let q = open("created: 24.12.2016\nDate: venue hall\n");
    assert_eq!(q.get("Date").unwrap(), "2016.12.24");
}

#[test]
fn our_bad_and_their_bad_count_days() {
    let p = open(READY);
    let t = SimpleDate { year: 2017, month: 1, day: 1 };
    // invoice 01.12.2016 lies before the event: no delay of ours
    assert!(p.our_bad_at(t).is_none());
    // payed_date is absent, so today stands in: invoice - today
    assert_eq!(p.their_bad_at(t).unwrap(), -31);
    let q = open("event:\n  dates:\n    - begin: 01.11.2016\ninvoice:\n  date: 01.12.2016\n");
    assert_eq!(q.our_bad_at(t).unwrap(), 30);
}

#[test]
fn employees_and_long_desc() {
    let p = open("manager: Mia\nhours:\n  caterers:\n    mia: 4\n    hans: 3.5\n");
    assert_eq!(p.employees_string(), "mia: 4, hans: 3.5");
    assert_eq!(p.long_desc(), "Responsible: Mia\n\nmia: 4, hans: 3.5\n");
    assert_eq!(p.caterers(), p.employees_string());
}

#[test]
fn from_template_fills_dates_and_defaults() {
    let template = "\
event:
  name: __PROJECT-NAME__
created: __DATE-CREATED__
date: __DATE-EVENT__
manager: __MANAGER__
tax: __TAX__
hours:
  salary: __SALARY__
";
    let defaults = TemplateDefaults {
        tax: "0.19".to_string(),
        salary: "9.00".to_string(),
        manager: "Mia".to_string(),
        version: "1.0".to_string(),
    };
    let today = SimpleDate { year: 2016, month: 12, day: 24 };
    let p = Project::from_template_at("Big Party", "default", template, &Vec::new(), &defaults, today)
        .unwrap();
    assert_eq!(p.file(), "big-party.yml");
    assert_eq!(p.name().unwrap(), "Big Party");
    assert_eq!(p.responsible().unwrap(), "Mia");
    // created today, the event two weeks out
    let created = p.modified_date().unwrap();
    assert_eq!((created.year, created.month, created.day), (2016, 12, 24));
    let event = p.event_date().unwrap();
    assert_eq!((event.year, event.month, event.day), (2017, 1, 7));
    assert!(p.get_git_status() == asciii::repo::GitStatus::Unknown);
}

#[test]
fn from_template_reports_the_filled_candidate() {
    let template = "name: __NAME__\n";
    let defaults = TemplateDefaults {
        tax: "0".to_string(),
        salary: "0".to_string(),
        manager: String::new(),
        version: String::new(),
    };
    let today = SimpleDate { year: 2016, month: 12, day: 24 };
    let mut fill: Vec<(String, String)> = Vec::new();
    fill.push(("NAME".to_string(), "[oops".to_string()));
    match Project::from_template_at("x", "t", template, &fill, &defaults, today) {
        Err(StoreError::ParseFailure { message, .. }) => {
            assert!(message.starts_with("1 name: [oops\n"));
        },
        other => panic!("expected a parse failure, got {:?}", other),
    }
}

#[test]
fn write_targets_and_file_names() {
    let p = open(READY);
    assert_eq!(p.offer_file_name("pdf").unwrap(), "A20161101-1 fest.pdf");
    assert_eq!(
        p.invoice_file_name("pdf").unwrap(),
        "R042 fest 2016-12-01.pdf"
    );
    assert_eq!(
        p.output_file(&BillType::Offer, "out", "pdf").unwrap(),
        "out/A20161101-1 fest.pdf"
    );
    assert_eq!(
        p.write_target(&BillType::Invoice, "pdf").unwrap(),
        "working/test/R042 fest 2016-12-01.pdf"
    );
    let bare = open("event: x\n");
    match bare.write_target(&BillType::Offer, "pdf") {
        Err(StoreError::CantDetermineTargetFile) => {},
        other => panic!("expected no target, got {:?}", other),
    }
}

#[test]
fn canceled_string_shows_the_flag() {
    assert_eq!(open("canceled: true\n").canceled_string(), "canceled");
    assert_eq!(open("event: x\n").canceled_string(), "");
    assert!(open("invoice:\n  payed_date: 01.01.2017\n").payed_by_client());
    assert!(!open("event: x\n").payed_by_client());
}

#[test]
fn clock_based_accessors_follow_the_record() {
    let p = open(READY);
    // the system clock lies inside the supported years, so the dated record
    // has an age and a payment delay
    assert!(p.age().is_some());
    assert!(p.their_bad().is_some());
    let undated = open("manager: Mia\n");
    assert!(undated.age().is_none());
    assert!(undated.our_bad().is_none());
}

#[test]
fn from_template_with_the_clock() {
    let template = "event:\n  name: __PROJECT-NAME__\ncreated: __DATE-CREATED__\n";
    let defaults = TemplateDefaults {
        tax: "0.19".to_string(),
        salary: "9.00".to_string(),
        manager: "Mia".to_string(),
        version: "1.0".to_string(),
    };
    let p = Project::from_template("Neujahr", "default", template, &Vec::new(), &defaults)
        .unwrap();
    assert_eq!(p.file(), "neujahr.yml");
    assert_eq!(p.name().unwrap(), "Neujahr");
    // created today: a real date must have been filled in
    assert!(p.modified_date().is_some());
}
