//! The store's directory planning, the status cache, dates and the small
//! text helpers.

use asciii::storage::{Storage, StorageDir, list_years, choose_record_file, collect_opened,
    attach_statuses};
use asciii::repo::{GitStatus, StatusCache, Repository, build_cache};
use asciii::project::Project;
use asciii::dates::{SimpleDate, parse_dmy_date, parse_dmy_date_range, format_dmy, day_number,
    add_days, format_ymd_compact, format_ymd_dashed};
use asciii::text::{slugify, lowercase, contains_ci, line_numbered, parse_scaled, u64_to_string,
    i64_to_string};
use asciii::bill::{money_string, tax_string, amount_string};

fn strings(ss: &[&str]) -> Vec<String> {
    ss.iter().map(|s| s.to_string()).collect()
}

#[test]
fn years_are_sorted_and_non_numbers_skipped() {
    let years = list_years(&strings(&["2021", "notayear", "2019", "2020"]));
    assert_eq!(years, vec![2019, 2020, 2021]);
}

#[test]
fn scan_isolation_missing_year_is_empty() {
    // opening Archive(1999) when no such year exists yields an empty scan,
    // not an error
    let st = Storage::new("caterings", "working", "archive", "templates");
    let years = vec![2019u64, 2020u64];
    assert!(st.scan_dirs(&StorageDir::Archive(1999), &years).is_empty());
    assert_eq!(
        st.scan_dirs(&StorageDir::Archive(2019), &years),
        strings(&["caterings/archive/2019"])
    );
    assert_eq!(
        st.scan_dirs(&StorageDir::Working, &years),
        strings(&["caterings/working"])
    );
    assert_eq!(
        st.scan_dirs(&StorageDir::Templates, &years),
        strings(&["caterings/templates"])
    );
    // the union: archives ascending, working last
    assert_eq!(
        st.scan_dirs(&StorageDir::All, &years),
        strings(&["caterings/archive/2019", "caterings/archive/2020", "caterings/working"])
    );
}

#[test]
fn scan_isolation_corrupt_record_is_skipped() {
    // one corrupt record among five: the other four survive the batch
    let contents = ["a: 1\n", "b: 2\n", "c: [broken\nd: 0\n", "c: 3\n", "d: 4\n"];
    let mut results: Vec<Option<Project>> = Vec::new();
    for (i, c) in contents.iter().enumerate() {
        let path = format!("working/p{}/p{}.yml", i, i);
        results.push(Project::open_file_content(&path, c).ok());
    }
    let opened = collect_opened(results);
    assert_eq!(opened.len(), 4);
    assert_eq!(opened[0].file(), "working/p0/p0.yml");
    assert_eq!(opened[3].file(), "working/p4/p4.yml");
}

#[test]
fn first_record_file_wins() {
    let entries = strings(&["notes.txt", "one.yml", "two.yml"]);
    assert_eq!(choose_record_file(&entries, "yml"), Some(1));
    assert_eq!(choose_record_file(&strings(&["a.txt"]), "yml"), None);
}

#[test]
fn archive_target_keeps_the_folder_name() {
    let st = Storage::new("caterings", "working", "archive", "templates");
    assert_eq!(
        st.archive_target_dir(2016, "big-party"),
        "caterings/archive/2016/big-party"
    );
}

#[test]
fn status_fallback_is_unknown() {
    // a lookup against a missing or failed integration answers unknown
    let cache = StatusCache::empty();
    assert_eq!(cache.get_status("/anything/at/all"), GitStatus::Unknown);
    let repo = Repository::new("/definitely/not/a/repository");
    assert_eq!(repo.get_status("anything"), GitStatus::Unknown);
    assert_eq!(repo.workdir, "/definitely/not/a/repository");
}

#[test]
fn cache_propagates_file_status_to_its_parent() {
    let entries = vec![
        ("party/party.yml".to_string(), 0x0100u32),
        ("other/".to_string(), 0x0080u32),
    ];
    let cache = build_cache("caterings", &entries);
    assert_eq!(cache.get_status("caterings/party/party.yml"), GitStatus::WorkingModified);
    assert_eq!(cache.get_status("caterings/party"), GitStatus::WorkingModified);
    // a directory entry has no parent propagation
    assert_eq!(cache.get_status("caterings/other/"), GitStatus::WorkingNew);
    assert_eq!(cache.get_status("caterings"), GitStatus::Unknown);
}

#[test]
fn statuses_attach_to_record_directories() {
    let p = Project::open_file_content("caterings/working/party/party.yml", "a: 1\n").unwrap();
    assert_eq!(p.get_git_status(), GitStatus::Unknown);
    let mut projects = vec![p];
    let entries = vec![("working/party/party.yml".to_string(), 0x0002u32)];
    let cache = build_cache("caterings", &entries);
    attach_statuses(&mut projects, &cache);
    assert_eq!(projects[0].get_git_status(), GitStatus::IndexModified);
}

#[test]
fn status_bits_decode_in_priority_order() {
    assert_eq!(GitStatus::from_bits(0x0001), GitStatus::IndexNew);
    assert_eq!(GitStatus::from_bits(0x0100), GitStatus::WorkingModified);
    assert_eq!(GitStatus::from_bits(0x0001 | 0x0100), GitStatus::IndexNew);
    assert_eq!(GitStatus::from_bits(0x8000), GitStatus::Conflict);
    assert_eq!(GitStatus::from_bits(0), GitStatus::Unknown);
    assert_eq!(GitStatus::from_bits(0x0100).symbol(), "~");
    assert_eq!(GitStatus::Unknown.symbol(), "");
}

#[test]
fn git_commands_carry_the_work_tree() {
    let repo = Repository::new("/definitely/not/a/repository");
    let args = repo.command_args("add", &strings(&["a.yml", "b.yml"]));
    assert_eq!(
        args,
        strings(&[
            "--work-tree",
            "/definitely/not/a/repository",
            "--git-dir",
            "/definitely/not/a/repository/.git",
            "add",
            "a.yml",
            "b.yml",
        ])
    );
}

#[test]
fn dates_parse_and_render() {
    let d = parse_dmy_date("24.12.2016").unwrap();
    assert_eq!((d.year, d.month, d.day), (2016, 12, 24));
    assert!(parse_dmy_date("31.02.2016").is_none());
    assert!(parse_dmy_date("24.12").is_none());
    let r = parse_dmy_date_range("12-14.12.2016").unwrap();
    assert_eq!((r.year, r.month, r.day), (2016, 12, 12));
    assert_eq!(format_dmy(d), "24.12.2016");
    assert_eq!(format_ymd_compact(d), "20161224");
    assert_eq!(format_ymd_dashed(d), "2016-12-24");
}

#[test]
fn day_arithmetic_handles_leap_years() {
    let feb28 = SimpleDate { year: 2020, month: 2, day: 28 };
    let mar1 = add_days(feb28, 2);
    assert_eq!((mar1.year, mar1.month, mar1.day), (2020, 3, 1));
    let feb28_2019 = SimpleDate { year: 2019, month: 2, day: 28 };
    let mar1_2019 = add_days(feb28_2019, 1);
    assert_eq!((mar1_2019.year, mar1_2019.month, mar1_2019.day), (2019, 3, 1));
    let ny = add_days(SimpleDate { year: 2016, month: 12, day: 31 }, 1);
    assert_eq!((ny.year, ny.month, ny.day), (2017, 1, 1));
    assert_eq!(
        day_number(SimpleDate { year: 2017, month: 1, day: 1 })
            - day_number(SimpleDate { year: 2016, month: 12, day: 24 }),
        8
    );
}

#[test]
fn text_helpers_render_numbers() {
    assert_eq!(u64_to_string(0), "0");
    assert_eq!(u64_to_string(1234), "1234");
    assert_eq!(i64_to_string(-42), "-42");
    assert_eq!(money_string(2000), "20.00");
    assert_eq!(money_string(5), "0.05");
    assert_eq!(tax_string(1900), "0.19");
    assert_eq!(amount_string(2000), "2");
    assert_eq!(amount_string(3500), "3.500");
}

#[test]
fn scaled_decimals_parse() {
    assert_eq!(parse_scaled("10.00", 2), Some(1000));
    assert_eq!(parse_scaled("0.19", 4), Some(1900));
    assert_eq!(parse_scaled("3.5", 3), Some(3500));
    assert_eq!(parse_scaled("3", 3), Some(3000));
    // negatives read as zero (dropped downstream), junk does not read
    assert_eq!(parse_scaled("-2", 3), Some(0));
    assert_eq!(parse_scaled("abc", 3), None);
    assert_eq!(parse_scaled("1.2.3", 3), None);
    // over a billion scaled units nothing is accepted
    assert_eq!(parse_scaled("2000000", 3), None);
    // the non-finite spellings read as zero, like negatives
    assert_eq!(parse_scaled(".nan", 3), Some(0));
    assert_eq!(parse_scaled("-.inf", 3), Some(0));
    assert_eq!(parse_scaled(".INF", 2), Some(0));
}

#[test]
fn outside_wrappers_transform_their_input() {
    assert_eq!(slugify("Big Party! 2016"), "big-party-2016");
    assert_eq!(lowercase("GROSSE Feier"), "grosse feier");
    assert!(contains_ci("Grosse FEIER", "feier"));
    assert!(!contains_ci("Grosse FEIER", "klein"));
    assert_eq!(line_numbered("a\nb"), "1 a\n2 b\n");
}
