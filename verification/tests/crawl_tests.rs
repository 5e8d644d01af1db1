use imagewall::crawl::{run_crawl, CrawlEnd};
use imagewall::dates::{DateRange, YearMonth};
use imagewall::producer::{check_user_info, cursor_is_terminal, CrawlError, CrawlState, Phase};
use imagewall::types::{ImageItem, ImageWallData, ImageWallRes, UserInfo, UserInfoData, UserInfoRes};

fn item(pid: &str, year: &str, month: &str) -> ImageItem {
    ImageItem {
        pid: pid.to_string(),
        mid: String::new(),
        timeline_month: month.to_string(),
        timeline_year: year.to_string(),
    }
}

fn page(ok: i32, since_id: Option<&str>, list: Vec<ImageItem>) -> ImageWallRes {
    ImageWallRes {
        data: since_id.map(|s| ImageWallData { since_id: s.to_string(), list }),
        bottom_tips_visible: false,
        bottom_tips_text: String::new(),
        ok,
    }
}

fn state(seed: YearMonth, range: DateRange) -> CrawlState {
    CrawlState::new(seed, range, "out".to_string(), "name".to_string())
}

#[test]
fn terminal_cursor_forms() {
    assert!(cursor_is_terminal(""));
    assert!(cursor_is_terminal("0"));
    assert!(!cursor_is_terminal("00"));
    assert!(!cursor_is_terminal("abc"));
    assert!(!cursor_is_terminal("1"));
}

#[test]
fn two_page_window_scenario() {
    // Page 1 carries items dated 2024/05 and 2024/04 and points at a second
    // page; page 2 carries an item dated 2024/03 and a terminal cursor.
    // With the window [2024/04, 2024/05] exactly the first two items are
    // enqueued and the crawl stops after page 2.
    let range = DateRange {
        start: Some(YearMonth { year: 2024, month: 4 }),
        end: Some(YearMonth { year: 2024, month: 5 }),
    };
    let pages = vec![
        page(1, Some("abc"), vec![item("a", "2024", "05"), item("b", "2024", "04")]),
        page(1, Some(""), vec![item("c", "2024", "03")]),
    ];
    let mut st = state(YearMonth { year: 2024, month: 6 }, range);
    let run = run_crawl(&mut st, &pages);
    assert_eq!(run.pages_used, 2);
    assert_eq!(run.end, CrawlEnd::Completed);
    assert_eq!(run.items.len(), 2);
    assert_eq!(run.items[0].pid.as_str(), "a");
    assert_eq!(run.items[0].mid.as_str(), "out/name/2024-5");
    assert_eq!(run.items[1].pid.as_str(), "b");
    assert_eq!(run.items[1].mid.as_str(), "out/name/2024-4");
}

#[test]
fn terminal_cursor_stops_without_further_fetches() {
    // The first page answers with the sentinel cursor "0": later pages are
    // never consumed, whatever they hold.
    let range = DateRange { start: None, end: None };
    let pages = vec![
        page(1, Some("0"), vec![item("a", "2024", "05")]),
        page(1, Some("next"), vec![item("b", "2024", "05")]),
    ];
    let mut st = state(YearMonth { year: 2024, month: 6 }, range);
    let run = run_crawl(&mut st, &pages);
    assert_eq!(run.pages_used, 1);
    assert_eq!(run.end, CrawlEnd::Completed);
    assert_eq!(run.items.len(), 1);
    assert_eq!(st.phase, Phase::Done);
}

#[test]
fn empty_cursor_stops_too() {
    let range = DateRange { start: None, end: None };
    let pages = vec![
        page(1, Some(""), vec![item("a", "2024", "05")]),
        page(1, Some("next"), vec![item("b", "2024", "05")]),
    ];
    let mut st = state(YearMonth { year: 2024, month: 6 }, range);
    let run = run_crawl(&mut st, &pages);
    assert_eq!(run.pages_used, 1);
    assert_eq!(run.items.len(), 1);
}

#[test]
fn crossing_start_terminates_whole_crawl() {
    // The second item crosses below the start bound: the crawl ends there,
    // and a later item back inside the window is never enqueued — not even
    // on a later page the producer no longer fetches.
    let range = DateRange { start: Some(YearMonth { year: 2024, month: 4 }), end: None };
    let pages = vec![
        page(1, Some("abc"), vec![
            item("a", "2024", "04"),
            item("b", "2024", "03"),
            item("c", "2024", "05"),
        ]),
        page(1, Some(""), vec![item("d", "2024", "05")]),
    ];
    let mut st = state(YearMonth { year: 2024, month: 6 }, range);
    let run = run_crawl(&mut st, &pages);
    assert_eq!(run.pages_used, 1);
    assert_eq!(run.end, CrawlEnd::Completed);
    assert_eq!(run.items.len(), 1);
    assert_eq!(run.items[0].pid.as_str(), "a");
    assert_eq!(st.phase, Phase::Done);
}

#[test]
fn crossing_end_skips_item_only() {
    // Items above the end bound appear first under newest-first ordering;
    // they are skipped one by one and pagination continues into the window.
    let range = DateRange { start: None, end: Some(YearMonth { year: 2024, month: 5 }) };
    let pages = vec![
        page(1, Some(""), vec![
            item("a", "2024", "07"),
            item("b", "2024", "06"),
            item("c", "2024", "05"),
        ]),
    ];
    let mut st = state(YearMonth { year: 2024, month: 8 }, range);
    let run = run_crawl(&mut st, &pages);
    assert_eq!(run.items.len(), 1);
    assert_eq!(run.items[0].pid.as_str(), "c");
}

#[test]
fn running_date_carries_forward_when_fields_missing() {
    // An item without date fields inherits the date of the item before it.
    let range = DateRange { start: None, end: Some(YearMonth { year: 2024, month: 5 }) };
    let pages = vec![
        page(1, Some(""), vec![
            item("a", "2024", "06"),
            item("b", "", ""),
            item("c", "2024", "05"),
            item("d", "", ""),
        ]),
    ];
    let mut st = state(YearMonth { year: 2024, month: 6 }, range);
    let run = run_crawl(&mut st, &pages);
    // "b" inherits 2024/06 (skipped); "d" inherits 2024/05 (enqueued).
    assert_eq!(run.items.len(), 2);
    assert_eq!(run.items[0].pid.as_str(), "c");
    assert_eq!(run.items[1].pid.as_str(), "d");
    assert_eq!(run.items[1].mid.as_str(), "out/name/2024-5");
}

#[test]
fn unparseable_date_field_is_logged_and_ignored() {
    let range = DateRange { start: None, end: None };
    let pages = vec![
        page(1, Some(""), vec![item("a", "2024", "05"), item("b", "20x4", "bad")]),
    ];
    let mut st = state(YearMonth { year: 2024, month: 6 }, range);
    let run = run_crawl(&mut st, &pages);
    assert_eq!(run.items.len(), 2);
    // The stale date 2024/05 still names b's directory.
    assert_eq!(run.items[1].mid.as_str(), "out/name/2024-5");
    assert_eq!(run.bad_fields.len(), 2);
    assert_eq!(run.bad_fields[0].as_str(), "bad");
    assert_eq!(run.bad_fields[1].as_str(), "20x4");
}

#[test]
fn failed_status_flag_aborts() {
    let range = DateRange { start: None, end: None };
    let pages = vec![page(0, Some("abc"), vec![item("a", "2024", "05")])];
    let mut st = state(YearMonth { year: 2024, month: 6 }, range);
    let run = run_crawl(&mut st, &pages);
    assert_eq!(run.end, CrawlEnd::Aborted(CrawlError::ListingFailed));
    assert_eq!(run.items.len(), 0);
    assert_eq!(st.phase, Phase::Aborted);
}

#[test]
fn missing_payload_aborts() {
    let range = DateRange { start: None, end: None };
    let pages = vec![page(1, None, vec![])];
    let mut st = state(YearMonth { year: 2024, month: 6 }, range);
    let run = run_crawl(&mut st, &pages);
    assert_eq!(run.end, CrawlEnd::Aborted(CrawlError::MissingPayload));
    assert_eq!(st.phase, Phase::Aborted);
}

#[test]
fn trailer_surfaces_on_first_page_only() {
    let range = DateRange { start: None, end: None };
    let mut first = page(1, Some("abc"), vec![]);
    first.bottom_tips_visible = true;
    first.bottom_tips_text = "hello".to_string();
    let mut second = page(1, Some(""), vec![]);
    second.bottom_tips_visible = true;
    second.bottom_tips_text = "later".to_string();
    let pages = vec![first, second];
    let mut st = state(YearMonth { year: 2024, month: 6 }, range);
    let run = run_crawl(&mut st, &pages);
    assert_eq!(run.trailer.as_deref(), Some("hello"));
}

#[test]
fn invisible_trailer_stays_hidden() {
    let range = DateRange { start: None, end: None };
    let pages = vec![page(1, Some(""), vec![])];
    let mut st = state(YearMonth { year: 2024, month: 6 }, range);
    let run = run_crawl(&mut st, &pages);
    assert_eq!(run.trailer, None);
}

#[test]
fn pages_exhausted_reported() {
    let range = DateRange { start: None, end: None };
    let pages = vec![page(1, Some("more"), vec![item("a", "2024", "05")])];
    let mut st = state(YearMonth { year: 2024, month: 6 }, range);
    let run = run_crawl(&mut st, &pages);
    assert_eq!(run.end, CrawlEnd::OutOfPages);
    assert_eq!(st.phase, Phase::Fetching);
}

#[test]
fn user_info_checks() {
    let good = UserInfoRes {
        ok: 1,
        data: Some(UserInfoData { user: UserInfo { screen_name: "name".to_string() } }),
    };
    assert_eq!(check_user_info(good).unwrap().screen_name.as_str(), "name");
    let bad_flag = UserInfoRes { ok: 0, data: None };
    assert!(matches!(check_user_info(bad_flag), Err(CrawlError::UserFetchFailed)));
    let no_data = UserInfoRes { ok: 1, data: None };
    assert!(matches!(check_user_info(no_data), Err(CrawlError::UserMissing)));
}
