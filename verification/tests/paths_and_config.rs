use imagewall::clock::current_year_month;
use imagewall::config::{date_range_of_args, ConfigError};
use imagewall::dates::YearMonth;
use imagewall::fetch::{fetch_page_with_retries, RetryCounter};
use imagewall::paths::{
    build_dir_path, build_file_path, build_image_url, build_listing_url, build_user_info_url,
};
use imagewall::producer::CrawlError;
use imagewall::types::{Args, ImageWallData, ImageWallRes};

fn args(start: Option<&str>, end: Option<&str>) -> Args {
    Args {
        uid: 42,
        output: ".".to_string(),
        start: start.map(|s| s.to_string()),
        end: end.map(|s| s.to_string()),
        concurrency: 10,
        retry: 3,
        image_type: "mw600".to_string(),
    }
}

fn empty_page(since_id: &str) -> ImageWallRes {
    ImageWallRes {
        data: Some(ImageWallData { since_id: since_id.to_string(), list: vec![] }),
        bottom_tips_visible: false,
        bottom_tips_text: String::new(),
        ok: 1,
    }
}

#[test]
fn destination_paths() {
    let d = YearMonth { year: 2024, month: 5 };
    assert_eq!(build_dir_path("out", "name", d).as_str(), "out/name/2024-5");
    assert_eq!(build_file_path("out/name/2024-5", "pid9").as_str(), "out/name/2024-5/pid9.jpg");
}

#[test]
fn endpoint_urls() {
    assert_eq!(
        build_listing_url(42, "").as_str(),
        "https://weibo.com/ajax/profile/getImageWall?uid=42"
    );
    assert_eq!(
        build_listing_url(42, "abc").as_str(),
        "https://weibo.com/ajax/profile/getImageWall?uid=42&sinceid=abc"
    );
    assert_eq!(
        build_listing_url(-7, "").as_str(),
        "https://weibo.com/ajax/profile/getImageWall?uid=-7"
    );
    assert_eq!(
        build_user_info_url(42).as_str(),
        "https://weibo.com/ajax/profile/info?uid=42"
    );
    assert_eq!(
        build_image_url("mw600", "pid9").as_str(),
        "https://wx1.sinaimg.cn/mw600/pid9.jpg"
    );
}

#[test]
fn range_bounds_from_args() {
    let dr = date_range_of_args(&args(Some("2024/04"), Some("2024/05"))).unwrap();
    assert_eq!(dr.start, Some(YearMonth { year: 2024, month: 4 }));
    assert_eq!(dr.end, Some(YearMonth { year: 2024, month: 5 }));
    let open = date_range_of_args(&args(None, None)).unwrap();
    assert_eq!(open.start, None);
    assert_eq!(open.end, None);
    assert!(matches!(
        date_range_of_args(&args(Some("junk"), None)),
        Err(ConfigError::BadStart)
    ));
    assert!(matches!(
        date_range_of_args(&args(Some("2024/04"), Some("2024"))),
        Err(ConfigError::BadEnd)
    ));
}

#[test]
fn fetch_retries_until_success() {
    let mut outcomes = vec![None, None, Some(empty_page("abc"))];
    let r = fetch_page_with_retries(&mut outcomes, 3);
    let page = r.unwrap();
    assert_eq!(page.data.unwrap().since_id.as_str(), "abc");
}

#[test]
fn fetch_budget_exhaustion_is_fatal() {
    let mut outcomes = vec![None, None, Some(empty_page("abc"))];
    let r = fetch_page_with_retries(&mut outcomes, 2);
    assert!(matches!(r, Err(CrawlError::ListingExhausted)));
}

#[test]
fn retry_counter_spends_its_budget() {
    let mut c = RetryCounter::new(2);
    assert!(c.may_attempt());
    c.record_attempt();
    assert!(c.may_attempt());
    c.record_attempt();
    assert!(!c.may_attempt());
}

#[test]
fn current_date_has_a_real_month() {
    let now = current_year_month();
    assert!(now.month >= 1 && now.month <= 12);
}
