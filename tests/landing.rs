use landing_signup::reply::landing_reply;
use landing_signup::year::year_text;

#[test]
fn year_text_of_recent_year() {
    assert_eq!(year_text(2025), "2025");
}

#[test]
fn year_text_pads_to_four_digits() {
    assert_eq!(year_text(7), "0007");
    assert_eq!(year_text(0), "0000");
    assert_eq!(year_text(999), "0999");
}

#[test]
fn year_text_of_large_and_negative_years() {
    assert_eq!(year_text(12345), "12345");
    assert_eq!(year_text(-44), "-0044");
    assert_eq!(year_text(i32::MIN), "-2147483648");
    assert_eq!(year_text(i32::MAX), "2147483647");
}

#[test]
fn current_year_is_four_digits() {
    let y = year_text(chrono::Datelike::year(&chrono::Utc::now()));
    assert_eq!(y.len(), 4);
    assert!(y.chars().all(|c| c.is_ascii_digit()));
    let n: i32 = y.parse().unwrap();
    assert!(n >= 2024);
}

#[test]
fn landing_page_of_june_2025() {
    let year = year_text(2025);
    let page = format!("<html><body><footer>&copy; {}</footer></body></html>", year);
    let r = landing_reply(Some(page.clone()));
    assert_eq!(r.status, 200);
    assert_eq!(r.cache_control.as_deref(), Some("public, max-age=900"));
    assert!(r.body.contains("2025"));
    assert_eq!(r.body, page);
}

#[test]
fn landing_render_failure_is_server_error() {
    let r = landing_reply(None);
    assert_eq!(r.status, 500);
    assert!(r.cache_control.is_none());
    assert_eq!(r.body, "<p>Internal server error.</p>");
}
