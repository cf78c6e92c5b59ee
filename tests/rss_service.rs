use rss_templater::rss::Entries;
use rss_templater::rss_service::{
    fallback_body, parse_add_entry_form, route, split_uri_path, template_index, FormError, Method,
    Route,
};
use rss_templater::templater::Error;

#[test]
fn split_uri_path_keeps_non_empty_segments() {
    assert_eq!(split_uri_path("/a//b/"), vec!["a".to_string(), "b".to_string()]);
    assert!(split_uri_path("/").is_empty());
    assert!(split_uri_path("").is_empty());
    assert_eq!(split_uri_path("add_entry"), vec!["add_entry".to_string()]);
}

#[test]
fn routes() {
    assert_eq!(route(Method::Get, "/"), Route::Index);
    assert_eq!(route(Method::Get, ""), Route::Index);
    assert_eq!(route(Method::Post, "/add_entry/"), Route::AddEntry);
    assert_eq!(route(Method::Get, "/add_entry"), Route::Fallback);
    assert_eq!(route(Method::Post, "/"), Route::Fallback);
    assert_eq!(route(Method::Post, "/add_entry/x"), Route::Fallback);
    assert_eq!(route(Method::Other, "/"), Route::Fallback);
}

#[test]
fn form_is_read() {
    let f = parse_add_entry_form("entry_name=blog&entry_url=https://x.org/feed").unwrap();
    assert_eq!(f.name, "blog");
    assert_eq!(f.url, "https://x.org/feed");
    let f = parse_add_entry_form("entry_name=&entry_url=ab\u{e9}cd").unwrap();
    assert_eq!(f.name, "");
    assert_eq!(f.url, "ab");
}

#[test]
fn form_errors() {
    assert_eq!(parse_add_entry_form("name=a&entry_url=b").unwrap_err(), FormError::MissingNameField);
    assert_eq!(parse_add_entry_form("entry_name=a").unwrap_err(), FormError::MissingSeparator);
    assert_eq!(parse_add_entry_form("entry_name=a&url=b").unwrap_err(), FormError::MissingUrlField);
    assert_eq!(parse_add_entry_form("entry_name=a&entry_ur").unwrap_err(), FormError::MissingUrlField);
}

#[test]
fn index_page() {
    let mut entries = Entries::new();
    entries.insert("a".to_string(), "u1".to_string());
    entries.insert("a".to_string(), "u2".to_string());
    assert_eq!(entries.len(), 1);
    assert_eq!(entries.entry(0).1, "u2");
    let r = template_index("Visits: { visitors }", &entries, 12).unwrap();
    assert_eq!(r, "Visits: 12");
    let r = template_index("{ entries }", &entries, 12);
    assert!(matches!(r, Err(Error::UnsupportedValueShape(_))));
}

#[test]
fn greeting() {
    assert_eq!(fallback_body(3), "Hello world! We've had 3 visits already!");
}
