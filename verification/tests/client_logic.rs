//! Tests of the verified client logic: token trimming, verbosity banners,
//! request planning, and the collection and ordered assembly of fetched
//! bodies.

use talloc_client::decimal::u32_to_decimal;
use talloc_client::errors::missing_token_message;
use talloc_client::errors::FetchError;
use talloc_client::request::application_url;
use talloc_client::request::auth_header_name;
use talloc_client::request::bulk_url;
use talloc_client::request::bypass_header_name;
use talloc_client::request::bypass_header_value;
use talloc_client::request::plan_requests;
use talloc_client::request::FetchPlan;
use talloc_client::request::DEFAULT_TERM;
use talloc_client::results::ResultMap;
use talloc_client::token::parse_token;
use talloc_client::token::token_file_path;
use talloc_client::token::Token;
use talloc_client::verbosity::verbosity_message;

fn token(text: &str) -> Token {
    parse_token(text).expect("token text should be accepted")
}

#[test]
fn token_loader_returns_exact_trimmed_content() {
    let t = token("  abc.def.ghi \n");
    assert_eq!(t.text().as_str(), "abc.def.ghi");

    let t = token("plain");
    assert_eq!(t.text().as_str(), "plain");

    let t = token("\t\r\n inner space kept \t");
    assert_eq!(t.text().as_str(), "inner space kept");

    // Unicode whitespace is trimmed too, as str::trim would
    let t = token("\u{a0}\u{2003}tok\u{3000}");
    assert_eq!(t.text().as_str(), "tok");
}

#[test]
fn token_loader_rejects_blank_content() {
    assert!(parse_token("").is_none());
    assert!(parse_token("   ").is_none());
    assert!(parse_token(" \t\r\n ").is_none());
}

#[test]
fn token_file_path_is_fixed() {
    assert_eq!(token_file_path().as_str(), ".talloc.jwt");
}

#[test]
fn verbosity_tiers_have_fixed_messages() {
    assert_eq!(verbosity_message(0).as_str(), "No verbose info");
    assert_eq!(verbosity_message(1).as_str(), "Some verbose info");
    assert_eq!(verbosity_message(2).as_str(), "Tons of verbose info");
    assert_eq!(verbosity_message(3).as_str(), "Don't be ridiculous");
}

#[test]
fn verbosity_three_and_beyond_share_one_message() {
    let catch_all = verbosity_message(3);
    assert_eq!(verbosity_message(4), catch_all);
    assert_eq!(verbosity_message(100), catch_all);
    assert_eq!(verbosity_message(i32::MAX), catch_all);
}

#[test]
fn verbosity_low_tiers_are_distinct() {
    let m0 = verbosity_message(0);
    let m1 = verbosity_message(1);
    let m2 = verbosity_message(2);
    let m3 = verbosity_message(3);
    assert_ne!(m0, m1);
    assert_ne!(m0, m2);
    assert_ne!(m1, m2);
    assert_ne!(m0, m3);
    assert_ne!(m1, m3);
    assert_ne!(m2, m3);
}

#[test]
fn decimal_rendering_is_exact() {
    assert_eq!(u32_to_decimal(0).as_str(), "0");
    assert_eq!(u32_to_decimal(1).as_str(), "1");
    assert_eq!(u32_to_decimal(42).as_str(), "42");
    assert_eq!(u32_to_decimal(1000).as_str(), "1000");
    assert_eq!(u32_to_decimal(u32::MAX).as_str(), "4294967295");
}

#[test]
fn urls_are_exact() {
    assert_eq!(
        bulk_url(1).as_str(),
        "https://talloc.web.cse.unsw.edu.au/api/v1/terms/1/applications"
    );
    let zid = String::from("z5555555");
    assert_eq!(
        application_url(1, &zid).as_str(),
        "https://talloc.web.cse.unsw.edu.au/api/v1/terms/1/applications/z5555555"
    );
    assert_eq!(DEFAULT_TERM, 1);
}

#[test]
fn header_names_are_exact() {
    assert_eq!(auth_header_name().as_str(), "x-jwt-auth");
    assert_eq!(bypass_header_name().as_str(), "x-apicache-bypass");
    assert_eq!(bypass_header_value().as_str(), "true");
}

#[test]
fn empty_identifier_list_plans_one_bulk_request() {
    let t = token("tok");
    let zids: Vec<String> = vec![];

    let plan = plan_requests(1, &t, false, &zids);
    match plan {
        FetchPlan::Bulk(r) => {
            assert_eq!(
                r.url.as_str(),
                "https://talloc.web.cse.unsw.edu.au/api/v1/terms/1/applications"
            );
            assert_eq!(r.auth.as_str(), "tok");
            assert!(!r.bypass_cache);
        },
        FetchPlan::PerId(_) => panic!("empty identifier list must plan the bulk request"),
    }

    let plan = plan_requests(1, &t, true, &zids);
    match plan {
        FetchPlan::Bulk(r) => assert!(r.bypass_cache),
        FetchPlan::PerId(_) => panic!("empty identifier list must plan the bulk request"),
    }
}

#[test]
fn nonempty_identifier_list_plans_one_request_per_identifier() {
    let t = token("tok");
    let zids = vec![
        String::from("z1"),
        String::from("z2"),
        String::from("z3"),
    ];
    let plan = plan_requests(1, &t, true, &zids);
    match plan {
        FetchPlan::Bulk(_) => panic!("identifiers given: one request per identifier expected"),
        FetchPlan::PerId(v) => {
            assert_eq!(v.len(), 3);
            for (i, r) in v.iter().enumerate() {
                let expected = format!(
                    "https://talloc.web.cse.unsw.edu.au/api/v1/terms/1/applications/z{}",
                    i + 1
                );
                assert_eq!(r.url.as_str(), expected.as_str());
                assert_eq!(r.auth.as_str(), "tok");
                // the bypass header belongs to the bulk path only
                assert!(!r.bypass_cache);
            }
        },
    }
}

#[test]
fn collector_keeps_last_body_per_identifier() {
    let mut m = ResultMap::new();
    m.insert(String::from("z1"), String::from("first"));
    m.insert(String::from("z1"), String::from("second"));
    let key = String::from("z1");
    assert_eq!(m.get(&key).expect("inserted").as_str(), "second");
    assert!(m.contains(&key));
    let missing = String::from("z9");
    assert!(m.get(&missing).is_none());
    assert!(!m.contains(&missing));
}

#[test]
fn output_follows_input_order_not_completion_order() {
    let zids = vec![
        String::from("z1"),
        String::from("z2"),
        String::from("z3"),
    ];

    // completions arrive out of order
    let mut m = ResultMap::new();
    m.insert(String::from("z3"), String::from("{\"id\":\"z3\"}"));
    m.insert(String::from("z1"), String::from("{\"id\":\"z1\"}"));
    m.insert(String::from("z2"), String::from("{\"id\":\"z2\"}"));

    let out = m.ordered_bodies(&zids).expect("all bodies collected");
    assert_eq!(out.len(), 3);
    assert_eq!(out[0].as_str(), "{\"id\":\"z1\"}");
    assert_eq!(out[1].as_str(), "{\"id\":\"z2\"}");
    assert_eq!(out[2].as_str(), "{\"id\":\"z3\"}");
}

#[test]
fn rerun_with_other_completion_order_prints_the_same() {
    let zids = vec![
        String::from("z1"),
        String::from("z2"),
        String::from("z3"),
    ];

    let mut first = ResultMap::new();
    first.insert(String::from("z2"), String::from("{\"id\":\"z2\"}"));
    first.insert(String::from("z3"), String::from("{\"id\":\"z3\"}"));
    first.insert(String::from("z1"), String::from("{\"id\":\"z1\"}"));

    let mut second = ResultMap::new();
    second.insert(String::from("z1"), String::from("{\"id\":\"z1\"}"));
    second.insert(String::from("z2"), String::from("{\"id\":\"z2\"}"));
    second.insert(String::from("z3"), String::from("{\"id\":\"z3\"}"));

    let a = first.ordered_bodies(&zids).expect("complete");
    let b = second.ordered_bodies(&zids).expect("complete");
    assert_eq!(a, b);
}

#[test]
fn one_failed_fetch_yields_no_output_at_all() {
    let zids = vec![
        String::from("z1"),
        String::from("z2"),
        String::from("z3"),
    ];

    // the fetch for z2 failed, so nothing was collected for it
    let mut m = ResultMap::new();
    m.insert(String::from("z1"), String::from("{\"id\":\"z1\"}"));
    m.insert(String::from("z3"), String::from("{\"id\":\"z3\"}"));

    assert!(m.ordered_bodies(&zids).is_none());
}

#[test]
fn duplicate_identifiers_print_the_same_body() {
    let zids = vec![String::from("z1"), String::from("z1")];
    let mut m = ResultMap::new();
    m.insert(String::from("z1"), String::from("body"));
    let out = m.ordered_bodies(&zids).expect("complete");
    assert_eq!(out.len(), 2);
    assert_eq!(out[0].as_str(), "body");
    assert_eq!(out[1].as_str(), "body");
}

#[test]
fn failure_diagnostics_are_fixed() {
    assert_eq!(
        FetchError::Transport.message().as_str(),
        "All application requst failed"
    );
    assert_eq!(
        FetchError::Decode.message().as_str(),
        "could not unwrap req into text"
    );
    assert_eq!(missing_token_message().as_str(), "Missing .talloc.jwt token");
}
