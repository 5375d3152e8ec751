use trade_client::codec::{parse_fetch, parse_search};
use trade_client::trade::{fetch_path, finish_fetch, finish_search, search_path, TradeError};

#[test]
fn search_path_names_the_league() {
    let p = search_path("Standard");
    assert_eq!(p.as_str(), "/search/Standard");
}

#[test]
fn fetch_path_joins_with_commas() {
    let ids = vec!["x".to_string(), "y".to_string(), "z".to_string()];
    assert_eq!(fetch_path(&ids).as_str(), "/fetch/x,y,z");
}

#[test]
fn fetch_path_takes_only_the_first_ten() {
    // Twelve identifiers: only the first ten go into the path, in order.
    let ids: Vec<String> = vec![
        "a", "b", "c", "d", "e", "f", "g", "h", "i", "j", "k", "l",
    ]
    .into_iter()
    .map(|s| s.to_string())
    .collect();
    assert_eq!(fetch_path(&ids).as_str(), "/fetch/a,b,c,d,e,f,g,h,i,j");
}

#[test]
fn fetch_path_keeps_exactly_ten_of_ten() {
    let ids: Vec<String> = vec!["a", "b", "c", "d", "e", "f", "g", "h", "i", "j"]
        .into_iter()
        .map(|s| s.to_string())
        .collect();
    assert_eq!(fetch_path(&ids).as_str(), "/fetch/a,b,c,d,e,f,g,h,i,j");
}

#[test]
fn fetch_path_of_one_and_of_none() {
    assert_eq!(fetch_path(&vec!["solo".to_string()]).as_str(), "/fetch/solo");
    assert_eq!(fetch_path(&Vec::new()).as_str(), "/fetch/");
}

#[test]
fn parse_search_reads_identifiers_in_order() {
    let r = parse_search("{\"result\":[\"abc\",\"def\",\"ghi\"]}").unwrap();
    assert_eq!(r.result, vec!["abc", "def", "ghi"]);
}

#[test]
fn parse_search_reads_empty_result() {
    let r = parse_search("{\"result\":[]}").unwrap();
    assert!(r.result.is_empty());
}

#[test]
fn parse_search_tolerates_whitespace() {
    let r = parse_search(" {\n  \"result\" : [ \"a\" ,\t\"b\" ]\r\n} ").unwrap();
    assert_eq!(r.result, vec!["a", "b"]);
}

#[test]
fn parse_search_skips_unknown_members() {
    let body = "{\"total\":2,\"complexity\":null,\"result\":[\"a\",\"b\"],\"extra\":{\"x\":[1,\"]\"]}}";
    let r = parse_search(body).unwrap();
    assert_eq!(r.result, vec!["a", "b"]);
}

#[test]
fn parse_search_reads_escaped_identifiers() {
    let r = parse_search("{\"result\":[\"a\\\"b\",\"c\\\\d\",\"e\\n\\tf\",\"g\\/h\"]}").unwrap();
    assert_eq!(r.result, vec!["a\"b", "c\\d", "e\n\tf", "g/h"]);
}

#[test]
fn parse_search_rejects_malformed_bodies() {
    assert!(matches!(parse_search("nonsense"), Err(TradeError::Decode)));
    assert!(matches!(parse_search("{\"result\":[\"unterminated]}"), Err(TradeError::Decode)));
    assert!(matches!(parse_search("{\"noresult\":[]}"), Err(TradeError::Decode)));
    assert!(matches!(parse_search("{\"result\":[\"a\"]} x"), Err(TradeError::Decode)));
    assert!(matches!(parse_search("{\"result\":[\"a\\u0062\"]}"), Err(TradeError::Decode)));
}

#[test]
fn parse_fetch_reads_listings() {
    // Amounts come back in hundredths of their unit: 10 is 1000, 2.75 is 275.
    let body = "{\"result\":[\
        {\"id\":\"a1\",\"listing\":{\"price\":{\"amount\":10,\"currency\":\"chaos\"}}},\
        {\"id\":\"b2\",\"listing\":{\"price\":{\"amount\":2.75,\"currency\":\"divine\"}}}\
        ]}";
    let r = parse_fetch(body).unwrap();
    assert_eq!(r.result.len(), 2);
    assert_eq!(r.result[0].id.as_str(), "a1");
    assert_eq!(r.result[0].listing.price.amount, 1000);
    assert_eq!(r.result[0].listing.price.currency.as_str(), "chaos");
    assert_eq!(r.result[1].id.as_str(), "b2");
    assert_eq!(r.result[1].listing.price.amount, 275);
    assert_eq!(r.result[1].listing.price.currency.as_str(), "divine");
}

#[test]
fn parse_fetch_tolerates_member_order_and_extras() {
    // Members in any order, unknown members (as the live service sends them)
    // skipped, whitespace throughout.
    let body = "{ \"total\": 1, \"result\": [ {\n\
        \"listing\": { \"indexed\": \"2024-01-01\", \"price\": { \"type\": \"~price\", \"currency\": \"divine\", \"amount\": 1.5 }, \"account\": { \"name\": \"someone\" } },\n\
        \"id\": \"deadbeef\", \"item\": { \"name\": \"Ring\", \"ilvl\": 84 } } ] }";
    let r = parse_fetch(body).unwrap();
    assert_eq!(r.result.len(), 1);
    assert_eq!(r.result[0].id.as_str(), "deadbeef");
    assert_eq!(r.result[0].listing.price.amount, 150);
    assert_eq!(r.result[0].listing.price.currency.as_str(), "divine");
}

#[test]
fn parse_fetch_reads_large_and_fractional_amounts() {
    let body = "{\"result\":[\
        {\"id\":\"a\",\"listing\":{\"price\":{\"amount\":12345678901234567,\"currency\":\"chaos\"}}},\
        {\"id\":\"b\",\"listing\":{\"price\":{\"amount\":0.759,\"currency\":\"chaos\"}}}\
        ]}";
    let r = parse_fetch(body).unwrap();
    assert_eq!(r.result[0].listing.price.amount, 1234567890123456700);
    // Fractional digits beyond the second are truncated: 0.759 is 75.
    assert_eq!(r.result[1].listing.price.amount, 75);
}

#[test]
fn parse_fetch_rejects_wrong_shapes() {
    assert!(parse_fetch("{\"result\":[{\"id\":\"a\"}]}").is_err());
    assert!(parse_fetch("{\"result\":[").is_err());
    assert!(parse_fetch("").is_err());
    // Exponent notation and negative amounts do not fit the price model.
    let exp = "{\"result\":[{\"id\":\"a\",\"listing\":{\"price\":{\"amount\":1e3,\"currency\":\"chaos\"}}}]}";
    assert!(parse_fetch(exp).is_err());
    let neg = "{\"result\":[{\"id\":\"a\",\"listing\":{\"price\":{\"amount\":-5,\"currency\":\"chaos\"}}}]}";
    assert!(parse_fetch(neg).is_err());
}

#[test]
fn transport_error_propagates_unchanged() {
    // A transport failure during search comes back as-is, with no retry and
    // no rewording.
    let r = finish_search(Err("connection reset".to_string()));
    match r {
        Err(TradeError::Transport(m)) => assert_eq!(m, "connection reset"),
        _ => panic!("expected a transport error"),
    }
    let r = finish_fetch(Err("dns failure".to_string()));
    match r {
        Err(TradeError::Transport(m)) => assert_eq!(m, "dns failure"),
        _ => panic!("expected a transport error"),
    }
}

#[test]
fn finish_search_decodes_a_good_body() {
    let r = finish_search(Ok("{\"result\":[\"one\",\"two\"]}".to_string())).unwrap();
    assert_eq!(r.result, vec!["one", "two"]);
}

#[test]
fn finish_search_reports_decode_failure() {
    let r = finish_search(Ok("<html>".to_string()));
    assert!(matches!(r, Err(TradeError::Decode)));
}
