use agentai::tool::ToolError;
use agentai::websearch::{format_search_results, SearchHit};

fn hit(t: Option<&str>, d: Option<&str>, u: Option<&str>) -> SearchHit {
    SearchHit {
        title: t.map(|s| s.to_string()),
        description: d.map(|s| s.to_string()),
        url: u.map(|s| s.to_string()),
    }
}

#[test]
fn formats_hits() {
    let out = format_search_results(Some(vec![
        hit(Some("A"), Some("first"), Some("https://a")),
        hit(Some("B"), Some("second"), Some("https://b")),
    ]))
    .ok()
    .unwrap();
    assert_eq!(
        out,
        "Title: A\nDescription: first\nURL: https://a\n\nTitle: B\nDescription: second\nURL: https://b"
    );
    assert_eq!(format_search_results(Some(vec![])).ok().unwrap(), "");
}

#[test]
fn missing_results_and_fields_fail() {
    assert!(matches!(format_search_results(None), Err(ToolError::ExecutionError)));
    match format_search_results(Some(vec![hit(Some("A"), Some("d"), Some("u")), hit(Some("B"), None, None)])) {
        Err(ToolError::Other(m)) => assert_eq!(m, "web description is not a string"),
        _ => panic!("expected an error"),
    }
    match format_search_results(Some(vec![hit(None, None, None)])) {
        Err(ToolError::Other(m)) => assert_eq!(m, "web title is not a string"),
        _ => panic!("expected an error"),
    }
    match format_search_results(Some(vec![hit(Some("t"), Some("d"), None)])) {
        Err(ToolError::Other(m)) => assert_eq!(m, "web url is not a string"),
        _ => panic!("expected an error"),
    }
}
