use bupt_portal::portal::{ap_from_response, extract_query_param, Ap, ProbeError, CHECK_URL};

#[test]
fn extracts_middle_parameter() {
    let r = extract_query_param("http://x/y?name=A&group=B&mac=C", "group");
    assert_eq!(r, Ok(String::from("B")));
}

#[test]
fn extracts_last_parameter_to_end() {
    let r = extract_query_param("http://x/y?name=A&group=B&mac=C", "mac");
    assert_eq!(r, Ok(String::from("C")));
}

#[test]
fn extracts_first_parameter() {
    let r = extract_query_param("http://x/y?name=A&group=B&mac=C", "name");
    assert_eq!(r, Ok(String::from("A")));
}

#[test]
fn missing_key_is_param_not_found() {
    let r = extract_query_param("http://x/y?name=A", "group");
    assert_eq!(r, Err(ProbeError::ParamNotFound));
}

#[test]
fn key_longer_than_url_is_param_not_found() {
    assert_eq!(extract_query_param("a=", "abc"), Err(ProbeError::ParamNotFound));
    assert_eq!(extract_query_param("", "k"), Err(ProbeError::ParamNotFound));
}

#[test]
fn key_without_equals_sign_does_not_match() {
    let r = extract_query_param("http://x/y?group&name=A", "group");
    assert_eq!(r, Err(ProbeError::ParamNotFound));
}

#[test]
fn empty_value_is_found() {
    let r = extract_query_param("http://x/y?name=&group=B", "name");
    assert_eq!(r, Ok(String::new()));
}

#[test]
fn first_occurrence_wins_even_inside_another_value() {
    let r = extract_query_param("http://x/y?note=mac=XX&mac=C", "mac");
    assert_eq!(r, Ok(String::from("XX")));
}

#[test]
fn unanchored_match_inside_longer_key() {
    let r = extract_query_param("http://x/y?hostname=h&name=n", "name");
    assert_eq!(r, Ok(String::from("h")));
}

#[test]
fn percent_escapes_are_kept() {
    let r = extract_query_param("http://x/y?name=a%20b&x=1", "name");
    assert_eq!(r, Ok(String::from("a%20b")));
}

#[test]
fn non_ascii_text_is_extracted_whole() {
    let r = extract_query_param("http://x/y?name=Zürich-Ω&group=é", "name");
    assert_eq!(r, Ok(String::from("Zürich-Ω")));
    let r = extract_query_param("http://x/y?name=Zürich-Ω&group=é", "group");
    assert_eq!(r, Ok(String::from("é")));
}

#[test]
fn extraction_is_repeatable() {
    let url = "http://x/y?name=A&group=B&mac=C";
    assert_eq!(extract_query_param(url, "group"), extract_query_param(url, "group"));
    assert_eq!(extract_query_param(url, "nope"), extract_query_param(url, "nope"));
}

#[test]
fn redirect_yields_access_point() {
    let location = "http://p?name=Foo&group=G1&mac=AA:BB&switch_ip=10.0.0.1";
    let ap = ap_from_response(302, Some(location)).ok().unwrap();
    assert_eq!(ap.name(), "Foo");
    assert_eq!(ap.group(), "G1");
    assert_eq!(ap.mac(), "AA:BB");
    assert_eq!(ap.switch_ip(), "10.0.0.1");
}

#[test]
fn status_200_is_unexpected_status() {
    let r = ap_from_response(200, Some("http://p?name=Foo"));
    assert!(matches!(r, Err(ProbeError::UnexpectedStatus(200))));
    let r = ap_from_response(200, None);
    assert!(matches!(r, Err(ProbeError::UnexpectedStatus(200))));
}

#[test]
fn redirect_without_location_is_missing_location() {
    let r = ap_from_response(302, None);
    assert!(matches!(r, Err(ProbeError::MissingLocation)));
}

#[test]
fn other_redirect_statuses_are_unexpected() {
    assert!(matches!(ap_from_response(301, Some("http://p?name=F")), Err(ProbeError::UnexpectedStatus(301))));
    assert!(matches!(ap_from_response(307, None), Err(ProbeError::UnexpectedStatus(307))));
}

#[test]
fn missing_fields_are_empty() {
    let ap = Ap::from("http://p?group=G1");
    assert_eq!(ap.name(), "");
    assert_eq!(ap.group(), "G1");
    assert_eq!(ap.mac(), "");
    assert_eq!(ap.switch_ip(), "");
}

#[test]
fn ap_renders_all_fields() {
    let ap = Ap::from("http://p?name=Foo&group=G1&mac=AA:BB&switch_ip=10.0.0.1");
    assert_eq!(ap.to_string(), "{ name: Foo, group: G1, mac: AA:BB, switch_ip: 10.0.0.1 }");
}

#[test]
fn check_url_parameters_are_not_access_point_fields() {
    let ap = Ap::from(CHECK_URL);
    assert_eq!(ap.name(), "");
    assert_eq!(ap.switch_ip(), "");
}
