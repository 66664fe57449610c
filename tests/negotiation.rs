use ap_federation::headers::{is_content_type_ap, AcceptMime, AcceptMimeSet, HeaderReader};

#[test]
fn test_select() {
    let reader = HeaderReader::new("text/html;q=0.1, application/activity+json");
    let candidate = AcceptMimeSet::html().union(AcceptMimeSet::ap());
    assert_eq!(Some(AcceptMime::AP), reader.select(candidate));

    let reader = HeaderReader::new("text/html");
    let candidate = AcceptMimeSet::html().union(AcceptMimeSet::ap()).union(AcceptMimeSet::json());
    assert_eq!(Some(AcceptMime::Html), reader.select(candidate));

    let reader = HeaderReader::new("application/json");
    let candidate = AcceptMimeSet::ap().union(AcceptMimeSet::json());
    assert_eq!(Some(AcceptMime::Json), reader.select(candidate));

    let reader = HeaderReader::new("application/activity+json");
    let candidate = AcceptMimeSet::html().union(AcceptMimeSet::json());
    assert_eq!(None, reader.select(candidate));

    let reader = HeaderReader::new("application/json, application/activity+json, text/html");
    let candidate = AcceptMimeSet::ap().union(AcceptMimeSet::json()).union(AcceptMimeSet::html());
    assert_eq!(Some(AcceptMime::Html), reader.select(candidate));

    let reader = HeaderReader::new("application/json, application/activity+json");
    let candidate = AcceptMimeSet::ap().union(AcceptMimeSet::json()).union(AcceptMimeSet::html());
    assert_eq!(Some(AcceptMime::AP), reader.select(candidate));
}

#[test]
fn test_is_content_type_ap() {
    assert!(is_content_type_ap("application/activity+json"));
    assert!(is_content_type_ap(
        r#"application/ld+json; profile="https://www.w3.org/ns/activitystreams""#
    ));
    assert!(!is_content_type_ap("application/ld+json"));
    assert!(!is_content_type_ap("application/json"));
    assert!(!is_content_type_ap("text/html"));
}

#[test]
fn wildcards_pick_by_priority() {
    let all = AcceptMimeSet::html().union(AcceptMimeSet::ap()).union(AcceptMimeSet::json()).union(AcceptMimeSet::xml());
    assert_eq!(Some(AcceptMime::Html), HeaderReader::new("*/*").select(all));
    assert_eq!(Some(AcceptMime::AP), HeaderReader::new("*/*").select(AcceptMimeSet::ap().union(AcceptMimeSet::xml())));
    assert_eq!(Some(AcceptMime::Xml), HeaderReader::new("text/*").select(AcceptMimeSet::xml().union(AcceptMimeSet::json())));
    assert_eq!(None, HeaderReader::new("text/*").select(AcceptMimeSet::json()));
    assert_eq!(None, HeaderReader::new("").select(all));
    assert_eq!(None, HeaderReader::new("image/png").select(all));
}

#[test]
fn quality_outranks_priority() {
    let reader = HeaderReader::new("text/html;q=0.1, application/json");
    assert_eq!(Some(AcceptMime::Html), reader.select(AcceptMimeSet::html()));
    assert_eq!(Some(AcceptMime::Json), reader.select(AcceptMimeSet::html().union(AcceptMimeSet::json())));
    let reader = HeaderReader::new("application/json;q=0.5, text/xml;q=0.500");
    assert_eq!(Some(AcceptMime::Json), reader.select(AcceptMimeSet::json().union(AcceptMimeSet::xml())));
}

#[test]
fn ld_json_needs_the_profile() {
    let reader = HeaderReader::new(r#"application/ld+json; profile="https://www.w3.org/ns/activitystreams""#);
    assert_eq!(Some(AcceptMime::AP), reader.select(AcceptMimeSet::ap()));
    let reader = HeaderReader::new("application/ld+json");
    assert_eq!(None, reader.select(AcceptMimeSet::ap()));
}

#[test]
fn larger_candidate_sets_never_choose_worse() {
    let reader = HeaderReader::new("application/json, text/html;q=0.9");
    let small = AcceptMimeSet::html();
    let large = AcceptMimeSet::html().union(AcceptMimeSet::json());
    assert_eq!(Some(AcceptMime::Html), reader.select(small));
    assert_eq!(Some(AcceptMime::Json), reader.select(large));
}

#[test]
fn singletons_hold_one_member() {
    assert!(AcceptMime::AP.to_singleton().contains(AcceptMimeSet::ap()));
    assert!(!AcceptMime::AP.to_singleton().contains(AcceptMimeSet::html()));
    assert!(AcceptMimeSet::html().union(AcceptMimeSet::ap()).contains(AcceptMimeSet::ap()));
}

#[test]
fn quality_is_read_as_an_exact_decimal() {
    let both = AcceptMimeSet::html().union(AcceptMimeSet::ap());
    let reader = HeaderReader::new("text/html;q=0.1234, application/activity+json;q=0.5");
    assert_eq!(Some(AcceptMime::AP), reader.select(both));
    let reader = HeaderReader::new("text/html;q=.5, application/activity+json;q=0.49999");
    assert_eq!(Some(AcceptMime::Html), reader.select(both));
    let reader = HeaderReader::new("text/html;q=0.50, application/activity+json;q=.5");
    assert_eq!(Some(AcceptMime::Html), reader.select(both));
    let reader = HeaderReader::new("text/html, application/activity+json;q=1.5");
    assert_eq!(Some(AcceptMime::AP), reader.select(both));
    let reader = HeaderReader::new("text/html;q=0, application/activity+json;q=0.001");
    assert_eq!(Some(AcceptMime::AP), reader.select(both));
}

#[test]
fn unreadable_accept_values_offer_nothing() {
    let all = AcceptMimeSet::html().union(AcceptMimeSet::ap()).union(AcceptMimeSet::json());
    assert_eq!(None, HeaderReader::new("é").select(all));
    assert_eq!(None, HeaderReader::new("a/b, é, text/html").select(all));
    let long = format!("{}text/html", " ".repeat(2000));
    assert_eq!(None, HeaderReader::new(&long).select(all));
    assert_eq!(Some(AcceptMime::Html), HeaderReader::new("  text/html").select(all));
}
