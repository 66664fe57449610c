use ap_federation::routes::{
    article_metadata_get, document_response, followers_collection, followers_page, get_host_meta, get_webfinger,
    user_followers_get, user_following_get, fetched_document_ok, user_get, webfinger_account, ArticleData, ArticleDataQuery, ContentType,
    FollowersStep, UserFollowingQuery, WebFingerQuery,
};
use ap_federation::headers::AcceptMime;

const BASE: &str = "https://blog.test";

fn wf(resource: &str) -> WebFingerQuery {
    WebFingerQuery { resource: resource.to_string() }
}

#[test]
fn webfinger_happy_path() {
    let resource = "acct:user1@blog.test";
    let (user, host) = webfinger_account(resource).unwrap();
    assert_eq!(user, "user1");
    assert_eq!(host, "blog.test");
    let r = get_webfinger("application/json", &wf(resource), BASE, true);
    assert_eq!(r.status, 200);
    assert_eq!(r.content_type, Some(ContentType::Json));
    assert_eq!(
        r.body,
        "{\"subject\":\"acct:user1@blog.test\",\"links\":[{\"rel\":\"self\",\"type\":\"application/activity+json\",\"href\":\"https://blog.test/users/user1\"}]}"
    );
}

#[test]
fn webfinger_host_mismatch() {
    assert_eq!(get_webfinger("application/json", &wf("acct:user1@other.test"), BASE, true).status, 404);
    assert_eq!(get_webfinger("application/json", &wf("acct:user1@blog.test"), BASE, false).status, 404);
    assert_eq!(get_webfinger("application/json", &wf("user1@blog.test"), BASE, true).status, 404);
    assert_eq!(get_webfinger("text/html", &wf("acct:user1@blog.test"), BASE, true).status, 406);
    assert_eq!(get_webfinger("application/json", &wf("acct:user1@blog.test"), "http://blog.test/", true).status, 200);
}

#[test]
fn webfinger_splits_at_the_last_at_sign() {
    let (user, host) = webfinger_account("acct:a@b@c").unwrap();
    assert_eq!(user, "a@b");
    assert_eq!(host, "c");
    assert!(webfinger_account("acct:@c").is_none());
    assert!(webfinger_account("acct:a@").is_none());
}

#[test]
fn host_meta_points_at_webfinger() {
    let r = get_host_meta("application/xrd+xml, text/xml", BASE);
    assert_eq!(r.status, 200);
    assert_eq!(r.content_type, Some(ContentType::Xml));
    assert_eq!(
        r.body,
        "<?xml version=\"1.0\"?><XRD xmlns=\"http://docs.oasis-open.org/ns/xri/xrd-1.0\"><Link rel=\"lrdd\" type=\"application/xrd+xml\" template=\"https://blog.test/.well-known/webfinger?resource={uri}\"/></XRD>"
    );
    assert_eq!(get_host_meta("application/json", BASE).status, 406);
}

#[test]
fn documents_by_negotiation() {
    assert_eq!(user_get("application/activity+json").unwrap(), AcceptMime::AP);
    assert_eq!(user_get("text/html").unwrap(), AcceptMime::Html);
    assert_eq!(user_get("application/json").unwrap_err().status, 406);
    let r = document_response(AcceptMime::AP, Some("{}".to_string()));
    assert_eq!(r.status, 200);
    assert_eq!(r.content_type.unwrap().as_str(), "application/activity+json");
    assert_eq!(document_response(AcceptMime::Html, None).status, 404);
}

#[test]
fn article_counts_as_json() {
    let r = article_metadata_get("application/json", 12, 0);
    assert_eq!(r.status, 200);
    assert_eq!(r.body, "{\"comment_count\":12,\"reaction_count\":0}");
    assert_eq!(article_metadata_get("text/html", 1, 1).status, 406);
}

#[test]
fn followers_negotiation() {
    assert!(matches!(user_followers_get("application/activity+json", "user1", true, &UserFollowingQuery { until: None }), FollowersStep::Collection));
    assert!(matches!(user_followers_get("application/activity+json", "user1", true, &UserFollowingQuery { until: Some(5) }), FollowersStep::Page { until: 5 }));
    assert!(matches!(user_followers_get("text/html", "user1", true, &UserFollowingQuery { until: None }), FollowersStep::ServeHtml));
    match user_followers_get("text/html", "user1", true, &UserFollowingQuery { until: Some(5) }) {
        FollowersStep::Respond(r) => {
            assert_eq!(r.status, 308);
            assert_eq!(r.location.as_deref(), Some("/users/user1/followers"));
        }
        other => panic!("unexpected step {other:?}"),
    }
    match user_followers_get("application/json", "user1", true, &UserFollowingQuery { until: None }) {
        FollowersStep::Respond(r) => {
            assert_eq!(r.status, 308);
            assert_eq!(r.location.as_deref(), Some("/users/user1/followers?until=9223372036854775807"));
        }
        other => panic!("unexpected step {other:?}"),
    }
    assert!(matches!(user_followers_get("text/html", "user1", false, &UserFollowingQuery { until: None }), FollowersStep::Respond(r) if r.status == 404));
    assert!(matches!(user_followers_get("text/xml", "user1", true, &UserFollowingQuery { until: None }), FollowersStep::Respond(r) if r.status == 406));
}

#[test]
fn followers_collection_and_pages() {
    let r = followers_collection(BASE, "user1", 26);
    assert_eq!(
        r.body,
        "{\"@context\":\"https://www.w3.org/ns/activitystreams\",\"type\":\"OrderedCollection\",\"id\":\"https://blog.test/users/user1/followers\",\"totalItems\":26,\"first\":\"https://blog.test/users/user1/followers?until=9223372036854775807\"}"
    );
    let r = followers_page(BASE, "user1", 100, &vec!["https://a.test/users/a".to_string()], 7);
    assert_eq!(
        r.body,
        "{\"@context\":\"https://www.w3.org/ns/activitystreams\",\"type\":\"OrderedCollectionPage\",\"id\":\"https://blog.test/users/user1/followers?until=100\",\"partOf\":\"https://blog.test/users/user1/followers\",\"items\":[\"https://a.test/users/a\"]}"
    );
    let ten: Vec<String> = (0..10).map(|i| format!("a{i}")).collect();
    let r = followers_page(BASE, "user1", 100, &ten, 7);
    assert!(r.body.contains(",\"next\":\"https://blog.test/users/user1/followers?until=7\","));
    assert!(r.body.ends_with("\"a9\"]}"));
    let r = followers_page(BASE, "user1", 0, &vec![], 0);
    assert!(r.body.ends_with("\"items\":[]}"));
}

#[test]
fn following_is_empty() {
    let r = user_following_get("application/activity+json", BASE, "user1", true);
    assert_eq!(
        r.body,
        "{\"@context\":\"https://www.w3.org/ns/activitystreams\",\"id\":\"https://blog.test/users/user1/following\",\"type\":\"OrderedCollection\",\"totalItems\":0,\"items\":[]}"
    );
    assert_eq!(user_following_get("application/activity+json", BASE, "user1", false).status, 404);
    assert_eq!(user_following_get("text/html", BASE, "user1", true).status, 406);
}

#[test]
fn article_query_dispatch() {
    assert!(ArticleDataQuery { data: Some(ArticleData::Meta) }.wants_metadata());
    assert!(!ArticleDataQuery { data: None }.wants_metadata());
}

#[test]
fn fetched_documents_need_success_and_ap_type() {
    assert!(fetched_document_ok(200, Some("application/activity+json")));
    assert!(!fetched_document_ok(404, Some("application/activity+json")));
    assert!(!fetched_document_ok(200, Some("text/html")));
    assert!(!fetched_document_ok(200, None));
}

#[test]
fn json_strings_are_escaped() {
    let r = user_following_get("application/activity+json", BASE, "a\"b\\c\nd\u{1}", true);
    assert_eq!(
        r.body,
        "{\"@context\":\"https://www.w3.org/ns/activitystreams\",\"id\":\"https://blog.test/users/a\\\"b\\\\c\\nd\\u0001/following\",\"type\":\"OrderedCollection\",\"totalItems\":0,\"items\":[]}"
    );
}
