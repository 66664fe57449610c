use ap_federation::http::HttpRequest;
use ap_federation::signature::{sign, SignError};
use ap_federation::store::FollowerList;
use ap_federation::verify::{final_verdict, parse_signature_header, verify_request, VerifyResult};
use rsa::pkcs8::{EncodePrivateKey, EncodePublicKey, LineEnding};

fn test_key() -> rsa::RsaPrivateKey {
    let mut rng = rsa::rand_core::OsRng;
    rsa::RsaPrivateKey::new(&mut rng, 1024).unwrap()
}

fn pem_of(key: &rsa::RsaPrivateKey) -> String {
    key.to_pkcs8_pem(LineEnding::LF).unwrap().to_string()
}

fn header<'a>(req: &'a HttpRequest, name: &str) -> Option<&'a str> {
    req.headers.iter().find(|(k, _)| k.eq_ignore_ascii_case(name)).map(|(_, v)| v.as_str())
}

fn request(body: &str) -> HttpRequest {
    HttpRequest {
        method: "POST".to_string(),
        authority: "a.test".to_string(),
        path_and_query: "/inbox".to_string(),
        headers: vec![("content-type".to_string(), "application/activity+json".to_string())],
        body: body.as_bytes().to_vec(),
    }
}

#[test]
fn signature_round_trip() {
    let key = test_key();
    let pem = key.to_public_key().to_public_key_pem(LineEnding::LF).unwrap();
    let signed = sign(request("{\"a\":1}"), "https://blog.test/users/user1#main-key", &pem_of(&key), 1750291200).unwrap();
    assert_eq!(header(&signed, "host"), Some("a.test"));
    assert_eq!(header(&signed, "date"), Some("Thu, 19 Jun 2025 00:00:00 GMT"));
    assert_eq!(header(&signed, "content-type"), Some("application/activity+json"));
    assert_eq!(
        header(&signed, "digest"),
        Some("SHA-256=AVq9f1zFei3ZS3WQ8ErYCEJzkF7jPsXOvq5iJ2qX+GI=")
    );
    let plan = verify_request(&signed.headers, &signed.method, &signed.path_and_query).unwrap();
    assert_eq!(plan.actor_url, "https://blog.test/users/user1");
    assert_eq!(
        plan.covered,
        "(request-target): post /inbox\ndate: Thu, 19 Jun 2025 00:00:00 GMT\nhost: a.test\ndigest: SHA-256=AVq9f1zFei3ZS3WQ8ErYCEJzkF7jPsXOvq5iJ2qX+GI="
    );
    let (verdict, body) = plan.check(Some(pem));
    assert_eq!(verdict, VerifyResult::Verified);
    let (bytes, ok) = body.collect_to_bytes(signed.body.clone());
    assert_eq!(bytes, signed.body);
    assert!(ok);
    assert_eq!(final_verdict(verdict, ok), VerifyResult::Verified);
}

#[test]
fn tampered_body_fails_the_digest() {
    let key = test_key();
    let pem = key.to_public_key().to_public_key_pem(LineEnding::LF).unwrap();
    let signed = sign(request("{\"a\":1}"), "https://blog.test/users/user1#main-key", &pem_of(&key), 1750291200).unwrap();
    let plan = verify_request(&signed.headers, &signed.method, &signed.path_and_query).unwrap();
    let (verdict, body) = plan.check(Some(pem));
    assert_eq!(verdict, VerifyResult::Verified);
    let (_, ok) = body.collect_to_bytes(b"{\"a\":2}".to_vec());
    assert!(!ok);
    assert_eq!(final_verdict(verdict, ok), VerifyResult::Failed);
}

#[test]
fn wrong_key_fails_and_missing_key_cannot_verify() {
    let key = test_key();
    let other = test_key();
    let other_pem = other.to_public_key().to_public_key_pem(LineEnding::LF).unwrap();
    let signed = sign(request("x"), "https://blog.test/users/user1#main-key", &pem_of(&key), 0).unwrap();
    let plan = verify_request(&signed.headers, &signed.method, &signed.path_and_query).unwrap();
    assert_eq!(plan.check(Some(other_pem)).0, VerifyResult::Failed);
    let plan = verify_request(&signed.headers, &signed.method, &signed.path_and_query).unwrap();
    assert_eq!(plan.check(None).0, VerifyResult::CannotVerify);
    let plan = verify_request(&signed.headers, &signed.method, &signed.path_and_query).unwrap();
    assert_eq!(plan.check(Some("not a key".to_string())).0, VerifyResult::CannotVerify);
}

#[test]
fn signer_keeps_existing_host_and_date() {
    let key = test_key();
    let mut req = request("");
    req.headers.push(("Host".to_string(), "example.test".to_string()));
    req.headers.push(("Date".to_string(), "Mon, 01 Jan 2024 00:00:00 GMT".to_string()));
    req.headers.push(("Digest".to_string(), "stale".to_string()));
    let signed = sign(req, "k", &pem_of(&key), 0).unwrap();
    assert_eq!(header(&signed, "host"), Some("example.test"));
    assert_eq!(header(&signed, "date"), Some("Mon, 01 Jan 2024 00:00:00 GMT"));
    assert_eq!(signed.headers.iter().filter(|(k, _)| k.eq_ignore_ascii_case("digest")).count(), 1);
    assert_eq!(header(&signed, "digest"), Some("SHA-256=47DEQpj8HBSa+/TImW+5JCeuQeRkm5NMpJWZG3hSuFU="));
    let sig = header(&signed, "signature").unwrap();
    assert!(sig.starts_with("keyId=\"k\",algorithm=\"rsa-sha256\",headers=\"(request-target) date host digest\",signature=\""));
    assert_eq!(sign(request(""), "k", &pem_of(&key), i64::MAX).unwrap_err(), SignError::InvalidTimestamp);
}

#[test]
fn unverifiable_requests() {
    let none: Vec<(String, String)> = vec![];
    assert_eq!(verify_request(&none, "POST", "/").unwrap_err(), VerifyResult::CannotVerify);
    let wrong_alg = vec![(
        "Signature".to_string(),
        "keyId=\"k\",algorithm=\"hs2019\",headers=\"date\",signature=\"AA==\"".to_string(),
    ), ("date".to_string(), "d".to_string())];
    assert_eq!(verify_request(&wrong_alg, "POST", "/").unwrap_err(), VerifyResult::CannotVerify);
    let missing_header = vec![(
        "signature".to_string(),
        "keyId=\"k\",algorithm=\"rsa-sha256\",headers=\"date host\",signature=\"AA==\"".to_string(),
    ), ("date".to_string(), "d".to_string())];
    assert_eq!(verify_request(&missing_header, "POST", "/").unwrap_err(), VerifyResult::CannotVerify);
}

#[test]
fn covered_string_follows_the_given_order() {
    let hs = vec![
        ("signature".to_string(), "keyId=\"https://a.test/k#main\", algorithm=\"rsa-sha256\", headers=\"host  date (request-target)\", signature=\"AA==\"".to_string()),
        ("Date".to_string(), "d1".to_string()),
        ("Host".to_string(), "h1".to_string()),
    ];
    let plan = verify_request(&hs, "GET", "/x?y=1").unwrap();
    assert_eq!(plan.covered, "host: h1\ndate: d1\n(request-target): get /x?y=1");
    assert_eq!(plan.actor_url, "https://a.test/k");
    assert!(plan.expected_digest.is_none());
    let p = parse_signature_header("keyId=\"a=b\",signature=\"x\",keyId=\"c\"");
    assert_eq!(p.key_id.as_deref(), Some("c"));
    assert_eq!(p.signature.as_deref(), Some("x"));
    assert!(p.algorithm.is_none());
}

#[test]
fn follower_pages_are_distinct_and_ascending() {
    let mut followers = FollowerList::new();
    for c in ["c", "a", "b", "a", "d"] {
        followers.add_follower(&format!("actor-{c}"), &format!("https://{c}.test/inbox"), &format!("ev-{c}"));
    }
    let (page, cursor) = followers.get_followers_inbox_batch("");
    assert_eq!(page, vec!["https://a.test/inbox", "https://b.test/inbox", "https://c.test/inbox", "https://d.test/inbox"]);
    assert_eq!(cursor, "https://d.test/inbox");
    let (page, cursor) = followers.get_followers_inbox_batch(&cursor);
    assert!(page.is_empty());
    assert_eq!(cursor, "");
    let (page, _) = followers.get_followers_inbox_batch("https://b.test/inbox");
    assert_eq!(page, vec!["https://c.test/inbox", "https://d.test/inbox"]);
}

#[test]
fn signing_is_deterministic_and_needs_a_key() {
    let key = pem_of(&test_key());
    let a = sign(request("body"), "k", &key, 1750291200).unwrap();
    let b = sign(request("body"), "k", &key, 1750291200).unwrap();
    assert_eq!(a.headers, b.headers);
    assert_eq!(sign(request("body"), "k", "not a key", 1750291200).unwrap_err(), SignError::KeyRejected);
}
