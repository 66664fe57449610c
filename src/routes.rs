use vstd::prelude::*;
use vstd::string::*;
use crate::headers::{AcceptMime, AcceptMimeSet, HeaderReader, is_content_type_ap, content_type_is_ap, mime_set, negotiate};
use crate::inbound::{accept_follow_activity, accept_follow_json};
use crate::queue::{activity_id, article_activity, article_activity_json, is_delivery_post, user_url, user_url_string, DeliveryKind, OutboundPost, QueueData};
use crate::text::{
    cat2, cat3, decimal, decimal_of, has_prefix, json_array_of, json_quote, json_string_array,
    json_string_of, strip_prefix,
};
use crate::verify::VerifyResult;

verus! {

/// The content type of a response.
#[derive(Debug, Clone, Copy, PartialEq, Eq, Structural)]
pub enum ContentType {
    Html,
    ActivityJson,
    Json,
    Xml,
}

impl ContentType {
    pub open spec fn text(self) -> Seq<char> {
        match self {
            ContentType::Html => "text/html"@,
            ContentType::ActivityJson => "application/activity+json"@,
            ContentType::Json => "application/json"@,
            ContentType::Xml => "text/xml"@,
        }
    }

    /// The `Content-Type` header value.
    pub fn as_str(&self) -> (r: &'static str)
        ensures
            r@ == self.text(),
    {
        match self {
            ContentType::Html => "text/html",
            ContentType::ActivityJson => "application/activity+json",
            ContentType::Json => "application/json",
            ContentType::Xml => "text/xml",
        }
    }
}

/// An HTTP response of an endpoint.
#[derive(Debug)]
pub struct Response {
    pub status: u16,
    pub content_type: Option<ContentType>,
    /// The `Location` of a redirect.
    pub location: Option<String>,
    pub body: String,
}

/// A response with no body.
pub open spec fn is_bare(r: Response, status: u16) -> bool {
    r.status == status && r.content_type is None && r.location is None && r.body@.len() == 0
}

/// A `200` response.
pub open spec fn is_ok(r: Response, ty: ContentType, body: Seq<char>) -> bool {
    r.status == 200 && r.content_type == Some(ty) && r.location is None && r.body@ == body
}

pub fn bare(status: u16) -> (r: Response)
    ensures
        is_bare(r, status),
{
    Response { status, content_type: None, location: None, body: String::new() }
}

pub fn ok(ty: ContentType, body: String) -> (r: Response)
    ensures
        is_ok(r, ty, body@),
{
    Response { status: 200, content_type: Some(ty), location: None, body }
}

/// The query of `GET /.well-known/webfinger`.
#[derive(Debug, Clone)]
pub struct WebFingerQuery {
    pub resource: String,
}

/// The query of `GET /users/{username}/followers`.
#[derive(Debug, Clone, Copy)]
pub struct UserFollowingQuery {
    pub until: Option<u64>,
}

/// The query of `GET /users/{username}/accept_follow`.
#[derive(Debug, Clone)]
pub struct AcceptFollowQuery {
    pub object: String,
}

/// What `GET /articles/{slug}?data=...` asks for.
#[derive(Debug, Clone, Copy, PartialEq, Eq, Structural)]
pub enum ArticleData {
    Meta,
}

/// The query of `GET /articles/{slug}`.
#[derive(Debug, Clone, Copy)]
pub struct ArticleDataQuery {
    pub data: Option<ArticleData>,
}

impl ArticleDataQuery {
    /// Whether the article's counts are asked for (`data=meta`) rather than the article.
    pub fn wants_metadata(&self) -> (r: bool)
        ensures
            r == (self.data matches Some(ArticleData::Meta)),
    {
        match self.data {
            Some(ArticleData::Meta) => true,
            None => false,
        }
    }
}

/// The content type of a negotiated representation.
pub open spec fn content_type_of(m: AcceptMime) -> ContentType {
    match m {
        AcceptMime::Html => ContentType::Html,
        AcceptMime::AP => ContentType::ActivityJson,
        AcceptMime::Json => ContentType::Json,
        AcceptMime::Xml => ContentType::Xml,
    }
}

pub fn content_type_for(m: AcceptMime) -> (r: ContentType)
    ensures
        r == content_type_of(m),
{
    match m {
        AcceptMime::Html => ContentType::Html,
        AcceptMime::AP => ContentType::ActivityJson,
        AcceptMime::Json => ContentType::Json,
        AcceptMime::Xml => ContentType::Xml,
    }
}

/// The response that serves a stored document in the negotiated
/// representation `m`: `404` when there is none.
pub fn document_response(m: AcceptMime, doc: Option<String>) -> (r: Response)
    ensures
        match doc {
            Some(d) => is_ok(r, content_type_of(m), d@),
            None => is_bare(r, 404),
        },
{
    match doc {
        Some(d) => ok(content_type_for(m), d),
        None => bare(404),
    }
}

/// The host-meta XRD of the blog at `base`.
pub open spec fn host_meta_xml(base: Seq<char>) -> Seq<char> {
    "<?xml version=\"1.0\"?><XRD xmlns=\"http://docs.oasis-open.org/ns/xri/xrd-1.0\"><Link rel=\"lrdd\" type=\"application/xrd+xml\" template=\""@
        + base + "/.well-known/webfinger?resource={uri}\"/></XRD>"@
}

/// `GET /.well-known/host-meta`: the XRD, or `406` unless XML is acceptable.
pub fn get_host_meta(accept: &str, base: &str) -> (r: Response)
    ensures
        negotiate(accept@, mime_set(false, false, false, true)) is None ==> is_bare(r, 406),
        negotiate(accept@, mime_set(false, false, false, true)) is Some ==> is_ok(r, ContentType::Xml, host_meta_xml(base@)),
{
    let reader = HeaderReader::new(accept);
    if reader.select(AcceptMimeSet::xml()).is_none() {
        return bare(406);
    }
    let body = cat3(
        "<?xml version=\"1.0\"?><XRD xmlns=\"http://docs.oasis-open.org/ns/xri/xrd-1.0\"><Link rel=\"lrdd\" type=\"application/xrd+xml\" template=\"",
        base,
        "/.well-known/webfinger?resource={uri}\"/></XRD>",
    );
    ok(ContentType::Xml, body)
}

/// `s` is `acct:{user}@{host}`: the split that `\\Aacct:(.+)@(.+)\\z` makes,
/// at the last `@` that has a character after it.
pub open spec fn acct_parts(s: Seq<char>, user: Seq<char>, host: Seq<char>) -> bool {
    exists|p: int|
        5 < p < s.len() - 1 && s[p] == '@' && (forall|q: int| p < q < s.len() - 1 ==> s[q] != '@')
            && user == s.subrange(5, p) && host == s.subrange(p + 1, s.len() as int)
}

/// `s` matches `\\Aacct:(.+)@(.+)\\z`: it starts with `acct:`, holds no line
/// feed, and has an `@` with a character before it (after `acct:`) and after it.
pub open spec fn is_acct(s: Seq<char>) -> bool {
    &&& has_prefix(s, "acct:"@)
    &&& forall|i: int| 0 <= i < s.len() ==> s[i] != '\n'
    &&& exists|p: int| 5 < p < s.len() - 1 && s[p] == '@'
}

/// Relies on regex's `Regex::new` and `captures` for the pattern
/// `\Aacct:(.+)@(.+)\z`, where `.` is any character but a line feed and `+`
/// is greedy.
#[verifier::external_body]
fn acct_captures(s: &str) -> (r: Option<(String, String)>)
    ensures
        r is Some <==> is_acct(s@),
        r matches Some((u, h)) ==> acct_parts(s@, u@, h@),
{
    let re = regex::Regex::new("\\Aacct:(.+)@(.+)\\z").ok()?;
    let c = re.captures(s)?;
    Some((c.get(1)?.as_str().to_owned(), c.get(2)?.as_str().to_owned()))
}

/// The user and host of a WebFinger `resource`, if it is an `acct:` URI.
pub fn webfinger_account(resource: &str) -> (r: Option<(String, String)>)
    ensures
        r is Some <==> is_acct(resource@),
        r matches Some((u, h)) ==> acct_parts(resource@, u@, h@),
{
    acct_captures(resource)
}

/// The host of the base URL: without `https://` or `http://` and without one
/// trailing `/`.
pub open spec fn base_host(base: Seq<char>) -> Seq<char> {
    let h = if has_prefix(base, "https://"@) {
        base.subrange(8, base.len() as int)
    } else if has_prefix(base, "http://"@) {
        base.subrange(7, base.len() as int)
    } else {
        base
    };
    if h.len() > 0 && h.last() == '/' {
        h.drop_last()
    } else {
        h
    }
}

pub fn base_host_of(base: &str) -> (r: String)
    ensures
        r@ == base_host(base@),
{
    proof {
        reveal_strlit("https://");
        reveal_strlit("http://");
    }
    let h = match strip_prefix(base, "https://") {
        Some(h) => h,
        None => match strip_prefix(base, "http://") {
            Some(h) => h,
            None => base.to_owned(),
        },
    };
    let n = h.unicode_len();
    if n > 0 && h.as_str().get_char(n - 1) == '/' {
        h.as_str().substring_char(0, n - 1).to_owned()
    } else {
        h
    }
}

/// The WebFinger document of `resource`, pointing at the actor `href`.
pub open spec fn webfinger_json(resource: Seq<char>, href: Seq<char>) -> Seq<char> {
    "{\"subject\":"@ + json_string_of(resource)
        + ",\"links\":[{\"rel\":\"self\",\"type\":\"application/activity+json\",\"href\":"@
        + json_string_of(href) + "}]}"@
}

/// `GET /.well-known/webfinger?resource=...`.  `user_exists` tells whether the
/// user that `webfinger_account` reads from the resource exists.  `406` unless
/// JSON is acceptable; `404` for a resource that is not `acct:user@host`, an
/// unknown user, or a host other than the blog's.
pub fn get_webfinger(accept: &str, query: &WebFingerQuery, base: &str, user_exists: bool) -> (r: Response)
    ensures
        negotiate(accept@, mime_set(false, false, true, false)) is None ==> is_bare(r, 406),
        negotiate(accept@, mime_set(false, false, true, false)) is Some ==> {
            if is_acct(query.resource@) && user_exists && (exists|u: Seq<char>|
                acct_parts(query.resource@, u, base_host(base@))) {
                exists|u: Seq<char>|
                    acct_parts(query.resource@, u, base_host(base@)) && is_ok(
                        r,
                        ContentType::Json,
                        webfinger_json(query.resource@, user_url(base@, u)),
                    )
            } else {
                is_bare(r, 404)
            }
        },
{
    let reader = HeaderReader::new(accept);
    if reader.select(AcceptMimeSet::json()).is_none() {
        return bare(406);
    }
    let (user, host) = match webfinger_account(query.resource.as_str()) {
        Some(x) => x,
        None => {
            return bare(404);
        },
    };
    if !user_exists {
        return bare(404);
    }
    let mine = base_host_of(base);
    if !crate::text::str_eq(host.as_str(), mine.as_str()) {
        proof {
            assert forall|u: Seq<char>| !acct_parts(query.resource@, u, base_host(base@)) by {
                if acct_parts(query.resource@, u, base_host(base@)) {
                    acct_unique(query.resource@, user@, host@, u, base_host(base@));
                }
            }
        }
        return bare(404);
    }
    let subject = json_quote(query.resource.as_str());
    let href = json_quote(user_url_string(base, user.as_str()).as_str());
    let mut body = String::from_str("{\"subject\":");
    body.append(subject.as_str());
    body.append(",\"links\":[{\"rel\":\"self\",\"type\":\"application/activity+json\",\"href\":");
    body.append(href.as_str());
    body.append("}]}");
    ok(ContentType::Json, body)
}

proof fn acct_unique(s: Seq<char>, u1: Seq<char>, h1: Seq<char>, u2: Seq<char>, h2: Seq<char>)
    requires
        acct_parts(s, u1, h1),
        acct_parts(s, u2, h2),
    ensures
        u1 == u2 && h1 == h2,
{
    let at_first = choose|p: int|
        5 < p < s.len() - 1 && s[p] == '@' && (forall|q: int| p < q < s.len() - 1 ==> s[q] != '@')
            && u1 == s.subrange(5, p) && h1 == s.subrange(p + 1, s.len() as int);
    let at_second = choose|p: int|
        5 < p < s.len() - 1 && s[p] == '@' && (forall|q: int| p < q < s.len() - 1 ==> s[q] != '@')
            && u2 == s.subrange(5, p) && h2 == s.subrange(p + 1, s.len() as int);
    assert(at_first == at_second);
}

/// The `until` cursor that starts the followers collection (`i64::MAX`).
pub const MAX_UNTIL: u64 = 9223372036854775807;

/// A redirect with `status` to `location`.
pub open spec fn is_redirect(r: Response, status: u16, location: Seq<char>) -> bool {
    &&& r.status == status
    &&& r.content_type is None
    &&& r.body@.len() == 0
    &&& r.location matches Some(l) && l@ == location
}

/// The representation a document endpoint answers with, or `406`.
pub fn negotiate_document(accept: &str, candidate: AcceptMimeSet) -> (r: Result<AcceptMime, Response>)
    ensures
        match negotiate(accept@, candidate) {
            Some(m) => r == Ok::<AcceptMime, Response>(m),
            None => r matches Err(e) && is_bare(e, 406),
        },
{
    let reader = HeaderReader::new(accept);
    match reader.select(candidate) {
        Some(m) => Ok(m),
        None => Err(bare(406)),
    }
}

/// `GET /users/{username}`: HTML or ActivityPub; serve the chosen document
/// with `document_response`.
pub fn user_get(accept: &str) -> (r: Result<AcceptMime, Response>)
    ensures
        match negotiate(accept@, mime_set(true, true, false, false)) {
            Some(m) => r == Ok::<AcceptMime, Response>(m),
            None => r matches Err(e) && is_bare(e, 406),
        },
{
    negotiate_document(accept, AcceptMimeSet::html().union(AcceptMimeSet::ap()))
}

/// `GET /articles/{slug}`: HTML or ActivityPub; serve the chosen document
/// with `document_response`.
pub fn article_get(accept: &str) -> (r: Result<AcceptMime, Response>)
    ensures
        match negotiate(accept@, mime_set(true, true, false, false)) {
            Some(m) => r == Ok::<AcceptMime, Response>(m),
            None => r matches Err(e) && is_bare(e, 406),
        },
{
    negotiate_document(accept, AcceptMimeSet::html().union(AcceptMimeSet::ap()))
}

/// `{"comment_count":C,"reaction_count":R}`.
pub open spec fn metadata_json(comments: u64, reactions: u64) -> Seq<char> {
    "{\"comment_count\":"@ + decimal_of(comments as nat) + ",\"reaction_count\":"@ + decimal_of(
        reactions as nat,
    ) + "}"@
}

/// `GET /articles/{slug}?data=meta`: the article's counts, as JSON.
pub fn article_metadata_get(accept: &str, comment_count: u64, reaction_count: u64) -> (r: Response)
    ensures
        negotiate(accept@, mime_set(false, false, true, false)) is None ==> is_bare(r, 406),
        negotiate(accept@, mime_set(false, false, true, false)) is Some ==> is_ok(
            r,
            ContentType::Json,
            metadata_json(comment_count, reaction_count),
        ),
{
    let reader = HeaderReader::new(accept);
    if reader.select(AcceptMimeSet::json()).is_none() {
        return bare(406);
    }
    let mut body = String::from_str("{\"comment_count\":");
    body.append(decimal(comment_count).as_str());
    body.append(",\"reaction_count\":");
    body.append(decimal(reaction_count).as_str());
    body.append("}");
    ok(ContentType::Json, body)
}

/// `GET /events/articles/{kind}/{slug}`: the canonical activity of the event.
/// `406` unless ActivityPub is acceptable; `404` when a created or updated
/// article does not exist, or when the article's author is unknown.  A
/// deletion is served whenever its author is known, whether or not the
/// article is still stored.
pub fn article_events_get(
    kind: DeliveryKind,
    accept: &str,
    base: &str,
    slug: &str,
    exists: bool,
    author: Option<String>,
) -> (r: Response)
    ensures
        negotiate(accept@, mime_set(false, true, false, false)) is None ==> is_bare(r, 406),
        negotiate(accept@, mime_set(false, true, false, false)) is Some ==> {
            if (!exists && kind != DeliveryKind::Delete) || author is None {
                is_bare(r, 404)
            } else {
                is_ok(r, ContentType::ActivityJson, article_activity_json(base@, kind, slug@, author->Some_0@))
            }
        },
{
    let reader = HeaderReader::new(accept);
    if reader.select(AcceptMimeSet::ap()).is_none() {
        return bare(406);
    }
    let is_delete = match kind {
        DeliveryKind::Delete => true,
        _ => false,
    };
    if !exists && !is_delete {
        return bare(404);
    }
    match author {
        None => bare(404),
        Some(a) => ok(ContentType::ActivityJson, article_activity(base, kind, slug, a.as_str())),
    }
}

/// `GET /users/{username}/accept_follow?object=...`: the `Accept` of the
/// follow `object`.  `404` for an unknown user, then `406` unless ActivityPub
/// is acceptable.
pub fn user_accept_follow_get(accept: &str, base: &str, username: &str, user_exists: bool, query: &AcceptFollowQuery) -> (r:
    Response)
    ensures
        !user_exists ==> is_bare(r, 404),
        user_exists && negotiate(accept@, mime_set(false, true, false, false)) is None ==> is_bare(r, 406),
        user_exists && negotiate(accept@, mime_set(false, true, false, false)) is Some ==> is_ok(
            r,
            ContentType::ActivityJson,
            accept_follow_json(base@, username@, query.object@, query.object@),
        ),
{
    if !user_exists {
        return bare(404);
    }
    let reader = HeaderReader::new(accept);
    if reader.select(AcceptMimeSet::ap()).is_none() {
        return bare(406);
    }
    ok(ContentType::ActivityJson, accept_follow_activity(base, username, query.object.as_str(), query.object.as_str()))
}

/// The empty following collection of `username`.
pub open spec fn following_json(base: Seq<char>, username: Seq<char>) -> Seq<char> {
    "{\"@context\":\"https://www.w3.org/ns/activitystreams\",\"id\":"@ + json_string_of(
        user_url(base, username) + "/following"@,
    ) + ",\"type\":\"OrderedCollection\",\"totalItems\":0,\"items\":[]}"@
}

/// `GET /users/{username}/following`: always empty.  `406` unless ActivityPub
/// is acceptable, then `404` for an unknown user.
pub fn user_following_get(accept: &str, base: &str, username: &str, user_exists: bool) -> (r: Response)
    ensures
        negotiate(accept@, mime_set(false, true, false, false)) is None ==> is_bare(r, 406),
        negotiate(accept@, mime_set(false, true, false, false)) is Some && !user_exists ==> is_bare(r, 404),
        negotiate(accept@, mime_set(false, true, false, false)) is Some && user_exists ==> is_ok(
            r,
            ContentType::ActivityJson,
            following_json(base@, username@),
        ),
{
    let reader = HeaderReader::new(accept);
    if reader.select(AcceptMimeSet::ap()).is_none() {
        return bare(406);
    }
    if !user_exists {
        return bare(404);
    }
    let me = user_url_string(base, username);
    let id = json_quote(cat2(me.as_str(), "/following").as_str());
    let mut body = String::from_str("{\"@context\":\"https://www.w3.org/ns/activitystreams\",\"id\":");
    body.append(id.as_str());
    body.append(",\"type\":\"OrderedCollection\",\"totalItems\":0,\"items\":[]}");
    ok(ContentType::ActivityJson, body)
}

/// `GET /users/{username}/outbox`: an empty success.
pub fn user_outbox_get() -> (r: Response)
    ensures
        is_bare(r, 200),
{
    bare(200)
}

/// What `GET /users/{username}/followers[?until=N]` does.
#[derive(Debug)]
pub enum FollowersStep {
    /// Answer with this response.
    Respond(Response),
    /// Serve the followers HTML page with `document_response`.
    ServeHtml,
    /// Count the followers, then answer with `followers_collection`.
    Collection,
    /// Fetch the follower ids before `until`, then answer with `followers_page`.
    Page { until: u64 },
}

/// `/users/{username}/followers`.
pub open spec fn followers_path(username: Seq<char>) -> Seq<char> {
    "/users/"@ + username + "/followers"@
}

/// The first step of `GET /users/{username}/followers`: `404` for an unknown
/// user; then by negotiation among HTML, ActivityPub and JSON: HTML with a
/// cursor redirects (`308`) to the bare path, HTML without serves the page,
/// ActivityPub serves the collection or the page at the cursor, JSON
/// redirects to the first page; `406` otherwise.
pub fn user_followers_get(accept: &str, username: &str, user_exists: bool, query: &UserFollowingQuery) -> (r:
    FollowersStep)
    ensures
        !user_exists ==> (r matches FollowersStep::Respond(x) && is_bare(x, 404)),
        user_exists ==> match negotiate(accept@, mime_set(true, true, true, false)) {
            Some(AcceptMime::Html) => match query.until {
                Some(_) => r matches FollowersStep::Respond(x) && is_redirect(x, 308, followers_path(username@)),
                None => r is ServeHtml,
            },
            Some(AcceptMime::AP) => match query.until {
                Some(u) => r == (FollowersStep::Page { until: u }),
                None => r is Collection,
            },
            Some(AcceptMime::Json) => r matches FollowersStep::Respond(x) && is_redirect(
                x,
                308,
                followers_path(username@) + "?until="@ + decimal_of(MAX_UNTIL as nat),
            ),
            _ => r matches FollowersStep::Respond(x) && is_bare(x, 406),
        },
{
    if !user_exists {
        return FollowersStep::Respond(bare(404));
    }
    let reader = HeaderReader::new(accept);
    let cand = AcceptMimeSet::html().union(AcceptMimeSet::ap()).union(AcceptMimeSet::json());
    let path = cat3("/users/", username, "/followers");
    match reader.select(cand) {
        Some(AcceptMime::Html) => match query.until {
            Some(_) => FollowersStep::Respond(
                Response { status: 308, content_type: None, location: Some(path), body: String::new() },
            ),
            None => FollowersStep::ServeHtml,
        },
        Some(AcceptMime::AP) => match query.until {
            Some(u) => FollowersStep::Page { until: u },
            None => FollowersStep::Collection,
        },
        Some(AcceptMime::Json) => {
            let first = cat3(path.as_str(), "?until=", decimal(MAX_UNTIL).as_str());
            FollowersStep::Respond(
                Response { status: 308, content_type: None, location: Some(first), body: String::new() },
            )
        },
        _ => FollowersStep::Respond(bare(406)),
    }
}

/// `{base}/users/{username}/followers`.
pub open spec fn followers_url(base: Seq<char>, username: Seq<char>) -> Seq<char> {
    user_url(base, username) + "/followers"@
}

/// The followers `OrderedCollection`: its size and the link to its first page.
pub open spec fn followers_collection_json(base: Seq<char>, username: Seq<char>, total: u64) -> Seq<char> {
    "{\"@context\":\"https://www.w3.org/ns/activitystreams\",\"type\":\"OrderedCollection\",\"id\":"@
        + json_string_of(followers_url(base, username)) + ",\"totalItems\":"@ + decimal_of(total as nat)
        + ",\"first\":"@ + json_string_of(
        followers_url(base, username) + "?until="@ + decimal_of(MAX_UNTIL as nat),
    ) + "}"@
}

pub fn followers_collection(base: &str, username: &str, total: u64) -> (r: Response)
    ensures
        is_ok(r, ContentType::ActivityJson, followers_collection_json(base@, username@, total)),
{
    let url = cat2(user_url_string(base, username).as_str(), "/followers");
    let id = json_quote(url.as_str());
    let first = json_quote(cat3(url.as_str(), "?until=", decimal(MAX_UNTIL).as_str()).as_str());
    let mut body = String::from_str(
        "{\"@context\":\"https://www.w3.org/ns/activitystreams\",\"type\":\"OrderedCollection\",\"id\":",
    );
    body.append(id.as_str());
    body.append(",\"totalItems\":");
    body.append(decimal(total).as_str());
    body.append(",\"first\":");
    body.append(first.as_str());
    body.append("}");
    ok(ContentType::ActivityJson, body)
}

/// One `OrderedCollectionPage` of followers: the page at `until`, part of the
/// collection, with a link to the page at `next` only when the page is full.
pub open spec fn followers_page_json(
    base: Seq<char>,
    username: Seq<char>,
    until: u64,
    items: Seq<Seq<char>>,
    next: u64,
) -> Seq<char> {
    let url = followers_url(base, username);
    "{\"@context\":\"https://www.w3.org/ns/activitystreams\",\"type\":\"OrderedCollectionPage\",\"id\":"@
        + json_string_of(url + "?until="@ + decimal_of(until as nat)) + ",\"partOf\":"@
        + json_string_of(url) + (if items.len() == 10 {
        ",\"next\":"@ + json_string_of(url + "?until="@ + decimal_of(next as nat))
    } else {
        Seq::empty()
    }) + ",\"items\":"@ + json_array_of(items) + "}"@
}

pub fn followers_page(base: &str, username: &str, until: u64, items: &Vec<String>, next: u64) -> (r: Response)
    requires
        items.len() <= 10,
    ensures
        is_ok(
            r,
            ContentType::ActivityJson,
            followers_page_json(base@, username@, until, items@.map_values(|s: String| s@), next),
        ),
{
    let url = cat2(user_url_string(base, username).as_str(), "/followers");
    let id = json_quote(cat3(url.as_str(), "?until=", decimal(until).as_str()).as_str());
    let part_of = json_quote(url.as_str());
    let mut body = String::from_str(
        "{\"@context\":\"https://www.w3.org/ns/activitystreams\",\"type\":\"OrderedCollectionPage\",\"id\":",
    );
    body.append(id.as_str());
    body.append(",\"partOf\":");
    body.append(part_of.as_str());
    let ghost before = body@;
    let ghost url_v = followers_url(base@, username@);
    assert(url@ == url_v);
    assert(before == "{\"@context\":\"https://www.w3.org/ns/activitystreams\",\"type\":\"OrderedCollectionPage\",\"id\":"@
        + json_string_of(url_v + "?until="@ + decimal_of(until as nat)) + ",\"partOf\":"@
        + json_string_of(url_v));
    let ghost tail: Seq<char> = if items@.len() == 10 {
        ",\"next\":"@ + json_string_of(url_v + "?until="@ + decimal_of(next as nat))
    } else {
        Seq::empty()
    };
    if items.len() == 10 {
        let n = json_quote(cat3(url.as_str(), "?until=", decimal(next).as_str()).as_str());
        body.append(",\"next\":");
        body.append(n.as_str());
        assert(body@ =~= before + tail);
    } else {
        assert(body@ =~= before + tail);
    }
    let ghost mid = body@;
    body.append(",\"items\":");
    body.append(json_string_array(items).as_str());
    body.append("}");
    let ghost v = items@.map_values(|s: String| s@);
    assert(v.len() == items@.len());
    assert(body@ =~= mid + ",\"items\":"@ + json_array_of(v) + "}"@);
    ok(ContentType::ActivityJson, body)
}

/// The checks of `POST /users/{username}/inbox` before the body is read: `404`
/// for an unknown user, `400` unless the content type is ActivityPub's.
pub fn inbox_precheck(user_exists: bool, content_type: Option<&str>) -> (r: Option<Response>)
    ensures
        !user_exists ==> (r matches Some(x) && is_bare(x, 404)),
        user_exists ==> match content_type {
            Some(t) if content_type_is_ap(t@) => r is None,
            _ => r matches Some(x) && is_bare(x, 400),
        },
{
    if !user_exists {
        return Some(bare(404));
    }
    match content_type {
        Some(t) => if is_content_type_ap(t) {
            None
        } else {
            Some(bare(400))
        },
        None => Some(bare(400)),
    }
}

/// The rest of `POST /users/{username}/inbox`, once the body was read and
/// checked: `verdict` is the final verdict (digest included), `body` the text
/// of the body (`None`: unreadable or not UTF-8), `activity` its top-level
/// `type` and `id` (`None`: malformed).  A failed verification, an unreadable
/// body or a malformed activity is `400`; otherwise the job to enqueue, which
/// carries the body only when it was verified (answer `202`).
pub fn user_inbox_post(
    username: String,
    verdict: VerifyResult,
    body: Option<String>,
    activity: Option<(String, String)>,
) -> (r: Result<QueueData, Response>)
    ensures
        verdict == VerifyResult::Failed || body is None || activity is None ==> (r matches Err(x)
            && is_bare(x, 400)),
        !(verdict == VerifyResult::Failed || body is None || activity is None) ==> (r matches Ok(
            QueueData::Inbox { username: u, ty, id, verified_body },
        ) && u == username && ty == activity->Some_0.0 && id == activity->Some_0.1 && verified_body
            == (if verdict == VerifyResult::Verified {
            body
        } else {
            None
        })),
{
    if verdict == VerifyResult::Failed {
        return Err(bare(400));
    }
    let text = match body {
        Some(t) => t,
        None => {
            return Err(bare(400));
        },
    };
    let (ty, id) = match activity {
        Some(a) => a,
        None => {
            return Err(bare(400));
        },
    };
    let verified_body = if verdict == VerifyResult::Verified {
        Some(text)
    } else {
        None
    };
    Ok(QueueData::Inbox { username, ty, id, verified_body })
}

/// The answer to an accepted inbox post.
pub fn accepted() -> (r: Response)
    ensures
        is_bare(r, 202),
{
    bare(202)
}

/// How every article-event document begins: its context and its id, which
/// depends on the base URL, the kind and the slug alone.
pub open spec fn activity_head(base: Seq<char>, kind: DeliveryKind, slug: Seq<char>) -> Seq<char> {
    "{\"@context\":\"https://www.w3.org/ns/activitystreams\",\"id\":"@ + json_string_of(
        activity_id(base, kind, slug),
    )
}

/// A delivery posts the very document that `GET /events/articles/{kind}/{slug}`
/// serves, and both begin with the id `{base}/events/articles/{kind}/{slug}`,
/// whoever the author and whatever the inbox.
pub proof fn lemma_delivery_id_stability(
    base: Seq<char>,
    kind: DeliveryKind,
    slug: Seq<char>,
    author: Seq<char>,
    inbox: Seq<char>,
    post: OutboundPost,
    served: Response,
)
    requires
        is_delivery_post(post, base, kind, slug, author, inbox),
        is_ok(served, ContentType::ActivityJson, article_activity_json(base, kind, slug, author)),
    ensures
        post.body@ == served.body@,
        post.body@.subrange(0, activity_head(base, kind, slug).len() as int) == activity_head(base, kind, slug),
{
    let head = activity_head(base, kind, slug);
    let doc = article_activity_json(base, kind, slug, author);
    let rest = ",\"type\":\""@ + crate::queue::kind_type(kind) + "\",\"actor\":"@ + json_string_of(
        user_url(base, author),
    ) + ",\"object\":"@ + json_string_of(crate::queue::article_url(base, slug)) + "}"@;
    assert(doc =~= head + rest);
    assert(doc.subrange(0, head.len() as int) =~= head);
}

/// Whether a fetched remote document can be used: a success status and an
/// ActivityPub content type.
pub fn fetched_document_ok(status: u16, content_type: Option<&str>) -> (r: bool)
    ensures
        r == (200 <= status < 300 && match content_type {
            Some(t) => content_type_is_ap(t@),
            None => false,
        }),
{
    if status < 200 || status >= 300 {
        return false;
    }
    match content_type {
        Some(t) => is_content_type_ap(t),
        None => false,
    }
}

} // verus!
