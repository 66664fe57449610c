use vstd::prelude::*;
use vstd::string::*;
use crate::text::{cat2, cat3, cat4, json_quote, json_string_of};

verus! {

/// A job that travels through the queue broker.  The variant name is the
/// record's `event_type` on the wire.
#[derive(Debug, Clone)]
pub enum QueueData {
    Inbox { username: String, ty: String, id: String, verified_body: Option<String> },
    DeliveryNewArticleToAll { slug: String },
    DeliveryUpdateArticleToAll { slug: String },
    DeliveryDeleteArticleToAll { slug: String, author: String },
    DeliveryNewArticleBatch { slug: String, author: String, last_inbox: String },
    DeliveryUpdateArticleBatch { slug: String, author: String, last_inbox: String },
    DeliveryDeleteArticleBatch { slug: String, author: String, last_inbox: String },
    DeliveryNewArticle { slug: String, author: String, inbox: String },
    DeliveryUpdateArticle { slug: String, author: String, inbox: String },
    DeliveryDeleteArticle { slug: String, author: String, inbox: String },
}

/// The terminal signal of one job.
#[derive(Debug, Clone, Copy, PartialEq, Eq, Structural)]
pub enum ProcessQueueResult {
    Finished,
    Retry,
}

/// A failure of the outbound HTTP client while a job runs.
#[derive(Debug)]
pub enum ProcessQueueError<RequestError> {
    RequestError(RequestError),
}

/// Which article event a delivery announces.
#[derive(Debug, Clone, Copy, PartialEq, Eq, Structural)]
pub enum DeliveryKind {
    Create,
    Update,
    Delete,
}

/// How many follower inboxes one batch job may hold.
pub const BATCH_SIZE: usize = 10;

/// The path word of a kind in `/events/articles/{word}/...`.
pub open spec fn kind_word(kind: DeliveryKind) -> Seq<char> {
    match kind {
        DeliveryKind::Create => "create"@,
        DeliveryKind::Update => "update"@,
        DeliveryKind::Delete => "delete"@,
    }
}

/// The ActivityStreams `type` of a kind.
pub open spec fn kind_type(kind: DeliveryKind) -> Seq<char> {
    match kind {
        DeliveryKind::Create => "Create"@,
        DeliveryKind::Update => "Update"@,
        DeliveryKind::Delete => "Delete"@,
    }
}

pub fn kind_word_str(kind: DeliveryKind) -> (r: &'static str)
    ensures
        r@ == kind_word(kind),
{
    match kind {
        DeliveryKind::Create => "create",
        DeliveryKind::Update => "update",
        DeliveryKind::Delete => "delete",
    }
}

pub fn kind_type_str(kind: DeliveryKind) -> (r: &'static str)
    ensures
        r@ == kind_type(kind),
{
    match kind {
        DeliveryKind::Create => "Create",
        DeliveryKind::Update => "Update",
        DeliveryKind::Delete => "Delete",
    }
}

/// `{base}/events/articles/{kind}/{slug}`: the id of an article event.
pub open spec fn activity_id(base: Seq<char>, kind: DeliveryKind, slug: Seq<char>) -> Seq<char> {
    base + "/events/articles/"@ + kind_word(kind) + "/"@ + slug
}

/// `{base}/users/{username}`: the actor URL of a local user.
pub open spec fn user_url(base: Seq<char>, username: Seq<char>) -> Seq<char> {
    base + "/users/"@ + username
}

/// `{base}/articles/{slug}`: the URL of an article.
pub open spec fn article_url(base: Seq<char>, slug: Seq<char>) -> Seq<char> {
    base + "/articles/"@ + slug
}

/// The compact JSON-LD body of an article event, keys in this order:
/// `@context`, `id`, `type`, `actor`, `object`.
pub open spec fn article_activity_json(
    base: Seq<char>,
    kind: DeliveryKind,
    slug: Seq<char>,
    author: Seq<char>,
) -> Seq<char> {
    "{\"@context\":\"https://www.w3.org/ns/activitystreams\",\"id\":"@
        + json_string_of(activity_id(base, kind, slug))
        + ",\"type\":\""@ + kind_type(kind)
        + "\",\"actor\":"@ + json_string_of(user_url(base, author))
        + ",\"object\":"@ + json_string_of(article_url(base, slug))
        + "}"@
}

pub fn activity_id_string(base: &str, kind: DeliveryKind, slug: &str) -> (r: String)
    ensures
        r@ == activity_id(base@, kind, slug@),
{
    let head = cat2(base, "/events/articles/");
    cat4(head.as_str(), kind_word_str(kind), "/", slug)
}

pub fn user_url_string(base: &str, username: &str) -> (r: String)
    ensures
        r@ == user_url(base@, username@),
{
    cat3(base, "/users/", username)
}

pub fn article_url_string(base: &str, slug: &str) -> (r: String)
    ensures
        r@ == article_url(base@, slug@),
{
    cat3(base, "/articles/", slug)
}

/// The canonical activity of an article event.  The same text is POSTed to
/// every follower inbox and served at `GET /events/articles/{kind}/{slug}`.
pub fn article_activity(base: &str, kind: DeliveryKind, slug: &str, author: &str) -> (r: String)
    ensures
        r@ == article_activity_json(base@, kind, slug@, author@),
{
    let id = json_quote(activity_id_string(base, kind, slug).as_str());
    let actor = json_quote(user_url_string(base, author).as_str());
    let object = json_quote(article_url_string(base, slug).as_str());
    let mut s = String::from_str("{\"@context\":\"https://www.w3.org/ns/activitystreams\",\"id\":");
    s.append(id.as_str());
    s.append(",\"type\":\"");
    s.append(kind_type_str(kind));
    s.append("\",\"actor\":");
    s.append(actor.as_str());
    s.append(",\"object\":");
    s.append(object.as_str());
    s.append("}");
    s
}

/// `{base}/users/{author}#main-key`: the key id that outbound requests are signed with.
pub fn key_id_of(base: &str, author: &str) -> (r: String)
    ensures
        r@ == user_url(base@, author@) + "#main-key"@,
{
    let u = user_url_string(base, author);
    cat2(u.as_str(), "#main-key")
}

/// `j` is the job that delivers the `kind` event of `slug` by `author` to `inbox`.
pub open spec fn is_delivery_job(
    j: QueueData,
    kind: DeliveryKind,
    slug: Seq<char>,
    author: Seq<char>,
    inbox: Seq<char>,
) -> bool {
    match j {
        QueueData::DeliveryNewArticle { slug: s, author: a, inbox: i } => kind == DeliveryKind::Create
            && s@ == slug && a@ == author && i@ == inbox,
        QueueData::DeliveryUpdateArticle { slug: s, author: a, inbox: i } => kind == DeliveryKind::Update
            && s@ == slug && a@ == author && i@ == inbox,
        QueueData::DeliveryDeleteArticle { slug: s, author: a, inbox: i } => kind == DeliveryKind::Delete
            && s@ == slug && a@ == author && i@ == inbox,
        _ => false,
    }
}

/// `j` is the batch job of the `kind` event of `slug` by `author` that resumes
/// after the follower inbox `last`.
pub open spec fn is_batch_job(
    j: QueueData,
    kind: DeliveryKind,
    slug: Seq<char>,
    author: Seq<char>,
    last: Seq<char>,
) -> bool {
    match j {
        QueueData::DeliveryNewArticleBatch { slug: s, author: a, last_inbox: l } => kind
            == DeliveryKind::Create && s@ == slug && a@ == author && l@ == last,
        QueueData::DeliveryUpdateArticleBatch { slug: s, author: a, last_inbox: l } => kind
            == DeliveryKind::Update && s@ == slug && a@ == author && l@ == last,
        QueueData::DeliveryDeleteArticleBatch { slug: s, author: a, last_inbox: l } => kind
            == DeliveryKind::Delete && s@ == slug && a@ == author && l@ == last,
        _ => false,
    }
}

pub fn delivery_job(kind: DeliveryKind, slug: String, author: String, inbox: String) -> (r: QueueData)
    ensures
        is_delivery_job(r, kind, slug@, author@, inbox@),
{
    match kind {
        DeliveryKind::Create => QueueData::DeliveryNewArticle { slug, author, inbox },
        DeliveryKind::Update => QueueData::DeliveryUpdateArticle { slug, author, inbox },
        DeliveryKind::Delete => QueueData::DeliveryDeleteArticle { slug, author, inbox },
    }
}

pub fn batch_job(kind: DeliveryKind, slug: String, author: String, last_inbox: String) -> (r: QueueData)
    ensures
        is_batch_job(r, kind, slug@, author@, last_inbox@),
{
    match kind {
        DeliveryKind::Create => QueueData::DeliveryNewArticleBatch { slug, author, last_inbox },
        DeliveryKind::Update => QueueData::DeliveryUpdateArticleBatch { slug, author, last_inbox },
        DeliveryKind::Delete => QueueData::DeliveryDeleteArticleBatch { slug, author, last_inbox },
    }
}

/// The jobs that one batch step enqueues, in order: one delivery per inbox of
/// the batch and, when the batch was full, the batch job that resumes after
/// `next_last`.
pub fn plan_delivery_batch(
    kind: DeliveryKind,
    slug: &String,
    author: &String,
    inboxes: Vec<String>,
    next_last: String,
) -> (r: Vec<QueueData>)
    requires
        inboxes.len() <= BATCH_SIZE,
    ensures
        inboxes.len() == BATCH_SIZE ==> r.len() == inboxes.len() + 1 && is_batch_job(
            r[r.len() - 1],
            kind,
            slug@,
            author@,
            next_last@,
        ),
        inboxes.len() < BATCH_SIZE ==> r.len() == inboxes.len(),
        forall|i: int|
            0 <= i < inboxes.len() ==> is_delivery_job(
                #[trigger] r[i],
                kind,
                slug@,
                author@,
                inboxes[i]@,
            ),
{
    let n = inboxes.len();
    let mut out: Vec<QueueData> = Vec::new();
    let mut i: usize = 0;
    while i < n
        invariant
            n == inboxes.len(),
            i <= n,
            out.len() == i,
            forall|k: int|
                0 <= k < i ==> is_delivery_job(#[trigger] out[k], kind, slug@, author@, inboxes[k]@),
        decreases n - i,
    {
        let job = delivery_job(kind, slug.clone(), author.clone(), inboxes[i].clone());
        out.push(job);
        i = i + 1;
    }
    if n == BATCH_SIZE {
        out.push(batch_job(kind, slug.clone(), author.clone(), next_last));
    }
    out
}

/// How a delivery ends, from the HTTP status of the reply (`None`: the
/// transport gave no reply at all).  A success, `410 Gone` and any other client
/// error are final; every other status asks for a retry; a transport failure is
/// dropped.
pub open spec fn delivery_outcome(status: Option<u16>) -> ProcessQueueResult {
    match status {
        None => ProcessQueueResult::Finished,
        Some(code) => if 200 <= code < 300 || code == 410 || 400 <= code < 500 {
            ProcessQueueResult::Finished
        } else {
            ProcessQueueResult::Retry
        },
    }
}

pub fn classify_delivery(status: Option<u16>) -> (r: ProcessQueueResult)
    ensures
        r == delivery_outcome(status),
{
    match status {
        None => ProcessQueueResult::Finished,
        Some(code) => {
            if 200 <= code && code < 300 {
                ProcessQueueResult::Finished
            } else if code == 410 {
                ProcessQueueResult::Finished
            } else if 400 <= code && code < 500 {
                ProcessQueueResult::Finished
            } else {
                ProcessQueueResult::Retry
            }
        },
    }
}

/// A signed POST that the processor asks the transport to make.
#[derive(Debug, Clone)]
pub struct OutboundPost {
    /// The URL the request goes to.
    pub target: String,
    /// The key id the `Signature` header names.
    pub key_id: String,
    /// The JSON body.
    pub body: String,
}

/// What the processor does next with a job.
#[derive(Debug)]
pub enum JobAction {
    /// Obtain and check the inbound activity (see the `inbound` module).
    HandleInbox { username: String, id: String, verified_body: Option<String> },
    /// Look up the author of `slug`, then call `after_author_lookup`.
    LookupAuthor { kind: DeliveryKind, slug: String },
    /// Enqueue these jobs; the job is then finished.
    Enqueue(Vec<QueueData>),
    /// Fetch at most `BATCH_SIZE` follower inboxes of `author` that sort after
    /// `last_inbox`, then call `plan_delivery_batch`.
    FetchBatch { kind: DeliveryKind, slug: String, author: String, last_inbox: String },
    /// Sign and send the post, then call `classify_delivery` on the reply.
    Deliver(OutboundPost),
}

/// The post that delivers the `kind` event of `slug` by `author` to `inbox`.
pub open spec fn is_delivery_post(
    p: OutboundPost,
    base: Seq<char>,
    kind: DeliveryKind,
    slug: Seq<char>,
    author: Seq<char>,
    inbox: Seq<char>,
) -> bool {
    &&& p.target@ == inbox
    &&& p.key_id@ == user_url(base, author) + "#main-key"@
    &&& p.body@ == article_activity_json(base, kind, slug, author)
}

/// The first step of a job.  An inbound job is handed to the inbound rules; a
/// new or updated article starts with a lookup of its author; a deleted one
/// carries its author and enqueues its first batch job at once; a batch job
/// fetches its batch; a delivery job posts the canonical activity.
pub fn process_queue(base: &str, job: QueueData) -> (r: JobAction)
    ensures
        match job {
            QueueData::Inbox { username, id, verified_body, .. } => r == (JobAction::HandleInbox {
                username,
                id,
                verified_body,
            }),
            QueueData::DeliveryNewArticleToAll { slug } => r == (JobAction::LookupAuthor {
                kind: DeliveryKind::Create,
                slug,
            }),
            QueueData::DeliveryUpdateArticleToAll { slug } => r == (JobAction::LookupAuthor {
                kind: DeliveryKind::Update,
                slug,
            }),
            QueueData::DeliveryDeleteArticleToAll { slug, author } => match r {
                JobAction::Enqueue(jobs) => jobs.len() == 1 && is_batch_job(
                    jobs[0],
                    DeliveryKind::Delete,
                    slug@,
                    author@,
                    Seq::empty(),
                ),
                _ => false,
            },
            QueueData::DeliveryNewArticleBatch { slug, author, last_inbox } => r == (
            JobAction::FetchBatch { kind: DeliveryKind::Create, slug, author, last_inbox }),
            QueueData::DeliveryUpdateArticleBatch { slug, author, last_inbox } => r == (
            JobAction::FetchBatch { kind: DeliveryKind::Update, slug, author, last_inbox }),
            QueueData::DeliveryDeleteArticleBatch { slug, author, last_inbox } => r == (
            JobAction::FetchBatch { kind: DeliveryKind::Delete, slug, author, last_inbox }),
            QueueData::DeliveryNewArticle { slug, author, inbox } => match r {
                JobAction::Deliver(p) => is_delivery_post(
                    p,
                    base@,
                    DeliveryKind::Create,
                    slug@,
                    author@,
                    inbox@,
                ),
                _ => false,
            },
            QueueData::DeliveryUpdateArticle { slug, author, inbox } => match r {
                JobAction::Deliver(p) => is_delivery_post(
                    p,
                    base@,
                    DeliveryKind::Update,
                    slug@,
                    author@,
                    inbox@,
                ),
                _ => false,
            },
            QueueData::DeliveryDeleteArticle { slug, author, inbox } => match r {
                JobAction::Deliver(p) => is_delivery_post(
                    p,
                    base@,
                    DeliveryKind::Delete,
                    slug@,
                    author@,
                    inbox@,
                ),
                _ => false,
            },
        },
{
    match job {
        QueueData::Inbox { username, ty: _, id, verified_body } => JobAction::HandleInbox {
            username,
            id,
            verified_body,
        },
        QueueData::DeliveryNewArticleToAll { slug } => JobAction::LookupAuthor {
            kind: DeliveryKind::Create,
            slug,
        },
        QueueData::DeliveryUpdateArticleToAll { slug } => JobAction::LookupAuthor {
            kind: DeliveryKind::Update,
            slug,
        },
        QueueData::DeliveryDeleteArticleToAll { slug, author } => {
            let mut jobs: Vec<QueueData> = Vec::new();
            jobs.push(batch_job(DeliveryKind::Delete, slug, author, String::new()));
            JobAction::Enqueue(jobs)
        },
        QueueData::DeliveryNewArticleBatch { slug, author, last_inbox } => JobAction::FetchBatch {
            kind: DeliveryKind::Create,
            slug,
            author,
            last_inbox,
        },
        QueueData::DeliveryUpdateArticleBatch { slug, author, last_inbox } => JobAction::FetchBatch {
            kind: DeliveryKind::Update,
            slug,
            author,
            last_inbox,
        },
        QueueData::DeliveryDeleteArticleBatch { slug, author, last_inbox } => JobAction::FetchBatch {
            kind: DeliveryKind::Delete,
            slug,
            author,
            last_inbox,
        },
        QueueData::DeliveryNewArticle { slug, author, inbox } => JobAction::Deliver(
            delivery_post(base, DeliveryKind::Create, &slug, &author, inbox),
        ),
        QueueData::DeliveryUpdateArticle { slug, author, inbox } => JobAction::Deliver(
            delivery_post(base, DeliveryKind::Update, &slug, &author, inbox),
        ),
        QueueData::DeliveryDeleteArticle { slug, author, inbox } => JobAction::Deliver(
            delivery_post(base, DeliveryKind::Delete, &slug, &author, inbox),
        ),
    }
}

/// The signed post that delivers an article event to one inbox.
pub fn delivery_post(
    base: &str,
    kind: DeliveryKind,
    slug: &String,
    author: &String,
    inbox: String,
) -> (r: OutboundPost)
    ensures
        is_delivery_post(r, base@, kind, slug@, author@, inbox@),
{
    OutboundPost {
        target: inbox,
        key_id: key_id_of(base, author.as_str()),
        body: article_activity(base, kind, slug.as_str(), author.as_str()),
    }
}

/// The jobs a new or updated article enqueues once its author is known: the
/// first batch job, which starts before every inbox; none when the article has
/// no author.
pub fn after_author_lookup(kind: DeliveryKind, slug: String, author: Option<String>) -> (r: Vec<
    QueueData,
>)
    ensures
        author is None ==> r.len() == 0,
        author matches Some(a) ==> r.len() == 1 && is_batch_job(r[0], kind, slug@, a@, Seq::empty()),
{
    let mut jobs: Vec<QueueData> = Vec::new();
    match author {
        None => {},
        Some(a) => {
            jobs.push(batch_job(kind, slug, a, String::new()));
        },
    }
    jobs
}

} // verus!
