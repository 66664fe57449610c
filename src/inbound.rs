use vstd::prelude::*;
use vstd::string::*;
use crate::queue::{OutboundPost, user_url, user_url_string, key_id_of};
use crate::text::{cat2, cat3, form_urlencode, form_urlencoded_of, json_quote, json_string_of, str_eq, strip_prefix, has_prefix};

verus! {

/// Which property of a note names the article it answers.
#[derive(Debug, Clone)]
pub enum ReplyTarget {
    InReplyTo(String),
    QuoteUri(String),
    QuoteUrl(String),
}

impl ReplyTarget {
    pub open spec fn target(self) -> Seq<char> {
        match self {
            ReplyTarget::InReplyTo(s) => s@,
            ReplyTarget::QuoteUri(s) => s@,
            ReplyTarget::QuoteUrl(s) => s@,
        }
    }

    pub fn as_str(&self) -> (r: &str)
        ensures
            r@ == self.target(),
    {
        match self {
            ReplyTarget::InReplyTo(s) => s.as_str(),
            ReplyTarget::QuoteUri(s) => s.as_str(),
            ReplyTarget::QuoteUrl(s) => s.as_str(),
        }
    }

    pub fn into_string(self) -> (r: String)
        ensures
            r@ == self.target(),
    {
        match self {
            ReplyTarget::InReplyTo(s) => s,
            ReplyTarget::QuoteUri(s) => s,
            ReplyTarget::QuoteUrl(s) => s,
        }
    }
}

/// An instant, as milliseconds since the Unix epoch (UTC).
#[derive(Debug, Clone, Copy, PartialEq, Eq, Structural)]
pub struct UnixMillis {
    pub millis: i64,
}

/// The note of a `Create`.
#[derive(Debug, Clone)]
pub struct NoteObject {
    pub id: String,
    pub attributed_to: String,
    pub published: UnixMillis,
    pub content: String,
    pub reply_target: ReplyTarget,
}

/// The part of an inbound activity that the rules read.
#[derive(Debug)]
pub enum Activity {
    Create { object: NoteObject },
    Like { id: String, actor: String, object: String, content: String },
    Follow { id: String, actor: String, object: String },
    Undo { actor: String, object: Box<Activity> },
}

/// A comment to record on an article.
#[derive(Debug, Clone)]
pub struct ArticleNewComment {
    pub id: String,
    pub author_id: String,
    pub created_at: UnixMillis,
    pub proceed_at: UnixMillis,
    pub content: String,
    pub raw: String,
}

/// A reaction to record on an article.
#[derive(Debug, Clone)]
pub struct ArticleNewReaction {
    pub id: String,
    pub author_id: String,
    pub reaction: String,
    pub proceed_at: UnixMillis,
    pub raw: String,
}

/// What the inbound rules need next for an activity addressed to a user.
#[derive(Debug)]
pub enum InboundStep {
    /// Nothing to do: the job is finished.
    Drop,
    /// Look up the author of the article `slug`, then call `after_author`.
    CheckAuthor { slug: String },
    /// Fetch the actor document of `actor`, then call `after_follower_fetch`.
    FetchFollower { actor: String },
    /// Remove every follower row of `username` whose actor is `actor`.
    RemoveFollowerByActor { username: String, actor: String },
}

/// `s` names an article of the blog at `base`; the slug is what follows.
pub open spec fn article_slug(base: Seq<char>, s: Seq<char>) -> Option<Seq<char>> {
    let p = base + "/articles/"@;
    if has_prefix(s, p) {
        Some(s.subrange(p.len() as int, s.len() as int))
    } else {
        None
    }
}

/// The step an activity in `username`'s inbox asks for.
pub open spec fn inbound_step_ok(base: Seq<char>, username: Seq<char>, act: Activity, r: InboundStep) -> bool {
    match act {
        Activity::Create { object } => match article_slug(base, object.reply_target.target()) {
            Some(slug) => r matches InboundStep::CheckAuthor { slug: s } && s@ == slug,
            None => r is Drop,
        },
        Activity::Like { object, .. } => match article_slug(base, object@) {
            Some(slug) => r matches InboundStep::CheckAuthor { slug: s } && s@ == slug,
            None => r is Drop,
        },
        Activity::Follow { actor, object, .. } => if object@ == user_url(base, username) {
            r matches InboundStep::FetchFollower { actor: a } && a@ == actor@
        } else {
            r is Drop
        },
        Activity::Undo { actor: outer, object } => match *object {
            Activity::Like { actor, object, .. } => if outer@ == actor@ {
                match article_slug(base, object@) {
                    Some(slug) => r matches InboundStep::CheckAuthor { slug: s } && s@ == slug,
                    None => r is Drop,
                }
            } else {
                r is Drop
            },
            Activity::Follow { actor, object, .. } => if outer@ == actor@ && object@ == user_url(
                base,
                username,
            ) {
                r matches InboundStep::RemoveFollowerByActor { username: u, actor: a } && u@
                    == username && a@ == actor@
            } else {
                r is Drop
            },
            _ => r is Drop,
        },
    }
}

fn slug_step(base: &str, target: &str) -> (r: InboundStep)
    ensures
        match article_slug(base@, target@) {
            Some(slug) => r matches InboundStep::CheckAuthor { slug: s } && s@ == slug,
            None => r is Drop,
        },
{
    let prefix = cat2(base, "/articles/");
    match strip_prefix(target, prefix.as_str()) {
        Some(slug) => InboundStep::CheckAuthor { slug },
        None => InboundStep::Drop,
    }
}

/// The first rule applied to an activity posted to `username`'s inbox: replies
/// and likes must name an article of this blog, follows and unfollows must name
/// this user, and an undo must come from the actor of what it undoes.
pub fn inbound_step(base: &str, username: &str, act: &Activity) -> (r: InboundStep)
    ensures
        inbound_step_ok(base@, username@, *act, r),
{
    match act {
        Activity::Create { object } => slug_step(base, object.reply_target.as_str()),
        Activity::Like { object, .. } => slug_step(base, object.as_str()),
        Activity::Follow { actor, object, .. } => {
            let me = user_url_string(base, username);
            if str_eq(object.as_str(), me.as_str()) {
                InboundStep::FetchFollower { actor: actor.clone() }
            } else {
                InboundStep::Drop
            }
        },
        Activity::Undo { actor: outer, object } => match &**object {
            Activity::Like { actor, object, .. } => {
                if str_eq(outer.as_str(), actor.as_str()) {
                    slug_step(base, object.as_str())
                } else {
                    InboundStep::Drop
                }
            },
            Activity::Follow { actor, object, .. } => {
                let me = user_url_string(base, username);
                if str_eq(outer.as_str(), actor.as_str()) && str_eq(object.as_str(), me.as_str()) {
                    InboundStep::RemoveFollowerByActor {
                        username: username.to_owned(),
                        actor: actor.clone(),
                    }
                } else {
                    InboundStep::Drop
                }
            },
            _ => InboundStep::Drop,
        },
    }
}

/// What the inbound rules do once the author of the named article is known.
#[derive(Debug)]
pub enum InboundEffect {
    /// Nothing: the job is finished.
    Drop,
    AddComment { slug: String, comment: ArticleNewComment },
    AddReaction { slug: String, reaction: ArticleNewReaction },
    RemoveReactionBy { slug: String, actor: String },
}

/// The record that the author check lets through; `Drop` when the article has
/// no author or another author than `username`.
pub open spec fn after_author_ok(
    username: Seq<char>,
    act: Activity,
    raw: Seq<char>,
    slug: Seq<char>,
    author: Option<String>,
    now: UnixMillis,
    r: InboundEffect,
) -> bool {
    if author matches Some(a) && a@ == username {
        match act {
            Activity::Create { object } => r matches InboundEffect::AddComment { slug: s, comment: c }
                && s@ == slug && c.id == object.id && c.author_id == object.attributed_to
                && c.created_at == object.published && c.proceed_at == now && c.content
                == object.content && c.raw@ == raw,
            Activity::Like { id, actor, content, .. } => r matches InboundEffect::AddReaction {
                slug: s,
                reaction: x,
            } && s@ == slug && x.id == id && x.author_id == actor && x.reaction == content
                && x.proceed_at == now && x.raw@ == raw,
            Activity::Undo { object, .. } => match *object {
                Activity::Like { actor, .. } => r matches InboundEffect::RemoveReactionBy {
                    slug: s,
                    actor: a,
                } && s@ == slug && a == actor,
                _ => r is Drop,
            },
            _ => r is Drop,
        }
    } else {
        r is Drop
    }
}

/// The second rule for replies, likes and undone likes: the article `slug`
/// must be written by `username`; then the comment or reaction is recorded, or
/// the reactions of the undoing actor are removed.
pub fn after_author(
    username: &str,
    act: Activity,
    raw: String,
    slug: String,
    author: Option<String>,
    now: UnixMillis,
) -> (r: InboundEffect)
    ensures
        after_author_ok(username@, act, raw@, slug@, author, now, r),
{
    let owned = match &author {
        Some(a) => str_eq(a.as_str(), username),
        None => false,
    };
    if !owned {
        return InboundEffect::Drop;
    }
    match act {
        Activity::Create { object } => InboundEffect::AddComment {
            slug,
            comment: ArticleNewComment {
                id: object.id,
                author_id: object.attributed_to,
                created_at: object.published,
                proceed_at: now,
                content: object.content,
                raw,
            },
        },
        Activity::Like { id, actor, content, .. } => InboundEffect::AddReaction {
            slug,
            reaction: ArticleNewReaction { id, author_id: actor, reaction: content, proceed_at: now, raw },
        },
        Activity::Undo { object, .. } => match *object {
            Activity::Like { actor, .. } => InboundEffect::RemoveReactionBy { slug, actor },
            _ => InboundEffect::Drop,
        },
        _ => InboundEffect::Drop,
    }
}

/// The fields of a remote actor document that a follow reads.
#[derive(Debug, Clone)]
pub struct ActorDocument {
    pub ty: String,
    pub inbox: String,
    pub shared_inbox: Option<String>,
}

/// A follower row: `actor` follows `username`, delivering to `inbox`, by the
/// follow activity `event_id`.
#[derive(Debug, Clone)]
pub struct FollowerRow {
    pub username: String,
    pub actor: String,
    pub inbox: String,
    pub event_id: String,
}

/// `{base}/users/{username}/accept_follow?object={event id, form-encoded}`.
pub open spec fn accept_follow_id(base: Seq<char>, username: Seq<char>, event_id: Seq<char>) -> Seq<
    char,
> {
    user_url(base, username) + "/accept_follow?object="@ + form_urlencoded_of(event_id)
}

/// The `Accept{Follow}` activity that answers the follow `event_id` of
/// `follower` to `username`.
pub open spec fn accept_follow_json(
    base: Seq<char>,
    username: Seq<char>,
    follower: Seq<char>,
    event_id: Seq<char>,
) -> Seq<char> {
    "{\"@context\":\"https://www.w3.org/ns/activitystreams\",\"id\":"@
        + json_string_of(accept_follow_id(base, username, event_id))
        + ",\"type\":\"Accept\",\"actor\":"@ + json_string_of(user_url(base, username))
        + ",\"object\":{\"type\":\"Follow\",\"actor\":"@ + json_string_of(follower)
        + ",\"object\":"@ + json_string_of(user_url(base, username)) + "}}"@
}

pub fn accept_follow_id_string(base: &str, username: &str, event_id: &str) -> (r: String)
    ensures
        r@ == accept_follow_id(base@, username@, event_id@),
{
    let me = user_url_string(base, username);
    let enc = form_urlencode(event_id);
    cat3(me.as_str(), "/accept_follow?object=", enc.as_str())
}

/// The canonical `Accept{Follow}` activity.
pub fn accept_follow_activity(base: &str, username: &str, follower: &str, event_id: &str) -> (r:
    String)
    ensures
        r@ == accept_follow_json(base@, username@, follower@, event_id@),
{
    let id = json_quote(accept_follow_id_string(base, username, event_id).as_str());
    let me = json_quote(user_url_string(base, username).as_str());
    let follower_json = json_quote(follower);
    let mut s = String::from_str("{\"@context\":\"https://www.w3.org/ns/activitystreams\",\"id\":");
    s.append(id.as_str());
    s.append(",\"type\":\"Accept\",\"actor\":");
    s.append(me.as_str());
    s.append(",\"object\":{\"type\":\"Follow\",\"actor\":");
    s.append(follower_json.as_str());
    s.append(",\"object\":");
    s.append(me.as_str());
    s.append("}}");
    s
}

/// The third rule for follows, once the follower's actor document was fetched
/// (`None`: it could not be had): only a `Person` may follow.  Its row
/// delivers to the shared inbox when it has one, else to its own inbox; the
/// `Accept` goes to its own inbox, signed with `username`'s key.
pub fn after_follower_fetch(
    base: &str,
    username: &str,
    event_id: String,
    actor: String,
    doc: Option<ActorDocument>,
) -> (r: Option<(FollowerRow, OutboundPost)>)
    ensures
        match doc {
            Some(d) if d.ty@ == "Person"@ => r matches Some((row, post)) && row.username@ == username@
                && row.actor == actor && row.event_id == event_id && row.inbox == (match d.shared_inbox {
                Some(s) => s,
                None => d.inbox,
            }) && post.target == d.inbox && post.key_id@ == user_url(base@, username@) + "#main-key"@
                && post.body@ == accept_follow_json(base@, username@, actor@, event_id@),
            _ => r is None,
        },
{
    match doc {
        None => None,
        Some(d) => {
            if !str_eq(d.ty.as_str(), "Person") {
                return None;
            }
            let body = accept_follow_activity(base, username, actor.as_str(), event_id.as_str());
            let inbox = match d.shared_inbox {
                Some(s) => s,
                None => d.inbox.clone(),
            };
            let row = FollowerRow { username: username.to_owned(), actor, inbox, event_id };
            let post = OutboundPost { target: d.inbox, key_id: key_id_of(base, username), body };
            Some((row, post))
        },
    }
}

} // verus!
