use ap_federation::inbound::{
    accept_follow_activity, after_author, after_follower_fetch, inbound_step, Activity, ActorDocument, InboundEffect,
    InboundStep, NoteObject, ReplyTarget, UnixMillis,
};
use ap_federation::queue::QueueData;
use ap_federation::queue::{process_queue, JobAction};
use ap_federation::routes::{accepted, inbox_precheck, user_accept_follow_get, user_inbox_post, AcceptFollowQuery};
use ap_federation::store::{FollowerList, ReactionList};
use ap_federation::verify::VerifyResult;

const BASE: &str = "https://blog.test";

fn like(actor: &str, object: &str) -> Activity {
    Activity::Like {
        id: "https://a.test/l1".to_string(),
        actor: actor.to_string(),
        object: object.to_string(),
        content: "👍".to_string(),
    }
}

#[test]
fn inbox_follow_adds_row_and_accepts() {
    let raw = r#"{"id":"https://a.test/f1","type":"Follow","actor":"https://a.test/users/a","object":"https://blog.test/users/user1"}"#;
    assert!(inbox_precheck(true, Some("application/activity+json")).is_none());
    let job = user_inbox_post(
        "user1".to_string(),
        VerifyResult::Verified,
        Some(raw.to_string()),
        Some(("Follow".to_string(), "https://a.test/f1".to_string())),
    )
    .unwrap();
    assert_eq!(accepted().status, 202);
    match process_queue(BASE, job) {
        JobAction::HandleInbox { username, id, verified_body } => {
            assert_eq!(username, "user1");
            assert_eq!(id, "https://a.test/f1");
            assert_eq!(verified_body.as_deref(), Some(raw));
        }
        other => panic!("unexpected step {other:?}"),
    }
    let follow = Activity::Follow {
        id: "https://a.test/f1".to_string(),
        actor: "https://a.test/users/a".to_string(),
        object: "https://blog.test/users/user1".to_string(),
    };
    let actor = match inbound_step(BASE, "user1", &follow) {
        InboundStep::FetchFollower { actor } => actor,
        other => panic!("unexpected step {other:?}"),
    };
    assert_eq!(actor, "https://a.test/users/a");
    let doc = ActorDocument { ty: "Person".to_string(), inbox: "https://a.test/inbox".to_string(), shared_inbox: None };
    let (row, post) = after_follower_fetch(BASE, "user1", "https://a.test/f1".to_string(), actor, Some(doc)).unwrap();
    assert_eq!(row.username, "user1");
    assert_eq!(row.actor, "https://a.test/users/a");
    assert_eq!(row.inbox, "https://a.test/inbox");
    assert_eq!(row.event_id, "https://a.test/f1");
    assert_eq!(post.target, "https://a.test/inbox");
    assert_eq!(post.key_id, "https://blog.test/users/user1#main-key");
    assert_eq!(
        post.body,
        "{\"@context\":\"https://www.w3.org/ns/activitystreams\",\"id\":\"https://blog.test/users/user1/accept_follow?object=https%3A%2F%2Fa.test%2Ff1\",\"type\":\"Accept\",\"actor\":\"https://blog.test/users/user1\",\"object\":{\"type\":\"Follow\",\"actor\":\"https://a.test/users/a\",\"object\":\"https://blog.test/users/user1\"}}"
    );
    let mut followers = FollowerList::new();
    followers.add_follower(&row.actor, &row.inbox, &row.event_id);
    assert_eq!(followers.get_followers_len(), 1);
}

#[test]
fn follow_prefers_shared_inbox_and_needs_a_person() {
    let doc = ActorDocument {
        ty: "Person".to_string(),
        inbox: "https://a.test/users/a/inbox".to_string(),
        shared_inbox: Some("https://a.test/inbox".to_string()),
    };
    let (row, post) = after_follower_fetch(BASE, "user1", "e".to_string(), "act".to_string(), Some(doc)).unwrap();
    assert_eq!(row.inbox, "https://a.test/inbox");
    assert_eq!(post.target, "https://a.test/users/a/inbox");
    let service = ActorDocument { ty: "Service".to_string(), inbox: "i".to_string(), shared_inbox: None };
    assert!(after_follower_fetch(BASE, "user1", "e".to_string(), "act".to_string(), Some(service)).is_none());
    assert!(after_follower_fetch(BASE, "user1", "e".to_string(), "act".to_string(), None).is_none());
}

#[test]
fn follow_of_another_user_is_dropped() {
    let follow = Activity::Follow {
        id: "f".to_string(),
        actor: "a".to_string(),
        object: "https://blog.test/users/user2".to_string(),
    };
    assert!(matches!(inbound_step(BASE, "user1", &follow), InboundStep::Drop));
}

#[test]
fn reaction_then_undo() {
    let mut reactions = ReactionList::new();
    assert_eq!(reactions.reaction_count(), 0);
    let act = like("https://a.test/users/a", "https://blog.test/articles/article1");
    let slug = match inbound_step(BASE, "user1", &act) {
        InboundStep::CheckAuthor { slug } => slug,
        other => panic!("unexpected step {other:?}"),
    };
    assert_eq!(slug, "article1");
    let effect = after_author("user1", act, "{}".to_string(), slug, Some("user1".to_string()), UnixMillis { millis: 5 });
    match effect {
        InboundEffect::AddReaction { slug, reaction } => {
            assert_eq!(slug, "article1");
            assert_eq!(reaction.author_id, "https://a.test/users/a");
            assert_eq!(reaction.reaction, "👍");
            assert_eq!(reaction.proceed_at, UnixMillis { millis: 5 });
            reactions.add_reaction(reaction);
        }
        other => panic!("unexpected effect {other:?}"),
    }
    assert_eq!(reactions.reaction_count(), 1);
    for _ in 0..2 {
        let undo = Activity::Undo {
            actor: "https://a.test/users/a".to_string(),
            object: Box::new(like("https://a.test/users/a", "https://blog.test/articles/article1")),
        };
        let slug = match inbound_step(BASE, "user1", &undo) {
            InboundStep::CheckAuthor { slug } => slug,
            other => panic!("unexpected step {other:?}"),
        };
        match after_author("user1", undo, "{}".to_string(), slug, Some("user1".to_string()), UnixMillis { millis: 6 }) {
            InboundEffect::RemoveReactionBy { slug, actor } => {
                assert_eq!(slug, "article1");
                reactions.remove_reaction_by(&actor);
            }
            other => panic!("unexpected effect {other:?}"),
        }
        assert_eq!(reactions.reaction_count(), 0);
    }
}

#[test]
fn second_reaction_of_an_actor_replaces_the_first() {
    let mut reactions = ReactionList::new();
    for id in ["r1", "r2"] {
        if let InboundEffect::AddReaction { reaction, .. } = after_author(
            "user1",
            Activity::Like { id: id.to_string(), actor: "x".to_string(), object: "o".to_string(), content: String::new() },
            String::new(),
            "s".to_string(),
            Some("user1".to_string()),
            UnixMillis { millis: 0 },
        ) {
            reactions.add_reaction(reaction);
        }
    }
    assert_eq!(reactions.reaction_count(), 1);
    assert_eq!(reactions.reactions[0].id, "r2");
}

#[test]
fn undo_by_another_actor_and_foreign_articles_are_dropped() {
    let undo = Activity::Undo {
        actor: "https://b.test/users/b".to_string(),
        object: Box::new(like("https://a.test/users/a", "https://blog.test/articles/article1")),
    };
    assert!(matches!(inbound_step(BASE, "user1", &undo), InboundStep::Drop));
    let elsewhere = like("https://a.test/users/a", "https://other.test/articles/article1");
    assert!(matches!(inbound_step(BASE, "user1", &elsewhere), InboundStep::Drop));
    let act = like("https://a.test/users/a", "https://blog.test/articles/article1");
    let effect = after_author("user1", act, String::new(), "article1".to_string(), Some("user2".to_string()), UnixMillis { millis: 0 });
    assert!(matches!(effect, InboundEffect::Drop));
}

#[test]
fn reply_becomes_a_comment() {
    let note = NoteObject {
        id: "https://a.test/n1".to_string(),
        attributed_to: "https://a.test/users/a".to_string(),
        published: UnixMillis { millis: 1750291200000 },
        content: "hi".to_string(),
        reply_target: ReplyTarget::QuoteUrl("https://blog.test/articles/2025/06/nested-post".to_string()),
    };
    let act = Activity::Create { object: note };
    let slug = match inbound_step(BASE, "user1", &act) {
        InboundStep::CheckAuthor { slug } => slug,
        other => panic!("unexpected step {other:?}"),
    };
    assert_eq!(slug, "2025/06/nested-post");
    match after_author("user1", act, "raw".to_string(), slug, Some("user1".to_string()), UnixMillis { millis: 9 }) {
        InboundEffect::AddComment { comment, .. } => {
            assert_eq!(comment.id, "https://a.test/n1");
            assert_eq!(comment.author_id, "https://a.test/users/a");
            assert_eq!(comment.created_at, UnixMillis { millis: 1750291200000 });
            assert_eq!(comment.proceed_at, UnixMillis { millis: 9 });
            assert_eq!(comment.content, "hi");
            assert_eq!(comment.raw, "raw");
        }
        other => panic!("unexpected effect {other:?}"),
    }
}

#[test]
fn unfollow_removes_the_actor() {
    let undo = Activity::Undo {
        actor: "https://a.test/users/a".to_string(),
        object: Box::new(Activity::Follow {
            id: "https://a.test/f1".to_string(),
            actor: "https://a.test/users/a".to_string(),
            object: "https://blog.test/users/user1".to_string(),
        }),
    };
    let mut followers = FollowerList::new();
    followers.add_follower("https://a.test/users/a", "https://a.test/inbox", "https://a.test/f1");
    followers.add_follower("https://a.test/users/a", "https://a.test/inbox", "https://a.test/f2");
    followers.add_follower("https://b.test/users/b", "https://b.test/inbox", "https://b.test/f1");
    match inbound_step(BASE, "user1", &undo) {
        InboundStep::RemoveFollowerByActor { username, actor } => {
            assert_eq!(username, "user1");
            followers.remove_follower_by_actor(&actor);
        }
        other => panic!("unexpected step {other:?}"),
    }
    assert_eq!(followers.get_followers_len(), 1);
    followers.remove_follower("https://b.test/f1");
    assert_eq!(followers.get_followers_len(), 0);
}

#[test]
fn inbox_acceptance_rules() {
    assert_eq!(inbox_precheck(false, Some("application/activity+json")).unwrap().status, 404);
    assert_eq!(inbox_precheck(true, Some("application/json")).unwrap().status, 400);
    assert_eq!(inbox_precheck(true, None).unwrap().status, 400);
    assert!(inbox_precheck(true, Some("application/activity+json")).is_none());
    let ok = user_inbox_post(
        "user1".to_string(),
        VerifyResult::Verified,
        Some("{}".to_string()),
        Some(("Follow".to_string(), "https://a.test/f1".to_string())),
    );
    assert!(matches!(ok, Ok(QueueData::Inbox { ref verified_body, ref id, .. }) if verified_body.as_deref() == Some("{}") && id == "https://a.test/f1"));
    let unverified = user_inbox_post("user1".to_string(), VerifyResult::CannotVerify, Some("{}".to_string()), Some(("Like".to_string(), "i".to_string())));
    assert!(matches!(unverified, Ok(QueueData::Inbox { verified_body: None, .. })));
    let failed = user_inbox_post("user1".to_string(), VerifyResult::Failed, Some("{}".to_string()), Some(("Like".to_string(), "i".to_string())));
    assert_eq!(failed.unwrap_err().status, 400);
    let malformed = user_inbox_post("user1".to_string(), VerifyResult::Verified, Some("{}".to_string()), None);
    assert_eq!(malformed.unwrap_err().status, 400);
}

#[test]
fn accept_follow_document() {
    let r = user_accept_follow_get("application/activity+json", BASE, "user1", true, &AcceptFollowQuery { object: "https://a.test/f 1".to_string() });
    assert_eq!(r.status, 200);
    assert_eq!(r.body, accept_follow_activity(BASE, "user1", "https://a.test/f 1", "https://a.test/f 1"));
    assert!(r.body.contains("accept_follow?object=https%3A%2F%2Fa.test%2Ff+1"));
    assert_eq!(user_accept_follow_get("text/html", BASE, "user1", true, &AcceptFollowQuery { object: "x".to_string() }).status, 406);
    assert_eq!(user_accept_follow_get("application/activity+json", BASE, "user1", false, &AcceptFollowQuery { object: "x".to_string() }).status, 404);
}

#[test]
fn effects_carried_out_on_the_reaction_list() {
    let mut reactions = ReactionList::new();
    let like = like("https://a.test/users/a", "https://blog.test/articles/article1");
    let e = after_author("user1", like, String::new(), "article1".to_string(), Some("user1".to_string()), UnixMillis { millis: 0 });
    reactions.apply_effect(e);
    assert_eq!(reactions.reaction_count(), 1);
    for _ in 0..2 {
        reactions.apply_effect(InboundEffect::RemoveReactionBy {
            slug: "article1".to_string(),
            actor: "https://a.test/users/a".to_string(),
        });
        assert_eq!(reactions.reaction_count(), 0);
    }
    reactions.apply_effect(InboundEffect::Drop);
    assert_eq!(reactions.reaction_count(), 0);
}
