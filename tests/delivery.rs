use ap_federation::queue::{
    after_author_lookup, classify_delivery, plan_delivery_batch, process_queue, DeliveryKind, JobAction,
    ProcessQueueResult, QueueData,
};
use ap_federation::routes::article_events_get;
use ap_federation::store::FollowerList;

const BASE: &str = "https://blog.test";

fn create_body(slug: &str) -> String {
    format!(
        "{{\"@context\":\"https://www.w3.org/ns/activitystreams\",\"id\":\"https://blog.test/events/articles/create/{slug}\",\"type\":\"Create\",\"actor\":\"https://blog.test/users/user1\",\"object\":\"https://blog.test/articles/{slug}\"}}"
    )
}

#[test]
fn batched_delivery_reaches_every_inbox_once() {
    let mut followers = FollowerList::new();
    for c in 'a'..='z' {
        let actor = format!("https://{c}.test/users/{c}");
        let inbox = format!("https://{c}.test/inbox");
        followers.add_follower(&actor, &inbox, &format!("https://{c}.test/f1"));
    }
    let mut queue = vec![QueueData::DeliveryNewArticleToAll { slug: "first-post".to_string() }];
    let mut posts = Vec::new();
    let mut batches = 0;
    while let Some(job) = queue.pop() {
        match process_queue(BASE, job) {
            JobAction::LookupAuthor { kind, slug } => {
                queue.extend(after_author_lookup(kind, slug, Some("user1".to_string())));
            }
            JobAction::FetchBatch { kind, slug, author, last_inbox } => {
                batches += 1;
                let (inboxes, next) = followers.get_followers_inbox_batch(&last_inbox);
                queue.extend(plan_delivery_batch(kind, &slug, &author, inboxes, next));
            }
            JobAction::Deliver(post) => posts.push(post),
            other => panic!("unexpected step {other:?}"),
        }
    }
    assert_eq!(batches, 3);
    assert_eq!(posts.len(), 26);
    let mut targets: Vec<String> = posts.iter().map(|p| p.target.clone()).collect();
    targets.sort();
    targets.dedup();
    assert_eq!(targets.len(), 26);
    for c in 'a'..='z' {
        assert!(targets.contains(&format!("https://{c}.test/inbox")));
    }
    for p in &posts {
        assert_eq!(p.body, create_body("first-post"));
        assert_eq!(p.key_id, "https://blog.test/users/user1#main-key");
    }
}

#[test]
fn full_batch_enqueues_the_next_batch() {
    let inboxes: Vec<String> = (0..10).map(|i| format!("https://{i}.test/inbox")).collect();
    let jobs = plan_delivery_batch(
        DeliveryKind::Update,
        &"s".to_string(),
        &"u".to_string(),
        inboxes,
        "https://9.test/inbox".to_string(),
    );
    assert_eq!(jobs.len(), 11);
    assert!(matches!(&jobs[10], QueueData::DeliveryUpdateArticleBatch { last_inbox, .. } if last_inbox == "https://9.test/inbox"));
    let short = plan_delivery_batch(DeliveryKind::Delete, &"s".to_string(), &"u".to_string(), vec!["x".to_string()], "x".to_string());
    assert_eq!(short.len(), 1);
    assert!(matches!(&short[0], QueueData::DeliveryDeleteArticle { inbox, .. } if inbox == "x"));
}

#[test]
fn delete_to_all_starts_with_the_given_author() {
    let job = QueueData::DeliveryDeleteArticleToAll { slug: "gone".to_string(), author: "user1".to_string() };
    match process_queue(BASE, job) {
        JobAction::Enqueue(jobs) => {
            assert_eq!(jobs.len(), 1);
            assert!(matches!(&jobs[0], QueueData::DeliveryDeleteArticleBatch { slug, author, last_inbox }
                if slug == "gone" && author == "user1" && last_inbox.is_empty()));
        }
        other => panic!("unexpected step {other:?}"),
    }
    assert!(after_author_lookup(DeliveryKind::Create, "s".to_string(), None).is_empty());
}

#[test]
fn delivery_classification() {
    assert_eq!(classify_delivery(Some(503)), ProcessQueueResult::Retry);
    assert_eq!(classify_delivery(Some(410)), ProcessQueueResult::Finished);
    assert_eq!(classify_delivery(Some(404)), ProcessQueueResult::Finished);
    assert_eq!(classify_delivery(Some(202)), ProcessQueueResult::Finished);
    assert_eq!(classify_delivery(Some(500)), ProcessQueueResult::Retry);
    assert_eq!(classify_delivery(Some(301)), ProcessQueueResult::Retry);
    assert_eq!(classify_delivery(None), ProcessQueueResult::Finished);
}

#[test]
fn delivered_activity_is_the_served_event() {
    let job = QueueData::DeliveryNewArticle {
        slug: "2025/06/nested-post".to_string(),
        author: "user1".to_string(),
        inbox: "https://a.test/inbox".to_string(),
    };
    let post = match process_queue(BASE, job) {
        JobAction::Deliver(p) => p,
        other => panic!("unexpected step {other:?}"),
    };
    let served = article_events_get(
        DeliveryKind::Create,
        "application/activity+json",
        BASE,
        "2025/06/nested-post",
        true,
        Some("user1".to_string()),
    );
    assert_eq!(served.status, 200);
    assert_eq!(served.body, post.body);
    assert_eq!(post.body, create_body("2025/06/nested-post"));
}

#[test]
fn event_endpoint_statuses() {
    let r = article_events_get(DeliveryKind::Update, "text/html", BASE, "a", true, Some("u".to_string()));
    assert_eq!(r.status, 406);
    let r = article_events_get(DeliveryKind::Update, "application/activity+json", BASE, "a", false, Some("u".to_string()));
    assert_eq!(r.status, 404);
    let r = article_events_get(DeliveryKind::Delete, "application/activity+json", BASE, "a", true, Some("u".to_string()));
    assert_eq!(r.status, 200);
    let r = article_events_get(DeliveryKind::Delete, "application/activity+json", BASE, "a", false, None);
    assert_eq!(r.status, 404);
    let r = article_events_get(DeliveryKind::Delete, "application/activity+json", BASE, "a", false, Some("u".to_string()));
    assert_eq!(r.status, 200);
    assert!(r.body.contains("\"type\":\"Delete\""));
    assert!(r.body.contains("\"id\":\"https://blog.test/events/articles/delete/a\""));
}
