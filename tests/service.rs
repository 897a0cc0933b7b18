use rust_server_api::crawl::{downloaded_items, work_items, BacklogCounters, PageCursor, PAGE_RESET_MS};
use rust_server_api::imgur_interface::{Image as UpImage, Post as UpPost};
use rust_server_api::mongo_db_interface::{text_or_empty, Image, Post};
use rust_server_api::request::{on_computed, on_lookup, Computed, Failure, GateStep, Lookup, Reply};
use std::collections::HashMap;

fn verdict(id: &str) -> Post {
    Post {
        id: id.to_string(),
        images: vec![Image {
            id: "i".to_string(),
            description: String::new(),
            url: "u".to_string(),
            unrecoverable: None,
            image_ocr_text: None,
        }],
        post_url: "url".to_string(),
        datetime: "1".to_string(),
        unrecoverable: None,
        description: None,
        title: Some("t".to_string()),
    }
}

#[test]
fn defaults_fill_missing_fields() {
    let v = verdict("a").with_defaults();
    assert_eq!(v.unrecoverable, Some(true));
    assert_eq!(v.description, Some(String::new()));
    assert_eq!(v.title, Some("t".to_string()));
    assert_eq!(v.images[0].unrecoverable, Some(true));
    assert_eq!(v.images[0].image_ocr_text, Some(String::new()));
    assert_eq!(v.images[0].url, "u");
    let mut w = verdict("b");
    w.unrecoverable = Some(false);
    w.images[0].unrecoverable = Some(false);
    let w = w.with_defaults();
    assert_eq!(w.unrecoverable, Some(false));
    assert_eq!(w.images[0].unrecoverable, Some(false));
    assert_eq!(text_or_empty(&Some("x".to_string())), "x");
}

fn lookup(store: &HashMap<String, Post>, id: &str) -> Lookup {
    match store.get(id) {
        Some(v) => Lookup::Found(v.clone()),
        None => Lookup::NotFound,
    }
}

#[test]
fn second_request_is_served_from_the_store() {
    let mut store: HashMap<String, Post> = HashMap::new();
    let mut computed = 0;
    let mut replies = vec![];
    for _ in 0..2 {
        let reply = match on_lookup(lookup(&store, "abc")) {
            GateStep::Respond(r) => r,
            GateStep::Compute => {
                computed += 1;
                let v = verdict("abc");
                store.insert(v.id.clone(), v.clone());
                on_computed(Computed::Done(v))
            }
        };
        replies.push(reply);
    }
    assert_eq!(computed, 1);
    match (&replies[0], &replies[1]) {
        (Reply::Verdict(a), Reply::Verdict(b)) => assert_eq!(a, b),
        other => panic!("unexpected {:?}", other),
    }
}

#[test]
fn failures_and_their_replies() {
    match on_lookup(Lookup::Failed) {
        GateStep::Respond(r) => {
            assert_eq!(r.status(), 500);
            match r {
                Reply::Error(f) => {
                    assert_eq!(f, Failure::Lookup);
                    assert_eq!(f.code(), 4);
                    assert_eq!(f.message(), "Database Error(4)");
                }
                other => panic!("unexpected {:?}", other),
            }
        }
        other => panic!("unexpected {:?}", other),
    }
    assert_eq!(Failure::Upstream.message(), "Database Error(2)");
    assert_eq!(Failure::Pipeline.message(), "Database Error(3)");
    assert!(matches!(on_computed(Computed::UpstreamFailed), Reply::Error(Failure::Upstream)));
    assert!(matches!(on_computed(Computed::PipelineFailed), Reply::Error(Failure::Pipeline)));
    assert_eq!(on_computed(Computed::Done(verdict("x"))).status(), 200);
    assert!(matches!(on_lookup(Lookup::NotFound), GateStep::Compute));
    match on_lookup(Lookup::Found(verdict("s"))) {
        GateStep::Respond(Reply::Verdict(v)) => assert_eq!(v.id, "s"),
        other => panic!("unexpected {:?}", other),
    }
}

#[test]
fn backlog_pacing() {
    let c = BacklogCounters { viewed_posts: 0, remaining_posts: 100, to_store: 51 };
    assert!(c.needs_page());
    let c = BacklogCounters { viewed_posts: 0, remaining_posts: 100, to_store: 50 };
    assert!(!c.needs_page());
    let c = BacklogCounters { viewed_posts: 0, remaining_posts: i64::MIN, to_store: i64::MAX };
    assert!(c.needs_page());
}

#[test]
fn page_counter() {
    let c = PageCursor::new(1000);
    assert_eq!(c.page, 0);
    let c = c.next(2000);
    assert_eq!(c, PageCursor { page: 1, reset_at_ms: 1000 });
    let c = c.next(3000);
    assert_eq!(c.page, 2);
    let c = c.next(1000 + PAGE_RESET_MS);
    assert_eq!(c, PageCursor { page: 1, reset_at_ms: 1000 + PAGE_RESET_MS });
    let c = PageCursor { page: u32::MAX, reset_at_ms: 5 }.next(6);
    assert_eq!(c, PageCursor { page: 1, reset_at_ms: 6 });
}

fn up_post(id: &str, is_album: bool, links: &[&str]) -> UpPost {
    UpPost {
        id: id.to_string(),
        title: None,
        description: None,
        datetime: 0,
        account_url: None,
        views: 0,
        link: format!("https://i.imgur.com/{}.jpg", id),
        is_album,
        nsfw: None,
        images_count: None,
        is_ad: false,
        images: links
            .iter()
            .enumerate()
            .map(|(i, l)| UpImage { id: format!("{}-{}", id, i), title: None, description: None, link: l.to_string() })
            .collect(),
    }
}

#[test]
fn page_flattens_into_work_items() {
    let posts = vec![
        up_post("a", true, &["https://i.imgur.com/a0.png", "https://i.imgur.com/a1.mp4"]),
        up_post("b", false, &["https://i.imgur.com/ignored.png"]),
    ];
    let items = work_items(&posts);
    assert_eq!(items.len(), 3);
    assert_eq!(items[0].id, "a-0");
    assert_eq!(items[0].parent_post_id, "a");
    assert_eq!(items[0].extension, "png");
    assert_eq!(items[1].url, "https://i.imgur.com/a1.mp4");
    assert_eq!(items[1].extension, "mp4");
    assert_eq!(items[2].id, "b");
    assert_eq!(items[2].parent_post_id, "b");
    assert_eq!(items[2].url, "https://i.imgur.com/b.jpg");
    assert_eq!(items[2].extension, "jpg");
    assert!(work_items(&vec![]).is_empty());
}

#[test]
fn failed_downloads_are_dropped() {
    let posts = vec![up_post("a", true, &["https://i.imgur.com/a0.png", "https://i.imgur.com/a1.png", "https://i.imgur.com/a2.png"])];
    let items = work_items(&posts);
    let kept = downloaded_items(items, &vec![true, false, true]);
    let ids: Vec<&str> = kept.iter().map(|i| i.id.as_str()).collect();
    assert_eq!(ids, vec!["a-0", "a-2"]);
    assert!(downloaded_items(vec![], &vec![]).is_empty());
}
