use rust_server_api::filter::Filter;
use rust_server_api::imgur_interface::{
    album_step, assemble_verdict, create_filename, exceeds_threshold, extension, file_name_from_path,
    image_task, is_still_image, screened_verdict, AlbumStep, Downloader, Image, ImageRaw, ImageTask,
    Moderation, ModerationError, Post, Step, DEFAULT_MAX_CONNECTION,
};

fn filter_of(words: &[&str]) -> Filter {
    Filter::new(words.iter().map(|w| w.to_string()).collect())
}

fn image(id: &str, link: &str, description: Option<&str>) -> Image {
    Image {
        id: id.to_string(),
        title: None,
        description: description.map(|d| d.to_string()),
        link: link.to_string(),
    }
}

fn post(id: &str, title: &str, description: Option<&str>, images: Vec<Image>) -> Post {
    Post {
        id: id.to_string(),
        title: Some(title.to_string()),
        description: description.map(|d| d.to_string()),
        datetime: 1_600_000_000,
        account_url: None,
        views: 3,
        link: format!("https://imgur.com/gallery/{}", id),
        is_album: images.len() > 1,
        nsfw: None,
        images_count: Some(images.len() as u32),
        is_ad: false,
        images,
    }
}

#[test]
fn forbidden_title_short_circuits_without_downloads() {
    let f = filter_of(&["bad"]);
    let p = post("p1", "a BAD title", None, vec![image("1", "https://i.imgur.com/1.png", None)]);
    let (m, step) = Moderation::start(&f, p, "42".to_string(), 10).unwrap();
    drop(m);
    match step {
        Step::Finish { verdict, remove_scratch } => {
            assert!(!remove_scratch);
            assert_eq!(verdict.unrecoverable, Some(true));
            assert!(verdict.images.is_empty());
            assert_eq!(verdict.id, "p1");
            assert_eq!(verdict.title, Some("a BAD title".to_string()));
            assert_eq!(verdict.description, Some(String::new()));
            assert_eq!(verdict.datetime, "42");
            assert_eq!(verdict.post_url, "https://imgur.com/gallery/p1");
        }
        other => panic!("expected a verdict, got {:?}", other),
    }
}

#[test]
fn forbidden_description_short_circuits_even_with_bad_links() {
    let f = filter_of(&["bad"]);
    let p = post("p2", "fine", Some("so bad"), vec![image("1", "", None)]);
    let (_, step) = Moderation::start(&f, p, "1".to_string(), 10).unwrap();
    assert!(matches!(step, Step::Finish { remove_scratch: false, .. }));
}

#[test]
fn end_to_end_video_is_not_eligible() {
    let f = filter_of(&["bad"]);
    let p = post(
        "abc",
        "nice",
        None,
        vec![image("1", "https://i.imgur.com/x.png", None), image("2", "https://i.imgur.com/y.mp4", None)],
    );
    let (mut m, step) = Moderation::start(&f, p, "7".to_string(), 10).unwrap();
    match step {
        Step::Download { start, tasks } => {
            assert_eq!(start, 0);
            assert_eq!(tasks, vec![ImageTask::Fetch("https://i.imgur.com/x.png".to_string()), ImageTask::Skip]);
        }
        other => panic!("expected a download, got {:?}", other),
    }
    let step = m.on_batch(&f, vec![String::new(), String::new()]).unwrap();
    match step {
        Step::Finish { verdict, remove_scratch } => {
            assert!(remove_scratch);
            assert_eq!(verdict.id, "abc");
            assert_eq!(verdict.unrecoverable, Some(false));
            assert_eq!(verdict.images.len(), 2);
            assert_eq!(verdict.images[0].id, "1");
            assert_eq!(verdict.images[0].unrecoverable, Some(false));
            assert_eq!(verdict.images[1].id, "2");
            assert_eq!(verdict.images[1].unrecoverable, Some(false));
            assert_eq!(verdict.images[1].image_ocr_text, Some(String::new()));
        }
        other => panic!("expected a verdict, got {:?}", other),
    }
    assert!(is_still_image("https://i.imgur.com/x.png"));
    assert!(!is_still_image("https://i.imgur.com/y.mp4"));
}

#[test]
fn end_to_end_video_counts_only_in_the_numerator() {
    // one still image, safe; one video with a forbidden description: 1 unsafe over 1 eligible
    let f = filter_of(&["bad"]);
    let p = post(
        "abd",
        "nice",
        None,
        vec![image("1", "https://i.imgur.com/x.png", None), image("2", "https://i.imgur.com/y.gifv", Some("bad"))],
    );
    let v = assemble_verdict(&f, &p, &vec![String::new(), String::new()], &"0".to_string());
    assert_eq!(v.images[1].unrecoverable, Some(true));
    assert_eq!(v.unrecoverable, Some(true));
}

fn ten_images() -> Vec<Image> {
    (0..10).map(|i| image(&i.to_string(), &format!("https://i.imgur.com/{}.jpg", i), None)).collect()
}

#[test]
fn threshold_two_in_ten_is_unsafe() {
    let f = filter_of(&["bad"]);
    let p = post("t1", "t", None, ten_images());
    let mut texts = vec![String::new(); 10];
    texts[3] = "BAD text".to_string();
    texts[7] = "bad".to_string();
    let v = assemble_verdict(&f, &p, &texts, &"0".to_string());
    assert_eq!(v.unrecoverable, Some(true));
    assert_eq!(v.images.iter().filter(|i| i.unrecoverable == Some(true)).count(), 2);
}

#[test]
fn threshold_one_in_ten_is_safe() {
    let f = filter_of(&["bad"]);
    let p = post("t2", "t", None, ten_images());
    let mut texts = vec![String::new(); 10];
    texts[0] = "bad".to_string();
    let v = assemble_verdict(&f, &p, &texts, &"0".to_string());
    assert_eq!(v.unrecoverable, Some(false));
    assert_eq!(v.images[0].unrecoverable, Some(true));
    assert_eq!(v.images[0].image_ocr_text, Some("bad".to_string()));
}

#[test]
fn threshold_counts() {
    assert!(exceeds_threshold(2, 10));
    assert!(!exceeds_threshold(1, 10));
    assert!(exceeds_threshold(1, 5));
    assert!(!exceeds_threshold(1, 6));
    assert!(!exceeds_threshold(0, 0));
    assert!(exceeds_threshold(1, 0));
    assert!(!exceeds_threshold(0, 3));
    assert!(exceeds_threshold(usize::MAX, usize::MAX));
}

#[test]
fn description_of_an_image_flags_it() {
    let f = filter_of(&["bad"]);
    let p = post("d1", "t", None, vec![image("1", "https://i.imgur.com/a.png", Some("Bad!"))]);
    let v = assemble_verdict(&f, &p, &vec!["fine".to_string()], &"0".to_string());
    assert_eq!(v.images[0].unrecoverable, Some(true));
    assert_eq!(v.images[0].description, "Bad!");
    assert_eq!(v.unrecoverable, Some(true));
}

#[test]
fn post_without_images_is_safe() {
    let f = filter_of(&["bad"]);
    let p = post("e", "t", None, vec![]);
    let (_, step) = Moderation::start(&f, p, "0".to_string(), 3).unwrap();
    match step {
        Step::Finish { verdict, remove_scratch } => {
            assert!(remove_scratch);
            assert!(verdict.images.is_empty());
            assert_eq!(verdict.unrecoverable, Some(false));
        }
        other => panic!("expected a verdict, got {:?}", other),
    }
}

#[test]
fn invalid_link_fails_the_run() {
    let f = filter_of(&["bad"]);
    let p = post("i", "t", None, vec![image("1", "https://i.imgur.com/a.png", None), image("2", "", None)]);
    assert_eq!(Moderation::start(&f, p, "0".to_string(), 3).err(), Some(ModerationError::InvalidLink));
}

#[test]
fn wrong_number_of_texts_is_refused() {
    let f = filter_of(&["bad"]);
    let p = post("w", "t", None, ten_images());
    let (mut m, _) = Moderation::start(&f, p, "0".to_string(), 4).unwrap();
    assert_eq!(m.on_batch(&f, vec![String::new()]).err(), Some(ModerationError::CountMismatch));
    let step = m.on_batch(&f, vec![String::new(); 4]).unwrap();
    assert!(matches!(step, Step::Download { start: 4, .. }));
}

#[test]
fn texts_after_the_verdict_are_refused() {
    let f = filter_of(&[]);
    let p = post("z", "t", None, vec![image("1", "https://i.imgur.com/a.png", None)]);
    let (mut m, _) = Moderation::start(&f, p, "0".to_string(), 4).unwrap();
    assert!(matches!(m.on_batch(&f, vec!["x".to_string()]).unwrap(), Step::Finish { .. }));
    assert_eq!(m.on_batch(&f, vec![]).err(), Some(ModerationError::CountMismatch));
}

#[test]
fn downloads_go_in_groups_of_max_conn() {
    let f = filter_of(&["bad"]);
    let mut images = ten_images();
    images.push(image("10", "https://i.imgur.com/10.gif", None));
    images.push(image("11", "https://i.imgur.com/11.jpg", None));
    let p = post("g", "t", None, images);
    let d = Downloader::new("g");
    let (mut m, step) = d.download_post_images(&f, p, "0".to_string()).unwrap();
    let tasks = match step {
        Step::Download { start: 0, tasks } => tasks,
        other => panic!("unexpected {:?}", other),
    };
    assert_eq!(tasks.len(), DEFAULT_MAX_CONNECTION);
    let step = m.on_batch(&f, vec!["one".to_string(); 10]).unwrap();
    match step {
        Step::Download { start, tasks } => {
            assert_eq!(start, 10);
            assert_eq!(tasks, vec![ImageTask::Skip, ImageTask::Fetch("https://i.imgur.com/11.jpg".to_string())]);
        }
        other => panic!("unexpected {:?}", other),
    }
    let step = m.on_batch(&f, vec![String::new(), "last".to_string()]).unwrap();
    match step {
        Step::Finish { verdict, .. } => {
            assert_eq!(verdict.images.len(), 12);
            assert_eq!(verdict.images[0].image_ocr_text, Some("one".to_string()));
            assert_eq!(verdict.images[11].image_ocr_text, Some("last".to_string()));
        }
        other => panic!("unexpected {:?}", other),
    }
}

#[test]
fn screened_verdict_fields() {
    let p = post("s", "t", Some("d"), vec![image("1", "https://i.imgur.com/a.png", None)]);
    let v = screened_verdict(&p, &"9".to_string());
    assert_eq!(v.unrecoverable, Some(true));
    assert!(v.images.is_empty());
    assert_eq!(v.description, Some("d".to_string()));
}

#[test]
fn image_tasks() {
    assert_eq!(image_task(&image("1", "https://i.imgur.com/a.gif", None)), ImageTask::Skip);
    assert_eq!(image_task(&image("1", "https://i.imgur.com/a.mp4", None)), ImageTask::Skip);
    assert_eq!(
        image_task(&image("1", "https://i.imgur.com/a.jpeg", None)),
        ImageTask::Fetch("https://i.imgur.com/a.jpeg".to_string())
    );
}

#[test]
fn extensions() {
    assert_eq!(extension("https://i.imgur.com/abc.gifv"), "gifv");
    assert_eq!(extension("https://i.imgur.com/abc.tar.gz"), "gz");
    assert_eq!(extension("nodot"), "nodot");
    assert_eq!(extension("ends."), "");
    assert_eq!(extension(""), "");
    assert!(!is_still_image("a.gifv"));
    assert!(is_still_image("a.gifs"));
    assert!(is_still_image("a.MP4"));
}

#[test]
fn filenames_from_urls() {
    assert_eq!(create_filename("https://i.imgur.com/abc.png"), Some("abc.png".to_string()));
    assert_eq!(create_filename("https://i.imgur.com/dir/abc.png?x=1"), Some("dir/abc.png".to_string()));
    assert_eq!(create_filename("not a url"), None);
    assert_eq!(file_name_from_path("/a/b"), "a/b");
    assert_eq!(file_name_from_path("ab"), "ab");
    assert_eq!(file_name_from_path(""), "");
}

#[test]
fn downloader_urls() {
    let d = Downloader::new("xYz12");
    assert_eq!(d.post_id(), "xYz12");
    assert_eq!(d.save_path(), "xYz12");
    assert_eq!(d.max_conn(), 10);
    assert_eq!(d.album_url(), "https://api.imgur.com/3/album/xYz12");
    assert_eq!(d.image_url(), "https://api.imgur.com/3/image/xYz12");
    assert!(Downloader::for_post("").is_none());
    assert!(Downloader::for_post("a b").is_none());
    let e = Downloader::for_post("xYz12").unwrap();
    assert_eq!(e.post_id(), "xYz12");
    assert_eq!(e.max_conn(), 10);
}

#[test]
fn album_lookup_steps() {
    assert_eq!(album_step(200), AlbumStep::Parse);
    assert_eq!(album_step(404), AlbumStep::TryImage);
    assert_eq!(album_step(500), AlbumStep::Fail);
    assert_eq!(album_step(403), AlbumStep::Fail);
}

#[test]
fn lone_image_becomes_a_post() {
    let raw = ImageRaw {
        id: "q1".to_string(),
        title: Some("t".to_string()),
        description: None,
        datetime: 5,
        account_url: Some("acc".to_string()),
        views: 9,
        link: "https://i.imgur.com/q1.png".to_string(),
        nsfw: Some(false),
        is_ad: false,
    };
    let p = raw.into_post();
    assert_eq!(p.link, "https://imgur.com/gallery/q1");
    assert!(!p.is_album);
    assert_eq!(p.images_count, Some(1));
    assert_eq!(p.images.len(), 1);
    assert_eq!(p.images[0].id, "q1");
    assert_eq!(p.images[0].link, "https://i.imgur.com/q1.png");
    assert_eq!(p.images[0].title, Some("t".to_string()));
    assert_eq!(p.views, 9);
}

#[test]
fn run_keeps_input_order_in_groups_of_two() {
    let f = filter_of(&["bad"]);
    let images: Vec<Image> = ["A", "B", "C", "D", "E"]
        .iter()
        .map(|id| image(id, &format!("https://i.imgur.com/{}.png", id), None))
        .collect();
    let p = post("o", "t", None, images);
    let (mut m, mut step) = Moderation::start(&f, p, "0".to_string(), 2).unwrap();
    let mut starts = vec![];
    let verdict = loop {
        match step {
            Step::Download { start, tasks } => {
                assert!(tasks.len() <= 2);
                starts.push(start);
                let texts = tasks
                    .iter()
                    .map(|t| match t {
                        ImageTask::Fetch(url) => format!("text of {}", url),
                        ImageTask::Skip => String::new(),
                    })
                    .collect();
                step = m.on_batch(&f, texts).unwrap();
            }
            Step::Finish { verdict, .. } => break verdict,
        }
    };
    assert_eq!(starts, vec![0, 2, 4]);
    let ids: Vec<&str> = verdict.images.iter().map(|i| i.id.as_str()).collect();
    assert_eq!(ids, vec!["A", "B", "C", "D", "E"]);
    for i in &verdict.images {
        assert_eq!(i.image_ocr_text, Some(format!("text of {}", i.url)));
    }
}
