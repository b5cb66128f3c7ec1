use se621::request::cursor;
use se621::request::locate;
use se621::request::pool_url;
use se621::request::post_lookup_url;
use se621::request::tag_page_url;
use se621::request::ScrapeError;
use se621::scraper::build_pool_post;
use se621::scraper::build_single_post;
use se621::scraper::File;
use se621::scraper::Pool;
use se621::scraper::PoolWalk;
use se621::scraper::Post;
use se621::scraper::TagPayload;
use se621::scraper::TagWalk;
use se621::text::decimal;
use se621::unit::Config;
use se621::unit::Unit;
use std::collections::VecDeque;

fn post(id: u64, md5: &str, ext: &str, url: Option<&str>) -> Post {
    Post {
        id,
        file: File {
            ext: String::from(ext),
            md5: String::from(md5),
            url: url.map(String::from),
        },
    }
}

fn page(posts: Vec<Post>) -> TagPayload {
    TagPayload { posts }
}

fn config(sfw: bool) -> Config {
    Config::new(sfw, false, None)
}

#[test]
fn decimal_writes_digits() {
    assert_eq!(decimal(0), "0");
    assert_eq!(decimal(7), "7");
    assert_eq!(decimal(10), "10");
    assert_eq!(decimal(1234567890), "1234567890");
    assert_eq!(decimal(u64::MAX), "18446744073709551615");
}

#[test]
fn cursor_is_letter_and_id() {
    assert_eq!(cursor(0), "a0");
    assert_eq!(cursor(4051), "a4051");
}

#[test]
fn tag_page_url_first_page() {
    assert_eq!(
        tag_page_url("wolf", 0, false),
        Ok(String::from("https://e621.net/posts.json?limit=320&tags=wolf&page=a0"))
    );
}

#[test]
fn tag_page_url_safe_mode_uses_other_host() {
    assert_eq!(
        tag_page_url("wolf", 77, true),
        Ok(String::from("https://e926.net/posts.json?limit=320&tags=wolf&page=a77"))
    );
}

#[test]
fn tag_page_url_keeps_colon_and_joins_words_with_plus() {
    assert_eq!(
        tag_page_url("rating:s fox", 12, false),
        Ok(String::from("https://e621.net/posts.json?limit=320&tags=rating:s+fox&page=a12"))
    );
}

#[test]
fn post_lookup_url_starts_after_predecessor() {
    assert_eq!(
        post_lookup_url(5, false),
        Ok(String::from("https://e621.net/posts.json?limit=1&page=a4"))
    );
    assert_eq!(
        post_lookup_url(1, true),
        Ok(String::from("https://e926.net/posts.json?limit=1&page=a0"))
    );
}

#[test]
fn post_lookup_url_refuses_zero() {
    assert_eq!(post_lookup_url(0, false), Err(ScrapeError::ZeroId));
}

#[test]
fn pool_url_keeps_brackets() {
    assert_eq!(
        pool_url(42, false),
        Ok(String::from("https://e621.net/pools.json?search[id]=42"))
    );
    assert_eq!(
        pool_url(7, true),
        Ok(String::from("https://e926.net/pools.json?search[id]=7"))
    );
}

#[test]
fn locate_adds_pairs_and_decodes() {
    let params = vec![(String::from("k"), String::from("a b/c"))];
    assert_eq!(
        locate("https://example.net/x", &params),
        Ok(String::from("https://example.net/x?k=a+b/c"))
    );
}

#[test]
fn locate_refuses_what_is_no_address() {
    let params: Vec<(String, String)> = Vec::new();
    assert_eq!(locate("not an address", &params), Err(ScrapeError::Address));
}

#[test]
fn locate_refuses_bytes_that_are_no_text() {
    let params: Vec<(String, String)> = Vec::new();
    assert_eq!(locate("https://example.net/%ff", &params), Err(ScrapeError::Encoding));
}

#[test]
fn tag_walk_collects_pages_until_empty_page() {
    let mut walk = TagWalk::new("wolf", &config(false));
    assert!(!walk.is_done());
    assert_eq!(
        walk.request(),
        Ok(Some(String::from("https://e621.net/posts.json?limit=320&tags=wolf&page=a0")))
    );
    walk.absorb(&page(vec![
        post(30, "m30", "png", Some("u30")),
        post(20, "m20", "jpg", None),
    ]));
    assert!(!walk.is_done());
    assert_eq!(
        walk.request(),
        Ok(Some(String::from("https://e621.net/posts.json?limit=320&tags=wolf&page=a30")))
    );
    walk.absorb(&page(vec![
        post(50, "m50", "gif", Some("u50")),
        post(45, "m45", "png", Some("u45")),
        post(40, "m40", "png", Some("u40")),
    ]));
    assert_eq!(
        walk.request(),
        Ok(Some(String::from("https://e621.net/posts.json?limit=320&tags=wolf&page=a50")))
    );
    walk.absorb(&page(vec![]));
    assert!(walk.is_done());
    assert_eq!(walk.request(), Ok(None));
    let container = walk.into_container();
    assert_eq!(container.tag_name, "wolf");
    assert_eq!(container.queue.len(), 5);
    let names: Vec<&str> = container.queue.iter().map(|u| u.name.as_str()).collect();
    assert_eq!(names, vec!["m30", "m20", "m50", "m45", "m40"]);
    assert_eq!(
        container.queue[1],
        Unit {
            dir_tag: String::from("wolf"),
            name: String::from("m20"),
            ext: String::from("jpg"),
            url: None,
        }
    );
    assert_eq!(container.queue[2].url, Some(String::from("u50")));
}

#[test]
fn tag_walk_ignores_pages_after_the_end() {
    let mut walk = TagWalk::new("wolf", &config(true));
    walk.absorb(&page(vec![]));
    walk.absorb(&page(vec![post(9, "m9", "png", Some("u9"))]));
    assert!(walk.is_done());
    assert_eq!(walk.into_container().queue.len(), 0);
}

fn pool(name: &str, post_ids: Vec<u64>) -> Pool {
    Pool { id: 1, name: String::from(name), post_ids }
}

#[test]
fn pool_walk_names_members_by_place() {
    let mut walk = PoolWalk::new(vec![pool("story", vec![11, 22, 33])], &config(false)).unwrap();
    assert_eq!(
        walk.request(),
        Ok(Some(String::from("https://e621.net/posts.json?limit=1&page=a10")))
    );
    walk.absorb(&page(vec![post(11, "h11", "png", Some("u11"))]));
    assert_eq!(
        walk.request(),
        Ok(Some(String::from("https://e621.net/posts.json?limit=1&page=a21")))
    );
    walk.absorb(&page(vec![post(22, "h22", "jpg", Some("u22"))]));
    walk.absorb(&page(vec![post(33, "h33", "gif", None)]));
    assert!(walk.is_done());
    assert_eq!(walk.request(), Ok(None));
    let container = walk.into_container();
    assert_eq!(container.tag_name, "story");
    let names: Vec<&str> = container.queue.iter().map(|u| u.name.as_str()).collect();
    assert_eq!(names, vec!["0", "1", "2"]);
    let exts: Vec<&str> = container.queue.iter().map(|u| u.ext.as_str()).collect();
    assert_eq!(exts, vec!["png", "jpg", "gif"]);
    assert_eq!(container.queue[0].dir_tag, "story");
    assert_eq!(container.queue[2].url, None);
}

#[test]
fn pool_walk_leaves_a_gap_for_a_missing_member() {
    let mut walk = PoolWalk::new(vec![pool("story", vec![11, 22, 33])], &config(false)).unwrap();
    walk.absorb(&page(vec![post(11, "h11", "png", Some("u11"))]));
    walk.absorb(&page(vec![post(23, "h23", "jpg", Some("u23"))]));
    walk.absorb(&page(vec![post(33, "h33", "gif", Some("u33"))]));
    assert!(walk.is_done());
    let container = walk.into_container();
    assert_eq!(container.queue.len(), 2);
    let names: Vec<&str> = container.queue.iter().map(|u| u.name.as_str()).collect();
    assert_eq!(names, vec!["0", "2"]);
    assert_eq!(container.queue[1].url, Some(String::from("u33")));
}

#[test]
fn pool_walk_passes_over_a_member_whose_answer_is_empty() {
    let mut walk = PoolWalk::new(vec![pool("story", vec![11, 22, 33])], &config(false)).unwrap();
    walk.absorb(&page(vec![post(11, "h11", "png", Some("u11"))]));
    walk.absorb(&page(vec![]));
    assert!(!walk.is_done());
    assert_eq!(
        walk.request(),
        Ok(Some(String::from("https://e621.net/posts.json?limit=1&page=a32")))
    );
    walk.absorb(&page(vec![post(33, "h33", "gif", Some("u33"))]));
    assert!(walk.is_done());
    let container = walk.into_container();
    let names: Vec<&str> = container.queue.iter().map(|u| u.name.as_str()).collect();
    assert_eq!(names, vec!["0", "2"]);
}

#[test]
fn pool_walk_ignores_answers_after_the_last_member() {
    let mut walk = PoolWalk::new(vec![pool("story", vec![11])], &config(false)).unwrap();
    walk.absorb(&page(vec![post(11, "h11", "png", Some("u11"))]));
    assert!(walk.is_done());
    walk.absorb(&page(vec![post(11, "h11", "png", Some("u11"))]));
    assert_eq!(walk.into_container().queue.len(), 1);
}

#[test]
fn pool_walk_needs_a_pool() {
    assert_eq!(PoolWalk::new(vec![], &config(false)).err(), Some(ScrapeError::NoPool));
}

#[test]
fn pool_walk_takes_the_first_pool() {
    let walk = PoolWalk::new(
        vec![pool("first", vec![]), pool("second", vec![5])],
        &config(true),
    )
    .unwrap();
    assert!(walk.is_done());
    let container = walk.into_container();
    assert_eq!(container.tag_name, "first");
    assert_eq!(container.queue.len(), 0);
}

#[test]
fn pool_walk_with_member_zero_cannot_ask() {
    let walk = PoolWalk::new(vec![pool("story", vec![0])], &config(false)).unwrap();
    assert_eq!(walk.request(), Err(ScrapeError::ZeroId));
}

#[test]
fn build_pool_post_adds_matching_post() {
    let mut queue: VecDeque<Unit> = VecDeque::new();
    let batch = page(vec![post(8, "h8", "webm", Some("u8"))]);
    build_pool_post(8, String::from("pool"), 12, &mut queue, &batch);
    assert_eq!(
        queue,
        VecDeque::from(vec![Unit {
            dir_tag: String::from("pool"),
            name: String::from("12"),
            ext: String::from("webm"),
            url: Some(String::from("u8")),
        }])
    );
}

#[test]
fn build_pool_post_drops_other_post() {
    let mut queue: VecDeque<Unit> = VecDeque::new();
    let batch = page(vec![post(9, "h9", "webm", Some("u9"))]);
    build_pool_post(8, String::from("pool"), 0, &mut queue, &batch);
    assert!(queue.is_empty());
}

#[test]
fn build_pool_post_passes_over_empty_answer() {
    let mut queue: VecDeque<Unit> = VecDeque::new();
    queue.push_back(Unit {
        dir_tag: String::from("pool"),
        name: String::from("0"),
        ext: String::from("png"),
        url: None,
    });
    let before = queue.clone();
    build_pool_post(8, String::from("pool"), 1, &mut queue, &page(vec![]));
    assert_eq!(queue, before);
}

#[test]
fn build_single_post_takes_whatever_comes() {
    let batch = page(vec![post(101, "h101", "png", Some("u101"))]);
    let container = build_single_post(100, &batch).unwrap();
    assert_eq!(container.tag_name, "100");
    assert_eq!(
        container.queue,
        VecDeque::from(vec![Unit {
            dir_tag: String::new(),
            name: String::from("h101"),
            ext: String::from("png"),
            url: Some(String::from("u101")),
        }])
    );
}

#[test]
fn build_single_post_errors() {
    assert_eq!(
        build_single_post(0, &page(vec![post(1, "h", "png", None)])).err(),
        Some(ScrapeError::ZeroId)
    );
    assert_eq!(build_single_post(3, &page(vec![])).err(), Some(ScrapeError::EmptyPage));
}
