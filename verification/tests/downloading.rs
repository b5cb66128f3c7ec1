use se621::download::Downloader;
use se621::unit::Config;
use se621::unit::Unit;
use se621::worker::Action;
use se621::worker::Event;
use se621::worker::Worker;
use se621::MAX_CHAN_COUNT_TRY;
use std::collections::VecDeque;

fn unit(name: &str, url: Option<&str>) -> Unit {
    Unit {
        dir_tag: String::from("tag"),
        name: String::from(name),
        ext: String::from("png"),
        url: url.map(String::from),
    }
}

fn fetch(name: &str, url: &str) -> Action {
    Action::Fetch { url: String::from(url), file: format!("{}.png", name) }
}

#[test]
fn file_name_joins_name_and_extension() {
    assert_eq!(unit("abc", None).file_name(), "abc.png");
    let odd = Unit {
        dir_tag: String::new(),
        name: String::new(),
        ext: String::new(),
        url: None,
    };
    assert_eq!(odd.file_name(), ".");
}

#[test]
fn config_new_keeps_fields() {
    let c = Config::new(true, false, Some(String::from("out")));
    assert!(c.sfw);
    assert!(!c.verbose);
    assert_eq!(c.directory, Some(String::from("out")));
}

#[test]
fn worker_starts_polling() {
    let w = Worker::new(3);
    assert_eq!(w.pending(), Action::Poll);
    assert!(w.is_polling());
    assert!(!w.is_stopped());
}

#[test]
fn worker_stops_after_twenty_empty_polls() {
    assert_eq!(MAX_CHAN_COUNT_TRY, 20);
    let mut w = Worker::new(3);
    for _ in 0..19 {
        assert_eq!(w.step(Event::Polled(None)), Action::Poll);
    }
    assert!(!w.is_stopped());
    assert_eq!(w.step(Event::Polled(None)), Action::Stop);
    assert!(w.is_stopped());
    assert_eq!(w.step(Event::Polled(Some(unit("a", Some("u"))))), Action::Stop);
    assert_eq!(w.step(Event::Fetched(true)), Action::Stop);
}

#[test]
fn worker_skips_unit_without_url() {
    let mut w = Worker::new(3);
    for _ in 0..19 {
        w.step(Event::Polled(None));
    }
    assert_eq!(w.step(Event::Polled(Some(unit("a", None)))), Action::Poll);
    assert_eq!(w.step(Event::Polled(None)), Action::Stop);
}

#[test]
fn worker_skips_file_that_exists() {
    let mut w = Worker::new(3);
    for _ in 0..19 {
        w.step(Event::Polled(None));
    }
    assert_eq!(
        w.step(Event::Polled(Some(unit("a", Some("u"))))),
        Action::Probe { file: String::from("a.png") }
    );
    assert_eq!(w.step(Event::Probed(true)), Action::Poll);
    assert_eq!(w.step(Event::Polled(None)), Action::Stop);
}

#[test]
fn worker_fetches_missing_file_and_resets_counters() {
    let mut w = Worker::new(3);
    for _ in 0..19 {
        w.step(Event::Polled(None));
    }
    w.step(Event::Polled(Some(unit("a", Some("u")))));
    assert_eq!(w.step(Event::Probed(false)), fetch("a", "u"));
    assert_eq!(w.step(Event::Fetched(true)), Action::Poll);
    for _ in 0..19 {
        assert_eq!(w.step(Event::Polled(None)), Action::Poll);
    }
    assert_eq!(w.step(Event::Polled(None)), Action::Stop);
}

#[test]
fn worker_gives_up_after_retry_limit() {
    let mut w = Worker::new(3);
    w.step(Event::Polled(Some(unit("a", Some("u")))));
    assert_eq!(w.step(Event::Probed(false)), fetch("a", "u"));
    assert_eq!(w.step(Event::Fetched(false)), fetch("a", "u"));
    assert_eq!(w.step(Event::Fetched(false)), fetch("a", "u"));
    assert_eq!(w.step(Event::Fetched(false)), Action::Poll);
    assert!(w.is_polling());
    w.step(Event::Polled(Some(unit("b", Some("v")))));
    assert_eq!(w.step(Event::Probed(false)), fetch("b", "v"));
    assert_eq!(w.step(Event::Fetched(false)), fetch("b", "v"));
    assert_eq!(w.step(Event::Fetched(false)), fetch("b", "v"));
    assert_eq!(w.step(Event::Fetched(true)), Action::Poll);
}

#[test]
fn worker_with_no_tries_never_fetches() {
    let mut w = Worker::new(0);
    w.step(Event::Polled(Some(unit("a", Some("u")))));
    assert_eq!(w.step(Event::Probed(false)), Action::Poll);
}

#[test]
fn worker_with_one_try_fetches_once() {
    let mut w = Worker::new(1);
    w.step(Event::Polled(Some(unit("a", Some("u")))));
    assert_eq!(w.step(Event::Probed(false)), fetch("a", "u"));
    assert_eq!(w.step(Event::Fetched(false)), Action::Poll);
}

#[test]
fn worker_ignores_event_that_answers_nothing() {
    let mut w = Worker::new(2);
    assert_eq!(w.step(Event::Probed(false)), Action::Poll);
    assert_eq!(w.step(Event::Fetched(false)), Action::Poll);
    let probe = w.step(Event::Polled(Some(unit("a", Some("u")))));
    assert_eq!(probe, Action::Probe { file: String::from("a.png") });
    assert_eq!(w.step(Event::Polled(None)), probe);
    assert_eq!(w.step(Event::Fetched(true)), probe);
    assert_eq!(w.pending(), probe);
}

#[test]
fn downloader_new_empties_the_queue() {
    let mut queue: VecDeque<Unit> = VecDeque::new();
    queue.push_back(unit("a", Some("ua")));
    queue.push_back(unit("b", None));
    queue.push_back(unit("c", Some("uc")));
    let d = Downloader::new(10, 8, &mut queue);
    assert!(queue.is_empty());
    assert_eq!(d.tries(), 10);
    assert_eq!(d.jobs(), 8);
    assert_eq!(d.len(), 3);
}

#[test]
fn downloader_poll_hands_out_units_in_order() {
    let mut queue: VecDeque<Unit> = VecDeque::new();
    queue.push_back(unit("a", Some("ua")));
    queue.push_back(unit("b", None));
    queue.push_back(unit("c", Some("uc")));
    let d = Downloader::new(2, 1, &mut queue);
    let mut w = d.worker();
    assert_eq!(d.poll(&mut w), Action::Probe { file: String::from("a.png") });
    assert_eq!(d.poll(&mut w), Action::Probe { file: String::from("a.png") });
    assert_eq!(w.step(Event::Probed(false)), fetch("a", "ua"));
    assert_eq!(d.poll(&mut w), fetch("a", "ua"));
    assert_eq!(w.step(Event::Fetched(true)), Action::Poll);
    assert_eq!(d.poll(&mut w), Action::Poll);
    assert_eq!(d.poll(&mut w), Action::Probe { file: String::from("c.png") });
    assert_eq!(w.step(Event::Probed(true)), Action::Poll);
    for _ in 0..19 {
        assert_eq!(d.poll(&mut w), Action::Poll);
    }
    assert_eq!(d.poll(&mut w), Action::Stop);
    assert!(w.is_stopped());
}

#[test]
fn downloader_of_empty_queue_stops_workers() {
    let mut queue: VecDeque<Unit> = VecDeque::new();
    let d = Downloader::new(2, 4, &mut queue);
    assert_eq!(d.len(), 0);
    let mut w = d.worker();
    let mut polls = 0;
    while !w.is_stopped() {
        d.poll(&mut w);
        polls += 1;
    }
    assert_eq!(polls, 20);
}

#[test]
fn target_dir_of_single_unit_has_no_group_directory() {
    let mut queue: VecDeque<Unit> = VecDeque::new();
    queue.push_back(unit("a", Some("ua")));
    let d = Downloader::new(1, 1, &mut queue);
    let config = Config::new(false, false, Some(String::from("/out")));
    assert_eq!(d.target_dir("12345", &config), vec!["/out", "downloads"]);
}

#[test]
fn target_dir_of_several_units_has_group_directory() {
    let mut queue: VecDeque<Unit> = VecDeque::new();
    queue.push_back(unit("a", Some("ua")));
    queue.push_back(unit("b", Some("ub")));
    let d = Downloader::new(1, 1, &mut queue);
    let config = Config::new(false, false, Some(String::from("/out")));
    assert_eq!(d.target_dir("wolf", &config), vec!["/out", "downloads", "wolf"]);
    let sfw = Config::new(true, false, Some(String::from("/out")));
    assert_eq!(d.target_dir("wolf", &sfw), vec!["/out", "sfw-downloads", "wolf"]);
}

#[test]
fn target_dir_without_root_starts_at_mode_directory() {
    let mut queue: VecDeque<Unit> = VecDeque::new();
    let d = Downloader::new(1, 1, &mut queue);
    let config = Config::new(true, true, None);
    assert_eq!(d.target_dir("wolf", &config), vec!["sfw-downloads"]);
}
