use rss_autodl::feed::{Category, Channel, Enclosure, Guid, Item, MatchError, Rss, TextNode};
use rss_autodl::pattern::Pattern;
use rss_autodl::run::{Action, Phase, RenamePlan, RunError, TaskRun, TaskScheduler};
use rss_autodl::series::{Task, Timestamp};

fn text(s: &str) -> TextNode {
    TextNode(s.to_string())
}

fn feed(entries: &[(&str, &str)]) -> Rss {
    let item = entries
        .iter()
        .map(|(title, url)| Item {
            title: text(title),
            link: text(""),
            description: text(""),
            guid: Guid { value: String::new(), is_perma_link: String::new() },
            author: text(""),
            enclosure: Enclosure { url: url.to_string(), length: String::new(), mime_type: String::new() },
            pub_date: text(""),
            category: Category { value: String::new(), domain: String::new() },
        })
        .collect();
    Rss {
        channel: Channel {
            title: text(""),
            link: text(""),
            description: text(""),
            last_build_date: text(""),
            language: text(""),
            generator: text(""),
            copyright: text(""),
            item,
        },
    }
}

fn task(rename: bool) -> Task {
    Task {
        name: "show".to_string(),
        scheduled_time: Timestamp { secs: 1_700_000_000, nanos: 0 },
        keyword: "Show".to_string(),
        pattern: vec![Pattern::new(r"Show - (\d+)").unwrap()],
        episode: 3,
        offset: Some(10),
        rename_pattern: if rename { Some("S{ep}".to_string()) } else { None },
        target_directory: Some("/media".to_string()),
        feed_url: None,
    }
}

#[test]
fn a_run_goes_through_every_step() {
    let t = task(true);
    let (mut run, a) = TaskRun::start(&t);
    assert_eq!(a, Action::WaitUntil(t.scheduled_time));
    assert_eq!(run.episode, 13);
    assert_eq!(run.on_waited(&t), Action::FetchFeed("Show".to_string()));
    assert_eq!(run.on_feed(&t, feed(&[("Show - 12", "magnet:?xt=urn:btih:X")])), Action::Sleep(300));
    assert_eq!(run.phase, Phase::Fetching);
    assert_eq!(run.on_slept(&t), Action::FetchFeed("Show".to_string()));
    let a = run.on_feed(&t, feed(&[("Show - 12", "m1"), ("Show - 13", "magnet:?xt=urn:btih:H13&dn=x")]));
    assert_eq!(a, Action::AddTorrent("magnet:?xt=urn:btih:H13&dn=x".to_string()));
    assert_eq!(run.hash, "H13");
    assert_eq!(run.on_added(), Action::Sleep(10));
    assert_eq!(run.on_slept(&t), Action::QueryStatus("H13".to_string()));
    let busy = "[*] Show - 13.mkv\nState: downloading\nSave path: /dl\n";
    assert_eq!(run.on_status(busy), Action::Sleep(30));
    assert_eq!(run.phase, Phase::Polling);
    let done = "[*] Show - 13.mkv\nState: uploading\nSave path: /dl\n";
    assert_eq!(run.on_status(done), Action::PauseTorrent("H13".to_string()));
    assert_eq!(
        run.on_paused(&t),
        Action::Rename(RenamePlan {
            download_path: "/dl".to_string(),
            file_name: "Show - 13.mkv".to_string(),
            rename_pattern: "S{ep}".to_string(),
            episode: 13,
            target_directory: "/media".to_string(),
        })
    );
    assert_eq!(run.on_renamed(), Action::RecordEpisode);
    assert_eq!(run.on_recorded(), Action::SaveConfig);
    assert_eq!(run.on_saved(), Action::Finish);
    assert_eq!(run.phase, Phase::Finished);
}

#[test]
fn a_run_without_rename_records_after_pausing() {
    let t = task(false);
    let (mut run, _) = TaskRun::start(&t);
    run.on_waited(&t);
    run.on_feed(&t, feed(&[("Show - 13", "btih:Q")]));
    run.on_added();
    run.on_status("[*] f\nState: stoppedUP\nSave path: /p\n");
    assert_eq!(run.on_paused(&t), Action::RecordEpisode);
    assert_eq!(run.phase, Phase::Recording);
}

#[test]
fn a_run_stops_on_ambiguous_feed_or_link() {
    let t = task(false);
    let (mut run, _) = TaskRun::start(&t);
    run.on_waited(&t);
    let a = run.on_feed(&t, feed(&[("Show - 13", "btih:A"), ("Show - 13 v2", "btih:B")]));
    assert_eq!(a, Action::Abort(RunError::Match(MatchError::MultipleMatches(13))));
    assert_eq!(run.phase, Phase::Finished);

    let (mut run, _) = TaskRun::start(&t);
    run.on_waited(&t);
    let a = run.on_feed(&t, feed(&[("Show - 13", "https://example.org/file.torrent")]));
    assert_eq!(a, Action::Abort(RunError::Magnet));
}

#[test]
fn scheduler_respects_the_limit() {
    let mut s = TaskScheduler::new(vec![4u64, 2, 9, 1], true, 2);
    assert!(!s.is_done());
    assert_eq!(s.start_next(), Some(1));
    assert_eq!(s.start_next(), Some(2));
    assert_eq!(s.start_next(), None);
    assert_eq!(s.running, 2);
    s.finish_one();
    assert_eq!(s.start_next(), Some(4));
    assert_eq!(s.start_next(), None);
    s.finish_one();
    s.finish_one();
    assert_eq!(s.start_next(), Some(9));
    assert!(!s.is_done());
    s.finish_one();
    assert!(s.is_done());
}

#[test]
fn scheduler_with_zero_limit_starts_nothing() {
    let mut s = TaskScheduler::new(vec![1u64], false, 0);
    assert_eq!(s.start_next(), None);
    assert!(!s.is_done());
}

#[test]
fn a_failed_rename_ends_the_run() {
    let t = task(true);
    let (mut run, _) = TaskRun::start(&t);
    run.on_waited(&t);
    run.on_feed(&t, feed(&[("Show - 13", "btih:Q")]));
    run.on_added();
    run.on_status("[*] f.mkv\nState: uploading\nSave path: /p\n");
    assert!(matches!(run.on_paused(&t), Action::Rename(_)));
    assert_eq!(run.on_rename_failed(), Action::Fail);
    assert_eq!(run.phase, Phase::Finished);
}

#[test]
fn run_error_messages() {
    assert_eq!(RunError::Magnet.message(), "Error extracting hash");
    assert_eq!(RunError::Match(MatchError::MultipleMatches(3)).message(), "Multiple items matched episode 3");
    assert_eq!(
        RunError::Status(rss_autodl::status::StatusError::MissingPath).message(),
        "Missing path"
    );
}
