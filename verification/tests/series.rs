use rss_autodl::pattern::Pattern;
use rss_autodl::queue::{QueueKey, QueueType};
use rss_autodl::series::{
    build_task, build_tasks, time_until, update_task, SeriesConfig, SeriesTable, Task, TaskError,
    TimeOfDay, Timestamp, WaitTime,
};

/// 2024-01-07 as a day of the common era.
const JAN_7_2024: i32 = 738892;

fn config(patterns: &[&str], latest: u32) -> SeriesConfig {
    SeriesConfig {
        update_time: TimeOfDay { secs: 20 * 3600 + 30 * 60, nanos: 0 },
        keyword: "Show".to_string(),
        pattern: patterns.iter().map(|p| p.to_string()).collect(),
        start_date: JAN_7_2024,
        latest_downloaded: latest,
        offset: Some(12),
        rename_pattern: Some("Show S01E{ep}".to_string()),
        target_directory: Some("/media/show".to_string()),
        skip: None,
        feed_url: None,
    }
}

#[test]
fn task_is_scheduled_weeks_after_start() {
    let task = build_task("show", &config(&[r"Show - (\d+)"], 3)).unwrap();
    assert_eq!(task.name, "show");
    assert_eq!(task.episode, 4);
    assert_eq!(task.offset, Some(12));
    // 2024-01-28T20:30:00Z
    assert_eq!(task.scheduled_time, Timestamp { secs: 1706473800, nanos: 0 });
    assert_eq!(task.pattern.len(), 1);
    assert_eq!(task.pattern[0].source(), r"Show - (\d+)");
    assert_eq!(task.rename_pattern.as_deref(), Some("Show S01E{ep}"));
}

#[test]
fn task_with_bad_pattern_is_refused() {
    let r = build_task("show", &config(&[r"ok (\d+)", r"bad (", r"also bad ("], 0));
    match r {
        Err(TaskError::InvalidPattern(i, e)) => {
            assert_eq!(i, 1);
            assert_eq!(e, regex::Regex::new(r"bad (").unwrap_err());
        }
        _ => panic!("the second pattern should be refused"),
    }
}

#[test]
fn recording_an_episode_moves_the_next_task() {
    let mut table = SeriesTable::new();
    table.insert("a", config(&[r"A (\d+)"], 1));
    table.insert("b", config(&[r"B (\d+)"], 5));
    let tasks = build_tasks(&table).unwrap();
    assert_eq!(tasks.len(), 2);
    assert_eq!(tasks[0].episode, 2);
    assert_eq!(tasks[1].episode, 6);
    update_task(&mut table, &tasks[0]);
    assert_eq!(table.get("a").unwrap().latest_downloaded, 2);
    assert_eq!(table.get("b").unwrap().latest_downloaded, 5);
    let next = build_tasks(&table).unwrap();
    assert_eq!(next[0].episode, 3);
    assert_eq!(next[0].scheduled_time.secs, tasks[0].scheduled_time.secs + 7 * 86400);
    assert_eq!(next[1].scheduled_time, tasks[1].scheduled_time);
}

#[test]
fn updating_an_unknown_series_changes_nothing() {
    let mut table = SeriesTable::new();
    table.insert("a", config(&[r"A (\d+)"], 1));
    let mut task = build_task("zzz", &config(&[], 9)).unwrap();
    task.episode = 40;
    update_task(&mut table, &task);
    assert_eq!(table.get("a").unwrap().latest_downloaded, 1);
    assert!(table.get("zzz").is_none());
}

#[test]
fn inserting_a_known_name_replaces_it() {
    let mut table = SeriesTable::new();
    table.insert("a", config(&[], 1));
    table.insert("a", config(&[], 8));
    assert_eq!(build_tasks(&table).unwrap().len(), 1);
    assert_eq!(table.get("a").unwrap().latest_downloaded, 8);
}

#[test]
fn build_tasks_stops_at_first_bad_series() {
    let mut table = SeriesTable::new();
    table.insert("a", config(&["("], 1));
    table.insert("b", config(&["x", ")"], 1));
    match build_tasks(&table) {
        Err(TaskError::InvalidPattern(i, e)) => {
            assert_eq!(i, 0);
            assert_eq!(e, regex::Regex::new("(").unwrap_err());
        }
        _ => panic!("the first series should be refused"),
    }
}

#[test]
fn waiting_time() {
    let now = Timestamp { secs: 100, nanos: 900_000_000 };
    let target = Timestamp { secs: 103, nanos: 100_000_000 };
    assert_eq!(time_until(target, now), Some(WaitTime { secs: 2, nanos: 200_000_000 }));
    assert_eq!(time_until(now, now), Some(WaitTime { secs: 0, nanos: 0 }));
    assert_eq!(time_until(now, target), None);
    let leap = Timestamp { secs: 59, nanos: 1_500_000_000 };
    let after = Timestamp { secs: 60, nanos: 0 };
    assert_eq!(time_until(after, leap), Some(WaitTime { secs: 0, nanos: 500_000_000 }));
    assert_eq!(time_until(leap, after), None);
    let first = Timestamp { secs: -8_334_601_228_800, nanos: 0 };
    let last = Timestamp { secs: 8_210_266_876_799, nanos: 999_999_999 };
    assert!(first.is_valid() && last.is_valid() && leap.is_valid());
    assert!(!Timestamp { secs: 58, nanos: 1_000_000_000 }.is_valid());
    assert_eq!(
        time_until(last, first),
        Some(WaitTime { secs: 16_544_868_105_599, nanos: 999_999_999 })
    );
}

fn task_at(secs: i64, nanos: u32, name: &str) -> Task {
    Task {
        name: name.to_string(),
        scheduled_time: Timestamp { secs, nanos },
        keyword: String::new(),
        pattern: vec![Pattern::new("x").unwrap()],
        episode: 1,
        offset: None,
        rename_pattern: None,
        target_directory: None,
        feed_url: None,
    }
}

#[test]
fn tasks_queue_by_scheduled_time() {
    let tasks = vec![task_at(50, 0, "late"), task_at(10, 5, "b"), task_at(10, 1, "a"), task_at(10, 5, "c")];
    assert!(tasks[2].key() < tasks[1].key());
    let mut q = QueueType::from_iter(tasks, false);
    let mut names = Vec::new();
    while let Some(t) = q.dequeue() {
        names.push(t.name);
    }
    assert_eq!(names, vec!["a", "b", "c", "late"]);
}

#[test]
fn leap_second_update_time() {
    let mut c = config(&[], 0);
    c.update_time = TimeOfDay { secs: 86399, nanos: 1_500_000_000 };
    let t0 = build_task("s", &c).unwrap();
    assert_eq!(t0.scheduled_time, Timestamp { secs: 1704671999, nanos: 1_500_000_000 });
    c.latest_downloaded = 1;
    let t1 = build_task("s", &c).unwrap();
    assert_eq!(t1.scheduled_time, Timestamp { secs: 1704671999 + 7 * 86400, nanos: 500_000_000 });
}
