//! The decisions of a run: which tasks start and when, and the steps one task
//! goes through from its scheduled time to the saved configuration.

use vstd::prelude::*;
use crate::feed::{MatchError, match_error_text, Rss, match_item_by_title, matching_count, title_matches};
use crate::magnet::{extract_hash_from_magnet_link, hash_span, marker_at};
use crate::pattern::{regex_captures, regex_compiles};
use crate::queue::{
    QueueKey, QueueType, dequeued, law_fresh_queue_is_ordered, lemma_run_prefix, queue_of,
    sorted_by_key, stable_sort_of, taken_items, took_or_kept,
};
use crate::series::{Task, Timestamp, pattern_views};
use crate::status::{STATUS_PATTERN, StatusError, status_error_text, check_status_output, download_complete, status_of};

verus! {

/// `after` is `before` after `start_next` gave `r`: a task is taken from the
/// queue, and counted as running, exactly when fewer than the limit run and
/// the queue holds one; otherwise nothing changes.
pub open spec fn started<T: QueueKey>(before: TaskScheduler<T>, r: Option<T>, after: TaskScheduler<T>) -> bool {
    &&& after.limit == before.limit
    &&& r is Some <==> before.running < before.limit && before.queue.items().len() > 0
    &&& r is Some ==> after.running == before.running + 1 && dequeued(before.queue, r, after.queue)
    &&& r is None ==> after.running == before.running && after.queue == before.queue
}

/// `after` is `before` after `finish_one`: one task fewer runs.
pub open spec fn finished<T>(before: TaskScheduler<T>, after: TaskScheduler<T>) -> bool {
    &&& before.running > 0
    &&& after.running == before.running - 1
    &&& after.limit == before.limit
    &&& after.queue == before.queue
}

/// Each step of a run of the scheduler: a `start_next` that gave `outs[i]`,
/// or, where `outs[i]` is `None`, possibly a `finish_one`.
pub open spec fn scheduler_run<T: QueueKey>(ss: Seq<TaskScheduler<T>>, outs: Seq<Option<T>>) -> bool {
    &&& ss.len() == outs.len() + 1
    &&& forall|i: int|
        0 <= i < outs.len() ==> started(#[trigger] ss[i], outs[i], ss[i + 1]) || (outs[i] is None
            && finished(ss[i], ss[i + 1]))
}

/// Starts queued tasks, never more than a limit at once.
pub struct TaskScheduler<T> {
    pub queue: QueueType<T>,
    pub running: usize,
    pub limit: usize,
}

impl<T: QueueKey> TaskScheduler<T> {
    /// A scheduler of `tasks`, none of them running yet.
    pub fn new(tasks: Vec<T>, use_priority_queue: bool, concurrency_limit: usize) -> (s: Self)
        ensures
            queue_of(tasks@, use_priority_queue, s.queue),
            s.running == 0,
            s.limit == concurrency_limit,
    {
        TaskScheduler {
            queue: QueueType::from_iter(tasks, use_priority_queue),
            running: 0,
            limit: concurrency_limit,
        }
    }

    /// The next task to start: one is taken from the queue only while fewer
    /// than the limit are running.
    pub fn start_next(&mut self) -> (r: Option<T>)
        requires
            old(self).running <= old(self).limit,
        ensures
            started(*old(self), r, *final(self)),
            final(self).running <= final(self).limit,
            old(self).running < old(self).limit && old(self).queue.items().len() > 0 ==> r is Some,
            old(self).running >= old(self).limit || old(self).queue.items().len() == 0 ==> r is None,
    {
        if self.running < self.limit && !self.queue.is_empty() {
            let t = self.queue.dequeue();
            self.running = self.running + 1;
            t
        } else {
            None
        }
    }

    /// One running task has ended.
    pub fn finish_one(&mut self)
        requires
            old(self).running > 0,
            old(self).running <= old(self).limit,
        ensures
            finished(*old(self), *final(self)),
            final(self).running <= final(self).limit,
    {
        self.running = self.running - 1;
    }

    /// Whether every task has been started and has ended.
    pub fn is_done(&self) -> (r: bool)
        ensures
            r == (self.queue.items().len() == 0 && self.running == 0),
    {
        self.queue.is_empty() && self.running == 0
    }
}

/// Where a task's run stands.
#[derive(Debug, PartialEq, Eq, Structural, Clone, Copy)]
pub enum Phase {
    /// Waiting for the scheduled time.
    Waiting,
    /// Looking for the episode in the feed.
    Fetching,
    /// Handing the magnet link to the torrent client.
    Adding,
    /// Waiting for the download to complete.
    Polling,
    /// Pausing the completed torrent.
    Pausing,
    /// Copying the file under its new name.
    Renaming,
    /// Recording the episode in the series table.
    Recording,
    /// Writing the series table out.
    Saving,
    /// Nothing left to do.
    Finished,
}

/// Why a run stopped before its end.
#[derive(Debug, PartialEq, Eq, Structural, Clone, Copy)]
pub enum RunError {
    /// More than one item carries the episode.
    Match(MatchError),
    /// The chosen item's link carries no info-hash.
    Magnet,
    /// The client's listing could not be read.
    Status(StatusError),
}

/// The message of a run error, as it is shown to the user.
pub open spec fn run_error_text(e: RunError) -> Seq<char> {
    match e {
        RunError::Match(m) => match_error_text(m),
        RunError::Magnet => "Error extracting hash"@,
        RunError::Status(s) => status_error_text(s),
    }
}

impl RunError {
    /// The message of the error, as it is shown to the user.
    pub fn message(&self) -> (r: String)
        ensures
            r@ == run_error_text(*self),
    {
        match self {
            RunError::Match(m) => m.message(),
            RunError::Magnet => String::from_str("Error extracting hash"),
            RunError::Status(s) => s.message().to_owned(),
        }
    }
}

/// What to copy where: the downloaded file, and the pattern and directory
/// of its new name.
#[derive(Debug, PartialEq, Eq)]
pub struct RenamePlan {
    pub download_path: String,
    pub file_name: String,
    pub rename_pattern: String,
    pub episode: u32,
    pub target_directory: String,
}

/// The next thing a run asks for.
#[derive(Debug, PartialEq, Eq)]
pub enum Action {
    /// Wait until this time.
    WaitUntil(Timestamp),
    /// Fetch the feed for these search words.
    FetchFeed(String),
    /// Sleep this many seconds.
    Sleep(u64),
    /// Add this magnet link to the torrent client.
    AddTorrent(String),
    /// Ask the client for the state of the torrent with this hash.
    QueryStatus(String),
    /// Pause the torrent with this hash.
    PauseTorrent(String),
    /// Copy the downloaded file under its new name.
    Rename(RenamePlan),
    /// Record the task's episode in the series table.
    RecordEpisode,
    /// Write the series table out.
    SaveConfig,
    /// The run is complete.
    Finish,
    /// The run ends with the error just met: nothing more is done, the
    /// episode is neither recorded nor saved.
    Fail,
    /// The run cannot go on.
    Abort(RunError),
}

/// Seconds to wait before looking in the feed again.
pub const FEED_RETRY_SECS: u64 = 300;

/// Seconds to give the client after adding a torrent.
pub const SETTLE_SECS: u64 = 10;

/// Seconds between two looks at a download in progress.
pub const POLL_SECS: u64 = 30;

/// What has just happened in a run: each names the step method that takes it.
#[derive(Debug, PartialEq, Eq, Structural, Clone, Copy)]
pub enum Step {
    Waited,
    Feed,
    Slept,
    Added,
    Status,
    Paused,
    Renamed,
    RenameFailed,
    Recorded,
    Saved,
}

/// Whether a run in `phase` takes `step`: a wait that ended while waiting,
/// a feed or the end of a sleep while fetching, the client's answers in the
/// phases that asked for them, and the end of the rename, the record and the
/// save in theirs.
pub open spec fn accepts(phase: Phase, step: Step) -> bool {
    match step {
        Step::Waited => phase == Phase::Waiting,
        Step::Feed => phase == Phase::Fetching,
        Step::Slept => phase == Phase::Fetching || phase == Phase::Polling,
        Step::Added => phase == Phase::Adding,
        Step::Status => phase == Phase::Polling,
        Step::Paused => phase == Phase::Pausing,
        Step::Renamed => phase == Phase::Renaming,
        Step::RenameFailed => phase == Phase::Renaming,
        Step::Recorded => phase == Phase::Recording,
        Step::Saved => phase == Phase::Saving,
    }
}

/// The run of one task.
pub struct TaskRun {
    pub phase: Phase,
    /// The episode number looked for in the feed: the task's, plus its offset.
    pub episode: u32,
    /// The info-hash of the torrent, once added.
    pub hash: String,
    /// Where the client saved the download, once complete.
    pub download_path: String,
    /// The name of the downloaded file, once complete.
    pub file_name: String,
}

/// `b` holds the episode, hash, path and file name of `a`.
pub open spec fn same_data(a: TaskRun, b: TaskRun) -> bool {
    &&& a.episode == b.episode
    &&& a.hash == b.hash
    &&& a.download_path == b.download_path
    &&& a.file_name == b.file_name
}

/// The episode number that the feed is searched for: the task's episode
/// plus its offset, if it has one.
pub open spec fn feed_episode(task: &Task) -> int {
    task.episode + match task.offset {
        Some(o) => o as int,
        None => 0int,
    }
}

fn clone_text(s: &String) -> (r: String)
    ensures
        r == *s,
{
    s.clone()
}

impl TaskRun {
    /// Starts the run of `task`: first wait for its scheduled time.
    pub fn start(task: &Task) -> (res: (TaskRun, Action))
        requires
            feed_episode(task) <= u32::MAX,
        ensures
            res.0.phase == Phase::Waiting,
            res.0.episode == feed_episode(task),
            res.0.hash@.len() == 0,
            res.0.download_path@.len() == 0,
            res.0.file_name@.len() == 0,
            res.1 == Action::WaitUntil(task.scheduled_time),
    {
        let offset = match task.offset {
            Some(o) => o,
            None => 0,
        };
        let run = TaskRun {
            phase: Phase::Waiting,
            episode: task.episode + offset,
            hash: String::new(),
            download_path: String::new(),
            file_name: String::new(),
        };
        (run, Action::WaitUntil(task.scheduled_time))
    }

    /// The scheduled time has come: look in the feed.
    pub fn on_waited(&mut self, task: &Task) -> (a: Action)
        requires
            accepts(old(self).phase, Step::Waited),
        ensures
            final(self).phase == Phase::Fetching,
            same_data(*old(self), *final(self)),
            a == Action::FetchFeed(task.keyword),
    {
        self.phase = Phase::Fetching;
        Action::FetchFeed(clone_text(&task.keyword))
    }

    /// The feed came: add the one item that carries the episode; look again
    /// later where none does; stop where several do or the item's link has
    /// no info-hash.
    pub fn on_feed(&mut self, task: &Task, rss: Rss) -> (a: Action)
        requires
            accepts(old(self).phase, Step::Feed),
        ensures
            final(self).episode == old(self).episode,
            final(self).download_path == old(self).download_path,
            final(self).file_name == old(self).file_name,
            final(self).phase != Phase::Adding ==> final(self).hash == old(self).hash,
            ({
                let items = rss.channel.item@;
                let n = matching_count(items, pattern_views(task.pattern@), old(self).episode);
                &&& n == 0 ==> final(self).phase == Phase::Fetching && a == Action::Sleep(
                    FEED_RETRY_SECS,
                )
                &&& n >= 2 ==> final(self).phase == Phase::Finished && a == Action::Abort(
                    RunError::Match(MatchError::MultipleMatches(old(self).episode)),
                )
                &&& n == 1 ==> exists|i: int|
                    0 <= i < items.len() && title_matches(
                        pattern_views(task.pattern@),
                        #[trigger] items[i].title.0@,
                        old(self).episode,
                    ) && ({
                        let link = items[i].enclosure.url@;
                        &&& (forall|p: int| !marker_at(link, p)) ==> final(self).phase
                            == Phase::Finished && a == Action::Abort(RunError::Magnet)
                        &&& (exists|p: int| marker_at(link, p)) ==> final(self).phase
                            == Phase::Adding && (a matches Action::AddTorrent(m) && m@ == link)
                            && exists|p: int, e: int|
                            #[trigger] hash_span(link, p, e) && final(self).hash@
                                == link.subrange(p + 5, e)
                    })
            }),
    {
        match match_item_by_title(rss, &task.pattern, self.episode) {
            Ok(item) => {
                let magnet = item.enclosure.url;
                let hash = match extract_hash_from_magnet_link(magnet.as_str()) {
                    Ok(h) => h.to_owned(),
                    Err(_) => {
                        self.phase = Phase::Finished;
                        return Action::Abort(RunError::Magnet);
                    },
                };
                self.hash = hash;
                self.phase = Phase::Adding;
                Action::AddTorrent(magnet)
            },
            Err(MatchError::NoMatch(_)) => Action::Sleep(FEED_RETRY_SECS),
            Err(e) => {
                self.phase = Phase::Finished;
                Action::Abort(RunError::Match(e))
            },
        }
    }

    /// A sleep ended: look in the feed again, or at the download again.
    pub fn on_slept(&mut self, task: &Task) -> (a: Action)
        requires
            accepts(old(self).phase, Step::Slept),
        ensures
            *final(self) == *old(self),
            old(self).phase == Phase::Fetching ==> a == Action::FetchFeed(task.keyword),
            old(self).phase == Phase::Polling ==> a == Action::QueryStatus(old(self).hash),
    {
        if self.phase == Phase::Fetching {
            Action::FetchFeed(clone_text(&task.keyword))
        } else {
            Action::QueryStatus(clone_text(&self.hash))
        }
    }

    /// The client took the torrent: give it time, then watch the download.
    pub fn on_added(&mut self) -> (a: Action)
        requires
            accepts(old(self).phase, Step::Added),
        ensures
            final(self).phase == Phase::Polling,
            same_data(*old(self), *final(self)),
            a == Action::Sleep(SETTLE_SECS),
    {
        self.phase = Phase::Polling;
        Action::Sleep(SETTLE_SECS)
    }

    /// The client listed the torrent: pause it once the download is
    /// complete, else look again later; stop where the listing cannot be read.
    pub fn on_status(&mut self, output: &str) -> (a: Action)
        requires
            accepts(old(self).phase, Step::Status),
        ensures
            final(self).episode == old(self).episode,
            final(self).hash == old(self).hash,
            final(self).phase != Phase::Pausing ==> final(self).download_path == old(
                self,
            ).download_path && final(self).file_name == old(self).file_name,
            !regex_compiles(STATUS_PATTERN@) ==> final(self).phase == Phase::Finished && a
                == Action::Abort(RunError::Status(StatusError::BadPattern)),
            regex_compiles(STATUS_PATTERN@) ==> match status_of(
                regex_captures(STATUS_PATTERN@, output@),
            ) {
                Err(e) => final(self).phase == Phase::Finished && a == Action::Abort(
                    RunError::Status(e),
                ),
                Ok((st, path, name)) => if download_complete(st) {
                    &&& final(self).phase == Phase::Pausing
                    &&& final(self).download_path@ == path
                    &&& final(self).file_name@ == name
                    &&& a == Action::PauseTorrent(old(self).hash)
                } else {
                    final(self).phase == Phase::Polling && a == Action::Sleep(POLL_SECS)
                },
            },
    {
        match check_status_output(output) {
            Err(e) => {
                self.phase = Phase::Finished;
                Action::Abort(RunError::Status(e))
            },
            Ok((st, path, name)) => {
                if st.is_complete() {
                    self.download_path = path;
                    self.file_name = name;
                    self.phase = Phase::Pausing;
                    Action::PauseTorrent(clone_text(&self.hash))
                } else {
                    Action::Sleep(POLL_SECS)
                }
            },
        }
    }

    /// The torrent is paused: rename the file where the task has both a
    /// rename pattern and a target directory, else record the episode.
    pub fn on_paused(&mut self, task: &Task) -> (a: Action)
        requires
            accepts(old(self).phase, Step::Paused),
        ensures
            same_data(*old(self), *final(self)),
            match (task.rename_pattern, task.target_directory) {
                (Some(pattern), Some(dir)) => final(self).phase == Phase::Renaming && a
                    == Action::Rename(
                    RenamePlan {
                        download_path: old(self).download_path,
                        file_name: old(self).file_name,
                        rename_pattern: pattern,
                        episode: old(self).episode,
                        target_directory: dir,
                    },
                ),
                _ => final(self).phase == Phase::Recording && a == Action::RecordEpisode,
            },
    {
        match (&task.rename_pattern, &task.target_directory) {
            (Some(pattern), Some(dir)) => {
                self.phase = Phase::Renaming;
                Action::Rename(
                    RenamePlan {
                        download_path: clone_text(&self.download_path),
                        file_name: clone_text(&self.file_name),
                        rename_pattern: clone_text(pattern),
                        episode: self.episode,
                        target_directory: clone_text(dir),
                    },
                )
            },
            _ => {
                self.phase = Phase::Recording;
                Action::RecordEpisode
            },
        }
    }

    /// The file was copied: record the episode.
    pub fn on_renamed(&mut self) -> (a: Action)
        requires
            accepts(old(self).phase, Step::Renamed),
        ensures
            final(self).phase == Phase::Recording,
            same_data(*old(self), *final(self)),
            a == Action::RecordEpisode,
    {
        self.phase = Phase::Recording;
        Action::RecordEpisode
    }

    /// The file could not be copied: the run ends there, without recording
    /// the episode.
    pub fn on_rename_failed(&mut self) -> (a: Action)
        requires
            accepts(old(self).phase, Step::RenameFailed),
        ensures
            final(self).phase == Phase::Finished,
            same_data(*old(self), *final(self)),
            a == Action::Fail,
    {
        self.phase = Phase::Finished;
        Action::Fail
    }

    /// The episode was recorded: write the table out.
    pub fn on_recorded(&mut self) -> (a: Action)
        requires
            accepts(old(self).phase, Step::Recorded),
        ensures
            final(self).phase == Phase::Saving,
            same_data(*old(self), *final(self)),
            a == Action::SaveConfig,
    {
        self.phase = Phase::Saving;
        Action::SaveConfig
    }

    /// The table was written: the run is complete.
    pub fn on_saved(&mut self) -> (a: Action)
        requires
            accepts(old(self).phase, Step::Saved),
        ensures
            final(self).phase == Phase::Finished,
            same_data(*old(self), *final(self)),
            a == Action::Finish,
    {
        self.phase = Phase::Finished;
        Action::Finish
    }
}

/// However the scheduler's calls follow each other, no more tasks run at
/// once than the limit allows.
pub proof fn law_running_within_limit<T: QueueKey>(ss: Seq<TaskScheduler<T>>, outs: Seq<Option<T>>)
    requires
        scheduler_run(ss, outs),
        ss[0].running <= ss[0].limit,
    ensures
        forall|i: int| 0 <= i < ss.len() ==> #[trigger] ss[i].running <= ss[i].limit,
        forall|i: int| 0 <= i < ss.len() ==> #[trigger] ss[i].limit == ss[0].limit,
    decreases outs.len(),
{
    if outs.len() > 0 {
        let n = outs.len() as int;
        let ss1 = ss.drop_last();
        let outs1 = outs.drop_last();
        assert forall|i: int| 0 <= i < outs1.len() implies started(#[trigger] ss1[i], outs1[i], ss1[i + 1])
            || (outs1[i] is None && finished(ss1[i], ss1[i + 1])) by {
            assert(ss1[i] == ss[i] && ss1[i + 1] == ss[i + 1] && outs1[i] == outs[i]);
        }
        law_running_within_limit(ss1, outs1);
        assert(ss1[n - 1] == ss[n - 1]);
        assert(started(ss[n - 1], outs[n - 1], ss[n]) || (outs[n - 1] is None && finished(
            ss[n - 1],
            ss[n],
        )));
        assert forall|i: int| 0 <= i < ss.len() implies #[trigger] ss[i].running <= ss[i].limit
            && ss[i].limit == ss[0].limit by {
            if i < n {
                assert(ss1[i] == ss[i]);
            }
        }
    }
}

/// Tasks start in order of their keys, for either kind of queue; from a
/// first-in first-out queue they start in its order, the stable sort of the
/// tasks the scheduler was made with.
pub proof fn law_tasks_start_in_key_order<T: QueueKey>(
    tasks: Seq<T>,
    use_priority_queue: bool,
    ss: Seq<TaskScheduler<T>>,
    outs: Seq<Option<T>>,
)
    requires
        queue_of(tasks, use_priority_queue, ss[0].queue),
        scheduler_run(ss, outs),
    ensures
        sorted_by_key(taken_items(outs)),
        !use_priority_queue ==> taken_items(outs) == ss[0].queue.items().take(
            taken_items(outs).len() as int,
        ),
        !use_priority_queue ==> exists|perm: Seq<int>| stable_sort_of(tasks, ss[0].queue.items(), perm),
{
    law_fresh_queue_is_ordered(tasks, use_priority_queue, ss[0].queue);
    let qs = Seq::new(ss.len(), |i: int| ss[i].queue);
    assert forall|i: int| 0 <= i < outs.len() implies took_or_kept(#[trigger] qs[i], outs[i], qs[i + 1]) by {
        assert(qs[i] == ss[i].queue && qs[i + 1] == ss[i + 1].queue);
        if started(ss[i], outs[i], ss[i + 1]) {
        } else {
            assert(finished(ss[i], ss[i + 1]));
        }
    }
    lemma_run_prefix(qs, outs, outs.len() as int);
    assert(outs.take(outs.len() as int) =~= outs);
    if !use_priority_queue {
        let taken = taken_items(outs);
        let rest = qs[outs.len() as int].items();
        assert(qs[0].items() == taken + rest);
        assert(taken =~= (taken + rest).take(taken.len() as int));
    }
}

/// A run does nothing before its scheduled time: it starts by asking to wait
/// for that time, the only step a waiting run takes is the end of that wait,
/// and a finished run takes none.
pub proof fn law_no_step_before_the_wait(step: Step)
    ensures
        accepts(Phase::Waiting, step) <==> step == Step::Waited,
        !accepts(Phase::Finished, step),
{
}

} // verus!

verus! {

/// A task starts whenever there is room for it: fewer tasks run than the
/// limit and one is queued; none starts otherwise.
pub proof fn law_starts_when_room<T: QueueKey>(before: TaskScheduler<T>, r: Option<T>, after: TaskScheduler<T>)
    requires
        started(before, r, after),
    ensures
        before.running < before.limit && before.queue.items().len() > 0 ==> r is Some,
        before.running >= before.limit ==> r is None,
        before.queue.items().len() == 0 ==> r is None,
        r is Some ==> after.running == before.running + 1,
{
}

} // verus!
