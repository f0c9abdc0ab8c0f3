//! Series configuration, the tasks built from it, and the times they run at.

use vstd::prelude::*;
use crate::pattern::{Pattern, PatternError, regex_compiles};
use crate::queue::QueueKey;

verus! {

/// Nanoseconds in a second.
pub const NANOS_PER_SEC: u32 = 1_000_000_000;

/// Nanoseconds past a second can reach this bound only inside a leap second.
pub const LEAP_NANOS_LIMIT: u32 = 2_000_000_000;

/// Seconds in a day.
pub const SECS_PER_DAY: u32 = 86400;

/// Days from 0001-01-01 (day 1) to 1970-01-01, counted as `num_days_from_ce` does.
pub const UNIX_EPOCH_DAY: i64 = 719163;

/// The first day that a date can fall on: -262143-01-01, as a day of the common era.
pub const FIRST_DAY: i64 = -95_746_129;

/// The last day that a date can fall on: 262142-12-31, as a day of the common era.
pub const LAST_DAY: i64 = 95_745_399;

/// The first second of the first day, since the epoch.
pub const FIRST_SECOND: i64 = -8_334_601_228_800;

/// The last second of the last day, since the epoch.
pub const LAST_SECOND: i64 = 8_210_266_876_799;

/// An instant: seconds since 1970-01-01T00:00:00Z and the nanoseconds past
/// them; within a leap second the nanoseconds run from one to two seconds.
#[derive(Debug, Clone, Copy, PartialEq, Eq, Structural)]
pub struct Timestamp {
    pub secs: i64,
    pub nanos: u32,
}

impl Timestamp {
    /// Within the calendar; nanoseconds below two seconds, and at one second
    /// or more only in the last second of a minute, as for a leap second.
    pub open spec fn wf(self) -> bool {
        &&& FIRST_SECOND <= self.secs <= LAST_SECOND
        &&& self.nanos < LEAP_NANOS_LIMIT
        &&& self.nanos >= NANOS_PER_SEC ==> self.secs % 60 == 59
    }

    /// [`Timestamp::wf`], computed.
    pub fn is_valid(&self) -> (r: bool)
        ensures
            r == self.wf(),
    {
        FIRST_SECOND <= self.secs && self.secs <= LAST_SECOND && self.nanos < LEAP_NANOS_LIMIT
            && (self.nanos < NANOS_PER_SEC || second_of_minute(self.secs) == 59)
    }

    /// The instant's place in time order: the seconds, then the nanoseconds,
    /// which stay below two seconds.
    pub open spec fn order_key(self) -> int {
        self.secs * LEAP_NANOS_LIMIT + self.nanos
    }

    /// [`Timestamp::order_key`], computed.
    pub fn sort_key(&self) -> (r: i128)
        ensures
            r == self.order_key(),
    {
        self.secs as i128 * 2_000_000_000i128 + self.nanos as i128
    }
}

/// The second within its minute of an instant `secs` seconds from the epoch.
fn second_of_minute(secs: i64) -> (r: i64)
    ensures
        r == secs % 60,
{
    let r = secs % 60;
    if r < 0 {
        r + 60
    } else {
        r
    }
}

/// The second within its day of an instant `secs` seconds from the epoch.
fn second_of_day(secs: i64) -> (r: i64)
    ensures
        r == secs % 86400,
{
    let r = secs % 86400;
    if r < 0 {
        r + 86400
    } else {
        r
    }
}

/// A time of day: seconds past midnight and nanoseconds past them.
#[derive(Debug, Clone, Copy, PartialEq, Eq, Structural)]
pub struct TimeOfDay {
    pub secs: u32,
    pub nanos: u32,
}

impl TimeOfDay {
    /// Within one day; nanoseconds below two seconds, and at one second or
    /// more only in the last second of a minute, as for a leap second.
    pub open spec fn wf(self) -> bool {
        &&& self.secs < SECS_PER_DAY
        &&& self.nanos < LEAP_NANOS_LIMIT
        &&& self.nanos >= NANOS_PER_SEC ==> self.secs % 60 == 59
    }
}

/// How long to wait: whole seconds and nanoseconds past them.
#[derive(Debug, Clone, Copy, PartialEq, Eq, Structural)]
pub struct WaitTime {
    pub secs: u64,
    pub nanos: u32,
}

/// The correction for a leap second between `now` and `target`: the seconds
/// count one more where `now` is inside a leap second earlier in its day
/// than `target`, one fewer where `target` is inside a leap second earlier
/// in its day than `now`.
pub open spec fn leap_adjust(target: Timestamp, now: Timestamp) -> int {
    let t = target.secs % 86400;
    let n = now.secs % 86400;
    if t > n && now.nanos >= NANOS_PER_SEC {
        1
    } else if t < n && target.nanos >= NANOS_PER_SEC {
        -1
    } else {
        0
    }
}

/// Nanoseconds from `now` to `target`, leap seconds counted as the time
/// arithmetic of dates and times counts them.
pub open spec fn elapsed_nanos(target: Timestamp, now: Timestamp) -> int {
    (target.secs - now.secs + leap_adjust(target, now)) * NANOS_PER_SEC + target.nanos - now.nanos
}

/// How long from `now` until `target`: `None` where `target` has passed.
pub fn time_until(target: Timestamp, now: Timestamp) -> (r: Option<WaitTime>)
    requires
        target.wf(),
        now.wf(),
    ensures
        r is None <==> elapsed_nanos(target, now) < 0,
        r matches Some(w) ==> w.nanos < NANOS_PER_SEC && w.secs * NANOS_PER_SEC + w.nanos
            == elapsed_nanos(target, now),
{
    let t = second_of_day(target.secs);
    let n = second_of_day(now.secs);
    let adjust: i128 = if t > n && now.nanos >= NANOS_PER_SEC {
        1
    } else if t < n && target.nanos >= NANOS_PER_SEC {
        -1
    } else {
        0
    };
    let d: i128 = (target.secs as i128 - now.secs as i128 + adjust) * 1_000_000_000i128
        + target.nanos as i128 - now.nanos as i128;
    if d < 0 {
        None
    } else {
        let secs = d / 1_000_000_000;
        let nanos = d % 1_000_000_000;
        assert(secs <= u64::MAX) by (nonlinear_arith)
            requires
                secs == d / 1_000_000_000,
                0 <= d <= 20_000_000_000_000 * 1_000_000_000int,
        ;
        Some(WaitTime { secs: secs as u64, nanos: nanos as u32 })
    }
}

/// The patterns of a series as written in its configuration: one pattern,
/// or a list of them.
#[derive(Debug, PartialEq, Eq)]
pub enum PatternList {
    Single(String),
    Vec(Vec<String>),
}

/// The list of patterns that a configuration entry stands for: a single
/// pattern is a list of one.
pub fn single_or_vec(value: PatternList) -> (r: Vec<String>)
    ensures
        match value {
            PatternList::Single(s) => r@ == seq![s],
            PatternList::Vec(v) => r@ == v@,
        },
{
    match value {
        PatternList::Single(s) => {
            let mut r = Vec::new();
            r.push(s);
            r
        },
        PatternList::Vec(v) => v,
    }
}

/// The settings shared by all series.
pub struct Config {
    /// Template of the feed's address, with `{keyword}` for the search words.
    pub feed_url: String,
}

/// One series to follow.
pub struct SeriesConfig {
    /// When on its day a new episode comes out.
    pub update_time: TimeOfDay,
    /// Search words for the feed.
    pub keyword: String,
    /// Patterns whose first group is the episode number in an item's title.
    pub pattern: Vec<String>,
    /// The day the first episode came out, as a day of the common era
    /// (0001-01-01 is day 1).
    pub start_date: i32,
    /// The last episode fetched.
    pub latest_downloaded: u32,
    /// Added to the episode number when looking for it in the feed.
    pub offset: Option<u32>,
    /// Template of the new file name, with `{ep}` for the episode number.
    pub rename_pattern: Option<String>,
    /// Where renamed files go.
    pub target_directory: Option<String>,
    /// Kept for the configuration file; nothing reads it.
    pub skip: Option<u32>,
    /// A feed address of this series' own.
    pub feed_url: Option<String>,
}

/// A download to run at its scheduled time.
pub struct Task {
    pub name: String,
    pub scheduled_time: Timestamp,
    pub keyword: String,
    pub pattern: Vec<Pattern>,
    pub episode: u32,
    pub offset: Option<u32>,
    pub rename_pattern: Option<String>,
    pub target_directory: Option<String>,
    pub feed_url: Option<String>,
}

impl QueueKey for Task {
    /// Tasks are ordered by their scheduled time.
    open spec fn spec_key(&self) -> int {
        self.scheduled_time.order_key()
    }

    fn key(&self) -> (k: i128) {
        self.scheduled_time.sort_key()
    }
}

/// Why a task could not be built.
#[derive(Debug, PartialEq)]
pub enum TaskError {
    /// The pattern at this position of the series' list does not compile;
    /// the error is the one `regex` gave for it.
    InvalidPattern(usize, regex::Error),
}

/// Whether a series' counters leave room to schedule its next episode: the
/// start day is a calendar day, the week count fits in a `u32`, the release
/// day stays within the calendar, and the update time is a time of day.
pub open spec fn schedulable(config: &SeriesConfig) -> bool {
    &&& FIRST_DAY <= config.start_date
    &&& config.latest_downloaded * 7 <= u32::MAX
    &&& config.start_date + config.latest_downloaded * 7 <= LAST_DAY
    &&& config.update_time.wf()
}

/// When the episode after the last one fetched comes out: the start day at
/// the update time, one week later for each episode fetched. Moving a time
/// inside a leap second on by whole days leaves the leap second: it lands
/// on the second before, with the same fraction.
pub open spec fn next_release(config: &SeriesConfig) -> Timestamp {
    let day = config.start_date + config.latest_downloaded * 7;
    let secs = (day - UNIX_EPOCH_DAY) * SECS_PER_DAY + config.update_time.secs;
    let nanos = config.update_time.nanos;
    Timestamp {
        secs: secs as i64,
        nanos: if nanos >= NANOS_PER_SEC && config.latest_downloaded > 0 {
            (nanos - NANOS_PER_SEC) as u32
        } else {
            nanos
        },
    }
}

/// The index of the first pattern of `sources` that does not compile, if any.
pub open spec fn first_invalid_pattern(sources: Seq<Seq<char>>, i: int) -> bool {
    &&& 0 <= i < sources.len()
    &&& !regex_compiles(sources[i])
    &&& forall|j: int| 0 <= j < i ==> regex_compiles(#[trigger] sources[j])
}

/// The views of a list of strings.
pub open spec fn string_views(v: Seq<String>) -> Seq<Seq<char>> {
    v.map_values(|s: String| s@)
}

/// The views of a list of patterns.
pub open spec fn pattern_views(v: Seq<Pattern>) -> Seq<Seq<char>> {
    v.map_values(|p: Pattern| p@)
}

fn clone_opt_string(o: &Option<String>) -> (r: Option<String>)
    ensures
        r == *o,
{
    match o {
        Some(s) => Some(s.clone()),
        None => None,
    }
}

/// Compiles each source, in order; fails at the first that does not compile.
pub fn compile_patterns(sources: &Vec<String>) -> (r: Result<Vec<Pattern>, TaskError>)
    ensures
        r matches Ok(ps) ==> pattern_views(ps@) == string_views(sources@),
        r is Ok <==> forall|i: int| 0 <= i < sources@.len() ==> regex_compiles(#[trigger] sources@[i]@),
        r matches Err(TaskError::InvalidPattern(i, _)) ==> first_invalid_pattern(string_views(sources@), i as int),
{
    let mut out: Vec<Pattern> = Vec::new();
    let n = sources.len();
    for i in 0..n
        invariant
            n == sources@.len(),
            out@.len() == i,
            forall|j: int| 0 <= j < i ==> #[trigger] out@[j]@ == sources@[j]@,
            forall|j: int| 0 <= j < i ==> regex_compiles(#[trigger] sources@[j]@),
    {
        match Pattern::new(sources[i].as_str()) {
            Ok(p) => out.push(p),
            Err(PatternError::Invalid(e)) => {
                return Err(TaskError::InvalidPattern(i, e));
            },
        }
    }
    assert(pattern_views(out@) =~= string_views(sources@));
    Ok(out)
}

/// The task for the next episode of series `name`: scheduled at
/// [`next_release`], for episode `latest_downloaded + 1`, with the series'
/// patterns compiled; fails at the first pattern that does not compile.
pub fn build_task(name: &str, config: &SeriesConfig) -> (r: Result<Task, TaskError>)
    requires
        schedulable(config),
    ensures
        r is Ok <==> forall|i: int| 0 <= i < config.pattern@.len() ==> regex_compiles(#[trigger] config.pattern@[i]@),
        r matches Err(TaskError::InvalidPattern(i, _)) ==> first_invalid_pattern(string_views(config.pattern@), i as int),
        r matches Ok(t) ==> built_from(t, name@, *config),
        r matches Ok(t) ==> t.keyword@ == config.keyword@ && t.name@ == name@,
{
    let day = config.start_date as i64 + config.latest_downloaded as i64 * 7;
    let secs = (day - UNIX_EPOCH_DAY) * 86400i64 + config.update_time.secs as i64;
    let nanos = config.update_time.nanos;
    let nanos = if nanos >= NANOS_PER_SEC && config.latest_downloaded > 0 {
        nanos - NANOS_PER_SEC
    } else {
        nanos
    };
    let scheduled_time = Timestamp { secs, nanos };
    proof {
        let k = day - UNIX_EPOCH_DAY;
        let u = config.update_time.secs as int;
        assert((k * 86400 + u) % 60 == u % 60) by (nonlinear_arith)
            requires
                0 <= u,
        ;
    }
    let pattern = compile_patterns(&config.pattern)?;
    Ok(
        Task {
            name: name.to_owned(),
            scheduled_time,
            keyword: config.keyword.clone(),
            pattern,
            episode: config.latest_downloaded + 1,
            offset: config.offset,
            rename_pattern: clone_opt_string(&config.rename_pattern),
            target_directory: clone_opt_string(&config.target_directory),
            feed_url: clone_opt_string(&config.feed_url),
        },
    )
}

} // verus!

verus! {

/// Whether `t` is the task that [`build_task`] builds for series `name` configured as `config`.
pub open spec fn built_from(t: Task, name: Seq<char>, config: SeriesConfig) -> bool {
    &&& t.name@ == name
    &&& t.scheduled_time == next_release(&config)
    &&& t.scheduled_time.wf()
    &&& t.keyword == config.keyword
    &&& pattern_views(t.pattern@) == string_views(config.pattern@)
    &&& t.episode == config.latest_downloaded + 1
    &&& t.offset == config.offset
    &&& t.rename_pattern == config.rename_pattern
    &&& t.target_directory == config.target_directory
    &&& t.feed_url == config.feed_url
}

/// `config` with its last fetched episode set to `episode`.
pub open spec fn with_latest(config: SeriesConfig, episode: u32) -> SeriesConfig {
    SeriesConfig { latest_downloaded: episode, ..config }
}

/// The configured series, each under a name of its own.
pub struct SeriesTable {
    names: Vec<String>,
    configs: Vec<SeriesConfig>,
}

impl SeriesTable {
    /// Each name has a configuration and no name occurs twice.
    pub closed spec fn wf(&self) -> bool {
        &&& self.names@.len() == self.configs@.len()
        &&& forall|i: int, j: int|
            0 <= i < j < self.names@.len() ==> #[trigger] self.names@[i]@ != #[trigger] self.names@[j]@
    }

    /// The names of the series, in the order they were added.
    pub closed spec fn names(&self) -> Seq<Seq<char>> {
        string_views(self.names@)
    }

    /// The configurations, each at the position of its name.
    pub closed spec fn configs(&self) -> Seq<SeriesConfig> {
        self.configs@
    }

    /// Every series has a configuration, and no two series share a name.
    pub proof fn lemma_names_distinct(&self)
        requires
            self.wf(),
        ensures
            self.names().len() == self.configs().len(),
            forall|i: int, j: int|
                0 <= i < j < self.names().len() ==> #[trigger] self.names()[i] != #[trigger] self.names()[j],
    {
        assert forall|i: int, j: int| 0 <= i < j < self.names().len() implies #[trigger] self.names()[i]
            != #[trigger] self.names()[j] by {
            assert(self.names()[i] == self.names@[i]@);
            assert(self.names()[j] == self.names@[j]@);
        }
    }

    /// An empty table.
    pub fn new() -> (t: SeriesTable)
        ensures
            t.wf(),
            t.names().len() == 0,
            t.configs().len() == 0,
    {
        let t = SeriesTable { names: Vec::new(), configs: Vec::new() };
        assert(t.names() =~= Seq::<Seq<char>>::empty());
        t
    }

    /// How many series the table holds.
    pub fn len(&self) -> (n: usize)
        requires
            self.wf(),
        ensures
            n == self.names().len(),
    {
        self.names.len()
    }

    /// The name and configuration of the series at position `i`.
    pub fn entry(&self, i: usize) -> (r: (&String, &SeriesConfig))
        requires
            self.wf(),
            i < self.names().len(),
        ensures
            r.0@ == self.names()[i as int],
            *r.1 == self.configs()[i as int],
    {
        (&self.names[i], &self.configs[i])
    }

    /// The position of `name`, if a series has it.
    pub fn position(&self, name: &str) -> (r: Option<usize>)
        requires
            self.wf(),
        ensures
            r matches Some(i) ==> i < self.names().len() && self.names()[i as int] == name@,
            r is None ==> forall|i: int| 0 <= i < self.names().len() ==> self.names()[i] != name@,
    {
        let n = self.names.len();
        for i in 0..n
            invariant
                n == self.names@.len(),
                forall|j: int| 0 <= j < i ==> self.names()[j] != name@,
        {
            if crate::text::text_eq(self.names[i].as_str(), name) {
                return Some(i);
            }
        }
        None
    }

    /// Adds series `name`, or replaces the configuration of the series
    /// already under that name.
    pub fn insert(&mut self, name: &str, config: SeriesConfig)
        requires
            old(self).wf(),
        ensures
            final(self).wf(),
            ({
                let names = old(self).names();
                let configs = old(self).configs();
                if exists|i: int| 0 <= i < names.len() && names[i] == name@ {
                    &&& final(self).names() == names
                    &&& forall|i: int|
                        0 <= i < names.len() ==> #[trigger] final(self).configs()[i] == if names[i]
                            == name@ {
                            config
                        } else {
                            configs[i]
                        }
                    &&& final(self).configs().len() == configs.len()
                } else {
                    &&& final(self).names() == names.push(name@)
                    &&& final(self).configs() == configs.push(config)
                }
            }),
    {
        match self.position(name) {
            Some(i) => {
                let ghost names = self.names();
                self.configs.remove(i);
                self.configs.insert(i, config);
                proof {
                    assert forall|j: int| 0 <= j < names.len() implies #[trigger] self.configs@[j]
                        == if names[j] == name@ {
                        config
                    } else {
                        old(self).configs@[j]
                    } by {
                        if j != i {
                            assert(names[j] != names[i as int]);
                        }
                    }
                }
            },
            None => {
                let ghost old_names = self.names();
                self.names.push(name.to_owned());
                self.configs.push(config);
                assert(self.names() =~= old_names.push(name@));
                assert forall|i: int, j: int| 0 <= i < j < self.names@.len() implies
                    #[trigger] self.names@[i]@ != #[trigger] self.names@[j]@ by {
                    assert(self.names@[i]@ == self.names()[i]);
                    assert(self.names@[j]@ == self.names()[j]);
                }
            },
        }
    }

    /// The configuration of series `name`, if there is one.
    pub fn get(&self, name: &str) -> (r: Option<&SeriesConfig>)
        requires
            self.wf(),
        ensures
            r matches Some(c) ==> exists|i: int|
                0 <= i < self.names().len() && self.names()[i] == name@ && self.configs()[i] == *c,
            r is None ==> forall|i: int| 0 <= i < self.names().len() ==> self.names()[i] != name@,
    {
        match self.position(name) {
            Some(i) => Some(&self.configs[i]),
            None => None,
        }
    }
}

/// Records that `task`'s episode was fetched, in the series of the task's
/// name; a table without that name is left as it is.
pub fn update_task(table: &mut SeriesTable, task: &Task)
    requires
        old(table).wf(),
    ensures
        final(table).wf(),
        final(table).names() == old(table).names(),
        final(table).configs().len() == old(table).configs().len(),
        forall|i: int|
            0 <= i < old(table).names().len() ==> #[trigger] final(table).configs()[i] == if old(
                table,
            ).names()[i] == task.name@ {
                with_latest(old(table).configs()[i], task.episode)
            } else {
                old(table).configs()[i]
            },
{
    match table.position(task.name.as_str()) {
        Some(i) => {
            let ghost names = table.names();
            let mut config = table.configs.remove(i);
            config.latest_downloaded = task.episode;
            table.configs.insert(i, config);
            proof {
                assert forall|j: int| 0 <= j < names.len() implies #[trigger] table.configs@[j]
                    == if names[j] == task.name@ {
                    with_latest(old(table).configs@[j], task.episode)
                } else {
                    old(table).configs@[j]
                } by {
                    if j != i {
                        assert(names[j] != names[i as int]);
                    }
                }
            }
        },
        None => {},
    }
}


/// The task of every series, in table order; fails with the error of the
/// first series whose task cannot be built.
pub fn build_tasks(table: &SeriesTable) -> (r: Result<Vec<Task>, TaskError>)
    requires
        table.wf(),
        forall|i: int| 0 <= i < table.configs().len() ==> schedulable(&#[trigger] table.configs()[i]),
    ensures
        r matches Ok(tasks) ==> {
            &&& tasks@.len() == table.names().len()
            &&& forall|i: int|
                0 <= i < tasks@.len() ==> built_from(
                    #[trigger] tasks@[i],
                    table.names()[i],
                    table.configs()[i],
                )
            &&& forall|i: int, j: int|
                0 <= i < j < tasks@.len() ==> #[trigger] tasks@[i].name@ != #[trigger] tasks@[j].name@
        },
        r is Ok <==> forall|i: int, k: int|
            0 <= i < table.configs().len() && 0 <= k < table.configs()[i].pattern@.len()
                ==> regex_compiles(#[trigger] table.configs()[i].pattern@[k]@),
        r matches Err(TaskError::InvalidPattern(k, _)) ==> exists|i: int|
            0 <= i < table.configs().len() && first_invalid_pattern(
                string_views(#[trigger] table.configs()[i].pattern@),
                k as int,
            ) && forall|j: int, m: int|
                0 <= j < i && 0 <= m < table.configs()[j].pattern@.len() ==> regex_compiles(
                    #[trigger] table.configs()[j].pattern@[m]@,
                ),
{
    let n = table.names.len();
    let mut tasks: Vec<Task> = Vec::new();
    for i in 0..n
        invariant
            n == table.names@.len(),
            n == table.configs@.len(),
            forall|j: int| 0 <= j < table.configs().len() ==> schedulable(&#[trigger] table.configs()[j]),
            tasks@.len() == i,
            forall|j: int|
                0 <= j < i ==> built_from(#[trigger] tasks@[j], table.names()[j], table.configs()[j]),
            forall|j: int, k: int|
                0 <= j < i && 0 <= k < table.configs()[j].pattern@.len() ==> regex_compiles(
                    #[trigger] table.configs()[j].pattern@[k]@,
                ),
    {
        assert(schedulable(&table.configs()[i as int]));
        assert(table.names()[i as int] == table.names@[i as int]@);
        match build_task(table.names[i].as_str(), &table.configs[i]) {
            Ok(t) => {
                tasks.push(t);
                assert(built_from(tasks@[i as int], table.names()[i as int], table.configs()[i as int]));
            },
            Err(e) => {
                return Err(e);
            },
        }
    }
    proof {
        table.lemma_names_distinct();
        assert forall|i: int, j: int| 0 <= i < j < tasks@.len() implies #[trigger] tasks@[i].name@
            != #[trigger] tasks@[j].name@ by {
            assert(built_from(tasks@[i], table.names()[i], table.configs()[i]));
            assert(built_from(tasks@[j], table.names()[j], table.configs()[j]));
        }
    }
    Ok(tasks)
}

/// Recording episode `e` of a series moves its next task to episode `e + 1`,
/// released `e` weeks after the series' start day at its update time.
pub proof fn law_recorded_episode_schedules_the_next(config: SeriesConfig, e: u32)
    requires
        schedulable(&with_latest(config, e)),
    ensures
        with_latest(config, e).latest_downloaded + 1 == e + 1,
        next_release(&with_latest(config, e)).secs == (config.start_date + 7 * e - UNIX_EPOCH_DAY)
            * SECS_PER_DAY + config.update_time.secs,
        next_release(&with_latest(config, e)).nanos == if config.update_time.nanos >= NANOS_PER_SEC
            && e > 0 {
            config.update_time.nanos - NANOS_PER_SEC
        } else {
            config.update_time.nanos as int
        },
{
}

} // verus!

verus! {

/// Tasks are queued in the order of their scheduled times: of two tasks,
/// the one with the smaller key is scheduled earlier, to the second or,
/// within the same second, to the nanosecond.
pub proof fn law_task_order_is_time_order(a: Task, b: Task)
    requires
        a.scheduled_time.wf(),
        b.scheduled_time.wf(),
    ensures
        a.spec_key() < b.spec_key() <==> (a.scheduled_time.secs < b.scheduled_time.secs || (
        a.scheduled_time.secs == b.scheduled_time.secs && a.scheduled_time.nanos
            < b.scheduled_time.nanos)),
        a.spec_key() == b.spec_key() <==> a.scheduled_time == b.scheduled_time,
{
    let (sa, na) = (a.scheduled_time.secs as int, a.scheduled_time.nanos as int);
    let (sb, nb) = (b.scheduled_time.secs as int, b.scheduled_time.nanos as int);
    if sa < sb {
        assert(sa * 2_000_000_000 + 2_000_000_000 <= sb * 2_000_000_000) by (nonlinear_arith)
            requires
                sa < sb,
        ;
    } else if sb < sa {
        assert(sb * 2_000_000_000 + 2_000_000_000 <= sa * 2_000_000_000) by (nonlinear_arith)
            requires
                sb < sa,
        ;
    }
}

} // verus!

verus! {

/// A built task carries its series' own settings: the configured search
/// words (not the series' name), the episode after the last one fetched,
/// the configured patterns, offset, rename pattern, target directory and
/// feed address, under the series' name.
pub proof fn law_task_keeps_its_configuration(t: Task, name: Seq<char>, config: SeriesConfig)
    requires
        built_from(t, name, config),
    ensures
        t.keyword@ == config.keyword@,
        t.name@ == name,
        t.episode == config.latest_downloaded + 1,
        pattern_views(t.pattern@) == string_views(config.pattern@),
        t.offset == config.offset,
        t.rename_pattern == config.rename_pattern,
        t.target_directory == config.target_directory,
        t.feed_url == config.feed_url,
{
}

} // verus!
