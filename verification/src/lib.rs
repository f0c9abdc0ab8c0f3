//! Verified core of a scheduled RSS episode downloader: the series table and
//! the tasks built from it, the queue that orders them, the choice of the
//! feed item that carries an episode, the reading of the torrent client's
//! listing, and the steps of each task's run.

pub mod feed;
pub mod magnet;
pub mod pattern;
pub mod queue;
pub mod rename;
pub mod run;
pub mod series;
pub mod status;
pub mod template;
pub mod text;

pub use feed::{
    Category, Channel, Enclosure, Guid, Item, MatchError, Rss, TextNode, feed_url,
    match_item_by_title,
};
pub use magnet::extract_hash_from_magnet_link;
pub use pattern::Pattern;
pub use queue::{QueueKey, QueueType};
pub use rename::{RenameError, name_with_extension, renamed_file_name};
pub use template::TemplateError;
pub use run::{Action, Phase, RenamePlan, RunError, TaskRun, TaskScheduler};
pub use series::{
    Config, PatternList, SeriesConfig, SeriesTable, Task, TaskError, TimeOfDay, Timestamp,
    WaitTime, build_task, build_tasks, single_or_vec, time_until, update_task,
};
pub use status::{State, StatusError, check_status_output};
