# rss_autodl

Follows a set of series in an RSS torrent feed. At each series' weekly
release time it looks for the item that carries the next episode, hands its
magnet link to qBittorrent (through the `qbt` command-line tool), waits for
the download to complete, copies the file under a new name, and records the
episode in `tasks.yaml`.

- `src/` is the verified library:
  - `series`: the series table, the tasks built from it and their schedule;
  - `queue`: the first-in first-out and priority queues of tasks;
  - `run`: the scheduler that bounds how many tasks run at once, and the
    steps of one task's run as a state machine;
  - `feed`: feed items, the feed address, and the choice of the item that
    carries an episode;
  - `status`: torrent states and the reading of the client's listing;
  - `magnet`: the info-hash of a magnet link;
  - `rename`: the name a downloaded file is copied under;
  - `pattern`, `template`: regular expressions, templates and
    percent-encoding, through the `regex`, `strfmt` and `urlencoding` crates;
  - `text`: character-level helpers.
- `app/` is the program around it: configuration files, HTTP, the `qbt`
  commands, the file system and the async runtime.
- `tests/` exercises the library.
