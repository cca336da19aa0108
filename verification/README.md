# animedl

A downloader for anime episodes, built around a library whose behaviour is
stated in contracts and proved with Verus.

- `src/` — the verified library: the catalogue model and the choice of
  players, the download plan (a state machine that decides which player or
  alternative source to try next), the task list, the parsers of the sites'
  pages and playlists, the matching of titles, the settings, the log, the
  figures of the statistics and downloads pages. Calls into outside crates
  (regex, serde_json, uuid, zstd, reqwest's status codes, std's paths and
  strings) go through small trusted wrappers whose contracts say what the
  call returns.
- `tests/` — tests on concrete values, run against the compiled library.
- `app/` — a command-line front end: the SQLite database, the HTTP requests,
  yt-dlp and ffmpeg, and the loop that performs what the plan asks for.

```text
animedl sync                                   read the catalogue into the database
animedl list [query]                           list the catalogue
animedl settings | set <key> <value>           show or change the settings
animedl scan                                   compare the files on disk with the recorded downloads
animedl download <id> <season> <episode> <vo|vf> [host]
```
