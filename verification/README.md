# media_downloader

The verified core of a desktop front end for yt-dlp, written in Verus.

- `src/` is the library. Seven of its functions are trusted wrappers whose
  contracts Verus takes as given: `text::string_of` (`String::from_iter`),
  `url::regex_first_capture` (regex_lite), `metadata::json_member`,
  `json_body_nested_member`, `json_body_valid` and `json_error` (serde_json),
  and `history::local_time_rfc3339` (chrono). Every other function is
  verified:
  - `text` — the Unicode white-space model, trimming, searching and splitting
    over `Seq<char>`;
  - `url` — normalisation of pasted URLs (kick.com video pages);
  - `settings` — the user's settings and the application state;
  - `commands` — the yt-dlp command lines (cookies, metadata query, download);
  - `progress` — reading yt-dlp's output while it downloads;
  - `history` — the download history and its laws;
  - `version` — version numbers and the update decision, with the laws of
    the order;
  - `metadata` — the JSON answers of yt-dlp and PyPI;
  - `tools` — where the tools are looked for, the browser list, update
    messages.
- `app/` is the Tauri shell: commands, processes, files and the network.
- `tests/` runs the library on concrete inputs.
