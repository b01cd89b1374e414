# alpha_tube

A desktop video downloader and player built around yt-dlp, aria2c and
ffmpeg. The decisions it makes are a library verified with Verus; the
desktop shell around it is ordinary Rust.

## Layout

- `src/` — the verified library (`alpha_tube`):
  - `text`, `numtext`, `json` — characters, lines, numerals, and JSON
    documents as yt-dlp and ffprobe print them;
  - `progress`, `download` — yt-dlp and aria2c progress lines, the errors
    of a download and their messages, file names, the plan of the streams
    and the command lines of aria2c and ffmpeg;
  - `media`, `playlist`, `search` — format selectors, codec support, video,
    playlist and search metadata;
  - `ytdlp`, `url_cache`, `stream_proxy` — streaming: yt-dlp's answers, the
    cache of stream addresses, the local proxy and its HLS rewriting;
  - `registry`, `state`, `library`, `update` — the running downloads and HLS
    processes, the answers of the app's commands, the local library, updates.
- `tests/` — tests of the library.
- `app/` — the Tauri app: commands, processes, files, the HTTP server.
