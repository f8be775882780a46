# sjnmusic

The verified core of a self-hosted music player: a daemon that keeps a library,
a queue and playlists and serves them over HTTP, and a graphical remote control
for it.

- `src/` is the library, written in Verus. Every function states in its contract
  what it returns or changes; the laws that span functions are public `lemma_*`
  proof functions.
- `app/` is the program around it: files, sockets, the database, the sound
  device, `yt-dlp`, D-Bus and the window. Run it with the argument `gui` for the
  remote control, without one for the daemon.
- `tests/` runs the library on concrete values.

## Where things are

| Modules | What they hold |
| --- | --- |
| `text`, `json`, `urltext`, `real64`, `order`, `dates`, `fmt` | texts, JSON, addresses, double-precision numbers by their bits, stable ordering, dates, durations |
| `model`, `state`, `store`, `shelf`, `playback`, `playlists`, `downloads` | songs, the daemon's state, what is stored of it and of playlists, the playback loop, playlists, downloads |
| `routes`, `server`, `handler`, `replies`, `protocol`, `auth`, `config`, `paths` | from a request to its reply, commands on the socket, tokens, settings, paths |
| `audio` | the status of the sound engine |
| `ytdlp`, `matching`, `youtube`, `scoring`, `ranking` | what `yt-dlp` is asked and prints, and which upload of a song is the right one |
| `client`, `agreement` | the client's requests, and that the daemon understands them |
| `view`, `gui`, `pages`, `thumbnails`, `tray` | what the window shows, and what its buttons do |

## What is taken on trust

Functions marked `#[verifier::external_body]` and items introduced with
`assume_specification` stand for functions of the standard library and of
`base64`, `image`, `percent-encoding`, `rand`, `serde_json`, `strsim` and
`urlencoding`. The comment above each says what is claimed of it.
