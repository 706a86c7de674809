# tvh_client

The logic of a desktop client for [TVHeadend](https://tvheadend.org/), written
in Rust and verified with [Verus](https://github.com/verus-lang/verus): what is
asked of the server and what its replies mean, the programme guide, recordings
and their downloads, playback, settings, and new versions of the program.

## Layout

- `src/` is the verified library. Every function has a contract over
  mathematical models of its data, and what holds across several functions is
  stated and proved as a `law_...` proof function at the end of its module.
  - `text`, `numbers`, `text_map`, `json`, `order`: text, numbers, maps keyed by
    text, JSON values, stable sorting.
  - `outside`: the calls into other crates, and what is taken for granted of
    them.
  - `tvh`: the client of the server, with `tvh::digest` for HTTP authentication
    and `tvh::m3u` for playlists; `loading`: what is asked of a server in turn.
  - `epg`, `guide`, `tv`: the programme guide and what is shown of it.
  - `recordings`, `recording_proxy`, `downloads`, `playback`, `panel`,
    `autorec`: recordings, their files, and recurring recordings.
  - `settings`, `servers`, `session`, `paths`, `logos`, `player`, `ui`,
    `update`: the rest of the application's state and rules.
- `app/` is the program around it: the window, the network, files, threads, and
  the video player.
- `tests/` runs the library.

Texts that the user sees are in Czech. Passwords are kept unencrypted in the
settings file.
