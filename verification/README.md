# UniLyric

UniLyric converts lyrics between formats, finds lyrics for the song that is being
played, and shows them in an AMLL player. This repository holds its logic as a
library that [Verus](https://github.com/verus-lang/verus) verifies, and the
application around it.

- `src/` is the library.
  - `ass_parser`, `ass_generator`, `krc_generator`, `json_parser`: reading and
    writing lyrics. `ass_laws`, `ass_event_laws` and `ass_file_laws` prove what
    holds between writing an ASS file and reading it, and `ass_load_laws` what
    holds of every file that has been read.
  - `chinese_conversion_processor`: conversion between Chinese scripts.
  - `amll_lyrics_fetcher`: the index of the AMLL TTML database.
  - `amll_connector`: the protocol of the player, the client that talks to it, the
    state of media sessions, and captured audio.
  - `app_settings`, `ini_file`, `formats`: the settings and the file they are kept
    in; `settings_laws` proves that saved settings are read back.
  - `app_handlers`, `app_events`, `app_fetch_core`, `app_update`, `app_ui`, `io`:
    what the application does when something happens, and what it offers.
- `app/` is the window, the network and the files.
- `tests/` runs the library.

The functions of `src/` have contracts that say what they return and change. The
few contracts that are not proved are those of functions that call another crate or
the standard library; their comments say which function they call and what is taken
for granted about it.
