# whenamp

WhenAmp is a small desktop music player (load, play, pause, stop, seek, a
playlist with M3U8 save/import, a spectrum analyzer). This crate splits it
in two:

- `src/` — the library, verified with Verus:
  - `playlist` — the play queue (`Playlist`, `PlaylistEntry`) and its laws;
  - `m3u` — writing the queue as M3U8 and reading track paths back, with
    the round-trip law;
  - `track` — track naming ("Artist - Title", title, file name) and the
    LCD badge texts of `TrackInfo`;
  - `deck` — the decisions behind Prev/Next, a finished track and dropped
    files, and the LCD / window / status texts;
  - `channels`, `sample_window` — the interleaved-channel cursor and the
    recent-sample window used by the audio taps;
  - `text` — whitespace, decimal digits and character helpers.
- `app/` — the program: egui window, file dialogs, lofty tag reading,
  rodio playback and the floating-point signal path (volume, balance,
  equalizer, FFT spectrum).
- `tests/` — tests of the library.

The app looks for its fonts in an `assets/fonts/` directory beside the
executable or in the working directory, and falls back to egui's built-in
fonts when they are not there.
