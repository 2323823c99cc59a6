//! The verified core of the WhenAmp music player: the play queue and its
//! M3U8 form, track naming, and the transport decisions the UI acts on.

pub mod text;
pub mod track;
pub mod playlist;
pub mod m3u;
pub mod channels;
pub mod deck;
pub mod sample_window;
