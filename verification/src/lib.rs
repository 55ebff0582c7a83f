//! A collection of small, verified building blocks: signal padding and
//! spectrogram layout (`spek`), dependency-tree rendering rules (`orc`),
//! webhook configuration and authentication rules (`shook`), the terminal
//! bridge message protocol (`ttyw`) and the layout of log lines
//! (`log_line`).
pub mod log_line;
pub mod orc;
pub mod shook;
pub mod spek;
pub mod ttyw;
