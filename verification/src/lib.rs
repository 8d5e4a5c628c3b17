//! A dashboard for a character LCD of four lines of twenty cells.
//!
//! The dashboard shows, as bars of sub-character resolution, the load of every
//! processor core, the throughput of every network interface and the memory in
//! use, and as text the temperature and the peak throughput of the last
//! minute.
//!
//! This library is the part that computes: throughput from byte counters
//! that wrap (`rate`), the window of the last minute and its peak
//! (`history`), the glyph for each cell of a bar (`gauge`), the commands that
//! draw a frame (`frame`, `command`, `text`), a display in memory that carries
//! them out (`mock_display`, `shown`), and the decisions of the start and of
//! the polling loop (`bus`, `poll_loop`). It reads no counter and writes to
//! no device: it is handed readings, and hands back what is to be drawn.

pub mod bus;
pub mod command;
pub mod frame;
pub mod gauge;
pub mod history;
pub mod memory;
pub mod mock_display;
pub mod poll_loop;
pub mod rate;
pub mod ratio;
pub mod shown;
pub mod text;
