//! A verified core for a `tail`-style utility: parse a signed count
//! specification, resolve it against a file's totals to a start offset, and
//! extract the tail of a file's contents in line mode or byte mode.

pub mod cli;
pub mod file_tail;
pub mod start_index;
pub mod take_value;

pub use cli::{format_header, get_cli, Cli};
pub use file_tail::{count_lines_bytes, emit_bytes, emit_lines, process_file};
pub use start_index::get_start_index;
pub use take_value::{parse_bytes, parse_lines, parse_take_value, TakeValue};
