//! The run configuration: the parsed command line handed to the multi-file
//! driver, and the per-file header formatting.

use vstd::prelude::*;
use vstd::string::StringExecFns;

use crate::take_value::{illegal_msg, parse_bytes, parse_lines, parse_spec, TakeValue};

verus! {

/// One run's configuration: the files to process in order, an optional
/// byte-count specification (which takes precedence over line mode), the
/// line-count specification, and whether per-file headers are suppressed.
#[derive(Debug)]
pub struct Cli {
    pub files: Vec<String>,
    pub bytes: Option<TakeValue>,
    pub lines: TakeValue,
    pub quiet: bool,
}

/// The header announcing `filename`, preceded by a blank line for every
/// file except the first.
pub open spec fn header_text(filename: Seq<char>, first: bool) -> Seq<char> {
    (if first {
        ""@
    } else {
        "\n"@
    }) + "==> "@ + filename + " <=="@
}

/// Build the header announcing `filename`; `first` says whether it opens
/// the very first emitted file, which gets no preceding blank line.
pub fn format_header(filename: &str, first: bool) -> (r: String)
    ensures
        r@ == header_text(filename@, first),
{
    let mut h = if first {
        String::from_str("")
    } else {
        String::from_str("\n")
    };
    h.append("==> ");
    h.append(filename);
    h.append(" <==");
    proof {
        assert(h@ =~= header_text(filename@, first));
    }
    h
}

/// Assemble a run configuration from the raw option values: parse the
/// optional byte count and the line count, failing with the offending
/// argument's diagnostic; the byte count is examined first.
pub fn get_cli(files: Vec<String>, bytes: Option<String>, lines: String, quiet: bool) -> (r:
    Result<Cli, String>)
    ensures
        (match r {
            Ok(cli) => {
                &&& (match bytes {
                    Some(b) => parse_spec(b@) is Some && cli.bytes == Some(
                        parse_spec(b@)->Some_0,
                    ),
                    None => cli.bytes is None,
                })
                &&& parse_spec(lines@) is Some
                &&& cli.lines == parse_spec(lines@)->Some_0
                &&& cli.files == files
                &&& cli.quiet == quiet
            },
            Err(m) => {
                ||| (bytes is Some && parse_spec(bytes->Some_0@) is None && m@ == illegal_msg(
                    "byte"@,
                    bytes->Some_0@,
                ))
                ||| ((bytes is None || parse_spec(bytes->Some_0@) is Some) && parse_spec(lines@)
                    is None && m@ == illegal_msg("line"@, lines@))
            },
        }),
{
    let bytes_val: Option<TakeValue> = match bytes {
        Some(b) => match parse_bytes(b.as_str()) {
            Ok(tv) => Some(tv),
            Err(m) => {
                return Err(m);
            },
        },
        None => None,
    };
    let lines_val: TakeValue = match parse_lines(lines.as_str()) {
        Ok(tv) => tv,
        Err(m) => {
            return Err(m);
        },
    };
    Ok(Cli { files, bytes: bytes_val, lines: lines_val, quiet })
}

} // verus!
