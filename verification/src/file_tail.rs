//! The per-file pipeline over a file's contents: the metrics scanner that
//! counts line records and bytes, and the stream emitters that extract the
//! tail in line mode or byte mode.
//!
//! A line record is a run of bytes ended by a newline byte, with a final
//! unterminated fragment, if any, still counting as one record.

use vstd::prelude::*;

use crate::start_index::{get_start_index, start_index};
use crate::take_value::TakeValue;

verus! {

/// The newline byte that ends a line record.
pub open spec fn newline() -> u8 {
    10
}

/// How many newline bytes `data` holds.
pub open spec fn newline_count(data: Seq<u8>) -> nat
    decreases data.len(),
{
    if data.len() == 0 {
        0
    } else {
        newline_count(data.drop_last()) + if data.last() == newline() {
            1nat
        } else {
            0nat
        }
    }
}

/// How many line records `data` holds: one per newline byte, plus one for a
/// final unterminated fragment.
pub open spec fn num_lines(data: Seq<u8>) -> nat {
    newline_count(data) + if data.len() > 0 && data.last() != newline() {
        1nat
    } else {
        0nat
    }
}

/// `data` with its first `k` line records removed.  Removing more records
/// than there are leaves nothing.
pub open spec fn drop_lines(data: Seq<u8>, k: nat) -> Seq<u8>
    decreases data.len(),
{
    if k == 0 {
        data
    } else if data.len() == 0 {
        data
    } else if data.first() == newline() {
        drop_lines(data.drop_first(), (k - 1) as nat)
    } else {
        drop_lines(data.drop_first(), k)
    }
}

/// What line-mode emission writes for `data` under specification `tv`
/// resolved against `total` lines: nothing, or everything from the resolved
/// record on.
pub open spec fn lines_output(data: Seq<u8>, tv: TakeValue, total: int) -> Seq<u8> {
    match start_index(tv, total) {
        None => Seq::empty(),
        Some(k) => drop_lines(data, k as nat),
    }
}

/// What byte-mode emission writes for `data` under specification `tv`
/// resolved against `total` bytes: nothing, or everything from the resolved
/// byte offset on.
pub open spec fn bytes_output(data: Seq<u8>, tv: TakeValue, total: int) -> Seq<u8> {
    match start_index(tv, total) {
        None => Seq::empty(),
        Some(k) => if k <= data.len() {
            data.skip(k)
        } else {
            Seq::empty()
        },
    }
}

/// What processing one file writes: byte mode when a byte specification was
/// supplied, otherwise line mode, each resolved against the matching total
/// of `data` itself.
pub open spec fn file_output(data: Seq<u8>, bytes: Option<TakeValue>, lines: TakeValue) -> Seq<
    u8,
> {
    match bytes {
        Some(b) => bytes_output(data, b, data.len() as int),
        None => lines_output(data, lines, num_lines(data) as int),
    }
}

/// One sequential pass over a file's contents, returning its total line
/// records and total bytes.
pub fn count_lines_bytes(data: &Vec<u8>) -> (r: (i64, i64))
    requires
        data@.len() <= i64::MAX,
    ensures
        r.0 == num_lines(data@),
        r.1 == data@.len(),
{
    let len = data.len();
    let mut i: usize = 0;
    let mut nl: u64 = 0;
    while i < len
        invariant
            len == data@.len() <= i64::MAX,
            i <= len,
            nl as nat == newline_count(data@.take(i as int)),
            nl <= i,
        decreases len - i,
    {
        proof {
            assert(data@.take(i + 1 as int).drop_last() =~= data@.take(i as int));
            assert(data@.take(i + 1 as int).last() == data@[i as int]);
        }
        if data[i] == 10 {
            nl = nl + 1;
        }
        i += 1;
    }
    proof {
        assert(data@.take(len as int) =~= data@);
    }
    let lines: u64 = if len > 0 && data[len - 1] != 10 {
        proof {
            lemma_newline_count_le(data@.drop_last());
            assert(newline_count(data@) == newline_count(data@.drop_last()));
        }
        nl + 1
    } else {
        nl
    };
    (lines as i64, len as i64)
}

/// There are never more newline bytes than bytes.
proof fn lemma_newline_count_le(data: Seq<u8>)
    ensures
        newline_count(data) <= data.len(),
    decreases data.len(),
{
    if data.len() > 0 {
        lemma_newline_count_le(data.drop_last());
    }
}

/// Extract the line-mode tail of `data`: resolve `num_lines` against
/// `total_lines`, then skip that many line records and return everything
/// after them, verbatim.
pub fn emit_lines(data: &Vec<u8>, num_lines: &TakeValue, total_lines: i64) -> (r: Vec<u8>)
    requires
        0 <= total_lines,
    ensures
        r@ == lines_output(data@, *num_lines, total_lines as int),
{
    let start = match get_start_index(num_lines, total_lines) {
        None => {
            return Vec::new();
        },
        Some(st) => st,
    };
    let len = data.len();
    let mut i: usize = 0;
    let mut skipped: u64 = 0;
    proof {
        assert(data@.skip(0) =~= data@);
    }
    while i < len && skipped < start
        invariant
            len == data@.len(),
            i <= len,
            skipped <= start,
            drop_lines(data@, start as nat) == drop_lines(
                data@.skip(i as int),
                (start - skipped) as nat,
            ),
        decreases len - i,
    {
        proof {
            let rest = data@.skip(i as int);
            assert(rest.len() == len - i);
            assert(rest.first() == data@[i as int]);
            assert(rest.drop_first() =~= data@.skip(i + 1 as int));
        }
        if data[i] == 10 {
            skipped = skipped + 1;
        }
        i += 1;
    }
    let mut r: Vec<u8> = Vec::new();
    if skipped < start {
        proof {
            assert(data@.skip(len as int) =~= Seq::<u8>::empty());
        }
        return r;
    }
    let mut j: usize = i;
    while j < len
        invariant
            len == data@.len(),
            i <= j <= len,
            r@ =~= data@.subrange(i as int, j as int),
        decreases len - j,
    {
        r.push(data[j]);
        proof {
            assert(r@ =~= data@.subrange(i as int, j + 1 as int));
        }
        j += 1;
    }
    proof {
        assert(data@.subrange(i as int, len as int) =~= data@.skip(i as int));
    }
    r
}

/// Extract the byte-mode tail of `data`: resolve `num_bytes` against
/// `total_bytes`, then return everything from that byte offset to the end.
pub fn emit_bytes(data: &Vec<u8>, num_bytes: &TakeValue, total_bytes: i64) -> (r: Vec<u8>)
    requires
        0 <= total_bytes,
    ensures
        r@ == bytes_output(data@, *num_bytes, total_bytes as int),
{
    let start = match get_start_index(num_bytes, total_bytes) {
        None => {
            return Vec::new();
        },
        Some(st) => st,
    };
    let len = data.len();
    let begin: usize = if start >= len as u64 {
        len
    } else {
        start as usize
    };
    let mut r: Vec<u8> = Vec::new();
    let mut j: usize = begin;
    while j < len
        invariant
            len == data@.len(),
            begin <= j <= len,
            r@ =~= data@.subrange(begin as int, j as int),
        decreases len - j,
    {
        r.push(data[j]);
        proof {
            assert(r@ =~= data@.subrange(begin as int, j + 1 as int));
        }
        j += 1;
    }
    proof {
        assert(data@.subrange(begin as int, len as int) =~= data@.skip(begin as int));
        if start as int > data@.len() {
            assert(data@.skip(len as int) =~= Seq::<u8>::empty());
        }
    }
    r
}

/// Process one file's contents: count its totals, then emit the byte-mode
/// tail when a byte specification was supplied, and the line-mode tail
/// otherwise.  Byte mode always takes precedence over line mode.
pub fn process_file(data: &Vec<u8>, bytes: &Option<TakeValue>, lines: &TakeValue) -> (r: Vec<u8>)
    requires
        data@.len() <= i64::MAX,
    ensures
        r@ == file_output(data@, *bytes, *lines),
{
    let (total_lines, total_bytes) = count_lines_bytes(data);
    match bytes {
        Some(b) => emit_bytes(data, b, total_bytes),
        None => emit_lines(data, lines, total_lines),
    }
}

} // verus!
