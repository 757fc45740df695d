//! The diagnostic form of a frame: rows of sixteen bytes, each with its offset, the bytes
//! in hexadecimal and the bytes as characters.
//!
//! ```text
//! 0000: 47 45 54 20 2f 20 48 54 54 50 2f 31 2e 31 0d 0a GET / HTTP/1.1..
//! 0010: 0d 0a                                           ..
//! ```
use crate::text::{digit, digit_char, hexadecimal, push_hexadecimal, push_repeated, repeated};
use vstd::prelude::*;

verus! {

/// The number of bytes in a full row.
pub const BYTES_PER_ROW: usize = 16;

/// The character that stands for a byte in the gloss: the byte itself if it is a space or
/// a printable ASCII character, a dot if not.
pub open spec fn gloss_char(b: u8) -> char {
    if 0x20 <= b <= 0x7e {
        b as char
    } else {
        '.'
    }
}

/// The label of a row: the offset of its first byte in hexadecimal, filled up with zeros
/// on the left to four digits.
pub open spec fn offset_label(offset: nat) -> Seq<char> {
    let digits = hexadecimal(offset);
    if digits.len() < 4 {
        repeated('0', (4 - digits.len()) as nat) + digits
    } else {
        digits
    }
}

/// The bytes of a row in hexadecimal, two digits and a space for each.
pub open spec fn hex_columns(row: Seq<u8>) -> Seq<char>
    decreases row.len(),
{
    if row.len() == 0 {
        Seq::empty()
    } else {
        hex_columns(row.drop_last()) + seq![
            digit_char(row.last() as int / 16),
            digit_char(row.last() as int % 16),
            ' ',
        ]
    }
}

/// The bytes of a row as characters.
pub open spec fn gloss(row: Seq<u8>) -> Seq<char> {
    row.map_values(|b: u8| gloss_char(b))
}

/// One row: the label, the hexadecimal columns, spaces in place of the columns that a
/// short row lacks, the gloss, and the end of the line.
pub open spec fn row_text(offset: nat, row: Seq<u8>) -> Seq<char> {
    offset_label(offset) + seq![':', ' '] + hex_columns(row) + repeated(
        ' ',
        (3 * (16 - row.len())) as nat,
    ) + gloss(row) + seq!['\n']
}

/// The number of rows that `len` bytes take.
pub open spec fn row_count(len: nat) -> nat {
    (len + 15) / 16
}

/// The bytes of row `k`: sixteen of them, or what is left.
pub open spec fn row_bytes(bytes: Seq<u8>, k: int) -> Seq<u8> {
    let end = if 16 * k + 16 <= bytes.len() {
        16 * k + 16
    } else {
        bytes.len() as int
    };
    bytes.subrange(16 * k, end)
}

/// The first `rows` rows.
pub open spec fn rows_text(bytes: Seq<u8>, rows: nat) -> Seq<char>
    decreases rows,
{
    if rows == 0 {
        Seq::empty()
    } else {
        rows_text(bytes, (rows - 1) as nat) + row_text(
            (16 * (rows - 1)) as nat,
            row_bytes(bytes, rows - 1),
        )
    }
}

/// The whole diagnostic: every row of `bytes`. No bytes give no rows.
pub open spec fn render(bytes: Seq<u8>) -> Seq<char> {
    rows_text(bytes, row_count(bytes.len()))
}

/// Computes [`gloss_char`].
pub fn gloss_of(b: u8) -> (c: char)
    ensures
        c == gloss_char(b),
{
    if 0x20 <= b && b <= 0x7e {
        b as char
    } else {
        '.'
    }
}

fn hexadecimal_len(n: u64) -> (len: usize)
    ensures
        len == hexadecimal(n as nat).len(),
        1 <= len <= 16,
{
    let mut len: usize = 1;
    let mut rest: u64 = n;
    proof {
        lemma_hexadecimal_len(n as nat);
    }
    while rest >= 16
        invariant
            1 <= len,
            hexadecimal(n as nat).len() == hexadecimal(rest as nat).len() + len - 1,
            hexadecimal(n as nat).len() <= 16,
        decreases rest,
    {
        rest = rest / 16;
        len += 1;
    }
    len
}

/// How many hexadecimal digits a number has: one to four below 65536, more above, and at
/// most sixteen where the number fits in 64 bits.
proof fn lemma_hexadecimal_len(n: nat)
    ensures
        hexadecimal(n).len() >= 1,
        n < 0x10 ==> hexadecimal(n).len() == 1,
        0x10 <= n < 0x100 ==> hexadecimal(n).len() == 2,
        0x100 <= n < 0x1000 ==> hexadecimal(n).len() == 3,
        0x1000 <= n < 0x1_0000 ==> hexadecimal(n).len() == 4,
        n >= 0x1_0000 ==> hexadecimal(n).len() > 4,
        n <= u64::MAX ==> hexadecimal(n).len() <= 16,
    decreases n,
{
    if n >= 16 {
        lemma_hexadecimal_len(n / 16);
    }
    if n <= u64::MAX {
        assert(pow16(16) == 0x1_0000_0000_0000_0000) by {
            reveal_with_fuel(pow16, 17);
        }
        lemma_hexadecimal_bound(n, 16);
    }
}

proof fn lemma_hexadecimal_bound(n: nat, digits: nat)
    requires
        digits >= 1,
        n < pow16(digits),
    ensures
        hexadecimal(n).len() <= digits,
    decreases digits,
{
    if n >= 16 {
        assert(digits >= 2) by {
            reveal_with_fuel(pow16, 2);
        }
        lemma_hexadecimal_bound(n / 16, (digits - 1) as nat);
    }
}

spec fn pow16(digits: nat) -> nat
    decreases digits,
{
    if digits == 0 {
        1
    } else {
        16 * pow16((digits - 1) as nat)
    }
}

fn push_offset_label(out: &mut String, offset: usize)
    ensures
        final(out)@ == old(out)@ + offset_label(offset as nat),
{
    let len = hexadecimal_len(offset as u64);
    if len < 4 {
        push_repeated(out, '0', 4 - len);
    }
    push_hexadecimal(out, offset as u64);
}

fn push_row(out: &mut String, data: &[u8], start: usize, end: usize)
    requires
        start <= end <= data@.len(),
        end - start <= 16,
    ensures
        final(out)@ == old(out)@ + row_text(start as nat, data@.subrange(start as int, end as int)),
{
    let ghost row = data@.subrange(start as int, end as int);
    push_offset_label(out, start);
    out.push(':');
    out.push(' ');
    let ghost head = old(out)@ + offset_label(start as nat) + seq![':', ' '];
    let mut i: usize = start;
    while i < end
        invariant
            start <= i <= end <= data@.len(),
            row == data@.subrange(start as int, end as int),
            out@ == head + hex_columns(row.take(i - start)),
        decreases end - i,
    {
        let b = data[i];
        assert(row.take(i + 1 - start).drop_last() == row.take(i - start));
        out.push(digit(b / 16));
        out.push(digit(b % 16));
        out.push(' ');
        i += 1;
    }
    assert(row.take(end - start) == row);
    push_repeated(out, ' ', 3 * (BYTES_PER_ROW - (end - start)));
    let ghost columns = head + hex_columns(row) + repeated(' ', (3 * (16 - row.len())) as nat);
    let mut i: usize = start;
    while i < end
        invariant
            start <= i <= end <= data@.len(),
            row == data@.subrange(start as int, end as int),
            out@ == columns + gloss(row.take(i - start)),
        decreases end - i,
    {
        out.push(gloss_of(data[i]));
        i += 1;
    }
    out.push('\n');
}

/// Renders a frame as rows of sixteen bytes.
///
/// Each row holds the offset of its first byte in four hexadecimal digits (more where the
/// offset needs them), a colon and a space, each byte in two lower-case hexadecimal digits
/// with a space after it, and the bytes as characters. A last row of fewer than sixteen
/// bytes is filled up with spaces, so that its characters start in the same column as
/// those of the rows before it.
pub fn render_packet_data(data: &[u8]) -> (text: String)
    ensures
        text@ == render(data@),
{
    let n = data.len();
    let mut out = String::new();
    let mut start: usize = 0;
    let ghost mut row: nat = 0;
    while start < n
        invariant
            n == data@.len(),
            start <= n,
            start == 16 * row || (start == n && 16 * row >= n),
            row <= row_count(n as nat),
            out@ == rows_text(data@, row),
        decreases n - start,
    {
        let end = if n - start <= BYTES_PER_ROW {
            n
        } else {
            start + BYTES_PER_ROW
        };
        push_row(&mut out, data, start, end);
        start = end;
        proof {
            row = row + 1;
        }
    }
    out
}

/// In every row the gloss starts fifty columns after the label, however many bytes the
/// row holds, and the label of a row that starts below 65536 has four digits: the glosses
/// of all such rows stand in one column.
pub proof fn law_gloss_column(offset: nat, row: Seq<u8>)
    requires
        row.len() <= 16,
    ensures
        offset_label(offset).len() >= 4,
        offset < 0x1_0000 ==> offset_label(offset).len() == 4,
        row_text(offset, row).len() == offset_label(offset).len() + 50 + row.len() + 1,
        row_text(offset, row).subrange(
            offset_label(offset).len() as int + 50,
            offset_label(offset).len() as int + 50 + row.len(),
        ) == gloss(row),
        row_text(offset, row).last() == '\n',
{
    lemma_hexadecimal_len(offset);
    lemma_hex_columns_len(row);
}

/// Every byte takes three columns.
pub proof fn lemma_hex_columns_len(row: Seq<u8>)
    ensures
        hex_columns(row).len() == 3 * row.len(),
    decreases row.len(),
{
    if row.len() > 0 {
        lemma_hex_columns_len(row.drop_last());
    }
}

/// Twenty bytes are rendered as two rows: the first sixteen bytes at offset 0, then the
/// last four at offset 16.
pub proof fn law_twenty_bytes(bytes: Seq<u8>)
    requires
        bytes.len() == 20,
    ensures
        render(bytes) == row_text(0, bytes.take(16)) + row_text(16, bytes.skip(16)),
{
    assert(row_bytes(bytes, 0) == bytes.take(16));
    assert(row_bytes(bytes, 1) == bytes.skip(16));
    assert(rows_text(bytes, 1) == rows_text(bytes, 0) + row_text(0, row_bytes(bytes, 0)));
}

} // verus!
