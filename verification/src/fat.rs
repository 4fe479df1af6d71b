//! Reading a FAT12/16/32 file system image.

pub mod bpb;
pub mod cluster_chain;
pub mod directory;
pub mod directory_entry;
pub mod fat_entry;

use vstd::prelude::*;

verus! {

use crate::fmt::{hex_digits, push_hex, zero_padded};

/// The text for byte `j` of a dump line: a space and two hex digits, and
/// one more space after every eighth byte.
pub open spec fn dump_byte_text(b: u8, j: int) -> Seq<char> {
    seq![' '] + zero_padded(hex_digits(b as nat), 2) + if j % 8 == 7 {
        seq![' ']
    } else {
        Seq::empty()
    }
}

/// The text for the bytes of a dump line.
pub open spec fn dump_bytes_text(chunk: Seq<u8>) -> Seq<char>
    decreases chunk.len(),
{
    if chunk.len() == 0 {
        Seq::empty()
    } else {
        dump_bytes_text(chunk.drop_last()) + dump_byte_text(chunk.last(), chunk.len() - 1)
    }
}

/// Line `i` of a dump: the line number in four hex digits, then its bytes.
pub open spec fn dump_line(i: nat, chunk: Seq<u8>) -> Seq<char> {
    zero_padded(hex_digits(i), 4) + dump_bytes_text(chunk) + seq!['\n']
}

/// The first `n` lines of a dump of `fs`, 16 bytes each (fewer on the last
/// line of a short image).
pub open spec fn dump_lines(fs: Seq<u8>, n: nat) -> Seq<char>
    decreases n,
{
    if n == 0 {
        Seq::empty()
    } else {
        let start: int = 16 * (n - 1);
        let end: int = if 16 * n <= fs.len() { (16 * n) as int } else { fs.len() as int };
        dump_lines(fs, (n - 1) as nat) + dump_line((n - 1) as nat, fs.subrange(start, end))
    }
}

/// Number of lines a dump of `len` bytes has: one per 16 bytes begun, at
/// most 16.
pub open spec fn dump_line_count(len: nat) -> nat {
    let n = (len + 15) / 16;
    if n <= 16 { n as nat } else { 16 }
}

/// A hex dump of the first 256 bytes of the image, as shown at boot.
pub fn dump_head(fs: &[u8]) -> (r: Vec<char>)
    ensures
        r@ == dump_lines(fs@, dump_line_count(fs@.len())),
{
    let mut out: Vec<char> = Vec::new();
    let n: usize = if fs.len() >= 256 { 16 } else { (fs.len() + 15) / 16 };
    let mut i: usize = 0;
    while i < n
        invariant
            i <= n,
            n == dump_line_count(fs@.len()),
            n <= 16,
            16 * (n - 1) < fs@.len() || n == 0,
            out@ == dump_lines(fs@, i as nat),
        decreases n - i,
    {
        let start = 16 * i;
        let end = if 16 * (i + 1) <= fs.len() { 16 * (i + 1) } else { fs.len() };
        let ghost before = out@;
        push_hex(&mut out, i as u64, 4);
        let mut j: usize = start;
        while j < end
            invariant
                start <= j <= end,
                end <= fs@.len(),
                start == 16 * i,
                out@ == before + zero_padded(hex_digits(i as nat), 4) + dump_bytes_text(
                    fs@.subrange(start as int, j as int),
                ),
            decreases end - j,
        {
            let ghost c = fs@.subrange(start as int, j as int + 1);
            assert(c.drop_last() == fs@.subrange(start as int, j as int));
            assert(c.last() == fs@[j as int]);
            out.push(' ');
            push_hex(&mut out, fs[j] as u64, 2);
            if (j - start) % 8 == 7 {
                out.push(' ');
            }
            j = j + 1;
            assert(out@ =~= before + zero_padded(hex_digits(i as nat), 4) + dump_bytes_text(
                fs@.subrange(start as int, j as int),
            ));
        }
        out.push('\n');
        i = i + 1;
        assert(out@ =~= dump_lines(fs@, i as nat));
    }
    out
}

} // verus!
