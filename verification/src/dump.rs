//! The post-run hex dump of the full address space, and the hexadecimal
//! formatting helpers the register report shares.
//!
//! The dump groups the 256 cells into sixteen 16-byte rows. A row equal to
//! the row right above it is elided: the first repeat renders as a single
//! `*` marker line, further immediate repeats render as nothing.

use vstd::prelude::*;
use vstd::string::StringExecFns;

use crate::memory::Memory;

verus! {

/// The lowercase hexadecimal digit for `n`.
pub open spec fn hex_digit(n: u8) -> char
    recommends
        n < 16,
{
    if n < 10 {
        (n + 48) as char
    } else {
        (n + 87) as char
    }
}

/// The two lowercase hexadecimal digits of the byte `b`.
pub open spec fn hex_pair(b: u8) -> Seq<char> {
    seq![hex_digit(b / 16), hex_digit(b % 16)]
}

/// How a byte shows in the ASCII column: graphic characters as themselves,
/// ASCII whitespace as a space, everything else as a dot.
pub open spec fn ascii_render(b: u8) -> char {
    if 0x21 <= b && b <= 0x7e {
        b as char
    } else if b == 0x20 || b == 0x09 || b == 0x0a || b == 0x0c || b == 0x0d {
        ' '
    } else {
        '.'
    }
}

/// The column-header line of the dump.
pub open spec fn header_chars() -> Seq<char> {
    "    x0 x1 x2 x3 x4 x5 x6 x7 x8 x9 xa xb xc xd xe xf\n"@
}

/// The hex column of a row's first `n` bytes: a space and two digits each.
pub open spec fn row_hex_upto(row: Seq<u8>, n: int) -> Seq<char>
    decreases n,
{
    if n <= 0 {
        Seq::empty()
    } else {
        row_hex_upto(row, n - 1) + " "@ + hex_pair(row[n - 1])
    }
}

/// The ASCII column of a row's first `n` bytes.
pub open spec fn row_ascii_upto(row: Seq<u8>, n: int) -> Seq<char>
    decreases n,
{
    if n <= 0 {
        Seq::empty()
    } else {
        row_ascii_upto(row, n - 1) + seq![ascii_render(row[n - 1])]
    }
}

/// One full dump line: the row's starting offset in hex, the sixteen hex
/// byte values, and the ASCII rendering between bars.
pub open spec fn row_line(offset: u8, row: Seq<u8>) -> Seq<char> {
    hex_pair(offset) + " "@ + row_hex_upto(row, 16) + "  |"@ + row_ascii_upto(row, 16) + "|\n"@
}

/// The `i`-th 16-byte row of the memory view `m`.
pub open spec fn row_of(m: Seq<u8>, i: int) -> Seq<u8> {
    m.subrange(16 * i, 16 * i + 16)
}

/// What row `i` contributes to the dump: its full line when it differs
/// from the row above (the first row always does), one `*` marker line for
/// the first immediate repeat, nothing for further repeats.
pub open spec fn dump_piece(m: Seq<u8>, i: int) -> Seq<char> {
    if i == 0 {
        row_line(0, row_of(m, 0))
    } else if row_of(m, i) != row_of(m, i - 1) {
        row_line((16 * i) as u8, row_of(m, i))
    } else if i == 1 || row_of(m, i - 1) != row_of(m, i - 2) {
        "*\n"@
    } else {
        Seq::empty()
    }
}

/// The header followed by the contributions of the first `n` rows.
pub open spec fn dump_upto(m: Seq<u8>, n: int) -> Seq<char>
    decreases n,
{
    if n <= 0 {
        header_chars()
    } else {
        dump_upto(m, n - 1) + dump_piece(m, n - 1)
    }
}

/// The whole dump of a 256-cell memory view.
pub open spec fn dump_chars(m: Seq<u8>) -> Seq<char> {
    dump_upto(m, 16)
}

/// Relies on `String::push`: it appends the one character `c` to the end
/// of the string.
#[verifier::external_body]
pub(crate) fn push_char(s: &mut String, c: char)
    ensures
        final(s)@ == old(s)@ + seq![c],
{
    s.push(c);
}

/// The lowercase hexadecimal digit for `n`.
fn hex_digit_exec(n: u8) -> (c: char)
    requires
        n < 16,
    ensures
        c == hex_digit(n),
{
    if n < 10 {
        (n + 48) as char
    } else {
        (n + 87) as char
    }
}

/// Append the two hexadecimal digits of `b`.
pub(crate) fn push_hex_pair(s: &mut String, b: u8)
    ensures
        final(s)@ == old(s)@ + hex_pair(b),
{
    push_char(s, hex_digit_exec(b / 16));
    push_char(s, hex_digit_exec(b % 16));
    proof {
        assert(old(s)@ + seq![hex_digit(b / 16)] + seq![hex_digit(b % 16)] =~= old(s)@ + hex_pair(
            b,
        ));
    }
}

/// How a byte shows in the ASCII column.
fn ascii_render_exec(b: u8) -> (c: char)
    ensures
        c == ascii_render(b),
{
    if 0x21 <= b && b <= 0x7e {
        b as char
    } else if b == 0x20 || b == 0x09 || b == 0x0a || b == 0x0c || b == 0x0d {
        ' '
    } else {
        '.'
    }
}

impl Memory {
    /// Whether rows `i` and `j` hold the same 16 bytes.
    #[verifier::loop_isolation(false)]
    fn row_eq(&self, i: usize, j: usize) -> (r: bool)
        requires
            self.wf(),
            i < 16,
            j < 16,
        ensures
            r == (row_of(self@, i as int) == row_of(self@, j as int)),
    {
        proof {
            self.lemma_wf();
        }
        let mut k: usize = 0;
        while k < 16
            invariant
                k <= 16,
                forall|t: int|
                    0 <= t < k ==> row_of(self@, i as int)[t] == row_of(self@, j as int)[t],
            decreases 16 - k,
        {
            if self.read((i * 16 + k) as u8) != self.read((j * 16 + k) as u8) {
                proof {
                    assert(row_of(self@, i as int)[k as int] != row_of(self@, j as int)[k as int]);
                }
                return false;
            }
            k += 1;
        }
        proof {
            assert(row_of(self@, i as int) =~= row_of(self@, j as int));
        }
        true
    }

    /// Append the full dump line of row `i`.
    #[verifier::loop_isolation(false)]
    fn push_row(&self, w: &mut String, i: usize)
        requires
            self.wf(),
            i < 16,
        ensures
            final(w)@ == old(w)@ + row_line((16 * i) as u8, row_of(self@, i as int)),
    {
        proof {
            self.lemma_wf();
        }
        let ghost w0 = w@;
        let ghost row = row_of(self@, i as int);
        let offset: u8 = (i as u8) * 16;
        push_hex_pair(w, offset);
        w.append(" ");
        let mut k: usize = 0;
        while k < 16
            invariant
                k <= 16,
                w@ == w0 + hex_pair(offset) + " "@ + row_hex_upto(row, k as int),
            decreases 16 - k,
        {
            let b = self.read((i * 16 + k) as u8);
            w.append(" ");
            push_hex_pair(w, b);
            proof {
                assert(b == row[k as int]);
                assert(w@ =~= w0 + hex_pair(offset) + " "@ + row_hex_upto(row, k + 1));
            }
            k += 1;
        }
        w.append("  |");
        let ghost mid = w@;
        let mut k2: usize = 0;
        while k2 < 16
            invariant
                k2 <= 16,
                w@ == mid + row_ascii_upto(row, k2 as int),
            decreases 16 - k2,
        {
            let b = self.read((i * 16 + k2) as u8);
            push_char(w, ascii_render_exec(b));
            proof {
                assert(b == row[k2 as int]);
                assert(w@ =~= mid + row_ascii_upto(row, k2 + 1));
            }
            k2 += 1;
        }
        w.append("|\n");
        proof {
            assert(w@ =~= w0 + row_line(offset, row));
        }
    }

    /// Render the whole address space as a hex dump: a header line, then
    /// one line per 16-byte row, with immediately repeating rows elided
    /// behind a single `*` marker line.
    #[verifier::loop_isolation(false)]
    pub fn hexdump(&self) -> (r: String)
        requires
            self.wf(),
        ensures
            r@ == dump_chars(self@),
    {
        let mut w = String::new();
        w.append("    x0 x1 x2 x3 x4 x5 x6 x7 x8 x9 xa xb xc xd xe xf\n");
        proof {
            assert(w@ =~= dump_upto(self@, 0));
        }
        let mut i: usize = 0;
        while i < 16
            invariant
                i <= 16,
                w@ == dump_upto(self@, i as int),
            decreases 16 - i,
        {
            if i == 0 {
                self.push_row(&mut w, i);
            } else if !self.row_eq(i, i - 1) {
                self.push_row(&mut w, i);
            } else if i == 1 {
                w.append("*\n");
            } else if !self.row_eq(i - 1, i - 2) {
                w.append("*\n");
            } else {
                proof {
                    assert(w@ + Seq::<char>::empty() =~= w@);
                }
            }
            proof {
                assert(w@ =~= dump_upto(self@, i as int) + dump_piece(self@, i as int));
            }
            i += 1;
        }
        w
    }
}

} // verus!
