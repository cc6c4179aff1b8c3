//! Text rendering of a lattice: a dashed border, then one line per row
//! showing each spin's glyph between bars, each followed by a border.

use crate::field::Field;
use crate::spin::{glyph_of, Spin};
use vstd::prelude::*;
use vstd::string::StringExecFns;

verus! {

/// A border of `2 * width + 1` dashes.
pub open spec fn border(width: nat) -> Seq<char> {
    Seq::new(2 * width + 1, |k: int| '-')
}

/// The first `c` cells of row `row`, each a bar and a glyph.
pub open spec fn row_cells(spins: Seq<Spin>, width: nat, row: nat, c: nat) -> Seq<char>
    decreases c,
{
    if c == 0 {
        Seq::empty()
    } else {
        row_cells(spins, width, row, (c - 1) as nat) + seq!['|', glyph_of(spins[row * width + c - 1])]
    }
}

/// Row `row` with its closing bar, a newline, a border and a newline.
pub open spec fn row_block(spins: Seq<Spin>, width: nat, row: nat) -> Seq<char> {
    row_cells(spins, width, row, width) + seq!['|', '\n'] + border(width) + seq!['\n']
}

/// The blocks of the first `r` rows.
pub open spec fn rows_text(spins: Seq<Spin>, width: nat, r: nat) -> Seq<char>
    decreases r,
{
    if r == 0 {
        Seq::empty()
    } else {
        rows_text(spins, width, (r - 1) as nat) + row_block(spins, width, (r - 1) as nat)
    }
}

/// The whole grid: a border line, the row blocks, and a closing blank line.
pub open spec fn grid_text(spins: Seq<Spin>, width: nat, height: nat) -> Seq<char> {
    border(width) + seq!['\n'] + rows_text(spins, width, height) + seq!['\n']
}

fn append_border(out: &mut String, width: usize)
    ensures
        final(out)@ == old(out)@ + border(width as nat),
{
    proof {
        reveal_strlit("-");
        assert("-"@ =~= seq!['-']);
    }
    out.append("-");
    let mut c: usize = 0;
    while c < width
        invariant
            c <= width,
            out@ == old(out)@ + Seq::new((2 * c + 1) as nat, |k: int| '-'),
        decreases width - c,
    {
        proof {
            reveal_strlit("--");
            assert("--"@ =~= seq!['-', '-']);
        }
        out.append("--");
        assert(out@ =~= old(out)@ + Seq::new((2 * (c + 1) + 1) as nat, |k: int| '-'));
        c += 1;
    }
}

impl Field {
    /// The lattice as text, one line per row between dashed borders.
    pub fn render(&self) -> (r: String)
        requires
            self.wf(),
        ensures
            r@ == grid_text(self.spins(), self.width as nat, self.height as nat),
    {
        proof {
            reveal_strlit("\n");
            assert("\n"@ =~= seq!['\n']);
        }
        let w = self.width;
        let h = self.height;
        let n = self.nodes.len();
        let mut out = String::new();
        append_border(&mut out, w);
        out.append("\n");
        let ghost head = out@;
        let mut row: usize = 0;
        while row < h
            invariant
                self.wf(),
                w == self.width,
                h == self.height,
                row <= h,
                n == w * h,
                out@ == head + rows_text(self.spins(), w as nat, row as nat),
            decreases h - row,
        {
            let ghost start = out@;
            assert(row * w + w <= w * h) by (nonlinear_arith)
                requires
                    row < h,
            ;
            let mut col: usize = 0;
            while col < w
                invariant
                    self.wf(),
                    w == self.width,
                    h == self.height,
                    row < h,
                    col <= w,
                    n == w * h,
                    row * w + w <= w * h,
                    out@ == start + row_cells(self.spins(), w as nat, row as nat, col as nat),
                decreases w - col,
            {
                proof {
                    reveal_strlit("|");
                    reveal_strlit("+");
                    reveal_strlit(" ");
                    assert("|"@ =~= seq!['|']);
                    assert("+"@ =~= seq!['+']);
                    assert(" "@ =~= seq![' ']);
                }
                out.append("|");
                let idx: usize = row * w + col;
                assert(self.spins()[idx as int] == self.nodes@[idx as int].state);
                if self.nodes[idx].state == Spin::Up {
                    out.append("+");
                } else {
                    out.append(" ");
                }
                assert(out@ =~= start + row_cells(self.spins(), w as nat, row as nat, (col + 1) as nat));
                col += 1;
            }
            proof {
                reveal_strlit("\n");
                reveal_strlit("|\n");
                assert("\n"@ =~= seq!['\n']);
                assert("|\n"@ =~= seq!['|', '\n']);
            }
            out.append("|\n");
            append_border(&mut out, w);
            out.append("\n");
            assert(out@ =~= head + rows_text(self.spins(), w as nat, (row + 1) as nat));
            row += 1;
        }
        out.append("\n");
        assert(out@ =~= grid_text(self.spins(), w as nat, h as nat));
        out
    }
}

} // verus!
