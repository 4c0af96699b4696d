//! Human-readable dumps of a grid and of candidate-vote heatmaps, rendered
//! as strings for the caller's logging.

use vstd::prelude::*;

use crate::space::DotPos;
use crate::space::DotSpace;
use crate::space::space_wf;

verus! {

/// The decimal digits of `n`, most significant first, as ASCII bytes.
pub open spec fn dec_bytes(n: int) -> Seq<u8>
    decreases n,
{
    if n < 10 {
        seq![(48 + n) as u8]
    } else {
        dec_bytes(n / 10) + seq![(48 + n % 10) as u8]
    }
}

/// `s` padded on the left with `pad` up to width `w`.
pub open spec fn pad_left(s: Seq<u8>, pad: u8, w: int) -> Seq<u8> {
    if s.len() >= w {
        s
    } else {
        Seq::new((w - s.len()) as nat, |i: int| pad) + s
    }
}

/// The ASCII bytes reinterpreted as characters.
pub open spec fn chars_of(bs: Seq<u8>) -> Seq<char> {
    Seq::new(bs.len(), |i: int| bs[i] as char)
}

/// The header cells `0 .. n`, each zero-padded to width `w` and followed by
/// a space.
pub open spec fn header_cells(n: int, w: int) -> Seq<u8>
    decreases n,
{
    if n <= 0 {
        Seq::empty()
    } else {
        header_cells(n - 1, w) + pad_left(dec_bytes(n - 1), 48, w) + seq![32u8]
    }
}

/// One grid row of the dump: every cell value wrapped in spaces, columns
/// `0 .. j_end` of grid row `i`.
pub open spec fn space_row_cells(s: Seq<Seq<u8>>, i: int, j_end: int) -> Seq<u8>
    decreases j_end,
{
    if j_end <= 0 {
        Seq::empty()
    } else {
        space_row_cells(s, i, j_end - 1) + seq![32u8] + dec_bytes(s[j_end - 1][i] as int)
            + seq![32u8]
    }
}

/// The grid rows `0 .. i_end` of the dump, each led by its zero-padded index
/// and ended by a newline.
pub open spec fn space_rows(s: Seq<Seq<u8>>, i_end: int) -> Seq<u8>
    decreases i_end,
{
    if i_end <= 0 {
        Seq::empty()
    } else {
        space_rows(s, i_end - 1) + pad_left(dec_bytes(i_end - 1), 48, 2) + seq![32u8]
            + space_row_cells(s, i_end - 1, s.len() as int) + seq![10u8]
    }
}

/// The whole grid dump: a column-index header, then one line per grid row.
pub open spec fn render_space(s: Seq<Seq<u8>>) -> Seq<u8> {
    seq![10u8, 32u8, 32u8, 32u8] + header_cells(s.len() as int, 2) + seq![10u8] + space_rows(
        s,
        s[0].len() as int,
    )
}

/// How many of the candidates sit on cell `(x, y)`.
pub open spec fn count_at(c: Seq<DotPos>, x: int, y: int) -> int
    decreases c.len(),
{
    if c.len() == 0 {
        0
    } else {
        count_at(c.drop_last(), x, y) + if c.last().0 == x && c.last().1 == y {
            1int
        } else {
            0int
        }
    }
}

/// One heatmap row: the candidate count of every cell of grid row `i`,
/// space-padded to width three and followed by a space.
pub open spec fn cand_row_cells(c: Seq<DotPos>, i: int, j_end: int) -> Seq<u8>
    decreases j_end,
{
    if j_end <= 0 {
        Seq::empty()
    } else {
        cand_row_cells(c, i, j_end - 1) + pad_left(dec_bytes(count_at(c, j_end - 1, i)), 32, 3)
            + seq![32u8]
    }
}

/// The heatmap rows `0 .. i_end`, each led by its zero-padded index and
/// ended by a newline.
pub open spec fn cand_rows(s: Seq<Seq<u8>>, c: Seq<DotPos>, i_end: int) -> Seq<u8>
    decreases i_end,
{
    if i_end <= 0 {
        Seq::empty()
    } else {
        cand_rows(s, c, i_end - 1) + pad_left(dec_bytes(i_end - 1), 48, 3) + seq![32u8]
            + cand_row_cells(c, i_end - 1, s.len() as int) + seq![10u8]
    }
}

/// The whole heatmap dump: a column-index header, then one line per grid row
/// with the number of candidate votes per cell.
pub open spec fn render_candidates(s: Seq<Seq<u8>>, c: Seq<DotPos>) -> Seq<u8> {
    seq![10u8, 32u8, 32u8, 32u8, 32u8] + header_cells(s.len() as int, 3) + seq![10u8] + cand_rows(
        s,
        c,
        s[0].len() as int,
    )
}

/// Every byte of a decimal rendering is an ASCII digit.
proof fn lemma_dec_bytes_ascii(n: int)
    requires
        n >= 0,
    ensures
        dec_bytes(n).len() >= 1,
        forall|k: int| 0 <= k < dec_bytes(n).len() ==> 48 <= (#[trigger] dec_bytes(n)[k]) <= 57,
    decreases n,
{
    if n >= 10 {
        lemma_dec_bytes_ascii(n / 10);
    }
}

/// Relies on String::from_utf8: bytes below 128 decode to the characters
/// with the same code points, one character per byte.
#[verifier::external_body]
fn ascii_to_string(bytes: Vec<u8>) -> (r: String)
    requires
        forall|i: int| 0 <= i < bytes@.len() ==> bytes@[i] < 128,
    ensures
        r@ == chars_of(bytes@),
{
    String::from_utf8(bytes).unwrap_or_default()
}

/// Appends the decimal digits of `n`.
fn push_dec(out: &mut Vec<u8>, n: usize)
    ensures
        final(out)@ == old(out)@ + dec_bytes(n as int),
    decreases n,
{
    let ghost base = out@;
    if n < 10 {
        out.push(48 + (n as u8));
        proof {
            assert(out@ =~= base + dec_bytes(n as int));
        }
    } else {
        push_dec(out, n / 10);
        out.push(48 + ((n % 10) as u8));
        proof {
            assert(out@ =~= base + dec_bytes(n as int));
        }
    }
}

/// Appends the decimal digits of `n`, left-padded with `pad` to `width`.
fn push_dec_padded(out: &mut Vec<u8>, n: usize, width: usize, pad: u8)
    ensures
        final(out)@ == old(out)@ + pad_left(dec_bytes(n as int), pad, width as int),
{
    let ghost base = out@;
    let mut digits: Vec<u8> = Vec::new();
    push_dec(&mut digits, n);
    proof {
        assert(digits@ =~= dec_bytes(n as int));
    }
    let dlen = digits.len();
    let mut i: usize = dlen;
    while i < width
        invariant
            dlen <= i,
            i <= width || i == dlen,
            digits@ == dec_bytes(n as int),
            dlen == digits@.len(),
            out@ == base + Seq::new((i - dlen) as nat, |k: int| pad),
        decreases width - i,
    {
        out.push(pad);
        proof {
            assert(out@ =~= base + Seq::new((i + 1 - dlen) as nat, |k: int| pad));
        }
        i = i + 1;
    }
    let ghost padded = out@;
    let mut j: usize = 0;
    while j < dlen
        invariant
            j <= dlen,
            dlen == digits@.len(),
            out@ == padded + digits@.take(j as int),
        decreases dlen - j,
    {
        let b = digits[j];
        out.push(b);
        proof {
            assert(out@ =~= padded + digits@.take(j + 1));
        }
        j = j + 1;
    }
    proof {
        assert(digits@.take(dlen as int) =~= digits@);
        assert(out@ =~= base + pad_left(dec_bytes(n as int), pad, width as int));
    }
}

/// Renders a grid dump: a zero-padded column-index header, then one line per
/// grid row with every cell's marker value wrapped in spaces.
pub fn dot_space(space: &DotSpace) -> (r: String)
    requires
        space_wf(space.deep_view()),
    ensures
        r@ == chars_of(render_space(space.deep_view())),
{
    let ghost s = space.deep_view();
    let x_size = space.len();
    let y_size = space[0].len();

    let mut out: Vec<u8> = Vec::new();
    out.push(10);
    out.push(32);
    out.push(32);
    out.push(32);
    let ghost prefix = seq![10u8, 32u8, 32u8, 32u8];
    proof {
        assert(out@ =~= prefix + header_cells(0, 2));
    }

    let mut i: usize = 0;
    while i < x_size
        invariant
            space_wf(s),
            s == space.deep_view(),
            x_size == s.len(),
            y_size == s[0].len(),
            i <= x_size,
            prefix == seq![10u8, 32u8, 32u8, 32u8],
            out@ == prefix + header_cells(i as int, 2),
            forall|k: int| 0 <= k < out@.len() ==> (#[trigger] out@[k]) < 128,
        decreases x_size - i,
    {
        let ghost before = out@;
        push_dec_padded(&mut out, i, 2, 48);
        out.push(32);
        proof {
            lemma_dec_bytes_ascii(i as int);
            assert(out@ =~= prefix + header_cells(i + 1, 2));
        }
        i = i + 1;
    }
    out.push(10);
    let ghost head = out@;
    proof {
        assert(head =~= prefix + header_cells(x_size as int, 2) + seq![10u8]);
        assert(out@ =~= head + space_rows(s, 0));
    }

    let mut row: usize = 0;
    while row < y_size
        invariant
            space_wf(s),
            s == space.deep_view(),
            x_size == s.len(),
            y_size == s[0].len(),
            row <= y_size,
            out@ == head + space_rows(s, row as int),
            forall|k: int| 0 <= k < head.len() ==> (#[trigger] head[k]) < 128,
            forall|k: int| 0 <= k < out@.len() ==> (#[trigger] out@[k]) < 128,
        decreases y_size - row,
    {
        push_dec_padded(&mut out, row, 2, 48);
        out.push(32);
        proof {
            lemma_dec_bytes_ascii(row as int);
        }
        let ghost row_head = out@;
        proof {
            assert(row_head =~= head + space_rows(s, row as int) + pad_left(
                dec_bytes(row as int),
                48,
                2,
            ) + seq![32u8]);
            assert(out@ =~= row_head + space_row_cells(s, row as int, 0));
        }
        let mut j: usize = 0;
        while j < x_size
            invariant
                space_wf(s),
                s == space.deep_view(),
                x_size == s.len(),
                y_size == s[0].len(),
                row < y_size,
                j <= x_size,
                out@ == row_head + space_row_cells(s, row as int, j as int),
                forall|k: int| 0 <= k < row_head.len() ==> (#[trigger] row_head[k]) < 128,
                forall|k: int| 0 <= k < out@.len() ==> (#[trigger] out@[k]) < 128,
            decreases x_size - j,
        {
            out.push(32);
            let v = crate::space::get_cell(space, j, row);
            push_dec(&mut out, v as usize);
            out.push(32);
            proof {
                lemma_dec_bytes_ascii(v as int);
                assert(out@ =~= row_head + space_row_cells(s, row as int, j + 1));
            }
            j = j + 1;
        }
        out.push(10);
        proof {
            assert(out@ =~= head + space_rows(s, row + 1));
        }
        row = row + 1;
    }
    proof {
        assert(out@ == render_space(s));
    }
    ascii_to_string(out)
}

/// Renders a candidate heatmap: a zero-padded column-index header, then one
/// line per grid row with the number of candidate votes on each cell.
pub fn dot_space_candidates(space: &DotSpace, candidates: &Vec<DotPos>) -> (r: String)
    requires
        space_wf(space.deep_view()),
    ensures
        r@ == chars_of(render_candidates(space.deep_view(), candidates@)),
{
    let ghost s = space.deep_view();
    let ghost cs = candidates@;
    let x_size = space.len();
    let y_size = space[0].len();

    let mut out: Vec<u8> = Vec::new();
    out.push(10);
    out.push(32);
    out.push(32);
    out.push(32);
    out.push(32);
    let ghost prefix = seq![10u8, 32u8, 32u8, 32u8, 32u8];
    proof {
        assert(out@ =~= prefix + header_cells(0, 3));
    }

    let mut i: usize = 0;
    while i < x_size
        invariant
            space_wf(s),
            s == space.deep_view(),
            x_size == s.len(),
            y_size == s[0].len(),
            i <= x_size,
            prefix == seq![10u8, 32u8, 32u8, 32u8, 32u8],
            out@ == prefix + header_cells(i as int, 3),
            forall|k: int| 0 <= k < out@.len() ==> (#[trigger] out@[k]) < 128,
        decreases x_size - i,
    {
        push_dec_padded(&mut out, i, 3, 48);
        out.push(32);
        proof {
            lemma_dec_bytes_ascii(i as int);
            assert(out@ =~= prefix + header_cells(i + 1, 3));
        }
        i = i + 1;
    }
    out.push(10);
    let ghost head = out@;
    proof {
        assert(head =~= prefix + header_cells(x_size as int, 3) + seq![10u8]);
        assert(out@ =~= head + cand_rows(s, cs, 0));
    }

    let mut row: usize = 0;
    while row < y_size
        invariant
            space_wf(s),
            s == space.deep_view(),
            cs == candidates@,
            x_size == s.len(),
            y_size == s[0].len(),
            row <= y_size,
            out@ == head + cand_rows(s, cs, row as int),
            forall|k: int| 0 <= k < head.len() ==> (#[trigger] head[k]) < 128,
            forall|k: int| 0 <= k < out@.len() ==> (#[trigger] out@[k]) < 128,
        decreases y_size - row,
    {
        push_dec_padded(&mut out, row, 3, 48);
        out.push(32);
        proof {
            lemma_dec_bytes_ascii(row as int);
        }
        let ghost row_head = out@;
        proof {
            assert(row_head =~= head + cand_rows(s, cs, row as int) + pad_left(
                dec_bytes(row as int),
                48,
                3,
            ) + seq![32u8]);
            assert(out@ =~= row_head + cand_row_cells(cs, row as int, 0));
        }
        let mut j: usize = 0;
        while j < x_size
            invariant
                space_wf(s),
                s == space.deep_view(),
                cs == candidates@,
                x_size == s.len(),
                y_size == s[0].len(),
                row < y_size,
                j <= x_size,
                out@ == row_head + cand_row_cells(cs, row as int, j as int),
                forall|k: int| 0 <= k < row_head.len() ==> (#[trigger] row_head[k]) < 128,
                forall|k: int| 0 <= k < out@.len() ==> (#[trigger] out@[k]) < 128,
            decreases x_size - j,
        {
            let mut amount: usize = 0;
            let mut c: usize = 0;
            proof {
                assert(cs.take(0) =~= Seq::<DotPos>::empty());
            }
            while c < candidates.len()
                invariant
                    cs == candidates@,
                    c <= cs.len(),
                    j < x_size,
                    row < y_size,
                    amount == count_at(cs.take(c as int), j as int, row as int),
                    amount <= c,
                decreases cs.len() - c,
            {
                let cand = candidates[c];
                if cand.0 == j && cand.1 == row {
                    amount = amount + 1;
                }
                proof {
                    assert(cs.take(c + 1).drop_last() =~= cs.take(c as int));
                    assert(cs.take(c + 1).last() == cs[c as int]);
                }
                c = c + 1;
            }
            proof {
                assert(cs.take(cs.len() as int) =~= cs);
            }
            push_dec_padded(&mut out, amount, 3, 32);
            out.push(32);
            proof {
                lemma_dec_bytes_ascii(amount as int);
                assert(out@ =~= row_head + cand_row_cells(cs, row as int, j + 1));
            }
            j = j + 1;
        }
        out.push(10);
        proof {
            assert(out@ =~= head + cand_rows(s, cs, row + 1));
        }
        row = row + 1;
    }
    proof {
        assert(out@ == render_candidates(s, cs));
    }
    ascii_to_string(out)
}

} // verus!
