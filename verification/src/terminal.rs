//! Column formatting for listing output: items padded to a common width
//! and laid out in as many columns as the terminal width allows.

use vstd::prelude::*;
use vstd::string::StrSliceExecFns;
use crate::strutil::concat2;
use crate::strutil::concat3;
use crate::strutil::repeat_piece;
use crate::strutil::repeat_seq;
use crate::strutil::strs_view;
use crate::strutil::trim_spec;
use crate::strutil::trim_str;

verus! {

/// A terminal that formats strings in columns.
#[derive(Debug)]
pub struct Terminal {
    /// The width of the terminal, in characters.
    pub width: usize,
    /// What stands between two columns.
    pub padding: String,
}

/// Relies on terminal_size::terminal_size: the attached terminal's
/// dimensions, if any. The environment decides the outcome.
#[verifier::external_body]
fn query_terminal_size() -> Option<(u16, u16)> {
    terminal_size::terminal_size().map(|(w, h)| (w.0, h.0))
}

/// The longest length among the items.
pub open spec fn max_len_spec(items: Seq<Seq<char>>) -> nat
    decreases items.len(),
{
    if items.len() == 0 {
        0
    } else if items.last().len() > max_len_spec(items.drop_last()) {
        items.last().len()
    } else {
        max_len_spec(items.drop_last())
    }
}

/// How many columns fit: one more padding-plus-item than the width holds,
/// but never none.
pub open spec fn columns_spec(width: nat, max_len: nat, pad_len: nat) -> nat {
    let q = ((width + 1) as int / (max_len + pad_len) as int) as nat;
    if q == 0 {
        1
    } else {
        q
    }
}

/// The item padded with spaces to the common width.
pub open spec fn pad_to_spec(s: Seq<char>, m: nat) -> Seq<char> {
    s + repeat_seq(" "@, (m - s.len()) as nat)
}

/// Every item padded with spaces to the common width.
pub open spec fn pad_all(items: Seq<Seq<char>>, m: nat) -> Seq<Seq<char>> {
    Seq::new(items.len(), |i: int| pad_to_spec(items[i], m))
}

/// A row's text: its cells in order with the padding between them.
pub open spec fn join_row(cells: Seq<Seq<char>>, pad: Seq<char>) -> Seq<char>
    decreases cells.len(),
{
    if cells.len() == 0 {
        Seq::empty()
    } else if cells.len() == 1 {
        cells[0]
    } else {
        join_row(cells.drop_last(), pad) + pad + cells.last()
    }
}

/// The formatted lines: the cells taken `ncols` at a time, each row joined
/// with the padding and trimmed.
pub open spec fn rows_spec(cells: Seq<Seq<char>>, pad: Seq<char>, ncols: nat) -> Seq<Seq<char>>
    decreases cells.len(),
{
    if cells.len() == 0 || ncols == 0 {
        Seq::empty()
    } else {
        let k = if cells.len() < ncols {
            cells.len() as int
        } else {
            ncols as int
        };
        seq![trim_spec(join_row(cells.take(k), pad))] + rows_spec(cells.skip(k), pad, ncols)
    }
}

/// Pads every item with spaces to the given common length.
pub fn padding_list(list: Vec<String>, max_length: usize) -> (r: Vec<String>)
    requires
        forall|i: int| 0 <= i < list@.len() ==> (#[trigger] list@[i]@).len() <= max_length,
    ensures
        strs_view(r@) == pad_all(strs_view(list@), max_length as nat),
{
    proof {
        reveal_strlit(" ");
        assert(" "@.len() == 1);
    }
    let mut result: Vec<String> = Vec::new();
    let n = list.len();
    let mut i: usize = 0;
    while i < n
        invariant
            n == list@.len(),
            i <= n,
            forall|k: int| 0 <= k < n ==> (#[trigger] list@[k]@).len() <= max_length,
            strs_view(result@) == pad_all(strs_view(list@), max_length as nat).take(i as int),
        decreases n - i,
    {
        let len = list[i].unicode_len();
        proof {
            reveal_strlit(" ");
            assert(" "@.len() * ((max_length - len) as int) == (max_length - len) as int)
                by (nonlinear_arith)
                requires
                    " "@.len() == 1,
            ;
        }
        let fill = repeat_piece(" ", max_length - len);
        let padded = concat2(list[i].as_str(), fill.as_str());
        let ghost before = result@;
        result.push(padded);
        proof {
            assert(result@ == before.push(result@[before.len() as int]));
            assert(strs_view(before).len() == before.len());
            assert(before.len() == i as int);
            assert forall|j: int| 0 <= j < i + 1 implies strs_view(result@)[j] == pad_all(
                strs_view(list@),
                max_length as nat,
            ).take(i + 1)[j] by {
                if j < i {
                    assert(strs_view(before)[j] == pad_all(
                        strs_view(list@),
                        max_length as nat,
                    ).take(i as int)[j]);
                    assert(result@[j] == before[j]);
                }
            }
            assert(strs_view(result@) =~= pad_all(strs_view(list@), max_length as nat).take(
                i + 1,
            ));
        }
        i = i + 1;
    }
    proof {
        assert(pad_all(strs_view(list@), max_length as nat).take(n as int) =~= pad_all(
            strs_view(list@),
            max_length as nat,
        ));
    }
    result
}

impl Terminal {
    /// A terminal of the attached terminal's width — eighty columns when
    /// none is attached — with the given padding between columns.
    pub fn new(padding: &str) -> (r: Self)
        ensures
            r.padding@ == padding@,
    {
        match query_terminal_size() {
            Some((w, _h)) => Self::new_with(w as usize, padding),
            None => Self::new_with(80, padding),
        }
    }

    /// A terminal of the given width with the given padding between
    /// columns.
    pub fn new_with(width: usize, padding: &str) -> (r: Self)
        ensures
            r.width == width,
            r.padding@ == padding@,
    {
        Terminal { width, padding: padding.to_owned() }
    }

    /// The longest item length, and how many columns of that width — with
    /// the padding between them — fit in this terminal; at least one.
    pub fn get_max_length_and_number_of_columns(&self, list: &Vec<String>) -> (r: (usize, usize))
        requires
            self.width < usize::MAX,
            self.padding@.len() + max_len_spec(strs_view(list@)) > 0,
            max_len_spec(strs_view(list@)) + self.padding@.len() <= usize::MAX,
        ensures
            r.0 == max_len_spec(strs_view(list@)),
            r.1 == columns_spec(self.width as nat, r.0 as nat, self.padding@.len()),
            r.1 >= 1,
    {
        let mut max_length: usize = 0;
        let n = list.len();
        let mut i: usize = 0;
        while i < n
            invariant
                n == list@.len(),
                i <= n,
                max_length == max_len_spec(strs_view(list@).take(i as int)),
            decreases n - i,
        {
            proof {
                assert(strs_view(list@).take(i + 1).drop_last() =~= strs_view(list@).take(
                    i as int,
                ));
                assert(strs_view(list@).take(i + 1).last() == list@[i as int]@);
            }
            let len = list[i].unicode_len();
            if len > max_length {
                max_length = len;
            }
            i = i + 1;
        }
        proof {
            assert(strs_view(list@).take(n as int) =~= strs_view(list@));
        }
        let pad_len = self.padding.unicode_len();
        let number_of_columns = (self.width + 1) / (max_length + pad_len);
        if number_of_columns == 0 {
            (max_length, 1)
        } else {
            (max_length, number_of_columns)
        }
    }

    /// A header line: the header centered between runs of `=` that fill
    /// the terminal's width.
    pub fn format_header(&self, header: String) -> (r: String)
        requires
            header@.len() + 2 <= self.width,
        ensures
            r@ == repeat_seq("="@, ((self.width - header@.len() - 2) as nat / 2)) + " "@
                + header@ + " "@ + repeat_seq(
                "="@,
                (((self.width - header@.len() - 2) as nat - (self.width - header@.len()
                    - 2) as nat / 2) as nat),
            ),
    {
        proof {
            reveal_strlit("=");
            reveal_strlit(" ");
        }
        let deco_len = self.width - header.unicode_len() - 2;
        let deco_prefix = repeat_piece("=", deco_len / 2);
        let deco_suffix = repeat_piece("=", deco_len - deco_len / 2);
        let a = concat3(deco_prefix.as_str(), " ", header.as_str());
        let r = concat3(a.as_str(), " ", deco_suffix.as_str());
        proof {
            assert(r@ =~= deco_prefix@ + " "@ + header@ + " "@ + deco_suffix@);
        }
        r
    }

    /// Lays the items out in columns: each padded to the longest length,
    /// taken `ncols` at a time, joined with the padding, and each line
    /// trimmed.
    pub fn format_in_column(&self, items: Vec<String>) -> (r: Vec<String>)
        requires
            self.width < usize::MAX,
            self.padding@.len() + max_len_spec(strs_view(items@)) > 0,
            max_len_spec(strs_view(items@)) + self.padding@.len() <= usize::MAX,
        ensures
            strs_view(r@) == rows_spec(
                pad_all(strs_view(items@), max_len_spec(strs_view(items@))),
                self.padding@,
                columns_spec(
                    self.width as nat,
                    max_len_spec(strs_view(items@)),
                    self.padding@.len(),
                ),
            ),
    {
        let (max_length, number_of_columns) = self.get_max_length_and_number_of_columns(&items);
        proof {
            lemma_max_len_bounds(strs_view(items@));
            assert forall|i: int| 0 <= i < items@.len() implies (#[trigger] items@[i]@).len()
                <= max_length by {
                assert(strs_view(items@)[i] == items@[i]@);
            }
        }
        let targets = padding_list(items, max_length);
        let ghost cells = strs_view(targets@);
        let ghost pad = self.padding@;
        let ghost nc = number_of_columns as nat;
        let mut result: Vec<String> = Vec::new();
        let n = targets.len();
        let mut i: usize = 0;
        proof {
            assert(cells.skip(0) =~= cells);
        }
        while i < n
            invariant
                n == targets@.len(),
                cells == strs_view(targets@),
                pad == self.padding@,
                nc == number_of_columns as nat,
                nc >= 1,
                i <= n,
                rows_spec(cells, pad, nc) == strs_view(result@) + rows_spec(
                    cells.skip(i as int),
                    pad,
                    nc,
                ),
            decreases n - i,
        {
            let row_len = if n - i < number_of_columns {
                n - i
            } else {
                number_of_columns
            };
            let ghost seg = cells.skip(i as int).take(row_len as int);
            let mut line: String = targets[i].clone();
            proof {
                assert(seg.take(1) =~= seq![cells[i as int]]);
                assert(line@ == join_row(seg.take(1), pad));
            }
            let mut c: usize = 1;
            while c < row_len
                invariant
                    1 <= c <= row_len,
                    row_len <= n - i,
                    n == targets@.len(),
                    cells == strs_view(targets@),
                    pad == self.padding@,
                    seg == cells.skip(i as int).take(row_len as int),
                    line@ == join_row(seg.take(c as int), pad),
                decreases row_len - c,
            {
                line.append(self.padding.as_str());
                line.append(targets[i + c].as_str());
                proof {
                    assert(seg.take(c + 1).drop_last() =~= seg.take(c as int));
                    assert(seg.take(c + 1).last() == cells[i + c]);
                    assert(line@ == join_row(seg.take(c + 1), pad));
                }
                c = c + 1;
            }
            let trimmed = trim_str(line.as_str()).to_owned();
            let ghost before = result@;
            result.push(trimmed);
            proof {
                assert(seg.take(row_len as int) =~= seg);
                assert(result@ == before.push(result@[before.len() as int]));
                assert(strs_view(before).len() == before.len());
                assert forall|j: int| 0 <= j < result@.len() implies strs_view(result@)[j] == (
                strs_view(before) + seq![trim_spec(join_row(seg, pad))])[j] by {
                    if j < before.len() {
                        assert(result@[j] == before[j]);
                    }
                }
                assert(strs_view(result@) =~= strs_view(before) + seq![
                    trim_spec(join_row(seg, pad)),
                ]);
                let rest = cells.skip(i as int);
                assert(rest.len() == n - i);
                assert(rows_spec(rest, pad, nc) == seq![trim_spec(join_row(seg, pad))]
                    + rows_spec(rest.skip(row_len as int), pad, nc)) by {
                    assert(rest.take(row_len as int) =~= seg);
                }
                assert(rest.skip(row_len as int) =~= cells.skip(i + row_len));
                assert(strs_view(before) + (seq![trim_spec(join_row(seg, pad))] + rows_spec(
                    cells.skip(i + row_len),
                    pad,
                    nc,
                )) =~= (strs_view(before) + seq![trim_spec(join_row(seg, pad))]) + rows_spec(
                    cells.skip(i + row_len),
                    pad,
                    nc,
                ));
            }
            i = i + row_len;
        }
        proof {
            assert(cells.skip(n as int) =~= Seq::<Seq<char>>::empty());
            assert(strs_view(result@) + Seq::<Seq<char>>::empty() =~= strs_view(result@));
        }
        result
    }
}

/// Every item is at most the longest length.
proof fn lemma_max_len_bounds(items: Seq<Seq<char>>)
    ensures
        forall|i: int| 0 <= i < items.len() ==> (#[trigger] items[i]).len() <= max_len_spec(items),
    decreases items.len(),
{
    if items.len() > 0 {
        lemma_max_len_bounds(items.drop_last());
        assert forall|i: int| 0 <= i < items.len() implies (#[trigger] items[i]).len()
            <= max_len_spec(items) by {
            if i < items.len() - 1 {
                assert(items.drop_last()[i] == items[i]);
            }
        }
    }
}

} // verus!
