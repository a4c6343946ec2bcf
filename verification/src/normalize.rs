//! Normalizing raw input into a rectangular grid: header resolution,
//! missing-value filling, and index-column injection.

use vstd::prelude::*;

use crate::chars::{dec_digits, usize_to_string};
use crate::options::{Headers, MissingValues, ShowIndex};

verus! {

/// The placeholder text for a missing cell in column `col`: a per-column
/// list is extended by repeating its last entry.
pub open spec fn missing_for(mv: &MissingValues, col: int) -> Seq<char> {
    match mv {
        MissingValues::Single(s) => s@,
        MissingValues::PerColumn(v) => {
            let dv = v.deep_view();
            if dv.len() == 0 {
                Seq::empty()
            } else if 0 <= col < dv.len() {
                dv[col]
            } else {
                dv[dv.len() - 1]
            }
        },
    }
}

/// The placeholder for column `col`.
pub fn missing_value_for(mv: &MissingValues, col: usize) -> (r: String)
    ensures
        r@ == missing_for(mv, col as int),
{
    match mv {
        MissingValues::Single(s) => String::from_str(s.as_str()),
        MissingValues::PerColumn(v) => {
            if v.len() == 0 {
                String::new()
            } else if col < v.len() {
                let r = String::from_str(v[col].as_str());
                proof {
                    assert(v[col as int]@ == v.deep_view()[col as int]);
                }
                r
            } else {
                let r = String::from_str(v[v.len() - 1].as_str());
                proof {
                    assert(v[v.len() - 1]@ == v.deep_view()[v.deep_view().len() - 1]);
                }
                r
            }
        },
    }
}

/// The column count: the largest row length, but at least the header length.
pub open spec fn column_count(d: Seq<Seq<Seq<char>>>, hlen: nat) -> nat
    decreases d.len(),
{
    if d.len() == 0 {
        hlen
    } else {
        let rest = column_count(d.drop_first(), hlen);
        if d[0].len() > rest {
            d[0].len()
        } else {
            rest
        }
    }
}

pub proof fn lemma_column_count_bounds(d: Seq<Seq<Seq<char>>>, hlen: nat)
    ensures
        column_count(d, hlen) >= hlen,
        forall|r: int| 0 <= r < d.len() ==> (#[trigger] d[r]).len() <= column_count(d, hlen),
    decreases d.len(),
{
    if d.len() > 0 {
        lemma_column_count_bounds(d.drop_first(), hlen);
        assert forall|r: int|
            0 <= r < d.len() implies (#[trigger] d[r]).len() <= column_count(d, hlen) by {
            if r > 0 {
                assert(d[r] == d.drop_first()[r - 1]);
            }
        }
    }
}

pub proof fn lemma_column_count_push(d: Seq<Seq<Seq<char>>>, hlen: nat, row: Seq<Seq<char>>)
    ensures
        column_count(d.push(row), hlen) == if row.len() > column_count(d, hlen) {
            row.len()
        } else {
            column_count(d, hlen)
        },
    decreases d.len(),
{
    if d.len() == 0 {
        assert(d.push(row).drop_first() =~= Seq::<Seq<Seq<char>>>::empty());
        assert(d.push(row)[0] == row);
        assert(column_count(Seq::<Seq<Seq<char>>>::empty(), hlen) == hlen);
        assert(column_count(d, hlen) == hlen);
        assert(column_count(d.push(row), hlen) == if row.len() > hlen {
            row.len()
        } else {
            hlen
        });
    } else {
        assert(d.push(row).drop_first() =~= d.drop_first().push(row));
        lemma_column_count_push(d.drop_first(), hlen, row);
        assert(d.push(row)[0] == d[0]);
        assert(column_count(d.push(row), hlen) == {
            let rest = column_count(d.drop_first().push(row), hlen);
            if d[0].len() > rest {
                d[0].len()
            } else {
                rest
            }
        });
        assert(column_count(d, hlen) == {
            let rest = column_count(d.drop_first(), hlen);
            if d[0].len() > rest {
                d[0].len()
            } else {
                rest
            }
        });
    }
}

/// The header labels a header mode resolves to, given the first data row.
pub open spec fn resolved_header(headers: &Headers, rows: Seq<Seq<Seq<char>>>) -> Seq<Seq<char>> {
    match headers {
        Headers::Absent => Seq::empty(),
        Headers::Keys => Seq::empty(),
        Headers::FirstRow => if rows.len() > 0 {
            rows[0]
        } else {
            Seq::empty()
        },
        Headers::Explicit(h) => h.deep_view(),
        Headers::Mapping(pairs) => Seq::new(pairs.deep_view().len(), |i: int| pairs.deep_view()[i].1),
    }
}

/// The data rows left after header resolution.
pub open spec fn resolved_data(headers: &Headers, rows: Seq<Seq<Seq<char>>>) -> Seq<Seq<Seq<char>>> {
    match headers {
        Headers::FirstRow => if rows.len() > 0 {
            rows.drop_first()
        } else {
            rows
        },
        _ => rows,
    }
}

/// One row padded on the right to the column count with the placeholders of
/// the missing columns.
pub open spec fn padded_row_spec(row: Seq<Seq<char>>, ncols: nat, mv: &MissingValues) -> Seq<
    Seq<char>,
> {
    Seq::new(
        ncols,
        |c: int|
            if c < row.len() {
                row[c]
            } else {
                missing_for(mv, c)
            },
    )
}

/// The whole grid padded to the column count.
pub open spec fn padded_grid_spec(d: Seq<Seq<Seq<char>>>, ncols: nat, mv: &MissingValues) -> Seq<
    Seq<Seq<char>>,
> {
    Seq::new(d.len() as nat, |r: int| padded_row_spec(d[r], ncols, mv))
}

/// A non-empty header padded on the right with empty labels to the column
/// count.
pub open spec fn padded_header_spec(h: Seq<Seq<char>>, ncols: nat) -> Seq<Seq<char>> {
    if h.len() == 0 {
        h
    } else {
        Seq::new(
            ncols,
            |c: int|
                if c < h.len() {
                    h[c]
                } else {
                    Seq::<char>::empty()
                },
        )
    }
}

/// The grid with an index column in front, when the index mode injects one.
pub open spec fn indexed_grid_spec(g: Seq<Seq<Seq<char>>>, si: &ShowIndex) -> Seq<Seq<Seq<char>>> {
    if index_label(si, 0) is Some {
        Seq::new(g.len() as nat, |r: int| seq![index_label(si, r)->Some_0] + g[r])
    } else {
        g
    }
}

/// The header with an empty label in front, when the index mode injects a
/// column and a header is present.
pub open spec fn indexed_header_spec(h: Seq<Seq<char>>, si: &ShowIndex) -> Seq<Seq<char>> {
    if index_label(si, 0) is Some && h.len() > 0 {
        seq![Seq::<char>::empty()] + h
    } else {
        h
    }
}

/// Resolve the header row: the first-row mode consumes the first data row,
/// explicit and mapping modes carry their own labels.
pub fn resolve_header(rows: Vec<Vec<String>>, headers: &Headers) -> (r: (Vec<String>, Vec<
    Vec<String>,
>))
    ensures
        r.0.deep_view() == resolved_header(headers, rows.deep_view()),
        r.1.deep_view() == resolved_data(headers, rows.deep_view()),
{
    match headers {
        Headers::Absent | Headers::Keys => {
            let header: Vec<String> = Vec::new();
            proof {
                assert(header.deep_view() =~= Seq::<Seq<char>>::empty());
            }
            (header, rows)
        },
        Headers::FirstRow => {
            if rows.len() == 0 {
                let header: Vec<String> = Vec::new();
                proof {
                    assert(header.deep_view() =~= Seq::<Seq<char>>::empty());
                }
                (header, rows)
            } else {
                let mut data: Vec<Vec<String>> = Vec::new();
                let mut header: Vec<String> = Vec::new();
                let mut i: usize = 0;
                let ghost rv = rows.deep_view();
                while i < rows.len()
                    invariant
                        i <= rows.len(),
                        rows.deep_view() == rv,
                        rv.len() > 0,
                        i > 0 ==> header.deep_view() =~= rv[0],
                        i == 0 ==> header.deep_view() =~= Seq::<Seq<char>>::empty(),
                        data.deep_view() =~= rv.subrange(if i > 0 {
                            1int
                        } else {
                            0int
                        }, i as int),
                    decreases rows.len() - i,
                {
                    let mut copy: Vec<String> = Vec::new();
                    let mut j: usize = 0;
                    while j < rows[i].len()
                        invariant
                            j <= rows[i as int].len(),
                            i < rows.len(),
                            rows.deep_view() == rv,
                            copy.deep_view() =~= rows[i as int].deep_view().take(j as int),
                        decreases rows[i as int].len() - j,
                    {
                        let ghost dv_old = copy.deep_view();
                        let cell = String::from_str(rows[i][j].as_str());
                        proof {
                            assert(cell@ == rows[i as int].deep_view()[j as int]);
                        }
                        copy.push(cell);
                        proof {
                            assert(copy.deep_view() =~= dv_old.push(
                                rows[i as int].deep_view()[j as int],
                            ));
                            assert(rows[i as int].deep_view().take(j + 1)
                                =~= rows[i as int].deep_view().take(j as int).push(
                                rows[i as int].deep_view()[j as int],
                            ));
                        }
                        j = j + 1;
                    }
                    proof {
                        assert(copy.deep_view() =~= rows[i as int].deep_view());
                        assert(rows[i as int].deep_view() == rv[i as int]);
                    }
                    if i == 0 {
                        header = copy;
                        proof {
                            assert(header.deep_view() =~= rv[0]);
                        }
                    } else {
                        let ghost dv_old = data.deep_view();
                        data.push(copy);
                        proof {
                            assert(data.deep_view() =~= dv_old.push(rv[i as int]));
                            assert(rv.subrange(1, i + 1) =~= rv.subrange(1, i as int).push(
                                rv[i as int],
                            ));
                        }
                    }
                    i = i + 1;
                }
                proof {
                    assert(data.deep_view() =~= rv.subrange(1, rv.len() as int));
                    assert(rv.drop_first() =~= rv.subrange(1, rv.len() as int));
                }
                (header, data)
            }
        },
        Headers::Explicit(h) => {
            let mut header: Vec<String> = Vec::new();
            let mut i: usize = 0;
            while i < h.len()
                invariant
                    i <= h.len(),
                    header.deep_view() =~= h.deep_view().take(i as int),
                decreases h.len() - i,
            {
                let ghost dv_old = header.deep_view();
                let cell = String::from_str(h[i].as_str());
                proof {
                    assert(cell@ == h.deep_view()[i as int]);
                }
                header.push(cell);
                proof {
                    assert(header.deep_view() =~= dv_old.push(h.deep_view()[i as int]));
                    assert(h.deep_view().take(i + 1) =~= h.deep_view().take(i as int).push(
                        h.deep_view()[i as int],
                    ));
                }
                i = i + 1;
            }
            proof {
                assert(header.deep_view() =~= h.deep_view());
            }
            (header, rows)
        },
        Headers::Mapping(pairs) => {
            let ghost target = Seq::new(
                pairs.deep_view().len(),
                |i: int| pairs.deep_view()[i].1,
            );
            let mut header: Vec<String> = Vec::new();
            let mut i: usize = 0;
            while i < pairs.len()
                invariant
                    i <= pairs.len(),
                    header.deep_view() =~= target.take(i as int),
                    target == Seq::new(pairs.deep_view().len(), |k: int| pairs.deep_view()[k].1),
                decreases pairs.len() - i,
            {
                let ghost dv_old = header.deep_view();
                let cell = String::from_str(pairs[i].1.as_str());
                proof {
                    assert(pairs[i as int].deep_view() == pairs.deep_view()[i as int]);
                    assert(cell@ == target[i as int]);
                }
                header.push(cell);
                proof {
                    assert(header.deep_view() =~= dv_old.push(target[i as int]));
                    assert(target.take(i + 1) =~= target.take(i as int).push(target[i as int]));
                }
                i = i + 1;
            }
            proof {
                assert(header.deep_view() =~= target);
            }
            (header, rows)
        },
    }
}

/// Pad every row on the right to the column count with the missing-value
/// placeholder of its column.
pub fn pad_rows(data: Vec<Vec<String>>, header_len: usize, mv: &MissingValues) -> (r: (Vec<
    Vec<String>,
>, usize))
    ensures
        r.1 as nat == column_count(data.deep_view(), header_len as nat),
        r.0.deep_view().len() == data.deep_view().len(),
        forall|i: int| 0 <= i < r.0.deep_view().len() ==> (#[trigger] r.0.deep_view()[i]).len()
            == r.1 as nat,
        forall|i: int, c: int|
            0 <= i < data.deep_view().len() && 0 <= c < data.deep_view()[i].len()
                ==> r.0.deep_view()[i][c] == data.deep_view()[i][c],
        forall|i: int, c: int|
            0 <= i < data.deep_view().len() && data.deep_view()[i].len() <= c < r.1 as nat
                ==> r.0.deep_view()[i][c] == missing_for(mv, c),
        (forall|i: int|
            0 <= i < data.deep_view().len() ==> (#[trigger] data.deep_view()[i]).len()
                == r.1 as nat) ==> r.0.deep_view() =~~= data.deep_view(),
        r.0.deep_view() == padded_grid_spec(data.deep_view(), r.1 as nat, mv),
{
    let ghost dv = data.deep_view();
    let mut ncols: usize = header_len;
    let mut i: usize = 0;
    while i < data.len()
        invariant
            i <= data.len(),
            data.deep_view() == dv,
            ncols as nat == column_count(dv.take(i as int), header_len as nat),
        decreases data.len() - i,
    {
        let l = data[i].len();
        proof {
            assert(data[i as int].deep_view() == dv[i as int]);
            assert(l as nat == dv[i as int].len());
            lemma_column_count_push(dv.take(i as int), header_len as nat, dv[i as int]);
            assert(dv.take(i + 1) =~= dv.take(i as int).push(dv[i as int]));
        }
        if l > ncols {
            ncols = l;
        }
        i = i + 1;
    }
    proof {
        assert(dv.take(data.len() as int) =~= dv);
    }
    let mut grid: Vec<Vec<String>> = Vec::new();
    let mut r: usize = 0;
    while r < data.len()
        invariant
            r <= data.len(),
            data.deep_view() == dv,
            ncols as nat == column_count(dv, header_len as nat),
            grid.deep_view().len() == r,
            forall|i: int| 0 <= i < r ==> (#[trigger] grid.deep_view()[i]).len() == ncols as nat,
            forall|i: int, c: int|
                0 <= i < r && 0 <= c < dv[i].len() ==> grid.deep_view()[i][c] == dv[i][c],
            forall|i: int, c: int|
                0 <= i < r && dv[i].len() <= c < ncols as nat ==> grid.deep_view()[i][c]
                    == missing_for(mv, c),
        decreases data.len() - r,
    {
        proof {
            lemma_column_count_bounds(dv, header_len as nat);
        }
        let mut row: Vec<String> = Vec::new();
        let rlen = data[r].len();
        let mut c: usize = 0;
        while c < rlen
            invariant
                c <= rlen,
                r < data.len(),
                data.deep_view() == dv,
                rlen as nat == dv[r as int].len(),
                row.deep_view() =~= dv[r as int].take(c as int),
            decreases rlen - c,
        {
            let ghost dv_old = row.deep_view();
            let cell = String::from_str(data[r][c].as_str());
            proof {
                assert(data[r as int].deep_view() == dv[r as int]);
                assert(cell@ == dv[r as int][c as int]);
            }
            row.push(cell);
            proof {
                assert(row.deep_view() =~= dv_old.push(dv[r as int][c as int]));
                assert(dv[r as int].take(c + 1) =~= dv[r as int].take(c as int).push(
                    dv[r as int][c as int],
                ));
            }
            c = c + 1;
        }
        proof {
            assert(dv[r as int].take(rlen as int) =~= dv[r as int]);
        }
        let mut c2: usize = rlen;
        while c2 < ncols
            invariant
                rlen <= c2 <= ncols || (rlen >= ncols && c2 == rlen),
                r < data.len(),
                data.deep_view() == dv,
                rlen as nat == dv[r as int].len(),
                row.deep_view().len() == c2,
                forall|k: int| 0 <= k < rlen ==> row.deep_view()[k] == dv[r as int][k],
                forall|k: int|
                    rlen <= k < c2 ==> row.deep_view()[k] == missing_for(mv, k),
            decreases ncols - c2,
        {
            let ghost dv_old = row.deep_view();
            let filler = missing_value_for(mv, c2);
            row.push(filler);
            proof {
                assert(row.deep_view() =~= dv_old.push(missing_for(mv, c2 as int)));
            }
            c2 = c2 + 1;
        }
        let ghost gv_old = grid.deep_view();
        grid.push(row);
        proof {
            assert(grid.deep_view() =~= gv_old.push(grid.deep_view().last()));
        }
        r = r + 1;
    }
    proof {
        if forall|i: int| 0 <= i < dv.len() ==> (#[trigger] dv[i]).len() == ncols as nat {
            assert forall|i: int|
                0 <= i < dv.len() implies grid.deep_view()[i] =~= dv[i] by {
                assert(dv[i].len() == ncols as nat);
            }
            assert(grid.deep_view() =~~= dv);
        }
        assert forall|i: int|
            0 <= i < dv.len() implies grid.deep_view()[i] =~= padded_row_spec(
            dv[i],
            ncols as nat,
            mv,
        ) by {}
        assert(grid.deep_view() =~= padded_grid_spec(dv, ncols as nat, mv));
    }
    (grid, ncols)
}

/// The index label of data row `r`, when an index column is injected.
pub open spec fn index_label(si: &ShowIndex, r: int) -> Option<Seq<char>> {
    match si {
        ShowIndex::Always => Some(dec_digits(r as nat)),
        ShowIndex::Values(v) => {
            let dv = v.deep_view();
            if 0 <= r < dv.len() {
                Some(dv[r])
            } else {
                Some(Seq::empty())
            }
        },
        ShowIndex::Never => None,
        ShowIndex::Auto => None,
    }
}

/// Prepend the index column to the grid and, when a header is present, an
/// empty label to the header.
pub fn apply_index(header: Vec<String>, grid: Vec<Vec<String>>, si: &ShowIndex) -> (r: (Vec<
    String,
>, Vec<Vec<String>>))
    ensures
        index_label(si, 0) is None ==> r.0.deep_view() == header.deep_view()
            && r.1.deep_view() == grid.deep_view(),
        index_label(si, 0) is Some ==> {
            &&& r.1.deep_view().len() == grid.deep_view().len()
            &&& forall|i: int|
                0 <= i < grid.deep_view().len() ==> (#[trigger] r.1.deep_view()[i])
                    =~= seq![index_label(si, i)->Some_0] + grid.deep_view()[i]
            &&& header.deep_view().len() == 0 ==> r.0.deep_view() == header.deep_view()
            &&& header.deep_view().len() > 0 ==> r.0.deep_view() =~= seq![Seq::<char>::empty()]
                + header.deep_view()
        },
        r.0.deep_view() == indexed_header_spec(header.deep_view(), si),
        r.1.deep_view() == indexed_grid_spec(grid.deep_view(), si),
{
    let inject = match si {
        ShowIndex::Always => true,
        ShowIndex::Values(_) => true,
        ShowIndex::Never => false,
        ShowIndex::Auto => false,
    };
    if !inject {
        proof {
            assert(index_label(si, 0) is None);
        }
        return (header, grid);
    }
    let mut new_grid: Vec<Vec<String>> = Vec::new();
    let ghost gv = grid.deep_view();
    let mut i: usize = 0;
    while i < grid.len()
        invariant
            i <= grid.len(),
            grid.deep_view() == gv,
            index_label(si, 0) is Some,
            new_grid.deep_view().len() == i,
            forall|k: int|
                0 <= k < i ==> (#[trigger] new_grid.deep_view()[k]) =~= seq![
                    index_label(si, k)->Some_0,
                ] + gv[k],
        decreases grid.len() - i,
    {
        let label: String = match si {
            ShowIndex::Always => usize_to_string(i),
            ShowIndex::Values(v) => {
                if i < v.len() {
                    let s = String::from_str(v[i].as_str());
                    proof {
                        assert(v[i as int]@ == v.deep_view()[i as int]);
                    }
                    s
                } else {
                    String::new()
                }
            },
            ShowIndex::Never => String::new(),
            ShowIndex::Auto => String::new(),
        };
        proof {
            assert(label@ == index_label(si, i as int)->Some_0);
        }
        let mut row: Vec<String> = Vec::new();
        row.push(label);
        let mut c: usize = 0;
        while c < grid[i].len()
            invariant
                c <= grid[i as int].len(),
                i < grid.len(),
                grid.deep_view() == gv,
                row.deep_view() =~= seq![index_label(si, i as int)->Some_0] + gv[i as int].take(
                    c as int,
                ),
                index_label(si, 0) is Some,
            decreases grid[i as int].len() - c,
        {
            let ghost dv_old = row.deep_view();
            let cell = String::from_str(grid[i][c].as_str());
            proof {
                assert(grid[i as int].deep_view() == gv[i as int]);
                assert(cell@ == gv[i as int][c as int]);
            }
            row.push(cell);
            proof {
                assert(row.deep_view() =~= dv_old.push(gv[i as int][c as int]));
                assert(seq![index_label(si, i as int)->Some_0] + gv[i as int].take(c + 1) =~= (seq![
                    index_label(si, i as int)->Some_0,
                ] + gv[i as int].take(c as int)).push(gv[i as int][c as int]));
            }
            c = c + 1;
        }
        proof {
            assert(gv[i as int].take(gv[i as int].len() as int) =~= gv[i as int]);
        }
        let ghost ngv_old = new_grid.deep_view();
        new_grid.push(row);
        proof {
            assert(new_grid.deep_view() =~= ngv_old.push(new_grid.deep_view().last()));
        }
        i = i + 1;
    }
    proof {
        assert forall|k: int|
            0 <= k < gv.len() implies new_grid.deep_view()[k] =~= indexed_grid_spec(gv, si)[k] by {}
        assert(new_grid.deep_view() =~= indexed_grid_spec(gv, si));
    }
    if header.len() == 0 {
        (header, new_grid)
    } else {
        let mut new_header: Vec<String> = Vec::new();
        new_header.push(String::new());
        let mut c: usize = 0;
        let ghost hv = header.deep_view();
        while c < header.len()
            invariant
                c <= header.len(),
                header.deep_view() == hv,
                new_header.deep_view() =~= seq![Seq::<char>::empty()] + hv.take(c as int),
            decreases header.len() - c,
        {
            let ghost dv_old = new_header.deep_view();
            let cell = String::from_str(header[c].as_str());
            proof {
                assert(cell@ == hv[c as int]);
            }
            new_header.push(cell);
            proof {
                assert(new_header.deep_view() =~= dv_old.push(hv[c as int]));
                assert(seq![Seq::<char>::empty()] + hv.take(c + 1) =~= (seq![Seq::<char>::empty()]
                    + hv.take(c as int)).push(hv[c as int]));
            }
            c = c + 1;
        }
        proof {
            assert(hv.take(hv.len() as int) =~= hv);
            assert(new_header.deep_view() =~= indexed_header_spec(hv, si));
        }
        (new_header, new_grid)
    }
}

} // verus!
