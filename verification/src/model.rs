//! The mathematical model of an incidence complex.
//!
//! A complex of dimension `d` is modelled by the number `n` of vertices and a
//! sequence `elems` of `d` rows: row `k` lists the dimension-`k` elements, each
//! element being the sequence of indices of its bounding objects one dimension
//! lower (vertices for `k == 0`).
//!
//! The two dimension-raising constructions, extrusion and coning, are defined
//! here as functions on this model; the executable methods of
//! [`crate::Polytope`] promise in their contracts to produce exactly these
//! sequences.

use vstd::prelude::*;

verus! {

/// The number of objects one dimension below row `k`: the vertices for the
/// bottom row, the previous row's elements otherwise.
pub open spec fn row_lower(elems: Seq<Seq<Seq<int>>>, n: int, k: int) -> int {
    if k == 0 {
        n
    } else {
        elems[k - 1].len() as int
    }
}

/// Every index inside a dimension-`k` element points at an object one
/// dimension lower: the combinatorial consistency invariant of a complex.
pub open spec fn elems_wf(elems: Seq<Seq<Seq<int>>>, n: int) -> bool {
    forall|k: int, i: int, j: int|
        0 <= k < elems.len() && 0 <= i < elems[k].len() && 0 <= j < elems[k][i].len()
            ==> 0 <= #[trigger] elems[k][i][j] < row_lower(elems, n, k)
}

/// The boundary `e` with every index mapped to `scale * b + shift`.
pub open spec fn affine_image(e: Seq<int>, scale: int, shift: int) -> Seq<int> {
    Seq::new(e.len(), |j: int| scale * e[j] + shift)
}

/// Both replicas of every element of `row`, interleaved: element `i` yields
/// its pulled-in replica (indices doubled) at position `2 * i` and its
/// pushed-out replica (indices doubled plus one) at position `2 * i + 1`.
pub open spec fn replicated(row: Seq<Seq<int>>) -> Seq<Seq<int>> {
    Seq::new(2 * row.len(), |i: int| affine_image(row[i / 2], 2, i % 2))
}

/// Row `k` of `elems`, or the empty row one dimension above the top.
pub open spec fn row_at(elems: Seq<Seq<Seq<int>>>, k: int) -> Seq<Seq<int>> {
    if 0 <= k < elems.len() {
        elems[k]
    } else {
        Seq::empty()
    }
}

/// The edges an extrusion adds at the bottom row: one per original vertex,
/// joining its two copies. They follow the replicated edges, so the edge for
/// vertex `i` sits at position `2 * old-edge-count + i` of the new bottom
/// row.
pub open spec fn prism_vertex_links(n: int) -> Seq<Seq<int>> {
    Seq::new(n as nat, |i: int| seq![2 * i, 2 * i + 1])
}

/// The linking elements an extrusion derives from `row`, placed one dimension
/// higher. The link for element `i` of `row` joins the links of its boundary
/// (which start at position `2 * row.len()` one dimension below) and its own
/// two replicas (at positions `2 * i` and `2 * i + 1`).
pub open spec fn prism_links(row: Seq<Seq<int>>) -> Seq<Seq<int>> {
    Seq::new(
        row.len(),
        |i: int| affine_image(row[i], 1, 2 * (row.len() as int)).push(2 * i).push(2 * i + 1),
    )
}

/// The element rows of the extrusion of a complex with `n` vertices and
/// element rows `elems`: every row holds the replicas of the old row of the
/// same dimension, followed by the links derived from one dimension lower.
pub open spec fn extruded_elems(elems: Seq<Seq<Seq<int>>>, n: int) -> Seq<Seq<Seq<int>>> {
    Seq::new(
        elems.len() + 1,
        |k: int|
            replicated(row_at(elems, k)) + if k == 0 {
                prism_vertex_links(n)
            } else {
                prism_links(elems[k - 1])
            },
    )
}

/// The edges a coning adds at the bottom row: one per vertex copy, joining it
/// to the apex, which sits at index `2 * n` of the new vertex list.
pub open spec fn cone_vertex_links(n: int) -> Seq<Seq<int>> {
    Seq::new((2 * n) as nat, |j: int| seq![j, 2 * n])
}

/// The linking elements a coning derives from `row`, placed one dimension
/// higher: two per original element, one per replica. The link for replica
/// `j` of element `j / 2` joins the same-sided links of its boundary (links
/// come in pairs starting at position `2 * row.len()` one dimension below)
/// and the replica itself.
pub open spec fn cone_links(row: Seq<Seq<int>>) -> Seq<Seq<int>> {
    Seq::new(
        2 * row.len(),
        |j: int| affine_image(row[j / 2], 2, 2 * (row.len() as int) + j % 2).push(j),
    )
}

/// The element rows of the coning of a complex with `n` vertices and element
/// rows `elems`: as for extrusion, every row holds the replicas of the old
/// row, followed by the links derived from one dimension lower.
pub open spec fn coned_elems(elems: Seq<Seq<Seq<int>>>, n: int) -> Seq<Seq<Seq<int>>> {
    Seq::new(
        elems.len() + 1,
        |k: int|
            replicated(row_at(elems, k)) + if k == 0 {
                cone_vertex_links(n)
            } else {
                cone_links(elems[k - 1])
            },
    )
}

/// Extrusion keeps the complex consistent: if every index of `elems` points
/// one dimension lower, so does every index of the extruded rows, against the
/// doubled vertex count.
pub proof fn lemma_extruded_wf(elems: Seq<Seq<Seq<int>>>, n: int)
    requires
        n >= 0,
        elems_wf(elems, n),
    ensures
        elems_wf(extruded_elems(elems, n), 2 * n),
{
    let r = extruded_elems(elems, n);
    assert forall|k: int, i: int, j: int|
        0 <= k < r.len() && 0 <= i < r[k].len() && 0 <= j < r[k][i].len() implies 0 <= #[trigger] r[k][i][j]
        < row_lower(r, 2 * n, k) by {
        let rep = replicated(row_at(elems, k));
        let old_low = row_lower(elems, n, k);
        // The new row one dimension below holds the old replicas followed by
        // the links, one per object below the old row; below the bottom row
        // stand the doubled vertices.
        if k == 0 {
            assert(row_lower(r, 2 * n, k) == 2 * n);
        } else {
            assert(row_lower(r, 2 * n, k) == 2 * row_at(elems, k - 1).len() + row_lower(
                elems,
                n,
                k - 1,
            ));
            assert(old_low == row_at(elems, k - 1).len());
        }
        if i < rep.len() {
            let b = row_at(elems, k)[i / 2][j];
            assert(0 <= b < old_low);
            assert(r[k][i][j] == 2 * b + i % 2);
        } else {
            let li = i - rep.len();
            if k == 0 {
                assert(r[k][i] == prism_vertex_links(n)[li]);
                assert(r[k][i][j] == seq![2 * li, 2 * li + 1][j]);
            } else {
                let prev = elems[k - 1];
                assert(r[k][i] == prism_links(prev)[li]);
                let link = affine_image(prev[li], 1, 2 * (prev.len() as int)).push(2 * li).push(
                    2 * li + 1,
                );
                assert(r[k][i] == link);
                if j < prev[li].len() {
                    let b = prev[li][j];
                    assert(0 <= b < row_lower(elems, n, k - 1));
                    assert(link[j] == b + 2 * (prev.len() as int));
                } else {
                    assert(link[j] == 2 * li || link[j] == 2 * li + 1);
                }
            }
        }
    }
}

/// Coning keeps the complex consistent: if every index of `elems` points one
/// dimension lower, so does every index of the coned rows, against the doubled
/// vertex count plus the apex.
pub proof fn lemma_coned_wf(elems: Seq<Seq<Seq<int>>>, n: int)
    requires
        n >= 0,
        elems_wf(elems, n),
    ensures
        elems_wf(coned_elems(elems, n), 2 * n + 1),
{
    let r = coned_elems(elems, n);
    assert forall|k: int, i: int, j: int|
        0 <= k < r.len() && 0 <= i < r[k].len() && 0 <= j < r[k][i].len() implies 0 <= #[trigger] r[k][i][j]
        < row_lower(r, 2 * n + 1, k) by {
        let rep = replicated(row_at(elems, k));
        let old_low = row_lower(elems, n, k);
        // The new row one dimension below holds the old replicas followed by
        // two links per object below the old row; below the bottom row stand
        // the doubled vertices and the apex.
        if k == 0 {
            assert(row_lower(r, 2 * n + 1, k) == 2 * n + 1);
        } else {
            assert(row_lower(r, 2 * n + 1, k) == 2 * row_at(elems, k - 1).len() + 2 * row_lower(
                elems,
                n,
                k - 1,
            ));
            assert(old_low == row_at(elems, k - 1).len());
        }
        if i < rep.len() {
            let b = row_at(elems, k)[i / 2][j];
            assert(0 <= b < old_low);
            assert(r[k][i][j] == 2 * b + i % 2);
        } else {
            let li = i - rep.len();
            if k == 0 {
                assert(r[k][i] == cone_vertex_links(n)[li]);
                assert(r[k][i][j] == seq![li, 2 * n][j]);
            } else {
                let prev = elems[k - 1];
                assert(r[k][i] == cone_links(prev)[li]);
                let link = affine_image(
                    prev[li / 2],
                    2,
                    2 * (prev.len() as int) + li % 2,
                ).push(li);
                assert(r[k][i] == link);
                if j < prev[li / 2].len() {
                    let b = prev[li / 2][j];
                    assert(0 <= b < row_lower(elems, n, k - 1));
                    assert(link[j] == 2 * b + 2 * (prev.len() as int) + li % 2);
                } else {
                    assert(link[j] == li);
                }
            }
        }
    }
}

/// How many elements each row of an extrusion holds, whatever the vertex
/// transforms: one more row than the base complex; every row the replicas of
/// the old row of the same dimension (twice its length) plus one link per
/// object one dimension below (the vertices for the bottom row). In
/// particular the new top row, where no old row stands, holds exactly one
/// element per element of the old top row.
pub proof fn lemma_extruded_row_counts(elems: Seq<Seq<Seq<int>>>, n: int)
    requires
        n >= 0,
    ensures
        extruded_elems(elems, n).len() == elems.len() + 1,
        extruded_elems(elems, n)[0].len() == 2 * row_at(elems, 0).len() + n,
        forall|k: int|
            1 <= k <= elems.len() ==> (#[trigger] extruded_elems(elems, n)[k]).len() == 2 * row_at(
                elems,
                k,
            ).len() + elems[k - 1].len(),
{
}

/// How many elements each row of a coning holds, whatever the vertex
/// transforms: one more row than the base complex; every row the replicas of
/// the old row of the same dimension (twice its length) plus two links per
/// object one dimension below — twice the bottom-row links of an extrusion,
/// since each vertex copy is joined to the apex separately.
pub proof fn lemma_coned_row_counts(elems: Seq<Seq<Seq<int>>>, n: int)
    requires
        n >= 0,
    ensures
        coned_elems(elems, n).len() == elems.len() + 1,
        coned_elems(elems, n)[0].len() == 2 * row_at(elems, 0).len() + 2 * n,
        forall|k: int|
            1 <= k <= elems.len() ==> (#[trigger] coned_elems(elems, n)[k]).len() == 2 * row_at(
                elems,
                k,
            ).len() + 2 * elems[k - 1].len(),
{
}

} // verus!
