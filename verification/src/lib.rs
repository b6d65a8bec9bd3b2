//! A dimension-agnostic representation of a polytope as an incidence complex,
//! with two dimension-raising constructors: extrusion and apex-coning.
//!
//! A [`Polytope<V>`] owns a list of vertices of a caller-supplied type `V` and,
//! per dimension, a list of *elements*; each element is the ordered list of
//! indices of its bounding objects one dimension lower (vertices for
//! dimension-0 elements). Only the combinatorial skeleton is kept: no geometry
//! is computed, and `V` is never inspected except through the caller's
//! transform functions.

use vstd::prelude::*;

pub mod model;

use crate::model::{
    affine_image, cone_links, cone_vertex_links, coned_elems, elems_wf, extruded_elems,
    lemma_coned_wf, lemma_extruded_wf, prism_links, prism_vertex_links, replicated, row_at,
    row_lower,
};

verus! {

/// An element, as the ordered list of indices of its lower-dimensional
/// bounding objects. An edge bounded by the 4th and 5th vertices is `[4, 5]`.
pub type Element = Vec<usize>;

/// A polytope of dimension `d`: a vertex list and, for each dimension
/// `0 <= k < d`, the list of dimension-`k` elements. A 0-dimensional polytope
/// has exactly one vertex and no elements.
///
/// Values are immutable after construction: [`Polytope::extrude`] and
/// [`Polytope::cone`] build entirely new buffers and leave the receiver
/// unchanged, so one base polytope can be extended several independent ways.
pub struct Polytope<V> {
    /// The vertices.
    vertices: Vec<V>,

    /// The element boundaries by dimension: `elements[0]` lists the edge
    /// boundaries, `elements[1]` the face boundaries, and so on.
    elements: Vec<Vec<Element>>,
}

/// The boundary `e` as a sequence of mathematical integers.
pub open spec fn elem_model(e: Seq<usize>) -> Seq<int> {
    e.map_values(|b: usize| b as int)
}

/// One element row as a sequence of mathematical boundaries.
pub open spec fn row_model(row: Seq<Element>) -> Seq<Seq<int>> {
    row.map_values(|e: Element| elem_model(e@))
}

/// The boundary `e` with every index mapped to `scale * b + shift`.
fn affine_element(e: &Element, scale: usize, shift: usize) -> (out: Element)
    requires
        forall|j: int| #![trigger e@[j]] 0 <= j < e@.len() ==> scale * e@[j] + shift <= usize::MAX,
    ensures
        elem_model(out@) == affine_image(elem_model(e@), scale as int, shift as int),
{
    let mut out: Element = Vec::new();
    let mut j: usize = 0;
    while j < e.len()
        invariant
            j <= e@.len(),
            forall|jj: int| #![trigger e@[jj]] 0 <= jj < e@.len() ==> scale * e@[jj] + shift
                <= usize::MAX,
            out@.len() == j,
            forall|jj: int| 0 <= jj < j ==> #[trigger] out@[jj] == scale * e@[jj] + shift,
        decreases e@.len() - j,
    {
        out.push(scale * e[j] + shift);
        j += 1;
    }
    proof {
        assert(elem_model(out@) =~= affine_image(elem_model(e@), scale as int, shift as int));
    }
    out
}

impl<V> Polytope<V> {
    /// The vertex list, as a mathematical sequence.
    pub closed spec fn verts(self) -> Seq<V> {
        self.vertices@
    }

    /// The element rows, as sequences of mathematical boundaries.
    pub closed spec fn elems(self) -> Seq<Seq<Seq<int>>> {
        self.elements@.map_values(|row: Vec<Element>| row_model(row@))
    }

    /// The dimension: the number of element rows.
    pub open spec fn dim(self) -> int {
        self.elems().len() as int
    }

    /// The number of objects one dimension below row `k`.
    pub open spec fn lower_count(self, k: int) -> int {
        row_lower(self.elems(), self.verts().len() as int, k)
    }

    /// Combinatorial consistency: every index inside a dimension-`k` element
    /// points at an object one dimension lower. The constructors establish
    /// this and never rely on runtime checks.
    pub open spec fn wf(self) -> bool {
        elems_wf(self.elems(), self.verts().len() as int)
    }

    /// The machine limits extrusion needs: the doubled vertex count and every
    /// index an extrusion writes (at most twice a row's length plus the count
    /// of objects one dimension below it) fit in `usize`.
    pub open spec fn extrude_fits(self) -> bool {
        &&& self.dim() + 1 <= usize::MAX
        &&& 2 * self.verts().len() <= usize::MAX
        &&& forall|k: int|
            0 <= k < self.dim() ==> 2 * (#[trigger] self.elems()[k]).len() + self.lower_count(k)
                <= usize::MAX
    }

    /// The machine limits coning needs: the doubled vertex count plus the apex
    /// and every index a coning writes (at most twice a row's length plus
    /// twice the count of objects one dimension below it) fit in `usize`.
    pub open spec fn cone_fits(self) -> bool {
        &&& self.dim() + 1 <= usize::MAX
        &&& 2 * self.verts().len() + 1 <= usize::MAX
        &&& forall|k: int|
            0 <= k < self.dim() ==> 2 * (#[trigger] self.elems()[k]).len() + 2
                * self.lower_count(k) + 1 <= usize::MAX
    }

    /// Wraps freshly built buffers into a polytope.
    fn from_vecs(vertices: Vec<V>, elements: Vec<Vec<Element>>) -> (p: Self)
        ensures
            p.verts() == vertices@,
            p.elems() == elements@.map_values(|row: Vec<Element>| row_model(row@)),
    {
        Polytope { vertices, elements }
    }

    /// Builds both replicas of every dimension-`k` element, interleaved:
    /// element `i` yields its index-doubled replica at position `2 * i` and
    /// its index-doubled-plus-one replica at position `2 * i + 1`.
    fn replicate_elements(&self, k: usize) -> (out: Vec<Element>)
        requires
            self.wf(),
            k < self.dim(),
            2 * self.lower_count(k as int) <= usize::MAX,
        ensures
            row_model(out@) == replicated(self.elems()[k as int]),
    {
        let row: &Vec<Element> = &self.elements[k];
        proof {
            assert(self.elems()[k as int] == row_model(row@));
        }
        let mut out: Vec<Element> = Vec::new();
        let mut i: usize = 0;
        while i < row.len()
            invariant
                self.wf(),
                k < self.dim(),
                2 * self.lower_count(k as int) <= usize::MAX,
                row == &self.elements[k as int],
                self.elems()[k as int] == row_model(row@),
                i <= row@.len(),
                out@.len() == 2 * i,
                forall|ii: int| 0 <= ii < 2 * i ==> elem_model(#[trigger] out@[ii]@) == replicated(
                    self.elems()[k as int],
                )[ii],
            decreases row@.len() - i,
        {
            let e: &Element = &row[i];
            proof {
                assert(row_model(row@)[i as int] == elem_model(e@));
                assert forall|j: int| #![trigger e@[j]] 0 <= j < e@.len() implies 2 * e@[j] + 1
                    <= usize::MAX by {
                    assert(self.elems()[k as int][i as int][j] == e@[j] as int);
                    assert(0 <= self.elems()[k as int][i as int][j] < self.lower_count(k as int));
                }
            }
            let pulled = affine_element(e, 2, 0);
            let pushed = affine_element(e, 2, 1);
            out.push(pulled);
            out.push(pushed);
            i += 1;
        }
        proof {
            assert(row_model(out@) =~= replicated(self.elems()[k as int]));
        }
        out
    }

    /// Appends both transformed copies of every vertex, interleaved: vertex
    /// `i` yields `map_1(v)` at offset `2 * i` and `map_2(v)` at offset
    /// `2 * i + 1`, with `map_1` invoked before `map_2` for each vertex and
    /// the vertices visited in ascending index order.
    fn replicate_vertices<F1, F2>(&self, map_1: F1, map_2: F2, out: &mut Vec<V>) where
        F1: Fn(&V) -> V,
        F2: Fn(&V) -> V,

        requires
            forall|i: int| #![trigger self.verts()[i]] 0 <= i < self.verts().len()
                ==> call_requires(map_1, (&self.verts()[i],)) && call_requires(
                map_2,
                (&self.verts()[i],),
            ),
        ensures
            final(out)@.len() == old(out)@.len() + 2 * self.verts().len(),
            forall|i: int| 0 <= i < old(out)@.len() ==> #[trigger] final(out)@[i] == old(out)@[i],
            forall|i: int|
                #![trigger self.verts()[i]]
                0 <= i < self.verts().len() ==> call_ensures(
                    map_1,
                    (&self.verts()[i],),
                    final(out)@[old(out)@.len() + 2 * i],
                ) && call_ensures(
                    map_2,
                    (&self.verts()[i],),
                    final(out)@[old(out)@.len() + 2 * i + 1],
                ),
    {
        let base = out.len();
        let mut i: usize = 0;
        while i < self.vertices.len()
            invariant
                forall|ii: int| #![trigger self.verts()[ii]] 0 <= ii < self.verts().len()
                    ==> call_requires(map_1, (&self.verts()[ii],)) && call_requires(
                    map_2,
                    (&self.verts()[ii],),
                ),
                i <= self.verts().len(),
                base == old(out)@.len(),
                out@.len() == base + 2 * i,
                forall|ii: int| 0 <= ii < base ==> #[trigger] out@[ii] == old(out)@[ii],
                forall|ii: int|
                    #![trigger self.verts()[ii]]
                    0 <= ii < i ==> call_ensures(map_1, (&self.verts()[ii],), out@[base + 2 * ii])
                        && call_ensures(map_2, (&self.verts()[ii],), out@[base + 2 * ii + 1]),
            decreases self.verts().len() - i,
        {
            out.push(map_1(&self.vertices[i]));
            out.push(map_2(&self.vertices[i]));
            i += 1;
        }
    }

    /// Constructs the 0-dimensional polytope: one vertex, no elements.
    pub fn new(vertex: V) -> (p: Self)
        ensures
            p.dim() == 0,
            p.verts() == seq![vertex],
            p.elems() == Seq::<Seq<Seq<int>>>::empty(),
            p.wf(),
    {
        let mut vertices: Vec<V> = Vec::new();
        vertices.push(vertex);
        let p = Polytope { vertices, elements: Vec::new() };
        proof {
            assert(p.verts() =~= seq![vertex]);
            assert(p.elems() =~= Seq::<Seq<Seq<int>>>::empty());
        }
        p
    }

    /// Returns the dimension of the polytope: the dimension of its highest
    /// dimensional elements.
    pub fn dimension(&self) -> (d: usize)
        ensures
            d == self.dim(),
    {
        self.elements.len()
    }

    /// Returns the dimension of the polytope: a synonym of
    /// [`Polytope::dimension`].
    pub fn dimensions(&self) -> (d: usize)
        ensures
            d == self.dim(),
    {
        self.elements.len()
    }

    /// Lends the vertex list.
    pub fn vertices(&self) -> (vs: &[V])
        ensures
            vs@ == self.verts(),
    {
        self.vertices.as_slice()
    }

    /// Lends the element list for the given dimension. A request at or above
    /// the polytope's dimension is out of bounds.
    pub fn elements(&self, dimension: usize) -> (es: &[Element])
        requires
            dimension < self.dim(),
        ensures
            row_model(es@) == self.elems()[dimension as int],
    {
        self.elements[dimension].as_slice()
    }

    /// Extrudes the polytope into the next higher dimension: the generalized
    /// prism construction.
    ///
    /// Two replicas of the whole complex are created by applying `pull_in`
    /// and `push_out` to every vertex, and one new linking element per
    /// original entity (vertices included) joins the entity's two replicas.
    /// The transforms are invoked exactly once per original vertex, in
    /// ascending index order, `pull_in` before `push_out`, so vertex `i`'s
    /// copies land at indices `2 * i` and `2 * i + 1`. The receiver is left
    /// unchanged.
    #[verifier::loop_isolation(false)]
    pub fn extrude<F1, F2>(&self, pull_in: F1, push_out: F2) -> (p: Self) where
        F1: Fn(&V) -> V,
        F2: Fn(&V) -> V,

        requires
            self.wf(),
            self.extrude_fits(),
            forall|i: int| #![trigger self.verts()[i]] 0 <= i < self.verts().len()
                ==> call_requires(pull_in, (&self.verts()[i],)) && call_requires(
                push_out,
                (&self.verts()[i],),
            ),
        ensures
            p.dim() == self.dim() + 1,
            p.verts().len() == 2 * self.verts().len(),
            forall|i: int|
                #![trigger self.verts()[i]]
                0 <= i < self.verts().len() ==> call_ensures(
                    pull_in,
                    (&self.verts()[i],),
                    p.verts()[2 * i],
                ) && call_ensures(push_out, (&self.verts()[i],), p.verts()[2 * i + 1]),
            p.elems() == extruded_elems(self.elems(), self.verts().len() as int),
            p.wf(),
    {
        let ghost olde = self.elems();
        let ghost n = self.verts().len() as int;

        // Replicate the vertices by pulling them in and pushing them out.
        let mut new_vertices: Vec<V> = Vec::new();
        self.replicate_vertices(pull_in, push_out, &mut new_vertices);

        // Build each row of the result: the replicas of the old row of the
        // same dimension, then the links derived from one dimension lower.
        let d = self.elements.len();
        let mut new_elements: Vec<Vec<Element>> = Vec::new();
        let mut k: usize = 0;
        while k <= d
            invariant
                new_elements@.len() == k,
                k <= d + 1,
                forall|kk: int| 0 <= kk < k ==> row_model(#[trigger] new_elements@[kk]@)
                    == extruded_elems(olde, n)[kk],
            decreases d + 1 - k,
        {
            let mut row: Vec<Element>;
            if k < d {
                proof {
                    assert(2 * self.lower_count(k as int) <= usize::MAX) by {
                        if k == 0 {
                        } else {
                            assert(2 * olde[k - 1].len() + self.lower_count(k - 1) <= usize::MAX);
                        }
                    }
                }
                row = self.replicate_elements(k);
            } else {
                row = Vec::new();
            }
            assert(row_model(row@) == replicated(row_at(olde, k as int)));
            if k == 0 {
                // Link the two copies of each vertex with one new edge.
                let nv = self.vertices.len();
                let mut i: usize = 0;
                while i < nv
                    invariant
                        i <= nv,
                        row@.len() == replicated(row_at(olde, 0)).len() + i,
                        forall|ii: int| 0 <= ii < replicated(row_at(olde, 0)).len() ==> elem_model(
                            (#[trigger] row@[ii])@,
                        ) == replicated(row_at(olde, 0))[ii],
                        forall|ii: int|
                            replicated(row_at(olde, 0)).len() <= ii < row@.len() ==> elem_model(
                                (#[trigger] row@[ii])@,
                            ) == prism_vertex_links(n)[ii - replicated(row_at(olde, 0)).len()],
                    decreases nv - i,
                {
                    let mut edge: Element = Vec::new();
                    edge.push(2 * i);
                    edge.push(2 * i + 1);
                    proof {
                        assert(elem_model(edge@) =~= seq![2 * i as int, 2 * i + 1 as int]);
                    }
                    row.push(edge);
                    i += 1;
                }
            } else {
                // Link the two replicas of each element one dimension lower
                // with one new element, alongside the links of its boundary.
                let prev: &Vec<Element> = &self.elements[k - 1];
                proof {
                    assert(olde[k - 1] == row_model(prev@));
                    assert(2 * olde[k - 1].len() + self.lower_count(k - 1) <= usize::MAX);
                }
                let off: usize = 2 * prev.len();
                let m = prev.len();
                let mut i: usize = 0;
                while i < m
                    invariant
                        i <= m,
                        row@.len() == replicated(row_at(olde, k as int)).len() + i,
                        forall|ii: int| 0 <= ii < replicated(row_at(olde, k as int)).len()
                            ==> elem_model((#[trigger] row@[ii])@) == replicated(
                            row_at(olde, k as int),
                        )[ii],
                        forall|ii: int|
                            replicated(row_at(olde, k as int)).len() <= ii < row@.len()
                                ==> elem_model((#[trigger] row@[ii])@) == prism_links(
                                olde[k - 1],
                            )[ii - replicated(row_at(olde, k as int)).len()],
                    decreases m - i,
                {
                    let e: &Element = &prev[i];
                    proof {
                        assert(row_model(prev@)[i as int] == elem_model(e@));
                        assert forall|j: int| #![trigger e@[j]] 0 <= j < e@.len() implies 1 * e@[j]
                            + off <= usize::MAX by {
                            assert(olde[k - 1][i as int][j] == e@[j] as int);
                            assert(0 <= olde[k - 1][i as int][j] < self.lower_count(k - 1));
                        }
                    }
                    let mut link = affine_element(e, 1, off);
                    link.push(2 * i);
                    link.push(2 * i + 1);
                    proof {
                        assert(elem_model(link@) =~= affine_image(
                            olde[k - 1][i as int],
                            1,
                            2 * (olde[k - 1].len() as int),
                        ).push(2 * i as int).push(2 * i + 1 as int));
                    }
                    row.push(link);
                    i += 1;
                }
            }
            proof {
                assert(row_model(row@) =~= extruded_elems(olde, n)[k as int]);
            }
            new_elements.push(row);
            k += 1;
        }
        let p = Self::from_vecs(new_vertices, new_elements);
        proof {
            assert(p.elems() =~= extruded_elems(olde, n));
            lemma_extruded_wf(olde, n);
        }
        p
    }

    /// Builds a higher dimensional double cone over the polytope: the
    /// generalized pyramid construction.
    ///
    /// Two replicas of the whole complex are created by applying `pull_in`
    /// and `push_out` to every vertex, exactly as for
    /// [`Polytope::extrude`]; each replicated entity is then joined to one
    /// new shared apex vertex by a new element, instead of to its sibling
    /// replica. The apex is appended after all replicated vertices, at index
    /// `2 * self.vertices().len()`. The receiver is left unchanged.
    #[verifier::loop_isolation(false)]
    pub fn cone<F1, F2>(&self, apex: V, pull_in: F1, push_out: F2) -> (p: Self) where
        F1: Fn(&V) -> V,
        F2: Fn(&V) -> V,

        requires
            self.wf(),
            self.cone_fits(),
            forall|i: int| #![trigger self.verts()[i]] 0 <= i < self.verts().len()
                ==> call_requires(pull_in, (&self.verts()[i],)) && call_requires(
                push_out,
                (&self.verts()[i],),
            ),
        ensures
            p.dim() == self.dim() + 1,
            p.verts().len() == 2 * self.verts().len() + 1,
            p.verts().last() == apex,
            forall|i: int|
                #![trigger self.verts()[i]]
                0 <= i < self.verts().len() ==> call_ensures(
                    pull_in,
                    (&self.verts()[i],),
                    p.verts()[2 * i],
                ) && call_ensures(push_out, (&self.verts()[i],), p.verts()[2 * i + 1]),
            p.elems() == coned_elems(self.elems(), self.verts().len() as int),
            p.wf(),
    {
        let ghost olde = self.elems();
        let ghost n = self.verts().len() as int;

        // Replicate the vertices by pulling them in and pushing them out.
        let mut new_vertices: Vec<V> = Vec::new();
        self.replicate_vertices(pull_in, push_out, &mut new_vertices);

        // Append the apex after all replicated vertices.
        let apex_index = new_vertices.len();
        new_vertices.push(apex);

        // Build each row of the result: the replicas of the old row of the
        // same dimension, then the links derived from one dimension lower.
        let d = self.elements.len();
        let mut new_elements: Vec<Vec<Element>> = Vec::new();
        let mut k: usize = 0;
        while k <= d
            invariant
                new_elements@.len() == k,
                k <= d + 1,
                forall|kk: int| 0 <= kk < k ==> row_model(#[trigger] new_elements@[kk]@)
                    == coned_elems(olde, n)[kk],
            decreases d + 1 - k,
        {
            let mut row: Vec<Element>;
            if k < d {
                proof {
                    assert(2 * self.lower_count(k as int) <= usize::MAX) by {
                        if k == 0 {
                        } else {
                            assert(2 * olde[k - 1].len() + 2 * self.lower_count(k - 1) + 1
                                <= usize::MAX);
                        }
                    }
                }
                row = self.replicate_elements(k);
            } else {
                row = Vec::new();
            }
            assert(row_model(row@) == replicated(row_at(olde, k as int)));
            if k == 0 {
                // Join both copies of each vertex to the apex, each by its
                // own new edge.
                let nv = self.vertices.len();
                let mut i: usize = 0;
                while i < nv
                    invariant
                        i <= nv,
                        row@.len() == replicated(row_at(olde, 0)).len() + 2 * i,
                        forall|ii: int| 0 <= ii < replicated(row_at(olde, 0)).len() ==> elem_model(
                            (#[trigger] row@[ii])@,
                        ) == replicated(row_at(olde, 0))[ii],
                        forall|ii: int|
                            replicated(row_at(olde, 0)).len() <= ii < row@.len() ==> elem_model(
                                (#[trigger] row@[ii])@,
                            ) == cone_vertex_links(n)[ii - replicated(row_at(olde, 0)).len()],
                    decreases nv - i,
                {
                    let mut pulled_edge: Element = Vec::new();
                    pulled_edge.push(2 * i);
                    pulled_edge.push(apex_index);
                    proof {
                        assert(elem_model(pulled_edge@) =~= seq![2 * i as int, 2 * n]);
                    }
                    row.push(pulled_edge);
                    let mut pushed_edge: Element = Vec::new();
                    pushed_edge.push(2 * i + 1);
                    pushed_edge.push(apex_index);
                    proof {
                        assert(elem_model(pushed_edge@) =~= seq![2 * i + 1 as int, 2 * n]);
                    }
                    row.push(pushed_edge);
                    i += 1;
                }
            } else {
                // Join each replica of each element one dimension lower to
                // the apex, alongside the same-sided links of its boundary.
                let prev: &Vec<Element> = &self.elements[k - 1];
                proof {
                    assert(olde[k - 1] == row_model(prev@));
                    assert(2 * olde[k - 1].len() + 2 * self.lower_count(k - 1) + 1 <= usize::MAX);
                }
                let off: usize = 2 * prev.len();
                let m = prev.len();
                let mut i: usize = 0;
                while i < m
                    invariant
                        i <= m,
                        row@.len() == replicated(row_at(olde, k as int)).len() + 2 * i,
                        forall|ii: int| 0 <= ii < replicated(row_at(olde, k as int)).len()
                            ==> elem_model((#[trigger] row@[ii])@) == replicated(
                            row_at(olde, k as int),
                        )[ii],
                        forall|ii: int|
                            replicated(row_at(olde, k as int)).len() <= ii < row@.len()
                                ==> elem_model((#[trigger] row@[ii])@) == cone_links(
                                olde[k - 1],
                            )[ii - replicated(row_at(olde, k as int)).len()],
                    decreases m - i,
                {
                    let e: &Element = &prev[i];
                    proof {
                        assert(row_model(prev@)[i as int] == elem_model(e@));
                        assert forall|j: int| #![trigger e@[j]] 0 <= j < e@.len() implies 2 * e@[j]
                            + (off + 1) <= usize::MAX by {
                            assert(olde[k - 1][i as int][j] == e@[j] as int);
                            assert(0 <= olde[k - 1][i as int][j] < self.lower_count(k - 1));
                        }
                    }
                    let mut pulled_link = affine_element(e, 2, off);
                    pulled_link.push(2 * i);
                    proof {
                        assert(elem_model(pulled_link@) =~= affine_image(
                            olde[k - 1][i as int],
                            2,
                            2 * (olde[k - 1].len() as int),
                        ).push(2 * i as int));
                        assert(elem_model(pulled_link@) == cone_links(olde[k - 1])[2 * i]);
                    }
                    row.push(pulled_link);
                    let mut pushed_link = affine_element(e, 2, off + 1);
                    pushed_link.push(2 * i + 1);
                    proof {
                        assert(elem_model(pushed_link@) =~= affine_image(
                            olde[k - 1][i as int],
                            2,
                            2 * (olde[k - 1].len() as int) + 1,
                        ).push(2 * i + 1 as int));
                        assert(elem_model(pushed_link@) == cone_links(olde[k - 1])[2 * i + 1]);
                    }
                    row.push(pushed_link);
                    i += 1;
                }
            }
            proof {
                assert(row_model(row@) =~= coned_elems(olde, n)[k as int]);
            }
            new_elements.push(row);
            k += 1;
        }
        let p = Self::from_vecs(new_vertices, new_elements);
        proof {
            assert(p.elems() =~= coned_elems(olde, n));
            lemma_coned_wf(olde, n);
        }
        p
    }

}

} // verus!
