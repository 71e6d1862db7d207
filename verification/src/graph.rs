//! A plain graph held as vertex and edge lists.  An edge type tells the
//! graph which vertices it connects by implementing `Edge`.

use vstd::prelude::*;

use vstd::pervasive::cloned;
use vstd::std_specs::cmp::PartialEqSpec;

verus! {

/// An edge: something that knows the vertex it leaves and the vertex it
/// enters.  Implementors describe both in spec form and promise that the
/// executable accessors agree with it.
pub trait Edge {
    type V;

    /// The vertex this edge leaves, mathematically.
    spec fn from_spec(&self) -> Self::V;

    /// The vertex this edge enters, mathematically.
    spec fn to_spec(&self) -> Self::V;

    /// The vertex this edge leaves.
    fn from(&self) -> (v: Self::V)
        ensures
            v == self.from_spec(),
    ;

    /// The vertex this edge enters.
    fn to(&self) -> (v: Self::V)
        ensures
            v == self.to_spec(),
    ;
}

/// A graph as two growable lists.
pub struct Classic<V, E> {
    vertices: Vec<V>,
    edges: Vec<E>,
}

/// The source vertices of the edges that enter `v`, in edge order.
pub open spec fn sources_into<V: PartialEqSpec, E: Edge<V = V>>(edges: Seq<E>, v: V) -> Seq<V>
    decreases edges,
{
    if edges.len() == 0 {
        Seq::empty()
    } else {
        let rest = sources_into(edges.drop_last(), v);
        if edges.last().to_spec().eq_spec(&v) {
            rest.push(edges.last().from_spec())
        } else {
            rest
        }
    }
}

/// The target vertices of the edges that leave `v`, in edge order.
pub open spec fn targets_from<V: PartialEqSpec, E: Edge<V = V>>(edges: Seq<E>, v: V) -> Seq<V>
    decreases edges,
{
    if edges.len() == 0 {
        Seq::empty()
    } else {
        let rest = targets_from(edges.drop_last(), v);
        if edges.last().from_spec().eq_spec(&v) {
            rest.push(edges.last().to_spec())
        } else {
            rest
        }
    }
}

/// The edges that leave `v`, in edge order.
pub open spec fn edges_from<V: PartialEqSpec, E: Edge<V = V>>(edges: Seq<E>, v: V) -> Seq<E>
    decreases edges,
{
    if edges.len() == 0 {
        Seq::empty()
    } else {
        let rest = edges_from(edges.drop_last(), v);
        if edges.last().from_spec().eq_spec(&v) {
            rest.push(edges.last())
        } else {
            rest
        }
    }
}

/// The edges that enter `v`, in edge order.
pub open spec fn edges_into<V: PartialEqSpec, E: Edge<V = V>>(edges: Seq<E>, v: V) -> Seq<E>
    decreases edges,
{
    if edges.len() == 0 {
        Seq::empty()
    } else {
        let rest = edges_into(edges.drop_last(), v);
        if edges.last().to_spec().eq_spec(&v) {
            rest.push(edges.last())
        } else {
            rest
        }
    }
}

/// The edges running from `a` to `b`, in edge order.
pub open spec fn edges_between<V: PartialEqSpec, E: Edge<V = V>>(edges: Seq<E>, a: V, b: V) -> Seq<
    E,
>
    decreases edges,
{
    if edges.len() == 0 {
        Seq::empty()
    } else {
        let rest = edges_between(edges.drop_last(), a, b);
        if edges.last().from_spec().eq_spec(&a) && edges.last().to_spec().eq_spec(&b) {
            rest.push(edges.last())
        } else {
            rest
        }
    }
}

/// Clone-for-clone images of a sequence of edges.
pub open spec fn all_cloned<E: Clone>(orig: Seq<E>, copies: Seq<E>) -> bool {
    copies.len() == orig.len() && forall|i: int|
        0 <= i < orig.len() ==> cloned::<E>(orig[i], #[trigger] copies[i])
}

impl<V, E> Classic<V, E> {
    /// A graph from its vertex and edge lists.
    pub fn new(vertices: Vec<V>, edges: Vec<E>) -> (g: Self)
        ensures
            g.vertices_view() == vertices@,
            g.edges_view() == edges@,
    {
        Classic { vertices, edges }
    }

    /// The vertices held.
    pub closed spec fn vertices_view(&self) -> Seq<V> {
        self.vertices@
    }

    /// The edges held.
    pub closed spec fn edges_view(&self) -> Seq<E> {
        self.edges@
    }

    /// Adds a vertex.
    pub fn add_vertex(&mut self, v: V)
        ensures
            final(self).vertices_view() == old(self).vertices_view().push(v),
            final(self).edges_view() == old(self).edges_view(),
    {
        self.vertices.push(v);
    }

    /// Adds an edge.
    pub fn add_edge(&mut self, e: E)
        ensures
            final(self).edges_view() == old(self).edges_view().push(e),
            final(self).vertices_view() == old(self).vertices_view(),
    {
        self.edges.push(e);
    }
}

impl<V: PartialEq + PartialEqSpec, E: Edge<V = V> + Clone> Classic<V, E> {
    /// The vertices reached by edges leaving `v`, provided the vertex
    /// equality obeys its specification.
    pub fn out_vertices(&self, v: &V) -> (r: Vec<V>)
        ensures
            V::obeys_eq_spec() ==> r@ == targets_from(self.edges_view(), *v),
    {
        let mut r: Vec<V> = Vec::new();
        let mut i: usize = 0;
        proof {
            assert(self.edges_view().take(0) =~= Seq::<E>::empty());
        }
        while i < self.edges.len()
            invariant
                i <= self.edges@.len(),
                self.edges@ == self.edges_view(),
                V::obeys_eq_spec() ==> r@ == targets_from(
                    self.edges_view().take(i as int),
                    *v,
                ),
            decreases self.edges@.len() - i,
        {
            proof {
                assert(self.edges_view().take(i + 1).drop_last() =~= self.edges_view().take(
                    i as int,
                ));
                assert(self.edges_view().take(i + 1).last() == self.edges_view()[i as int]);
            }
            let f = self.edges[i].from();
            if f.eq(v) {
                r.push(self.edges[i].to());
            }
            i += 1;
        }
        proof {
            assert(self.edges_view().take(self.edges@.len() as int) =~= self.edges_view());
        }
        r
    }

    /// The vertices with an edge into `v`.
    pub fn in_vertices(&self, v: &V) -> (r: Vec<V>)
        ensures
            V::obeys_eq_spec() ==> r@ == sources_into(self.edges_view(), *v),
    {
        let mut r: Vec<V> = Vec::new();
        let mut i: usize = 0;
        proof {
            assert(self.edges_view().take(0) =~= Seq::<E>::empty());
        }
        while i < self.edges.len()
            invariant
                i <= self.edges@.len(),
                self.edges@ == self.edges_view(),
                V::obeys_eq_spec() ==> r@ == sources_into(
                    self.edges_view().take(i as int),
                    *v,
                ),
            decreases self.edges@.len() - i,
        {
            proof {
                assert(self.edges_view().take(i + 1).drop_last() =~= self.edges_view().take(
                    i as int,
                ));
                assert(self.edges_view().take(i + 1).last() == self.edges_view()[i as int]);
            }
            let t = self.edges[i].to();
            if t.eq(v) {
                r.push(self.edges[i].from());
            }
            i += 1;
        }
        proof {
            assert(self.edges_view().take(self.edges@.len() as int) =~= self.edges_view());
        }
        r
    }

    /// Clones of the edges leaving `v`.
    pub fn out_edges(&self, v: &V) -> (r: Vec<E>)
        ensures
            V::obeys_eq_spec() ==> all_cloned(edges_from(self.edges_view(), *v), r@),
    {
        let mut r: Vec<E> = Vec::new();
        let mut i: usize = 0;
        proof {
            assert(self.edges_view().take(0) =~= Seq::<E>::empty());
        }
        while i < self.edges.len()
            invariant
                i <= self.edges@.len(),
                self.edges@ == self.edges_view(),
                V::obeys_eq_spec() ==> all_cloned(
                    edges_from(self.edges_view().take(i as int), *v),
                    r@,
                ),
            decreases self.edges@.len() - i,
        {
            proof {
                assert(self.edges_view().take(i + 1).drop_last() =~= self.edges_view().take(
                    i as int,
                ));
                assert(self.edges_view().take(i + 1).last() == self.edges_view()[i as int]);
            }
            let f = self.edges[i].from();
            if f.eq(v) {
                r.push(self.edges[i].clone());
            }
            i += 1;
        }
        proof {
            assert(self.edges_view().take(self.edges@.len() as int) =~= self.edges_view());
        }
        r
    }

    /// Clones of the edges entering `v`.
    pub fn in_edges(&self, v: &V) -> (r: Vec<E>)
        ensures
            V::obeys_eq_spec() ==> all_cloned(edges_into(self.edges_view(), *v), r@),
    {
        let mut r: Vec<E> = Vec::new();
        let mut i: usize = 0;
        proof {
            assert(self.edges_view().take(0) =~= Seq::<E>::empty());
        }
        while i < self.edges.len()
            invariant
                i <= self.edges@.len(),
                self.edges@ == self.edges_view(),
                V::obeys_eq_spec() ==> all_cloned(
                    edges_into(self.edges_view().take(i as int), *v),
                    r@,
                ),
            decreases self.edges@.len() - i,
        {
            proof {
                assert(self.edges_view().take(i + 1).drop_last() =~= self.edges_view().take(
                    i as int,
                ));
                assert(self.edges_view().take(i + 1).last() == self.edges_view()[i as int]);
            }
            let t = self.edges[i].to();
            if t.eq(v) {
                r.push(self.edges[i].clone());
            }
            i += 1;
        }
        proof {
            assert(self.edges_view().take(self.edges@.len() as int) =~= self.edges_view());
        }
        r
    }

    /// Clones of the edges running from `a` to `b`.
    pub fn edges(&self, a: &V, b: &V) -> (r: Vec<E>)
        ensures
            V::obeys_eq_spec() ==> all_cloned(edges_between(self.edges_view(), *a, *b), r@),
    {
        let mut r: Vec<E> = Vec::new();
        let mut i: usize = 0;
        proof {
            assert(self.edges_view().take(0) =~= Seq::<E>::empty());
        }
        while i < self.edges.len()
            invariant
                i <= self.edges@.len(),
                self.edges@ == self.edges_view(),
                V::obeys_eq_spec() ==> all_cloned(
                    edges_between(self.edges_view().take(i as int), *a, *b),
                    r@,
                ),
            decreases self.edges@.len() - i,
        {
            proof {
                assert(self.edges_view().take(i + 1).drop_last() =~= self.edges_view().take(
                    i as int,
                ));
                assert(self.edges_view().take(i + 1).last() == self.edges_view()[i as int]);
            }
            let f = self.edges[i].from();
            if f.eq(a) {
                let t = self.edges[i].to();
                if t.eq(b) {
                    r.push(self.edges[i].clone());
                }
            }
            i += 1;
        }
        proof {
            assert(self.edges_view().take(self.edges@.len() as int) =~= self.edges_view());
        }
        r
    }

    /// The two endpoints of an edge.
    pub fn vertices(&self, e: &E) -> (r: (V, V))
        ensures
            r.0 == e.from_spec(),
            r.1 == e.to_spec(),
    {
        (e.from(), e.to())
    }
}

} // verus!
