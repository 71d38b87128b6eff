//! The tension graph: interned vertices, a vertex index, and adjacency
//! lists of weighted transitions.
use std::collections::HashMap;
use std::hash::Hash;
use vstd::prelude::*;
use vstd::std_specs::hash::obeys_key_model;

verus! {

broadcast use vstd::std_specs::hash::group_hash_axioms;

/// The vertex type behaves as a hash-map key: hashing is deterministic,
/// `==` is identity, and `clone` gives back an identical value. The
/// vertex index of a graph is a `HashMap` keyed by vertices, so this is
/// what std's `HashMap` itself asks of its keys.
pub open spec fn vertex_keys_lawful<V: Clone>() -> bool {
    &&& obeys_key_model::<V>()
    &&& forall|a: V, b: V| #[trigger] cloned::<V>(a, b) ==> a == b
}

/// The vertex sequence after interning `v`: unchanged when `v` is
/// already present, otherwise `v` appended at the end.
pub open spec fn interned<V>(vs: Seq<V>, v: V) -> Seq<V> {
    if vs.contains(v) {
        vs
    } else {
        vs.push(v)
    }
}

/// The adjacency rows after interning `v` into `vs`: a new, empty row is
/// appended exactly when `v` is new.
pub open spec fn interned_rows<V, A>(vs: Seq<V>, rows: Seq<Seq<(usize, A)>>, v: V) -> Seq<
    Seq<(usize, A)>,
> {
    if vs.contains(v) {
        rows
    } else {
        rows.push(Seq::empty())
    }
}

/// The vertex sequence after adding an edge `source -> target`.
pub open spec fn vertices_after_edge<V>(vs: Seq<V>, source: V, target: V) -> Seq<V> {
    interned(interned(vs, source), target)
}

/// The adjacency rows after adding an edge `source -> target` of weight
/// `weight`: both endpoints are interned, then `(target index, weight)`
/// is appended to the row of `source`.
pub open spec fn rows_after_edge<V, A>(
    vs: Seq<V>,
    rows: Seq<Seq<(usize, A)>>,
    source: V,
    target: V,
    weight: A,
) -> Seq<Seq<(usize, A)>> {
    let vs1 = interned(vs, source);
    let rows1 = interned_rows(vs, rows, source);
    let vs2 = interned(vs1, target);
    let rows2 = interned_rows(vs1, rows1, target);
    let si = vs2.index_of(source);
    let ti = vs2.index_of(target);
    rows2.update(si, rows2[si].push((ti as usize, weight)))
}

/// Total number of entries over all adjacency rows.
pub open spec fn total_edges<A>(rows: Seq<Seq<(usize, A)>>) -> nat
    decreases rows.len(),
{
    if rows.len() == 0 {
        0
    } else {
        total_edges(rows.drop_last()) + rows.last().len()
    }
}

/// Adding one more row adds its length to the total.
proof fn lemma_total_edges_push<A>(rows: Seq<Seq<(usize, A)>>, row: Seq<(usize, A)>)
    ensures
        total_edges(rows.push(row)) == total_edges(rows) + row.len(),
{
    assert(rows.push(row).drop_last() =~= rows);
}

/// The total over a prefix never exceeds the total over all rows.
proof fn lemma_total_edges_prefix<A>(rows: Seq<Seq<(usize, A)>>, k: int)
    requires
        0 <= k <= rows.len(),
    ensures
        total_edges(rows.take(k)) <= total_edges(rows),
    decreases rows.len(),
{
    if k < rows.len() {
        lemma_total_edges_prefix(rows.drop_last(), k);
        assert(rows.drop_last().take(k) =~= rows.take(k));
    } else {
        assert(rows.take(k) =~= rows);
    }
}

/// Generic weighted graph; vertices are interned to dense indices.
pub struct TensionGraph<V, A> where V: Clone + Eq + Hash, A: Clone {
    pub vertices: Vec<V>,
    vertex_index: HashMap<V, usize>,
    pub adjacency: Vec<Vec<(usize, A)>>,
    pub directed: bool,
}

impl<V, A> TensionGraph<V, A> where V: Clone + Eq + Hash, A: Clone {
    /// The vertices, in the order of their indices.
    pub closed spec fn vertex_seq(&self) -> Seq<V> {
        self.vertices@
    }

    /// Whether the graph is marked as directed.
    pub closed spec fn is_directed(&self) -> bool {
        self.directed
    }

    /// The adjacency lists as sequences of `(target index, weight)`.
    pub closed spec fn rows(&self) -> Seq<Seq<(usize, A)>> {
        self.adjacency@.map_values(|row: Vec<(usize, A)>| row@)
    }

    /// The private vertex index agrees with the vertex sequence: it maps
    /// exactly the vertices, each to its position.
    pub closed spec fn index_agrees(&self) -> bool {
        &&& forall|i: int|
            0 <= i < self.vertices@.len() ==> #[trigger] self.vertex_index@.contains_key(
                self.vertices@[i],
            ) && self.vertex_index@[self.vertices@[i]] == i
        &&& forall|v: V| #[trigger]
            self.vertex_index@.contains_key(v) ==> self.vertex_index@[v] < self.vertices@.len()
                && self.vertices@[self.vertex_index@[v] as int] == v
    }

    /// The graph's invariant: vertices are distinct, every vertex has a
    /// row, rows past the last vertex are empty, every edge points at a
    /// vertex, and the vertex index agrees with the vertex sequence.
    pub open spec fn well_formed(&self) -> bool {
        &&& self.vertex_seq().no_duplicates()
        &&& self.vertex_seq().len() <= self.rows().len()
        &&& forall|i: int|
            self.vertex_seq().len() <= i < self.rows().len() ==> #[trigger] self.rows()[i].len()
                == 0
        &&& forall|i: int, k: int|
            0 <= i < self.rows().len() && 0 <= k < self.rows()[i].len() ==> (
            #[trigger] self.rows()[i][k]).0 < self.vertex_seq().len()
        &&& self.index_agrees()
    }

    /// An empty directed graph.
    pub fn new() -> (g: Self)
        ensures
            g.well_formed(),
            g.vertex_seq() == Seq::<V>::empty(),
            g.rows() == Seq::<Seq<(usize, A)>>::empty(),
            g.is_directed(),
    {
        let g = TensionGraph {
            vertices: Vec::new(),
            vertex_index: HashMap::new(),
            adjacency: Vec::new(),
            directed: true,
        };
        assert(g.rows() =~= Seq::<Seq<(usize, A)>>::empty());
        g
    }

    /// An empty directed graph with `n` empty adjacency rows reserved
    /// ahead of any vertex.
    pub fn with_capacity(n: usize) -> (g: Self)
        ensures
            g.well_formed(),
            g.vertex_seq() == Seq::<V>::empty(),
            g.rows() == Seq::new(n as nat, |i: int| Seq::<(usize, A)>::empty()),
            g.is_directed(),
    {
        let mut adjacency: Vec<Vec<(usize, A)>> = Vec::with_capacity(n);
        let mut i: usize = 0;
        while i < n
            invariant
                i <= n,
                adjacency@.len() == i,
                forall|k: int| 0 <= k < i ==> (#[trigger] adjacency@[k])@.len() == 0,
            decreases n - i,
        {
            adjacency.push(Vec::new());
            i = i + 1;
        }
        let g = TensionGraph {
            vertices: Vec::with_capacity(n),
            vertex_index: HashMap::with_capacity(n),
            adjacency,
            directed: true,
        };
        assert forall|k: int| 0 <= k < n implies #[trigger] g.rows()[k] =~= Seq::<
            (usize, A),
        >::empty() by {}
        assert(g.rows() =~= Seq::new(n as nat, |i: int| Seq::<(usize, A)>::empty()));
        g
    }

    /// Returns the index of `v`, adding it as a new vertex (with an empty
    /// adjacency row) when it is not yet present.
    pub fn add_vertex(&mut self, v: V) -> (idx: usize)
        requires
            old(self).well_formed(),
            vertex_keys_lawful::<V>(),
        ensures
            final(self).well_formed(),
            final(self).vertex_seq() == interned(old(self).vertex_seq(), v),
            final(self).rows() == interned_rows(old(self).vertex_seq(), old(self).rows(), v),
            final(self).is_directed() == old(self).is_directed(),
            idx < final(self).vertex_seq().len(),
            final(self).vertex_seq()[idx as int] == v,
            !old(self).vertex_seq().contains(v) ==> idx == old(self).vertex_seq().len(),
    {
        match self.vertex_index.get(&v) {
            Some(i) => {
                proof {
                    assert(self.vertices@[*i as int] == v);
                }
                return *i;
            },
            None => {},
        }
        proof {
            if self.vertices@.contains(v) {
                let j = choose|j: int| 0 <= j < self.vertices@.len() && self.vertices@[j] == v;
                assert(self.vertex_index@.contains_key(self.vertices@[j]));
            }
        }
        let idx = self.vertices.len();
        let c = v.clone();
        proof {
            assert(cloned::<V>(v, c));
        }
        let ghost old_rows = self.rows();
        self.vertices.push(c);
        self.vertex_index.insert(v, idx);
        self.adjacency.push(Vec::new());
        assert(self.rows() =~= old_rows.push(Seq::empty()));
        assert(self.vertex_seq() =~= interned(old(self).vertex_seq(), v));
        idx
    }

    /// The number of vertices.
    pub fn vertex_count(&self) -> (n: usize)
        ensures
            n == self.vertex_seq().len(),
    {
        self.vertices.len()
    }

    /// The number of edges: the total length of all adjacency rows.
    pub fn edge_count(&self) -> (m: usize)
        requires
            total_edges(self.rows()) <= usize::MAX,
        ensures
            m == total_edges(self.rows()),
    {
        let ghost rows = self.rows();
        let mut total: usize = 0;
        let mut i: usize = 0;
        while i < self.adjacency.len()
            invariant
                i <= self.adjacency@.len(),
                rows == self.rows(),
                total == total_edges(rows.take(i as int)),
                total_edges(rows) <= usize::MAX,
            decreases self.adjacency@.len() - i,
        {
            proof {
                assert(rows.take(i + 1) =~= rows.take(i as int).push(rows[i as int]));
                lemma_total_edges_push(rows.take(i as int), rows[i as int]);
                lemma_total_edges_prefix(rows, i + 1);
            }
            total = total + self.adjacency[i].len();
            i = i + 1;
        }
        assert(rows.take(i as int) =~= rows);
        total
    }

    /// Adds the edge `source -> target` with the given weight, interning
    /// both endpoints first (source before target).
    pub fn add_edge(&mut self, source: V, target: V, weight: A)
        requires
            old(self).well_formed(),
            vertex_keys_lawful::<V>(),
        ensures
            final(self).well_formed(),
            final(self).vertex_seq() == vertices_after_edge(old(self).vertex_seq(), source, target),
            final(self).rows() == rows_after_edge(
                old(self).vertex_seq(),
                old(self).rows(),
                source,
                target,
                weight,
            ),
            final(self).is_directed() == old(self).is_directed(),
    {
        let ghost src = source;
        let ghost tgt = target;
        let si = self.add_vertex(source);
        let ghost vs1 = self.vertex_seq();
        let ti = self.add_vertex(target);
        let ghost vs2 = self.vertex_seq();
        let ghost rows2 = self.rows();
        proof {
            assert(vs2[si as int] == vs1[si as int]);
            assert(vs2.contains(src));
            let j = vs2.index_of(src);
            assert(vs2[j] == src);
            assert(j == si);
            assert(vs2.contains(tgt));
            let l = vs2.index_of(tgt);
            assert(vs2[l] == tgt);
            assert(l == ti);
        }
        let mut row: Vec<(usize, A)> = Vec::new();
        self.adjacency.set_and_swap(si, &mut row);
        row.push((ti, weight));
        self.adjacency.set_and_swap(si, &mut row);
        assert(self.rows() =~= rows2.update(si as int, rows2[si as int].push((ti, weight))));
    }

    /// The index of `v`, if it is a vertex of the graph.
    pub fn get_vertex_index(&self, v: &V) -> (r: Option<usize>)
        requires
            self.well_formed(),
            vertex_keys_lawful::<V>(),
        ensures
            r is Some <==> self.vertex_seq().contains(*v),
            r matches Some(i) ==> i < self.vertex_seq().len() && self.vertex_seq()[i as int] == *v,
    {
        match self.vertex_index.get(v) {
            Some(i) => Some(*i),
            None => {
                proof {
                    if self.vertices@.contains(*v) {
                        let j = choose|j: int|
                            0 <= j < self.vertices@.len() && self.vertices@[j] == *v;
                        assert(self.vertex_index@.contains_key(self.vertices@[j]));
                    }
                }
                None
            },
        }
    }
}

} // verus!

verus! {

impl<V, A> Default for TensionGraph<V, A> where V: Clone + Eq + Hash, A: Clone {
    /// Same as [`TensionGraph::new`].
    fn default() -> (g: Self)
        ensures
            g.well_formed(),
            g.vertex_seq() == Seq::<V>::empty(),
            g.rows() == Seq::<Seq<(usize, A)>>::empty(),
            g.is_directed(),
    {
        Self::new()
    }
}

/// Adding a vertex that is already present changes nothing: interning
/// twice is the same as interning once, for the vertices and the rows.
pub proof fn law_add_vertex_idempotent<V, A>(vs: Seq<V>, rows: Seq<Seq<(usize, A)>>, v: V)
    ensures
        interned(interned(vs, v), v) == interned(vs, v),
        interned_rows(interned(vs, v), interned_rows(vs, rows, v), v) == interned_rows(vs, rows, v),
{
    if !vs.contains(v) {
        assert(vs.push(v)[vs.len() as int] == v);
    }
}

/// A vertex has exactly one index: in a well-formed graph, two positions
/// holding the same vertex are the same position, so the index that
/// `add_vertex` returns is the one that `get_vertex_index` finds.
pub proof fn law_vertex_index_unique<V>(vs: Seq<V>, i: int, j: int)
    requires
        vs.no_duplicates(),
        0 <= i < vs.len(),
        0 <= j < vs.len(),
        vs[i] == vs[j],
    ensures
        i == j,
{
}

/// Indices are stable: interning a vertex never moves an existing one,
/// keeps the vertices distinct, and grows the sequence by at most one.
pub proof fn law_intern_keeps_indices<V>(vs: Seq<V>, v: V)
    requires
        vs.no_duplicates(),
    ensures
        interned(vs, v).no_duplicates(),
        interned(vs, v).contains(v),
        vs.len() <= interned(vs, v).len() <= vs.len() + 1,
        forall|i: int| 0 <= i < vs.len() ==> #[trigger] interned(vs, v)[i] == vs[i],
{
    if !vs.contains(v) {
        assert(vs.push(v)[vs.len() as int] == v);
    }
}

/// Each added edge adds exactly one to the edge count, and the vertex
/// count grows by the number of endpoints that were new.
pub proof fn law_add_edge_counts<V, A>(
    vs: Seq<V>,
    rows: Seq<Seq<(usize, A)>>,
    source: V,
    target: V,
    weight: A,
)
    requires
        vs.no_duplicates(),
        vs.len() <= rows.len(),
    ensures
        total_edges(rows_after_edge(vs, rows, source, target, weight)) == total_edges(rows) + 1,
        vertices_after_edge(vs, source, target).len() == vs.len() + (if vs.contains(source) {
            0int
        } else {
            1int
        }) + (if vs.contains(target) || source == target {
            0int
        } else {
            1int
        }),
{
    let vs1 = interned(vs, source);
    let rows1 = interned_rows(vs, rows, source);
    let vs2 = interned(vs1, target);
    let rows2 = interned_rows(vs1, rows1, target);
    law_intern_keeps_indices(vs, source);
    law_intern_keeps_indices(vs1, target);
    if !vs.contains(source) {
        lemma_total_edges_push(rows, Seq::empty());
        assert(vs1[vs.len() as int] == source);
    }
    if !vs1.contains(target) {
        lemma_total_edges_push(rows1, Seq::empty());
    }
    if vs.contains(target) {
        let j = choose|j: int| 0 <= j < vs.len() && vs[j] == target;
        assert(vs1[j] == target);
    }
    if source == target {
        assert(vs1.contains(target)) by {
            if !vs.contains(source) {
                assert(vs1[vs.len() as int] == source);
            } else {
                let j = choose|j: int| 0 <= j < vs.len() && vs[j] == source;
                assert(vs1[j] == source);
            }
        }
    }
    let si = vs2.index_of(source);
    assert(vs2.contains(source)) by {
        if !vs.contains(source) {
            assert(vs2[vs.len() as int] == source);
        } else {
            let j = choose|j: int| 0 <= j < vs.len() && vs[j] == source;
            assert(vs2[j] == source);
        }
    }
    assert(rows1.len() >= vs1.len());
    assert(rows2.len() >= vs2.len());
    lemma_total_edges_update_push(rows2, si, (vs2.index_of(target) as usize, weight));
}

/// Appending one entry to one row adds one to the total.
proof fn lemma_total_edges_update_push<A>(
    rows: Seq<Seq<(usize, A)>>,
    i: int,
    e: (usize, A),
)
    requires
        0 <= i < rows.len(),
    ensures
        total_edges(rows.update(i, rows[i].push(e))) == total_edges(rows) + 1,
    decreases rows.len(),
{
    let upd = rows.update(i, rows[i].push(e));
    if i == rows.len() - 1 {
        assert(upd.drop_last() =~= rows.drop_last());
    } else {
        lemma_total_edges_update_push(rows.drop_last(), i, e);
        assert(upd.drop_last() =~= rows.drop_last().update(i, rows[i].push(e)));
    }
}

} // verus!
