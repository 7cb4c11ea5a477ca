//! The arena of layer definitions. A layer definition lives in one arena
//! slot; a [`LayerRef`] is its identity. Since a definition can only name
//! already existing definitions as parents, every arena is acyclic by
//! construction: all parent slots are smaller than the child's slot.

use vstd::prelude::*;

use crate::errors::ModelError;
use crate::layers::LayerPropagateEnum;
use crate::node::LayerRef;
use crate::node::LayerType;
use crate::node::LayerTypeView;
use crate::node::parents_of;
use crate::shape::Shape;

verus! {

/// A layer definition: a user-built graph node before flattening. The
/// library ships sources, flatten and concatenation; other kinds come in
/// through the [`Layer`] capability trait.
pub enum LayerDef<D> {
    Input,
    Flatten,
    Concat,
    Ext(D),
}

/// An externally defined layer: how it connects, what it is called, and
/// how to instantiate it. The registry-extensible escape hatch for layer
/// kinds whose arithmetic the library does not ship.
pub trait Layer<E>: Sized {
    /// The type tag under which this layer serializes and registers.
    fn type_tag(&self) -> String;

    /// How the layer connects into the graph.
    fn get_node(&self) -> LayerType;

    /// The declared output shape `(features, size)`.
    fn get_shape(&self) -> (Shape, Shape);

    /// Create the executable instance for the node named `name`.
    fn create_instance(&self, name: &String) -> Result<LayerPropagateEnum<E>, ModelError>;
}

/// The kind of definition an arena slot holds.
pub enum KindV {
    Input,
    Flatten,
    Concat,
    Ext,
}

/// The mathematical value of one arena slot.
pub struct EntryV {
    pub tag: Seq<char>,
    pub node: LayerTypeView,
    pub features: Shape,
    pub size: Shape,
    pub kind: KindV,
}

pub(crate) struct ArenaEntry<D> {
    pub(crate) tag: String,
    pub(crate) node: LayerType,
    pub(crate) features: Shape,
    pub(crate) size: Shape,
    pub(crate) def: LayerDef<D>,
}

/// The arena that owns every layer definition of one graph.
pub struct LayerArena<D> {
    entries: Vec<ArenaEntry<D>>,
}

impl<D> ArenaEntry<D> {
    pub(crate) open spec fn view_entry(&self) -> EntryV {
        EntryV {
            tag: self.tag@,
            node: self.node.view_kind(),
            features: self.features,
            size: self.size,
            kind: match self.def {
                LayerDef::Input => KindV::Input,
                LayerDef::Flatten => KindV::Flatten,
                LayerDef::Concat => KindV::Concat,
                LayerDef::Ext(_) => KindV::Ext,
            },
        }
    }
}

/// A well-formed arena: every slot's parents point at strictly earlier
/// slots, and the library kinds carry the connection kind they stand for.
pub open spec fn arena_wf(es: Seq<EntryV>) -> bool {
    &&& forall|i: int, j: int| 0 <= i < es.len()
            && 0 <= j < parents_of(#[trigger] es[i].node).len()
            ==> 0 <= #[trigger] parents_of(es[i].node)[j] < i
    &&& forall|i: int| 0 <= i < es.len() ==> match #[trigger] es[i].kind {
            KindV::Input => es[i].node is Dead && es[i].tag == "Input"@,
            KindV::Flatten => es[i].node is Single && es[i].tag == "Flatten"@,
            KindV::Concat => es[i].node is Multi && es[i].tag == "Concat"@,
            KindV::Ext => true,
        }
}

impl<D> View for LayerArena<D> {
    type V = Seq<EntryV>;

    closed spec fn view(&self) -> Seq<EntryV> {
        Seq::new(self.entries@.len(), |i: int| self.entries@[i].view_entry())
    }
}

/// The `(features, size)` shape of a flatten layer over a parent of shape
/// `(pf, ps)`: the product of the two constants where both are known, a
/// variable feature count otherwise; the size is always one row.
pub open spec fn spec_flatten_shape(pf: Shape, ps: Shape) -> Result<(Shape, Shape), ModelError> {
    match (pf, ps) {
        (Shape::Const(x), Shape::Const(y)) => {
            if x * y <= usize::MAX {
                Ok((Shape::Const((x * y) as usize), Shape::Const(1usize)))
            } else {
                Err(ModelError::ShapeError)
            }
        },
        _ => Ok((Shape::Variable, Shape::Const(1usize))),
    }
}

/// The summed constant feature count of the slots `ps` of `es`; fails when
/// any of them has a non-constant feature count.
pub open spec fn spec_sum_features(es: Seq<EntryV>, ps: Seq<int>) -> Result<int, ModelError>
    decreases ps.len(),
{
    if ps.len() == 0 {
        Ok(0int)
    } else {
        match spec_sum_features(es, ps.drop_last()) {
            Ok(s) => {
                match es[ps.last()].features {
                    Shape::Const(n) => Ok(s + n),
                    _ => Err(ModelError::ShapeError),
                }
            },
            Err(e) => Err(e),
        }
    }
}

/// The size a concatenation of the slots `ps` declares: their common
/// constant size if all are constant, variable if any is not, and an error
/// when the constants differ or the list is empty.
pub open spec fn spec_concat_size(es: Seq<EntryV>, ps: Seq<int>) -> Result<Shape, ModelError> {
    if ps.len() == 0 {
        Err(ModelError::ShapeError)
    } else if forall|j: int| 0 <= j < ps.len() ==> (#[trigger] es[ps[j]].size) is Const {
        if forall|j: int| 0 <= j < ps.len() ==> #[trigger] es[ps[j]].size == es[ps[0]].size {
            Ok(es[ps[0]].size)
        } else {
            Err(ModelError::ShapeError)
        }
    } else {
        Ok(Shape::Variable)
    }
}

/// The `(features, size)` shape a concatenation of the slots `ps`
/// declares.
pub open spec fn spec_concat_decl(es: Seq<EntryV>, ps: Seq<int>) -> Result<(Shape, Shape), ModelError> {
    if ps.len() == 0 {
        Err(ModelError::ShapeError)
    } else {
        match spec_sum_features(es, ps) {
            Ok(s) => {
                if s <= usize::MAX {
                    match spec_concat_size(es, ps) {
                        Ok(z) => Ok((Shape::Const(s as usize), z)),
                        Err(e) => Err(e),
                    }
                } else {
                    Err(ModelError::ShapeError)
                }
            },
            Err(e) => Err(e),
        }
    }
}

/// Are all the handles in `ps` valid slots of an arena of length `n`?
pub open spec fn refs_in_range(ps: Seq<int>, n: int) -> bool {
    forall|j: int| 0 <= j < ps.len() ==> 0 <= #[trigger] ps[j] < n
}

impl<D> LayerArena<D> {
    /// An empty arena.
    pub fn new() -> (r: Self)
        ensures
            r@ == Seq::<EntryV>::empty(),
            arena_wf(r@),
    {
        let r = LayerArena { entries: Vec::new() };
        proof {
            assert(r@ =~= Seq::<EntryV>::empty());
        }
        r
    }

    /// How many definitions the arena holds.
    pub fn len(&self) -> (r: usize)
        ensures
            r == self@.len(),
    {
        self.entries.len()
    }

    /// The declared `(features, size)` shape of the definition `r` points
    /// at.
    pub fn get_shape(&self, r: LayerRef) -> (s: (Shape, Shape))
        requires
            r.0 < self@.len(),
        ensures
            s.0 == self@[r.0 as int].features,
            s.1 == self@[r.0 as int].size,
    {
        let e = &self.entries[r.0];
        (e.features, e.size)
    }

    /// The type tag of the definition `r` points at.
    pub fn type_tag(&self, r: LayerRef) -> (s: String)
        requires
            r.0 < self@.len(),
        ensures
            s@ == self@[r.0 as int].tag,
    {
        self.entries[r.0].tag.clone()
    }

    pub(crate) fn entry_at(&self, i: usize) -> (e: &ArenaEntry<D>)
        requires
            i < self@.len(),
        ensures
            e.view_entry() == self@[i as int],
    {
        &self.entries[i]
    }

    /// Add a source definition with the given declared shape.
    pub fn add_input(&mut self, features: Shape, size: Shape) -> (r: LayerRef)
        requires
            arena_wf(old(self)@),
        ensures
            arena_wf(final(self)@),
            r.0 == old(self)@.len(),
            final(self)@ == old(self)@.push(EntryV {
                tag: "Input"@,
                node: LayerTypeView::Dead,
                features: features,
                size: size,
                kind: KindV::Input,
            }),
    {
        let i = self.entries.len();
        self.entries.push(ArenaEntry {
            tag: "Input".to_owned(),
            node: LayerType::DeadEnd,
            features,
            size,
            def: LayerDef::Input,
        });
        proof {
            assert(final(self)@ =~= old(self)@.push(EntryV {
                tag: "Input"@,
                node: LayerTypeView::Dead,
                features: features,
                size: size,
                kind: KindV::Input,
            }));
            lemma_arena_wf_push(old(self)@, final(self)@.last());
        }
        LayerRef(i)
    }

    /// Add a flatten definition over `parent`. Fails with
    /// `GraphShapeMismatch` for a stale handle and with `ShapeError` when
    /// the flattened constant feature count would not fit.
    pub fn add_flatten(&mut self, parent: LayerRef) -> (r: Result<LayerRef, ModelError>)
        requires
            arena_wf(old(self)@),
        ensures
            arena_wf(final(self)@),
            parent.0 >= old(self)@.len() ==> final(self)@ == old(self)@
                && (r matches Err(e) && e is GraphShapeMismatch),
            parent.0 < old(self)@.len() ==> match spec_flatten_shape(
                old(self)@[parent.0 as int].features,
                old(self)@[parent.0 as int].size,
            ) {
                Ok(shape) => {
                    &&& r matches Ok(h) && h.0 == old(self)@.len()
                    &&& final(self)@ == old(self)@.push(EntryV {
                        tag: "Flatten"@,
                        node: LayerTypeView::Single(parent.0 as int),
                        features: shape.0,
                        size: shape.1,
                        kind: KindV::Flatten,
                    })
                },
                Err(e) => final(self)@ == old(self)@
                    && (r matches Err(e2) && e2 == e),
            },
    {
        if parent.0 >= self.entries.len() {
            return Err(ModelError::GraphShapeMismatch);
        }
        let (pf, ps) = self.get_shape(parent);
        let features: Shape;
        match (&pf, &ps) {
            (Shape::Const(x), Shape::Const(y)) => {
                proof {
                    crate::tensor::lemma_usize_mul_fits_u128(*x as int, *y as int);
                }
                let prod: u128 = (*x as u128) * (*y as u128);
                if prod <= (usize::MAX as u128) {
                    features = Shape::Const(*x * *y);
                } else {
                    return Err(ModelError::ShapeError);
                }
            }
            _ => {
                features = Shape::Variable;
            }
        }
        let i = self.entries.len();
        self.entries.push(ArenaEntry {
            tag: "Flatten".to_owned(),
            node: LayerType::SingleParent(parent),
            features,
            size: Shape::Const(1),
            def: LayerDef::Flatten,
        });
        proof {
            assert(final(self)@ =~= old(self)@.push(final(self)@.last()));
            lemma_arena_wf_push(old(self)@, final(self)@.last());
        }
        Ok(LayerRef(i))
    }

    /// Add an externally defined layer. Its connection kind, type tag and
    /// shape are read once, here; a definition naming a stale handle fails
    /// with `GraphShapeMismatch`.
    pub fn add_ext<E>(&mut self, def: D) -> (r: Result<LayerRef, ModelError>)
        where D: Layer<E>,
        requires
            arena_wf(old(self)@),
        ensures
            arena_wf(final(self)@),
            match r {
                Ok(h) => {
                    &&& h.0 == old(self)@.len()
                    &&& final(self)@.len() == old(self)@.len() + 1
                    &&& final(self)@.subrange(0, old(self)@.len() as int) == old(self)@
                    &&& final(self)@.last().kind is Ext
                    &&& refs_in_range(parents_of(final(self)@.last().node), old(self)@.len() as int)
                },
                Err(_) => final(self)@ == old(self)@,
            },
    {
        let tag = def.type_tag();
        let node = def.get_node();
        let (features, size) = def.get_shape();
        let n = self.entries.len();
        let in_range: bool;
        match &node {
            LayerType::DeadEnd => {
                in_range = true;
            }
            LayerType::SingleParent(p) => {
                in_range = p.0 < n;
            }
            LayerType::MultipleParent(ps) => {
                let mut ok = true;
                let mut j: usize = 0;
                while j < ps.len()
                    invariant
                        j <= ps@.len(),
                        ok == (forall|k: int| 0 <= k < j ==> (#[trigger] ps@[k]).0 < n),
                    decreases ps@.len() - j,
                {
                    if ps[j].0 >= n {
                        ok = false;
                    }
                    j = j + 1;
                }
                in_range = ok;
            }
        }
        if !in_range {
            return Err(ModelError::GraphShapeMismatch);
        }
        proof {
            match node.view_kind() {
                LayerTypeView::Dead => {
                    assert(parents_of(node.view_kind()).len() == 0);
                }
                LayerTypeView::Single(p) => {
                    assert(parents_of(node.view_kind()) =~= seq![p]);
                }
                LayerTypeView::Multi(pvs) => {
                    assert(parents_of(node.view_kind()) == pvs);
                }
            }
            assert(refs_in_range(parents_of(node.view_kind()), n as int));
        }
        let i = self.entries.len();
        self.entries.push(ArenaEntry {
            tag,
            node,
            features,
            size,
            def: LayerDef::Ext(def),
        });
        proof {
            assert(final(self)@.subrange(0, old(self)@.len() as int) =~= old(self)@);
            assert(final(self)@ =~= old(self)@.push(final(self)@.last()));
            lemma_arena_wf_push(old(self)@, final(self)@.last());
        }
        Ok(LayerRef(i))
    }
}

/// Pushing an entry whose parents lie inside the old arena, with a kind
/// that matches its connection kind, preserves well-formedness.
proof fn lemma_arena_wf_push(es: Seq<EntryV>, e: EntryV)
    requires
        arena_wf(es),
        refs_in_range(parents_of(e.node), es.len() as int),
        match e.kind {
            KindV::Input => e.node is Dead && e.tag == "Input"@,
            KindV::Flatten => e.node is Single && e.tag == "Flatten"@,
            KindV::Concat => e.node is Multi && e.tag == "Concat"@,
            KindV::Ext => true,
        },
    ensures
        arena_wf(es.push(e)),
{
    let es2 = es.push(e);
    assert forall|i: int, j: int| 0 <= i < es2.len()
        && 0 <= j < parents_of(#[trigger] es2[i].node).len()
        implies 0 <= #[trigger] parents_of(es2[i].node)[j] < i by {
        if i < es.len() {
            assert(es2[i] == es[i]);
        } else {
            assert(es2[i] == e);
        }
    }
    assert forall|i: int| 0 <= i < es2.len() implies match #[trigger] es2[i].kind {
        KindV::Input => es2[i].node is Dead && es2[i].tag == "Input"@,
        KindV::Flatten => es2[i].node is Single && es2[i].tag == "Flatten"@,
        KindV::Concat => es2[i].node is Multi && es2[i].tag == "Concat"@,
        KindV::Ext => true,
    } by {
        if i < es.len() {
            assert(es2[i] == es[i]);
        } else {
            assert(es2[i] == e);
        }
    }
}


impl<D> LayerArena<D> {
    /// Add a concatenation over `parents`, in order. The declared feature
    /// count is the sum of the parents' constant feature counts; the
    /// declared size is their common constant size, or variable when any
    /// parent's size is not constant. Fails with `GraphShapeMismatch` for a
    /// stale handle and with `ShapeError` for an empty list, a
    /// non-constant feature count, an overflowing sum, or differing
    /// constant sizes.
    #[verifier::loop_isolation(false)]
    pub fn add_concat(&mut self, parents: Vec<LayerRef>) -> (r: Result<LayerRef, ModelError>)
        requires
            arena_wf(old(self)@),
        ensures
            arena_wf(final(self)@),
            ({
                let ps = parents@.map_values(|p: LayerRef| p.0 as int);
                if !refs_in_range(ps, old(self)@.len() as int) {
                    final(self)@ == old(self)@
                        && (r matches Err(e) && e is GraphShapeMismatch)
                } else {
                    match spec_concat_decl(old(self)@, ps) {
                        Ok(shape) => {
                            &&& r matches Ok(h) && h.0 == old(self)@.len()
                            &&& final(self)@ == old(self)@.push(EntryV {
                                tag: "Concat"@,
                                node: LayerTypeView::Multi(ps),
                                features: shape.0,
                                size: shape.1,
                                kind: KindV::Concat,
                            })
                        },
                        Err(e) => final(self)@ == old(self)@
                            && (r matches Err(e2) && e2 == e),
                    }
                }
            }),
    {
        let ghost ps = parents@.map_values(|p: LayerRef| p.0 as int);
        let ghost es = self@;
        let n = self.entries.len();
        let m = parents.len();

        // handles must point at existing slots
        let mut ok = true;
        let mut j: usize = 0;
        while j < m
            invariant
                j <= m,
                m == parents@.len(),
                ok == (forall|k: int| 0 <= k < j ==> (#[trigger] parents@[k]).0 < n),
            decreases m - j,
        {
            if parents[j].0 >= n {
                ok = false;
            }
            j = j + 1;
        }
        proof {
            assert(ps.len() == m);
            assert(forall|k: int| 0 <= k < m ==> ps[k] == (#[trigger] parents@[k]).0 as int);
        }
        if !ok {
            proof {
                let k = choose|k: int| 0 <= k < m && !((#[trigger] parents@[k]).0 < n);
                assert(!(0 <= ps[k] < n));
            }
            return Err(ModelError::GraphShapeMismatch);
        }
        proof {
            assert(refs_in_range(ps, n as int));
        }

        if m == 0 {
            return Err(ModelError::ShapeError);
        }

        // sum of the parents' constant feature counts
        let mut sum: u128 = 0;
        let mut i: usize = 0;
        while i < m
            invariant
                i <= m,
                m == parents@.len(),
                n == self.entries@.len(),
                es == self@,
                ps == parents@.map_values(|p: LayerRef| p.0 as int),
                refs_in_range(ps, n as int),
                spec_sum_features(es, ps.subrange(0, i as int)) == Ok::<int, ModelError>(sum as int),
                sum <= i * 0xffffffffffffffff,
            decreases m - i,
        {
            proof {
                assert(ps.subrange(0, i as int + 1).drop_last() =~= ps.subrange(0, i as int));
                assert(ps.subrange(0, i as int + 1).last() == ps[i as int]);
                assert(self@[parents@[i as int].0 as int] == es[ps[i as int]]);
            }
            let p = parents[i];
            let e = &self.entries[p.0];
            proof {
                assert(e.view_entry() == es[ps[i as int]]);
            }
            match &e.features {
                Shape::Const(c) => {
                    proof {
                        assert((i as int + 1) * 0xffffffffffffffff
                            == i * 0xffffffffffffffff + 0xffffffffffffffff) by (nonlinear_arith);
                        assert(m * 0xffffffffffffffff < 0x100000000000000000000000000000000)
                            by (nonlinear_arith)
                            requires 0 <= m, m <= 0xffffffffffffffff;
                        assert(i * 0xffffffffffffffff <= m * 0xffffffffffffffff)
                            by (nonlinear_arith)
                            requires 0 <= i, (i as int) < m, 0 <= m;
                    }
                    sum = sum + (*c as u128);
                }
                _ => {
                    proof {
                        lemma_sum_features_extend_err(es, ps, i as int);
                        lemma_sum_features_err_value(es, ps);
                        assert(spec_concat_decl(es, ps)
                            == Err::<(Shape, Shape), ModelError>(ModelError::ShapeError));
                    }
                    return Err(ModelError::ShapeError);
                }
            }
            i = i + 1;
        }
        proof {
            assert(ps.subrange(0, m as int) =~= ps);
        }
        if sum > (usize::MAX as u128) {
            return Err(ModelError::ShapeError);
        }
        let features = Shape::Const(sum as usize);

        // the common size, if all parents declare a constant one
        let mut all_const = true;
        let mut k: usize = 0;
        while k < m
            invariant
                k <= m,
                m == parents@.len(),
                n == self.entries@.len(),
                es == self@,
                ps == parents@.map_values(|p: LayerRef| p.0 as int),
                refs_in_range(ps, n as int),
                all_const == (forall|t: int| 0 <= t < k
                    ==> (#[trigger] es[ps[t]].size) is Const),
            decreases m - k,
        {
            let p = parents[k];
            let e = &self.entries[p.0];
            proof {
                assert(e.view_entry() == es[ps[k as int]]);
            }
            match &e.size {
                Shape::Const(_) => {
                    proof {
                        assert(es[ps[k as int]].size is Const);
                    }
                }
                _ => {
                    all_const = false;
                    proof {
                        assert(!(es[ps[k as int]].size is Const));
                    }
                }
            }
            k = k + 1;
        }
        let size: Shape;
        if all_const {
            let p0 = parents[0];
            let first = &self.entries[p0.0];
            proof {
                assert(first.view_entry() == es[ps[0]]);
            }
            let v0: usize = match &first.size {
                Shape::Const(c) => *c,
                _ => 0,
            };
            let mut same = true;
            let mut t: usize = 0;
            while t < m
                invariant
                    t <= m,
                    m == parents@.len(),
                    n == self.entries@.len(),
                    es == self@,
                    ps == parents@.map_values(|p: LayerRef| p.0 as int),
                    refs_in_range(ps, n as int),
                    m > 0,
                    es[ps[0]].size == Shape::Const(v0),
                    forall|u: int| 0 <= u < m ==> (#[trigger] es[ps[u]].size) is Const,
                    same == (forall|u: int| 0 <= u < t
                        ==> #[trigger] es[ps[u]].size == es[ps[0]].size),
                decreases m - t,
            {
                let p = parents[t];
                let e = &self.entries[p.0];
                proof {
                    assert(e.view_entry() == es[ps[t as int]]);
                }
                match &e.size {
                    Shape::Const(c) => {
                        if *c != v0 {
                            same = false;
                            proof {
                                assert(es[ps[t as int]].size != es[ps[0]].size);
                            }
                        } else {
                            proof {
                                assert(es[ps[t as int]].size == es[ps[0]].size);
                            }
                        }
                    }
                    _ => {
                        same = false;
                        proof {
                            assert(es[ps[t as int]].size != es[ps[0]].size);
                        }
                    }
                }
                t = t + 1;
            }
            if !same {
                proof {
                    assert(spec_concat_size(es, ps) == Err::<Shape, ModelError>(ModelError::ShapeError));
                    assert(spec_concat_decl(es, ps) == Err::<(Shape, Shape), ModelError>(ModelError::ShapeError));
                }
                return Err(ModelError::ShapeError);
            }
            size = Shape::Const(v0);
            proof {
                assert(spec_concat_size(es, ps) == Ok::<Shape, ModelError>(es[ps[0]].size));
                assert(spec_concat_size(es, ps) == Ok::<Shape, ModelError>(size));
            }
        } else {
            size = Shape::Variable;
            proof {
                assert(!(forall|j: int| 0 <= j < ps.len() ==> (#[trigger] es[ps[j]].size) is Const));
                assert(spec_concat_size(es, ps) == Ok::<Shape, ModelError>(Shape::Variable));
            }
        }
        proof {
            assert(spec_concat_decl(es, ps) == Ok::<(Shape, Shape), ModelError>((features, size)));
        }

        let i2 = self.entries.len();
        self.entries.push(ArenaEntry {
            tag: "Concat".to_owned(),
            node: LayerType::MultipleParent(parents),
            features,
            size,
            def: LayerDef::Concat,
        });
        proof {
            assert(final(self)@ =~= es.push(final(self)@.last()));
            assert(parents_of(final(self)@.last().node) == ps);
            lemma_arena_wf_push(es, final(self)@.last());
        }
        Ok(LayerRef(i2))
    }
}

/// A failed feature sum always fails with `ShapeError`.
proof fn lemma_sum_features_err_value(es: Seq<EntryV>, ps: Seq<int>)
    ensures
        spec_sum_features(es, ps) is Err
            ==> spec_sum_features(es, ps) == Err::<int, ModelError>(ModelError::ShapeError),
    decreases ps.len(),
{
    if ps.len() > 0 {
        lemma_sum_features_err_value(es, ps.drop_last());
    }
}

/// If the feature count of slot `ps[i]` is not constant, the whole sum
/// fails.
proof fn lemma_sum_features_extend_err(es: Seq<EntryV>, ps: Seq<int>, i: int)
    requires
        0 <= i < ps.len(),
        !(es[ps[i]].features is Const),
    ensures
        spec_sum_features(es, ps) is Err,
    decreases ps.len(),
{
    if ps.len() > 0 {
        if i == ps.len() - 1 {
            match spec_sum_features(es, ps.drop_last()) {
                Ok(_) => {}
                Err(_) => {}
            }
        } else {
            assert(ps.drop_last()[i] == ps[i]);
            lemma_sum_features_extend_err(es, ps.drop_last(), i);
        }
    }
}

/// A source layer: a declared model input.
pub struct Input;

impl Input {
    /// Declare a model input with the given `(features, size)` shape.
    pub fn new<D>(arena: &mut LayerArena<D>, features: Shape, size: Shape) -> (r: LayerRef)
        requires
            arena_wf(old(arena)@),
        ensures
            arena_wf(final(arena)@),
            r.0 == old(arena)@.len(),
            final(arena)@ == old(arena)@.push(EntryV {
                tag: "Input"@,
                node: LayerTypeView::Dead,
                features: features,
                size: size,
                kind: KindV::Input,
            }),
    {
        arena.add_input(features, size)
    }
}

/// A layer that reshapes its parent's output into a single row.
pub struct Flatten;

impl Flatten {
    /// Declare a flatten layer over `parent`.
    pub fn new<D>(arena: &mut LayerArena<D>, parent: LayerRef) -> (r: Result<LayerRef, ModelError>)
        requires
            arena_wf(old(arena)@),
        ensures
            arena_wf(final(arena)@),
            parent.0 >= old(arena)@.len() ==> final(arena)@ == old(arena)@
                && (r matches Err(e) && e is GraphShapeMismatch),
            parent.0 < old(arena)@.len() ==> match spec_flatten_shape(
                old(arena)@[parent.0 as int].features,
                old(arena)@[parent.0 as int].size,
            ) {
                Ok(shape) => {
                    &&& r matches Ok(h) && h.0 == old(arena)@.len()
                    &&& final(arena)@ == old(arena)@.push(EntryV {
                        tag: "Flatten"@,
                        node: LayerTypeView::Single(parent.0 as int),
                        features: shape.0,
                        size: shape.1,
                        kind: KindV::Flatten,
                    })
                },
                Err(e) => final(arena)@ == old(arena)@
                    && (r matches Err(e2) && e2 == e),
            },
    {
        arena.add_flatten(parent)
    }
}

/// A layer that concatenates its parents' outputs horizontally.
pub struct Concat;

impl Concat {
    /// Declare a concatenation over `parents`, in order.
    pub fn new<D>(arena: &mut LayerArena<D>, parents: Vec<LayerRef>) -> (r: Result<LayerRef, ModelError>)
        requires
            arena_wf(old(arena)@),
        ensures
            arena_wf(final(arena)@),
            ({
                let ps = parents@.map_values(|p: LayerRef| p.0 as int);
                if !refs_in_range(ps, old(arena)@.len() as int) {
                    final(arena)@ == old(arena)@
                        && (r matches Err(e) && e is GraphShapeMismatch)
                } else {
                    match spec_concat_decl(old(arena)@, ps) {
                        Ok(shape) => {
                            &&& r matches Ok(h) && h.0 == old(arena)@.len()
                            &&& final(arena)@ == old(arena)@.push(EntryV {
                                tag: "Concat"@,
                                node: LayerTypeView::Multi(ps),
                                features: shape.0,
                                size: shape.1,
                                kind: KindV::Concat,
                            })
                        },
                        Err(e) => final(arena)@ == old(arena)@
                            && (r matches Err(e2) && e2 == e),
                    }
                }
            }),
    {
        arena.add_concat(parents)
    }
}


/// The inert extension definition: the `D` parameter of arenas holding
/// only library-shipped layers. It defines nothing and never appears in
/// such an arena.
pub struct NoExtLayer;

impl Layer<crate::layers::NoExtInstance> for NoExtLayer {
    fn type_tag(&self) -> String {
        String::new()
    }

    fn get_node(&self) -> LayerType {
        LayerType::DeadEnd
    }

    fn get_shape(&self) -> (Shape, Shape) {
        (Shape::Variable, Shape::Variable)
    }

    fn create_instance(&self, name: &String)
        -> Result<LayerPropagateEnum<crate::layers::NoExtInstance>, ModelError> {
        Err(ModelError::GraphShapeMismatch)
    }
}

} // verus!
