use vstd::prelude::*;

use crate::ns::{LinearNamespace, Name};
use crate::solver::{MatrixBuilder, MatrixError, MatrixEvaluator};
use crate::types::Scalar;

verus! {

/// What the circuit layer can fail with: a failure of the matrix layer,
/// surfaced unchanged, or an operation on a handle whose circuit is gone.
#[derive(Debug, Clone, Copy, PartialEq, Eq, Structural)]
pub enum CircuitError {
    MatrixError(MatrixError),
    CircuitDead,
}

impl CircuitError {
    /// Whether this wraps the matrix layer's error `m`.
    pub open spec fn wraps(self, m: MatrixError) -> bool {
        self == CircuitError::MatrixError(m)
    }
}

/// One terminal of a bipole: ground, or a node named in the circuit's node
/// namespace.
#[derive(Debug)]
pub struct Pin(Option<Name>);

impl Pin {
    /// The node name behind the pin, none for ground.
    pub closed spec fn name(self) -> Option<Name> {
        self.0
    }

    pub open spec fn is_ground_spec(self) -> bool {
        self.name() is None
    }

    /// The pin points at cell `c` of its namespace.
    pub open spec fn points_at(self, c: int) -> bool {
        match self.name() {
            Option::None => false,
            Option::Some(n) => n.cell_idx() == c,
        }
    }

    /// Ground, or a handle on a live cell of `ns`.
    pub open spec fn wf(self, ns: LinearNamespace) -> bool {
        match self.name() {
            Option::None => true,
            Option::Some(n) => n.wf(ns) && ns.live(n.cell_idx()),
        }
    }

    /// The node id the pin reads, none for ground.
    pub open spec fn id_spec(self, ns: LinearNamespace) -> Option<usize> {
        match self.name() {
            Option::None => Option::None,
            Option::Some(n) => Option::Some(ns.id_of(n)),
        }
    }

    /// The ground pin.
    pub fn ground() -> (r: Pin)
        ensures
            r.is_ground_spec(),
    {
        Pin(None)
    }

    /// A pin on the node named `n`.
    pub fn from_name(n: Name) -> (r: Pin)
        ensures
            r.name() == Option::Some(n),
    {
        Pin(Some(n))
    }

    pub fn is_ground(&self) -> (r: bool)
        ensures
            r == self.is_ground_spec(),
    {
        self.0.is_none()
    }

    /// The pin's current node id, none for ground.
    pub fn id(&self, ns: &LinearNamespace) -> (r: Option<usize>)
        requires
            self.wf(*ns),
        ensures
            r == self.id_spec(*ns),
    {
        match &self.0 {
            None => None,
            Some(n) => Some(n.id(ns)),
        }
    }

    /// Connect two pins. Ground absorbs: a node pin connected to ground
    /// becomes ground and its name is given back to the namespace. Two node
    /// pins are unified: this pin's name is aliased onto the other's, so
    /// both report the other's id from then on, through every later
    /// renumbering.
    pub fn connect(&mut self, other: &mut Pin, ns: &mut LinearNamespace)
        requires
            old(ns).wf(),
            old(self).wf(*old(ns)),
            old(other).wf(*old(ns)),
            match (old(self).name(), old(other).name()) {
                (Option::Some(a), Option::Some(b)) => old(ns).holders()[b.cell_idx()]
                    < usize::MAX,
                _ => true,
            },
        ensures
            final(ns).wf(),
            final(self).wf(*final(ns)),
            final(other).wf(*final(ns)),
            final(ns).ids() == old(ns).ids(),
            final(ns).order() == old(ns).order(),
            final(ns).next_id() == old(ns).next_id(),
            final(ns).recording() == old(ns).recording(),
            match (old(self).name(), old(other).name()) {
                (Option::Some(a), Option::Some(b)) => {
                    &&& final(self).points_at(b.cell_idx())
                    &&& *final(other) == *old(other)
                    &&& final(self).id_spec(*final(ns)) == final(other).id_spec(*final(ns))
                    &&& final(ns).holders() == if a.cell_idx() == b.cell_idx() {
                        old(ns).holders()
                    } else {
                        old(ns).holders().update(
                            a.cell_idx(),
                            (old(ns).holders()[a.cell_idx()] - 1) as usize,
                        ).update(b.cell_idx(), (old(ns).holders()[b.cell_idx()] + 1) as usize)
                    }
                    &&& final(ns).events() == if old(ns).recording() {
                        old(ns).events().push((old(ns).id_of(a), old(ns).id_of(b)))
                    } else {
                        old(ns).events()
                    }
                },
                (Option::Some(a), Option::None) => {
                    &&& final(self).is_ground_spec()
                    &&& *final(other) == *old(other)
                    &&& final(ns).holders() == old(ns).holders().update(
                        a.cell_idx(),
                        (old(ns).holders()[a.cell_idx()] - 1) as usize,
                    )
                    &&& final(ns).events() == old(ns).events()
                },
                (Option::None, Option::Some(b)) => {
                    &&& final(other).is_ground_spec()
                    &&& *final(self) == *old(self)
                    &&& final(ns).holders() == old(ns).holders().update(
                        b.cell_idx(),
                        (old(ns).holders()[b.cell_idx()] - 1) as usize,
                    )
                    &&& final(ns).events() == old(ns).events()
                },
                (Option::None, Option::None) => {
                    &&& *final(self) == *old(self)
                    &&& *final(other) == *old(other)
                    &&& *final(ns) == *old(ns)
                },
            },
    {
        if self.0.is_some() && other.0.is_some() {
            let b: &Name = other.0.as_ref().unwrap();
            let a: &mut Name = self.0.as_mut().unwrap();
            a.unify(b, ns);
        } else if self.0.is_some() {
            let nm = self.0.take().unwrap();
            ns.release(nm);
        } else if other.0.is_some() {
            let nm = other.0.take().unwrap();
            ns.release(nm);
        }
    }
}

/// What a bipole is: a resistance, an imposed potential, or an imposed
/// current, each with its one scalar parameter.
#[derive(Debug, Clone, Copy)]
pub enum BipoleKind<S: Scalar> {
    Resistor(S),
    VoltageSource(S),
    CurrentSource(S),
}

/// A two-pin element of the netlist. A voltage source additionally owns a
/// name in the source namespace for its MNA constraint row.
#[derive(Debug)]
pub struct Bipole<S: Scalar> {
    pos: Pin,
    neg: Pin,
    vsid: Option<Name>,
    kind: BipoleKind<S>,
}

impl<S: Scalar> Bipole<S> {
    pub closed spec fn spec_pos(self) -> Pin {
        self.pos
    }

    pub closed spec fn spec_neg(self) -> Pin {
        self.neg
    }

    pub closed spec fn spec_vsid(self) -> Option<Name> {
        self.vsid
    }

    pub closed spec fn spec_kind(self) -> BipoleKind<S> {
        self.kind
    }

    /// The positive pin.
    pub fn pos(&self) -> (r: &Pin)
        ensures
            *r == self.spec_pos(),
    {
        &self.pos
    }

    /// The negative pin.
    pub fn neg(&self) -> (r: &Pin)
        ensures
            *r == self.spec_neg(),
    {
        &self.neg
    }

    /// The source-namespace name of a voltage source's constraint row.
    pub fn vsid(&self) -> (r: Option<&Name>)
        ensures
            match r {
                Option::Some(n) => self.spec_vsid() == Option::Some(*n),
                Option::None => self.spec_vsid() is None,
            },
    {
        self.vsid.as_ref()
    }

    /// What the bipole is.
    pub fn kind(&self) -> (r: &BipoleKind<S>)
        ensures
            *r == self.spec_kind(),
    {
        &self.kind
    }

    /// Pins on live cells; a source-row name, live in its namespace, held
    /// exactly by voltage sources.
    pub open spec fn wf(self, ndns: LinearNamespace, vsns: LinearNamespace) -> bool {
        &&& self.spec_pos().wf(ndns)
        &&& self.spec_neg().wf(ndns)
        &&& (self.spec_kind() is VoltageSource <==> self.spec_vsid() is Some)
        &&& match self.spec_vsid() {
            Option::Some(n) => n.wf(vsns) && vsns.live(n.cell_idx()),
            Option::None => true,
        }
    }

    /// The source-row id of a voltage source, none otherwise.
    pub open spec fn vsid_spec(self, vsns: LinearNamespace) -> Option<usize> {
        match self.spec_vsid() {
            Option::Some(n) => Option::Some(vsns.id_of(n)),
            Option::None => Option::None,
        }
    }
}

/// The pin of `b` that `positive` selects.
pub open spec fn pin_of<S: Scalar>(b: Bipole<S>, positive: bool) -> Pin {
    if positive {
        b.spec_pos()
    } else {
        b.spec_neg()
    }
}

/// The conductance stamp of a resistor kind, negated for a repeal; anything
/// else leaves the matrix alone. Both pins on ground stamp nothing; one pin
/// on ground stamps only the other's diagonal.
pub open spec fn conductance_delta_vals<S: Scalar>(
    m: Seq<S>,
    stride: int,
    kind: BipoleKind<S>,
    pos: Option<usize>,
    neg: Option<usize>,
    negate: bool,
) -> Seq<S> {
    match kind {
        BipoleKind::Resistor(r) => {
            let g = if negate {
                r.spec_recip().spec_neg()
            } else {
                r.spec_recip()
            };
            match (pos, neg) {
                (Option::Some(p), Option::Some(n)) => crate::solver::stamped_conductance(
                    m,
                    stride,
                    p,
                    Option::Some(n),
                    g,
                ),
                (Option::Some(p), Option::None) => crate::solver::stamped_conductance(
                    m,
                    stride,
                    p,
                    Option::None,
                    g,
                ),
                (Option::None, Option::Some(n)) => crate::solver::stamped_conductance(
                    m,
                    stride,
                    n,
                    Option::None,
                    g,
                ),
                (Option::None, Option::None) => m,
            }
        },
        _ => m,
    }
}

/// The right-hand-side stamp of a source kind, negated for a repeal; a
/// resistor leaves it alone. A voltage source adds its potential on its
/// source row; a current source adds its current into the positive node and
/// the negated current into the negative one, ground pins taking nothing.
pub open spec fn known_delta_vals<S: Scalar>(
    k: Seq<S>,
    nodes: int,
    kind: BipoleKind<S>,
    pos: Option<usize>,
    neg: Option<usize>,
    vsid: Option<usize>,
    negate: bool,
) -> Seq<S> {
    match kind {
        BipoleKind::Resistor(_) => k,
        BipoleKind::VoltageSource(v) => {
            let vv = if negate {
                v.spec_neg()
            } else {
                v
            };
            match vsid {
                Option::Some(s) => k.update(nodes + s, k[nodes + s].spec_plus(vv)),
                Option::None => k,
            }
        },
        BipoleKind::CurrentSource(i) => {
            let cc = if negate {
                i.spec_neg()
            } else {
                i
            };
            let k1 = match pos {
                Option::Some(p) => k.update(p as int, k[p as int].spec_plus(cc)),
                Option::None => k,
            };
            match neg {
                Option::Some(n) => k1.update(n as int, k1[n as int].spec_plus(cc.spec_neg())),
                Option::None => k1,
            }
        },
    }
}

/// `conductance_delta_vals` with the ids a bipole's pins read.
pub open spec fn resistor_matrix_delta<S: Scalar>(
    m: Seq<S>,
    b: Bipole<S>,
    ndns: LinearNamespace,
    stride: int,
    negate: bool,
) -> Seq<S> {
    conductance_delta_vals(
        m,
        stride,
        b.spec_kind(),
        b.spec_pos().id_spec(ndns),
        b.spec_neg().id_spec(ndns),
        negate,
    )
}

/// `known_delta_vals` with the ids a bipole's pins and source row read.
pub open spec fn source_known_delta<S: Scalar>(
    k: Seq<S>,
    b: Bipole<S>,
    ndns: LinearNamespace,
    vsns: LinearNamespace,
    nodes: int,
    negate: bool,
) -> Seq<S> {
    known_delta_vals(
        k,
        nodes,
        b.spec_kind(),
        b.spec_pos().id_spec(ndns),
        b.spec_neg().id_spec(ndns),
        b.vsid_spec(vsns),
        negate,
    )
}

/// What one bipole stamps into the MNA matrix `m`: a resistor its
/// conductance between its pins (nothing when both are ground), a voltage
/// source its ±1 constraint pair, a current source nothing.
pub open spec fn bipole_matrix_stamp<S: Scalar>(
    m: Seq<S>,
    b: Bipole<S>,
    ndns: LinearNamespace,
    vsns: LinearNamespace,
    nodes: int,
    stride: int,
) -> Seq<S> {
    match b.spec_kind() {
        BipoleKind::Resistor(_) => resistor_matrix_delta(m, b, ndns, stride, false),
        BipoleKind::VoltageSource(_) => {
            match b.vsid_spec(vsns) {
                Option::Some(s) => crate::solver::stamped_vs_con(
                    m,
                    stride,
                    nodes,
                    s,
                    b.spec_pos().id_spec(ndns),
                    b.spec_neg().id_spec(ndns),
                    S::spec_one(),
                    S::spec_one().spec_neg(),
                ),
                Option::None => m,
            }
        },
        BipoleKind::CurrentSource(_) => m,
    }
}

/// The MNA matrix after the first `i` bipoles have stamped, in list order,
/// onto a zeroed square of side `stride`.
pub open spec fn matrix_after<S: Scalar>(
    bs: Seq<Bipole<S>>,
    ndns: LinearNamespace,
    vsns: LinearNamespace,
    nodes: int,
    stride: int,
    i: int,
) -> Seq<S>
    decreases i,
{
    if i <= 0 {
        crate::solver::zero_vector::<S>(stride * stride)
    } else {
        bipole_matrix_stamp(
            matrix_after(bs, ndns, vsns, nodes, stride, i - 1),
            bs[i - 1],
            ndns,
            vsns,
            nodes,
            stride,
        )
    }
}

/// What one bipole stamps into the right-hand side `k`: a voltage source its
/// potential on its source row, a current source its current into the
/// positive node and out of the negative one, a resistor nothing.
pub open spec fn bipole_known_stamp<S: Scalar>(
    k: Seq<S>,
    b: Bipole<S>,
    ndns: LinearNamespace,
    vsns: LinearNamespace,
    nodes: int,
) -> Seq<S> {
    source_known_delta(k, b, ndns, vsns, nodes, false)
}

/// The right-hand side after the first `i` bipoles have stamped, in list
/// order, onto a zeroed vector of length `stride`.
pub open spec fn known_after<S: Scalar>(
    bs: Seq<Bipole<S>>,
    ndns: LinearNamespace,
    vsns: LinearNamespace,
    nodes: int,
    stride: int,
    i: int,
) -> Seq<S>
    decreases i,
{
    if i <= 0 {
        crate::solver::zero_vector::<S>(stride)
    } else {
        bipole_known_stamp(
            known_after(bs, ndns, vsns, nodes, stride, i - 1),
            bs[i - 1],
            ndns,
            vsns,
            nodes,
        )
    }
}

/// A handle onto a bipole of a circuit: the bipole's position in the
/// circuit's list. The handle does not keep the circuit alive; operations
/// take the circuit through an upgradeable slot and fail with `CircuitDead`
/// when it is gone.
#[derive(Debug, Clone, Copy)]
pub struct BipoleRef {
    idx: usize,
}

impl BipoleRef {
    pub closed spec fn index(self) -> int {
        self.idx as int
    }

    /// A handle's index is a position in the circuit's list, so it is never
    /// negative; stated for callers, who cannot see inside the handle.
    pub proof fn lemma_index_nonneg(self)
        ensures
            self.index() >= 0,
    {
    }

    /// Change the kind of the bipole this handle points at. The circuit is
    /// reached through an upgradeable slot, as the handle does not own it:
    /// when the slot is empty the circuit is gone and the call fails with
    /// `CircuitDead`, as it does for a handle that does not point into the
    /// circuit's list. Otherwise the old kind's effect is unstamped, the
    /// source row released or allocated as the kind leaves or enters
    /// `VoltageSource`, and the new kind's effect stamped; what cannot land
    /// while a linearize or rebuild is pending waits for the next `update`.
    pub fn set_kind<S: Scalar>(
        &self,
        circuit: &mut Option<Circuit<S>>,
        kind: BipoleKind<S>,
    ) -> (r: Result<(), CircuitError>)
        requires
            match *old(circuit) {
                Option::Some(c) => c.wf() && (kind is VoltageSource ==> c.src_ns().next_id()
                    < usize::MAX),
                Option::None => true,
            },
        ensures
            match *old(circuit) {
                Option::None => r == Err::<(), CircuitError>(CircuitError::CircuitDead)
                    && *final(circuit) is None,
                Option::Some(c0) => match *final(circuit) {
                    Option::Some(c1) => {
                        &&& c1.wf()
                        &&& if self.index() < c0.bipoles().len() {
                            &&& r == Ok::<(), CircuitError>(())
                            &&& set_kind_relation(c0, c1, self.index(), kind)
                        } else {
                            &&& r == Err::<(), CircuitError>(CircuitError::CircuitDead)
                            &&& c1 == c0
                        }
                    },
                    Option::None => false,
                },
            },
    {
        match circuit.as_mut() {
            None => Err(CircuitError::CircuitDead),
            Some(c) => {
                if self.idx >= c.bipoles.len() {
                    return Err(CircuitError::CircuitDead);
                }
                c.set_kind_at(self.idx, kind);
                Ok(())
            },
        }
    }
}

impl From<MatrixError> for CircuitError {
    /// A matrix-layer failure surfaces unchanged, wrapped once.
    fn from(v: MatrixError) -> (r: CircuitError) {
        CircuitError::MatrixError(v)
    }
}

impl vstd::std_specs::convert::FromSpecImpl<MatrixError> for CircuitError {
    open spec fn obeys_from_spec() -> bool {
        true
    }

    open spec fn from_spec(v: MatrixError) -> CircuitError {
        CircuitError::MatrixError(v)
    }
}

/// The netlist and its derived state: the bipoles, the node and source
/// namespaces, the assembling matrix, the factored evaluator, and the two
/// flags that say what is stale. When `need_linearize` is clear the builder
/// is sized to the namespaces; when `need_rebuild` is also clear the
/// evaluator was factored from the current builder.
pub struct Circuit<S: Scalar> {
    bipoles: Vec<Bipole<S>>,
    vsns: LinearNamespace,
    ndns: LinearNamespace,
    builder: MatrixBuilder<S>,
    eval: MatrixEvaluator<S>,
    need_lin: bool,
    need_build: bool,
}

impl<S: Scalar> Circuit<S> {
    pub closed spec fn bipoles(self) -> Seq<Bipole<S>> {
        self.bipoles@
    }

    pub closed spec fn node_ns(self) -> LinearNamespace {
        self.ndns
    }

    pub closed spec fn src_ns(self) -> LinearNamespace {
        self.vsns
    }

    pub closed spec fn spec_builder(self) -> MatrixBuilder<S> {
        self.builder
    }

    pub closed spec fn spec_eval(self) -> MatrixEvaluator<S> {
        self.eval
    }

    pub closed spec fn need_lin_spec(self) -> bool {
        self.need_lin
    }

    pub closed spec fn need_build_spec(self) -> bool {
        self.need_build
    }

    /// No two pins of the netlist share a cell, and no two source rows do.
    pub open spec fn distinct_cells(self) -> bool {
        &&& forall|i1: int, p1: bool, i2: int, p2: bool|
            0 <= i1 < self.bipoles().len() && 0 <= i2 < self.bipoles().len() && (i1 != i2 || p1
                != p2) ==> match (
                (#[trigger] pin_of(self.bipoles()[i1], p1)).name(),
                (#[trigger] pin_of(self.bipoles()[i2], p2)).name(),
            ) {
                (Option::Some(a), Option::Some(b)) => a.cell_idx() != b.cell_idx(),
                _ => true,
            }
        &&& forall|i1: int, i2: int|
            0 <= i1 < self.bipoles().len() && 0 <= i2 < self.bipoles().len() && i1 != i2
                ==> match (
                (#[trigger] self.bipoles()[i1]).spec_vsid(),
                (#[trigger] self.bipoles()[i2]).spec_vsid(),
            ) {
                (Option::Some(a), Option::Some(b)) => a.cell_idx() != b.cell_idx(),
                _ => true,
            }
    }

    pub open spec fn wf(self) -> bool {
        &&& self.node_ns().wf()
        &&& self.src_ns().wf()
        &&& self.spec_builder().wf()
        &&& self.spec_eval().wf()
        &&& forall|i: int|
            0 <= i < self.bipoles().len() ==> (#[trigger] self.bipoles()[i]).wf(
                self.node_ns(),
                self.src_ns(),
            )
        &&& self.distinct_cells()
        &&& self.need_lin_spec() ==> self.need_build_spec()
        &&& !self.need_lin_spec() ==> {
            &&& self.spec_builder().spec_nodes() == self.node_ns().next_id()
            &&& self.spec_builder().spec_sources() == self.src_ns().next_id()
        }
        &&& !self.need_build_spec() ==> {
            &&& self.spec_eval().spec_nodes() == self.spec_builder().spec_nodes()
            &&& self.spec_eval().spec_stride() == self.spec_builder().spec_stride()
        }
    }

    pub fn builder(&self) -> (r: &MatrixBuilder<S>)
        ensures
            *r == self.spec_builder(),
    {
        &self.builder
    }

    pub fn evaluator(&self) -> (r: &MatrixEvaluator<S>)
        ensures
            *r == self.spec_eval(),
    {
        &self.eval
    }

    /// The node namespace, for reading pin ids.
    pub fn node_namespace(&self) -> (r: &LinearNamespace)
        ensures
            *r == self.node_ns(),
    {
        &self.ndns
    }

    /// The source namespace, for reading source-row ids.
    pub fn src_namespace(&self) -> (r: &LinearNamespace)
        ensures
            *r == self.src_ns(),
    {
        &self.vsns
    }

    pub fn need_linearize(&self) -> (r: bool)
        ensures
            r == self.need_lin_spec(),
    {
        self.need_lin
    }

    pub fn need_rebuild(&self) -> (r: bool)
        ensures
            r == self.need_build_spec(),
    {
        self.need_build
    }

    pub fn bipole_count(&self) -> (r: usize)
        ensures
            r == self.bipoles().len(),
    {
        self.bipoles.len()
    }

    /// The bipole a handle points at, none when the handle does not point
    /// into this circuit's list.
    pub fn bipole(&self, b: &BipoleRef) -> (r: Option<&Bipole<S>>)
        ensures
            match r {
                Option::Some(bp) => b.index() < self.bipoles().len() && *bp == self.bipoles()[
                    b.index()
                ],
                Option::None => b.index() >= self.bipoles().len(),
            },
    {
        if b.idx < self.bipoles.len() {
            Some(&self.bipoles[b.idx])
        } else {
            None
        }
    }

    /// An empty circuit: no bipoles, fresh namespaces, a zero-by-zero
    /// builder and its trivially factored evaluator, both flags clear.
    pub fn new() -> (r: Result<Circuit<S>, CircuitError>)
        ensures
            r is Ok,
            match r {
                Ok(c) => {
                    &&& c.wf()
                    &&& c.bipoles().len() == 0
                    &&& c.node_ns().next_id() == 0
                    &&& c.node_ns().n_cells() == 0
                    &&& c.src_ns().next_id() == 0
                    &&& c.src_ns().n_cells() == 0
                    &&& c.spec_builder().spec_nodes() == 0
                    &&& c.spec_builder().spec_stride() == 0
                    &&& c.spec_eval().spec_nodes() == 0
                    &&& c.spec_eval().spec_stride() == 0
                    &&& c.spec_eval().spec_dirty()
                    &&& !c.need_lin_spec()
                    &&& !c.need_build_spec()
                },
                Err(_) => false,
            },
    {
        let builder = match MatrixBuilder::<S>::new(0, 0) {
            Ok(b) => b,
            Err(e) => {
                proof {
                    assert(false);
                }
                return Err(CircuitError::MatrixError(e));
            },
        };
        // a zero-by-zero system has nothing to factor: its evaluator is
        // built without consulting the backend, so construction cannot fail
        let eval = MatrixEvaluator::<S>::trivial();
        Ok(
            Circuit {
                bipoles: Vec::new(),
                vsns: LinearNamespace::new(),
                ndns: LinearNamespace::new(),
                builder,
                eval,
                need_lin: false,
                need_build: false,
            },
        )
    }

    /// Add a bipole of this kind to the netlist: two fresh node pins and,
    /// for a voltage source, a fresh source row. Both flags are set; the new
    /// element's stamps reach the matrix at the next `update`.
    pub fn add(&mut self, kind: BipoleKind<S>) -> (r: BipoleRef)
        requires
            old(self).wf(),
            old(self).node_ns().next_id() + 2 <= usize::MAX,
            old(self).src_ns().next_id() < usize::MAX,
        ensures
            final(self).wf(),
            r.index() == old(self).bipoles().len(),
            final(self).bipoles().len() == old(self).bipoles().len() + 1,
            forall|i: int|
                0 <= i < old(self).bipoles().len() ==> #[trigger] final(self).bipoles()[i] == old(self).bipoles()[i],
            final(self).bipoles()[r.index()].spec_kind() == kind,
            final(self).bipoles()[r.index()].spec_pos().id_spec(final(self).node_ns())
                == Option::Some(old(self).node_ns().next_id()),
            final(self).bipoles()[r.index()].spec_neg().id_spec(final(self).node_ns())
                == Option::Some((old(self).node_ns().next_id() + 1) as usize),
            final(self).bipoles()[r.index()].vsid_spec(final(self).src_ns()) == if kind
                is VoltageSource {
                Option::Some(old(self).src_ns().next_id())
            } else {
                Option::<usize>::None
            },
            final(self).need_lin_spec(),
            final(self).need_build_spec(),
            final(self).spec_builder() == old(self).spec_builder(),
            final(self).spec_eval() == old(self).spec_eval(),
            final(self).node_ns().next_id() == old(self).node_ns().next_id() + 2,
            final(self).src_ns().next_id() == old(self).src_ns().next_id() + (if kind
                is VoltageSource {
                1int
            } else {
                0int
            }),
    {
        let ghost nd0 = self.ndns;
        let ghost vs0 = self.vsns;
        self.need_lin = true;
        self.need_build = true;
        let n_pos = self.ndns.next();
        let n_neg = self.ndns.next();
        let vsid = match &kind {
            BipoleKind::VoltageSource(_) => Some(self.vsns.next()),
            _ => None,
        };
        let b = Bipole { pos: Pin::from_name(n_pos), neg: Pin::from_name(n_neg), vsid, kind };
        let idx = self.bipoles.len();
        self.bipoles.push(b);
        proof {
            let nd2 = self.node_ns();
            let vs2 = self.src_ns();
            assert(nd2.ids() == nd0.ids().push(nd0.next_id()).push((nd0.next_id() + 1) as usize));
            assert(nd2.holders() == nd0.holders().push(1usize).push(1usize));
            assert forall|i: int|
                0 <= i < self.bipoles().len() implies (#[trigger] self.bipoles()[i]).wf(
                nd2,
                vs2,
            ) by {
                if i < self.bipoles().len() - 1 {
                    let bb = old(self).bipoles()[i];
                    assert(bb.wf(nd0, vs0));
                    assert(bb.spec_pos().wf(nd2)) by {
                        match bb.spec_pos().name() {
                            Option::None => {},
                            Option::Some(n) => {
                                assert(nd2.holders()[n.cell_idx()] == nd0.holders()[n.cell_idx()]);
                            },
                        }
                    }
                    assert(bb.spec_neg().wf(nd2)) by {
                        match bb.spec_neg().name() {
                            Option::None => {},
                            Option::Some(n) => {
                                assert(nd2.holders()[n.cell_idx()] == nd0.holders()[n.cell_idx()]);
                            },
                        }
                    }
                    match bb.spec_vsid() {
                        Option::None => {},
                        Option::Some(n) => {
                            assert(vs2.holders()[n.cell_idx()] == vs0.holders()[n.cell_idx()]);
                        },
                    }
                }
            }
            assert forall|i1: int, p1: bool, i2: int, p2: bool|
                0 <= i1 < self.bipoles().len() && 0 <= i2 < self.bipoles().len() && (i1 != i2 || p1
                    != p2) implies match (
                (#[trigger] pin_of(self.bipoles()[i1], p1)).name(),
                (#[trigger] pin_of(self.bipoles()[i2], p2)).name(),
            ) {
                (Option::Some(a), Option::Some(bn)) => a.cell_idx() != bn.cell_idx(),
                _ => true,
            } by {
                let last = self.bipoles().len() - 1;
                if i1 < last && i2 < last {
                    assert(pin_of(old(self).bipoles()[i1], p1) == pin_of(self.bipoles()[i1], p1));
                    assert(pin_of(old(self).bipoles()[i2], p2) == pin_of(self.bipoles()[i2], p2));
                } else {
                    if i1 < last {
                        assert(old(self).bipoles()[i1].wf(nd0, vs0));
                        assert(pin_of(old(self).bipoles()[i1], p1) == pin_of(
                            self.bipoles()[i1],
                            p1,
                        ));
                    }
                    if i2 < last {
                        assert(old(self).bipoles()[i2].wf(nd0, vs0));
                        assert(pin_of(old(self).bipoles()[i2], p2) == pin_of(
                            self.bipoles()[i2],
                            p2,
                        ));
                    }
                }
            }
            assert forall|i1: int, i2: int|
                0 <= i1 < self.bipoles().len() && 0 <= i2 < self.bipoles().len() && i1
                    != i2 implies match (
                (#[trigger] self.bipoles()[i1]).spec_vsid(),
                (#[trigger] self.bipoles()[i2]).spec_vsid(),
            ) {
                (Option::Some(a), Option::Some(bn)) => a.cell_idx() != bn.cell_idx(),
                _ => true,
            } by {
                let last = self.bipoles().len() - 1;
                if i1 < last {
                    assert(old(self).bipoles()[i1].wf(nd0, vs0));
                }
                if i2 < last {
                    assert(old(self).bipoles()[i2].wf(nd0, vs0));
                }
            }
        }
        BipoleRef { idx }
    }

    /// The copyable facts of bipole `i`: its kind and the current ids of its
    /// pins and of its source row.
    fn read_bipole(&self, i: usize) -> (r: (
        BipoleKind<S>,
        Option<usize>,
        Option<usize>,
        Option<usize>,
    ))
        requires
            self.wf(),
            i < self.bipoles().len(),
        ensures
            r.0 == self.bipoles()[i as int].spec_kind(),
            r.1 == self.bipoles()[i as int].spec_pos().id_spec(self.node_ns()),
            r.2 == self.bipoles()[i as int].spec_neg().id_spec(self.node_ns()),
            r.3 == self.bipoles()[i as int].vsid_spec(self.src_ns()),
    {
        let b = &self.bipoles[i];
        let kind = *b.kind();
        let pos_id = b.pos().id(&self.ndns);
        let neg_id = b.neg().id(&self.ndns);
        let vsid_id = match b.vsid() {
            Some(n) => Some(n.id(&self.vsns)),
            None => None,
        };
        (kind, pos_id, neg_id, vsid_id)
    }

    /// Stamp (or, negated, unstamp) the effect of bipole `i` where it is
    /// current: a resistor's conductance goes into the builder unless a
    /// linearize is pending, and marks the factorization stale; a source's
    /// right-hand-side contribution goes into the evaluator only while
    /// nothing is pending, since a later `update` restamps it from scratch.
    fn stamp_effect(&mut self, i: usize, negate: bool)
        requires
            old(self).wf(),
            i < old(self).bipoles().len(),
        ensures
            final(self).wf(),
            final(self).bipoles() == old(self).bipoles(),
            final(self).node_ns() == old(self).node_ns(),
            final(self).src_ns() == old(self).src_ns(),
            final(self).need_lin_spec() == old(self).need_lin_spec(),
            final(self).need_build_spec() == (old(self).need_build_spec() || old(self).bipoles()[
                i as int
            ].spec_kind() is Resistor),
            final(self).spec_builder().spec_nodes() == old(self).spec_builder().spec_nodes(),
            final(self).spec_builder().spec_stride() == old(self).spec_builder().spec_stride(),
            final(self).spec_builder().mat() == if old(self).bipoles()[i as int].spec_kind()
                is Resistor && !old(self).need_lin_spec() {
                resistor_matrix_delta(
                    old(self).spec_builder().mat(),
                    old(self).bipoles()[i as int],
                    old(self).node_ns(),
                    old(self).spec_builder().spec_stride(),
                    negate,
                )
            } else {
                old(self).spec_builder().mat()
            },
            final(self).spec_eval().same_system(old(self).spec_eval()),
            final(self).spec_eval().out() == old(self).spec_eval().out(),
            final(self).spec_eval().known() == if !(old(self).bipoles()[i as int].spec_kind()
                is Resistor) && !old(self).need_lin_spec() && !old(self).need_build_spec() {
                source_known_delta(
                    old(self).spec_eval().known(),
                    old(self).bipoles()[i as int],
                    old(self).node_ns(),
                    old(self).src_ns(),
                    old(self).spec_eval().spec_nodes(),
                    negate,
                )
            } else {
                old(self).spec_eval().known()
            },
            old(self).spec_eval().spec_dirty() ==> final(self).spec_eval().spec_dirty(),
    {
        let (kind, pos_id, neg_id, vsid_id) = self.read_bipole(i);
        self.stamp_values(kind, pos_id, neg_id, vsid_id, negate);
    }

    /// Stamp (or, negated, unstamp) an effect given as plain values: the
    /// conductance of a resistor kind goes into the builder unless a
    /// linearize is pending, marking the factorization stale; a source
    /// kind's right-hand-side contribution goes into the evaluator only
    /// while nothing is pending.
    fn stamp_values(
        &mut self,
        kind: BipoleKind<S>,
        pos_id: Option<usize>,
        neg_id: Option<usize>,
        vsid_id: Option<usize>,
        negate: bool,
    )
        requires
            old(self).wf(),
            !old(self).need_lin_spec() ==> {
                &&& match pos_id {
                    Option::Some(p) => p < old(self).spec_builder().spec_nodes(),
                    Option::None => true,
                }
                &&& match neg_id {
                    Option::Some(n) => n < old(self).spec_builder().spec_nodes(),
                    Option::None => true,
                }
                &&& match vsid_id {
                    Option::Some(s) => s < old(self).spec_builder().spec_sources(),
                    Option::None => true,
                }
            },
        ensures
            final(self).wf(),
            final(self).bipoles() == old(self).bipoles(),
            final(self).node_ns() == old(self).node_ns(),
            final(self).src_ns() == old(self).src_ns(),
            final(self).need_lin_spec() == old(self).need_lin_spec(),
            final(self).need_build_spec() == (old(self).need_build_spec() || kind is Resistor),
            final(self).spec_builder().spec_nodes() == old(self).spec_builder().spec_nodes(),
            final(self).spec_builder().spec_stride() == old(self).spec_builder().spec_stride(),
            final(self).spec_builder().mat() == if kind is Resistor && !old(self).need_lin_spec() {
                conductance_delta_vals(
                    old(self).spec_builder().mat(),
                    old(self).spec_builder().spec_stride(),
                    kind,
                    pos_id,
                    neg_id,
                    negate,
                )
            } else {
                old(self).spec_builder().mat()
            },
            final(self).spec_eval().same_system(old(self).spec_eval()),
            final(self).spec_eval().out() == old(self).spec_eval().out(),
            final(self).spec_eval().known() == if !(kind is Resistor) && !old(self).need_lin_spec() && !old(self).need_build_spec() {
                known_delta_vals(
                    old(self).spec_eval().known(),
                    old(self).spec_eval().spec_nodes(),
                    kind,
                    pos_id,
                    neg_id,
                    vsid_id,
                    negate,
                )
            } else {
                old(self).spec_eval().known()
            },
            old(self).spec_eval().spec_dirty() ==> final(self).spec_eval().spec_dirty(),
    {
        match kind {
            BipoleKind::Resistor(r) => {
                if !self.need_lin {
                    let g0 = r.recip();
                    let g = if negate {
                        g0.neg()
                    } else {
                        g0
                    };
                    match (pos_id, neg_id) {
                        (Some(p), Some(n)) => self.builder.add_conductance(p, Some(n), g),
                        (Some(p), None) => self.builder.add_conductance(p, None, g),
                        (None, Some(n)) => self.builder.add_conductance(n, None, g),
                        (None, None) => (),
                    }
                }
                self.need_build = true;
            },
            BipoleKind::VoltageSource(v) => {
                if !self.need_lin && !self.need_build {
                    let vv = if negate {
                        v.neg()
                    } else {
                        v
                    };
                    match vsid_id {
                        Some(s) => self.eval.add_potential(s, vv),
                        None => (),
                    }
                }
            },
            BipoleKind::CurrentSource(c) => {
                if !self.need_lin && !self.need_build {
                    let cc = if negate {
                        c.neg()
                    } else {
                        c
                    };
                    match pos_id {
                        Some(p) => self.eval.add_current(p, cc),
                        None => (),
                    }
                    match neg_id {
                        Some(n) => self.eval.add_current(n, cc.neg()),
                        None => (),
                    }
                }
            },
        }
    }

    /// Flush deferred work. A pending linearize compacts both namespaces,
    /// sizes a fresh zeroed builder to the survivors and restamps every
    /// bipole's matrix contribution in list order. A pending rebuild factors
    /// a copy of the builder into a fresh evaluator and restamps every
    /// bipole's right-hand-side contribution in list order. Both flags clear
    /// only when everything succeeded; on any error they stand, so the next
    /// `update` starts over.
    pub fn update(&mut self) -> (r: Result<(), CircuitError>)
        requires
            old(self).wf(),
        ensures
            final(self).wf(),
            final(self).bipoles() == old(self).bipoles(),
            match r {
                Ok(()) => {
                    &&& !final(self).need_lin_spec()
                    &&& !final(self).need_build_spec()
                    &&& (old(self).need_lin_spec() ==> {
                        &&& final(self).node_ns().linearized()
                        &&& final(self).src_ns().linearized()
                        &&& final(self).spec_builder().spec_nodes() == final(self).node_ns().next_id()
                        &&& final(self).spec_builder().spec_sources() == final(self).src_ns().next_id()
                        &&& final(self).spec_builder().mat() == matrix_after(
                            final(self).bipoles(),
                            final(self).node_ns(),
                            final(self).src_ns(),
                            final(self).spec_builder().spec_nodes(),
                            final(self).spec_builder().spec_stride(),
                            final(self).bipoles().len() as int,
                        )
                    })
                    &&& (!old(self).need_lin_spec() ==> {
                        &&& final(self).node_ns() == old(self).node_ns()
                        &&& final(self).src_ns() == old(self).src_ns()
                        &&& final(self).spec_builder() == old(self).spec_builder()
                    })
                    &&& (old(self).need_build_spec() ==> {
                        &&& final(self).spec_eval().known() == known_after(
                            final(self).bipoles(),
                            final(self).node_ns(),
                            final(self).src_ns(),
                            final(self).spec_eval().spec_nodes(),
                            final(self).spec_eval().spec_stride(),
                            final(self).bipoles().len() as int,
                        )
                        &&& final(self).spec_eval().spec_nodes() == final(self).spec_builder().spec_nodes()
                        &&& final(self).spec_eval().spec_stride() == final(self).spec_builder().spec_stride()
                    })
                    &&& (!old(self).need_build_spec() ==> *final(self) == *old(self))
                },
                Err(e) => {
                    &&& old(self).need_lin_spec() || old(self).need_build_spec()
                    &&& final(self).need_lin_spec() == old(self).need_lin_spec()
                    &&& final(self).need_build_spec() == old(self).need_build_spec()
                    &&& (exists|m: MatrixError| e.wraps(m))
                    &&& (e.wraps(MatrixError::Overflow) <==> (old(self).need_lin_spec() && ({
                        let n = old(self).node_ns().live_order().len();
                        let s = old(self).src_ns().live_order().len();
                        n + s > usize::MAX || (n + s) * (n + s) > usize::MAX
                    })))
                },
            },
    {
        if self.need_lin {
            let sources = self.vsns.linearize();
            let nodes = self.ndns.linearize();
            let b2 = match MatrixBuilder::<S>::new(nodes, sources) {
                Ok(b) => b,
                Err(e) => {
                    proof {
                        assert(CircuitError::MatrixError(e).wraps(e));
                    }
                    return Err(CircuitError::MatrixError(e));
                },
            };
            proof {
                assert forall|i: int|
                    0 <= i < self.bipoles().len() implies (#[trigger] self.bipoles()[i]).wf(
                    self.node_ns(),
                    self.src_ns(),
                ) by {
                    assert(old(self).bipoles()[i].wf(old(self).node_ns(), old(self).src_ns()));
                }
            }
            self.builder = b2;
            let ghost ndl = self.node_ns();
            let ghost vsl = self.src_ns();
            let n = self.bipoles.len();
            let mut i: usize = 0;
            while i < n
                invariant
                    self.wf(),
                    n == self.bipoles().len(),
                    i <= n,
                    self.bipoles() == old(self).bipoles(),
                    self.node_ns() == ndl,
                    self.src_ns() == vsl,
                    self.need_lin_spec(),
                    self.need_build_spec(),
                    self.spec_eval() == old(self).spec_eval(),
                    self.spec_builder().spec_nodes() == ndl.next_id(),
                    self.spec_builder().spec_sources() == vsl.next_id(),
                    self.spec_builder().mat() == matrix_after(
                        self.bipoles(),
                        ndl,
                        vsl,
                        self.spec_builder().spec_nodes(),
                        self.spec_builder().spec_stride(),
                        i as int,
                    ),
                decreases n - i,
            {
                let (kind, pos_id, neg_id, vsid_id) = self.read_bipole(i);
                match kind {
                    BipoleKind::Resistor(r) => {
                        let g = r.recip();
                        match (pos_id, neg_id) {
                            (Some(p), Some(nn)) => self.builder.add_conductance(p, Some(nn), g),
                            (Some(p), None) => self.builder.add_conductance(p, None, g),
                            (None, Some(nn)) => self.builder.add_conductance(nn, None, g),
                            (None, None) => (),
                        }
                    },
                    BipoleKind::VoltageSource(_) => {
                        match vsid_id {
                            Some(s) => self.builder.add_vs_con(s, pos_id, neg_id),
                            None => (),
                        }
                    },
                    BipoleKind::CurrentSource(_) => (),
                }
                i = i + 1;
            }
        }
        if self.need_build {
            let ev = match self.builder.duplicate().build() {
                Ok(ev) => ev,
                Err(e) => {
                    proof {
                        assert(CircuitError::MatrixError(e).wraps(e));
                    }
                    return Err(CircuitError::MatrixError(e));
                },
            };
            self.eval = ev;
            let ghost ndl = self.node_ns();
            let ghost vsl = self.src_ns();
            let ghost bsnap = self.spec_builder();
            let n = self.bipoles.len();
            let mut i: usize = 0;
            while i < n
                invariant
                    self.wf(),
                    n == self.bipoles().len(),
                    i <= n,
                    self.bipoles() == old(self).bipoles(),
                    self.node_ns() == ndl,
                    self.src_ns() == vsl,
                    self.need_lin_spec() == old(self).need_lin_spec(),
                    self.need_build_spec(),
                    self.need_lin_spec() ==> {
                        &&& ndl.linearized()
                        &&& vsl.linearized()
                        &&& self.spec_builder().spec_nodes() == ndl.next_id()
                        &&& self.spec_builder().spec_sources() == vsl.next_id()
                        &&& self.spec_builder().mat() == matrix_after(
                            self.bipoles(),
                            ndl,
                            vsl,
                            self.spec_builder().spec_nodes(),
                            self.spec_builder().spec_stride(),
                            n as int,
                        )
                    },
                    !self.need_lin_spec() ==> {
                        &&& self.node_ns() == old(self).node_ns()
                        &&& self.src_ns() == old(self).src_ns()
                        &&& self.spec_builder() == old(self).spec_builder()
                        &&& self.spec_builder().spec_nodes() == ndl.next_id()
                        &&& self.spec_builder().spec_sources() == vsl.next_id()
                    },
                    self.spec_builder() == bsnap,
                    self.spec_eval().spec_nodes() == self.spec_builder().spec_nodes(),
                    self.spec_eval().spec_stride() == self.spec_builder().spec_stride(),
                    self.spec_eval().known() == known_after(
                        self.bipoles(),
                        ndl,
                        vsl,
                        self.spec_eval().spec_nodes(),
                        self.spec_eval().spec_stride(),
                        i as int,
                    ),
                decreases n - i,
            {
                let (kind, pos_id, neg_id, vsid_id) = self.read_bipole(i);
                match kind {
                    BipoleKind::Resistor(_) => (),
                    BipoleKind::VoltageSource(v) => {
                        match vsid_id {
                            Some(s) => self.eval.add_potential(s, v),
                            None => (),
                        }
                    },
                    BipoleKind::CurrentSource(c) => {
                        match pos_id {
                            Some(p) => self.eval.add_current(p, c),
                            None => (),
                        }
                        match neg_id {
                            Some(nn) => self.eval.add_current(nn, c.neg()),
                            None => (),
                        }
                    },
                }
                i = i + 1;
            }
            self.need_lin = false;
            self.need_build = false;
        }
        Ok(())
    }

    /// Change the kind of bipole `i`: unstamp the old effect, release or
    /// allocate the source row as the kind leaves or enters `VoltageSource`,
    /// and stamp the new effect, each wherever the flags let it land now
    /// rather than at the next `update`.
    fn set_kind_at(&mut self, i: usize, kind: BipoleKind<S>)
        requires
            old(self).wf(),
            i < old(self).bipoles().len(),
            kind is VoltageSource ==> old(self).src_ns().next_id() < usize::MAX,
        ensures
            final(self).wf(),
            set_kind_relation(*old(self), *final(self), i as int, kind),
    {
        let (kind0, pos_id, neg_id, vsid_id0) = self.read_bipole(i);
        self.stamp_values(kind0, pos_id, neg_id, vsid_id0, true);
        let old_is_vs = match &kind0 {
            BipoleKind::VoltageSource(_) => true,
            _ => false,
        };
        let new_is_vs = match &kind {
            BipoleKind::VoltageSource(_) => true,
            _ => false,
        };
        if old_is_vs && !new_is_vs && !self.need_lin {
            match vsid_id0 {
                Some(s) => self.builder.remove_vs_con(s, pos_id, neg_id),
                None => (),
            }
        }
        let ghost pre_adjust = *self;
        let mut b = self.bipoles.remove(i);
        if old_is_vs && !new_is_vs {
            match b.vsid.take() {
                Some(nm) => self.vsns.release(nm),
                None => (),
            }
            self.need_lin = true;
            self.need_build = true;
        }
        if new_is_vs && !old_is_vs {
            b.vsid = Some(self.vsns.next());
            self.need_lin = true;
            self.need_build = true;
        }
        b.kind = kind;
        self.bipoles.insert(i, b);
        proof {
            assert(self.bipoles() =~= pre_adjust.bipoles().update(
                i as int,
                self.bipoles()[i as int],
            ));
            let nd = self.node_ns();
            let vs = self.src_ns();
            assert forall|j: int|
                0 <= j < self.bipoles().len() implies (#[trigger] self.bipoles()[j]).wf(
                nd,
                vs,
            ) by {
                if j != i {
                    assert(pre_adjust.bipoles()[j].wf(
                        pre_adjust.node_ns(),
                        pre_adjust.src_ns(),
                    ));
                    let bb = self.bipoles()[j];
                    match bb.spec_vsid() {
                        Option::None => {},
                        Option::Some(n) => {
                            assert(vs.holders()[n.cell_idx()] == pre_adjust.src_ns().holders()[
                                n.cell_idx()
                            ]);
                        },
                    }
                } else {
                    assert(pre_adjust.bipoles()[i as int].wf(
                        pre_adjust.node_ns(),
                        pre_adjust.src_ns(),
                    ));
                }
            }
            assert forall|i1: int, p1: bool, i2: int, p2: bool|
                0 <= i1 < self.bipoles().len() && 0 <= i2 < self.bipoles().len() && (i1 != i2 || p1
                    != p2) implies match (
                (#[trigger] pin_of(self.bipoles()[i1], p1)).name(),
                (#[trigger] pin_of(self.bipoles()[i2], p2)).name(),
            ) {
                (Option::Some(a), Option::Some(bn)) => a.cell_idx() != bn.cell_idx(),
                _ => true,
            } by {
                assert(pin_of(self.bipoles()[i1], p1) == pin_of(pre_adjust.bipoles()[i1], p1));
                assert(pin_of(self.bipoles()[i2], p2) == pin_of(pre_adjust.bipoles()[i2], p2));
            }
            assert forall|i1: int, i2: int|
                0 <= i1 < self.bipoles().len() && 0 <= i2 < self.bipoles().len() && i1
                    != i2 implies match (
                (#[trigger] self.bipoles()[i1]).spec_vsid(),
                (#[trigger] self.bipoles()[i2]).spec_vsid(),
            ) {
                (Option::Some(a), Option::Some(bn)) => a.cell_idx() != bn.cell_idx(),
                _ => true,
            } by {
                if i1 != i && i2 != i {
                    assert(self.bipoles()[i1] == pre_adjust.bipoles()[i1]);
                    assert(self.bipoles()[i2] == pre_adjust.bipoles()[i2]);
                } else {
                    let other = if i1 == i {
                        i2
                    } else {
                        i1
                    };
                    assert(self.bipoles()[other] == pre_adjust.bipoles()[other]);
                    match pre_adjust.bipoles()[other].spec_vsid() {
                        Option::None => {},
                        Option::Some(n) => {
                            assert(n.cell_idx() < pre_adjust.src_ns().n_cells());
                        },
                    }
                }
            }
        }
        self.stamp_values(kind, pos_id, neg_id, vsid_id0, false);
    }

    /// Connect one pin of the bipole `b` points at to ground: ground
    /// absorbs, the pin's node name goes back to the namespace, and the set
    /// flags defer the re-stamp to the next `update`. Grounding a ground pin
    /// changes nothing. Fails only when the handle does not point into this
    /// circuit's list.
    pub fn ground_pin(&mut self, b: &BipoleRef, positive: bool) -> (r: Result<(), CircuitError>)
        requires
            old(self).wf(),
        ensures
            final(self).wf(),
            match r {
                Ok(()) => {
                    let i = b.index();
                    let b0 = old(self).bipoles()[i];
                    let b1 = final(self).bipoles()[i];
                    &&& i < old(self).bipoles().len()
                    &&& final(self).bipoles().len() == old(self).bipoles().len()
                    &&& (forall|j: int|
                        0 <= j < old(self).bipoles().len() && j != i
                            ==> #[trigger] final(self).bipoles()[j] == old(self).bipoles()[j])
                    &&& pin_of(b1, positive).is_ground_spec()
                    &&& pin_of(b1, !positive) == pin_of(b0, !positive)
                    &&& b1.spec_kind() == b0.spec_kind()
                    &&& b1.spec_vsid() == b0.spec_vsid()
                    &&& final(self).node_ns().ids() == old(self).node_ns().ids()
                    &&& final(self).node_ns().order() == old(self).node_ns().order()
                    &&& final(self).node_ns().next_id() == old(self).node_ns().next_id()
                    &&& final(self).src_ns() == old(self).src_ns()
                    &&& final(self).spec_builder() == old(self).spec_builder()
                    &&& final(self).spec_eval() == old(self).spec_eval()
                    &&& if pin_of(b0, positive).is_ground_spec() {
                        &&& final(self).need_lin_spec() == old(self).need_lin_spec()
                        &&& final(self).need_build_spec() == old(self).need_build_spec()
                    } else {
                        &&& final(self).need_lin_spec()
                        &&& final(self).need_build_spec()
                    }
                },
                Err(e) => e == CircuitError::CircuitDead && b.index() >= old(self).bipoles().len() && *final(self) == *old(self),
            },
    {
        if b.idx >= self.bipoles.len() {
            return Err(CircuitError::CircuitDead);
        }
        let i = b.idx;
        let ghost pre = *self;
        let mut bp = self.bipoles.remove(i);
        let taken = if positive {
            bp.pos.0.take()
        } else {
            bp.neg.0.take()
        };
        match taken {
            Some(nm) => {
                proof {
                    assert(pre.bipoles()[i as int].wf(pre.node_ns(), pre.src_ns()));
                }
                self.ndns.release(nm);
                self.need_lin = true;
                self.need_build = true;
            },
            None => (),
        }
        self.bipoles.insert(i, bp);
        proof {
            assert(self.bipoles() =~= pre.bipoles().update(i as int, self.bipoles()[i as int]));
            let nd = self.node_ns();
            let vs = self.src_ns();
            let released = pin_of(pre.bipoles()[i as int], positive).name();
            assert forall|j: int, p: bool|
                0 <= j < self.bipoles().len() implies (#[trigger] pin_of(
                self.bipoles()[j],
                p,
            )).wf(nd) by {
                assert(pre.bipoles()[j].wf(pre.node_ns(), pre.src_ns()));
                let q1 = pin_of(self.bipoles()[j], p);
                let q0 = pin_of(pre.bipoles()[j], p);
                match q1.name() {
                    Option::None => {},
                    Option::Some(n) => {
                        assert(q0.name() == Option::Some(n));
                        assert(!(j == i && p == positive));
                        match released {
                            Option::None => {
                                assert(nd.holders() == pre.node_ns().holders());
                            },
                            Option::Some(rn) => {
                                // distinct pin cells: the released cell is another one
                                assert(match (
                                    pin_of(pre.bipoles()[j], p).name(),
                                    pin_of(pre.bipoles()[i as int], positive).name(),
                                ) {
                                    (Option::Some(a), Option::Some(bn)) => a.cell_idx()
                                        != bn.cell_idx(),
                                    _ => true,
                                });
                                assert(n.cell_idx() != rn.cell_idx());
                                assert(nd.holders()[n.cell_idx()] == pre.node_ns().holders()[
                                    n.cell_idx()
                                ]);
                            },
                        }
                    },
                }
            }
            assert forall|j: int|
                0 <= j < self.bipoles().len() implies (#[trigger] self.bipoles()[j]).wf(
                nd,
                vs,
            ) by {
                assert(pre.bipoles()[j].wf(pre.node_ns(), pre.src_ns()));
                assert(pin_of(self.bipoles()[j], true).wf(nd));
                assert(pin_of(self.bipoles()[j], false).wf(nd));
            }
            assert forall|i1: int, p1: bool, i2: int, p2: bool|
                0 <= i1 < self.bipoles().len() && 0 <= i2 < self.bipoles().len() && (i1 != i2 || p1
                    != p2) implies match (
                (#[trigger] pin_of(self.bipoles()[i1], p1)).name(),
                (#[trigger] pin_of(self.bipoles()[i2], p2)).name(),
            ) {
                (Option::Some(a), Option::Some(bn)) => a.cell_idx() != bn.cell_idx(),
                _ => true,
            } by {
                match (
                    pin_of(self.bipoles()[i1], p1).name(),
                    pin_of(self.bipoles()[i2], p2).name(),
                ) {
                    (Option::Some(a), Option::Some(bn)) => {
                        assert(pin_of(pre.bipoles()[i1], p1).name() == Option::Some(a));
                        assert(pin_of(pre.bipoles()[i2], p2).name() == Option::Some(bn));
                    },
                    _ => {},
                }
            }
            assert forall|i1: int, i2: int|
                0 <= i1 < self.bipoles().len() && 0 <= i2 < self.bipoles().len() && i1
                    != i2 implies match (
                (#[trigger] self.bipoles()[i1]).spec_vsid(),
                (#[trigger] self.bipoles()[i2]).spec_vsid(),
            ) {
                (Option::Some(a), Option::Some(bn)) => a.cell_idx() != bn.cell_idx(),
                _ => true,
            } by {
                assert(self.bipoles()[i1].spec_vsid() == pre.bipoles()[i1].spec_vsid());
                assert(self.bipoles()[i2].spec_vsid() == pre.bipoles()[i2].spec_vsid());
            }
        }
        Ok(())
    }

    /// The evaluator, for reading potentials and currents out of the solved
    /// system and feeding excitations in.
    pub fn evaluator_mut(&mut self) -> (r: &mut MatrixEvaluator<S>)
        requires
            old(self).wf(),
        ensures
            *r == old(self).spec_eval(),
            final(self).spec_eval() == *final(r),
            final(self).bipoles() == old(self).bipoles(),
            final(self).node_ns() == old(self).node_ns(),
            final(self).src_ns() == old(self).src_ns(),
            final(self).spec_builder() == old(self).spec_builder(),
            final(self).need_lin_spec() == old(self).need_lin_spec(),
            final(self).need_build_spec() == old(self).need_build_spec(),
            (final(r).wf() && final(r).spec_nodes() == old(self).spec_eval().spec_nodes()
                && final(r).spec_stride() == old(self).spec_eval().spec_stride()) ==> final(self).wf(),
    {
        &mut self.eval
    }

    /// Stamp the effect of the bipole `b` points at into the current
    /// builder and evaluator, as far as nothing staler is pending; see
    /// `stamp_effect`. Fails only when the handle does not point into this
    /// circuit's list.
    pub fn apply_effect(&mut self, b: &BipoleRef) -> (r: Result<(), CircuitError>)
        requires
            old(self).wf(),
        ensures
            final(self).wf(),
            match r {
                Ok(()) => b.index() < old(self).bipoles().len(),
                Err(e) => e == CircuitError::CircuitDead && b.index() >= old(self).bipoles().len() && *final(self) == *old(self),
            },
            r is Ok ==> stamp_relation(*old(self), *final(self), b.index(), false),
    {
        if b.idx >= self.bipoles.len() {
            return Err(CircuitError::CircuitDead);
        }
        self.stamp_effect(b.idx, false);
        Ok(())
    }

    /// Unstamp the effect of the bipole `b` points at: the same contribution
    /// as `apply_effect`, negated, so applying and repealing compose to a
    /// sum-then-subtract at each touched slot. Fails only when the handle
    /// does not point into this circuit's list.
    pub fn repeal_effect(&mut self, b: &BipoleRef) -> (r: Result<(), CircuitError>)
        requires
            old(self).wf(),
        ensures
            final(self).wf(),
            match r {
                Ok(()) => b.index() < old(self).bipoles().len(),
                Err(e) => e == CircuitError::CircuitDead && b.index() >= old(self).bipoles().len() && *final(self) == *old(self),
            },
            r is Ok ==> stamp_relation(*old(self), *final(self), b.index(), true),
    {
        if b.idx >= self.bipoles.len() {
            return Err(CircuitError::CircuitDead);
        }
        self.stamp_effect(b.idx, true);
        Ok(())
    }
}

/// Stamping is additive, resistor side: applying a conductance and then
/// repealing it touches only the four slots of the stamp, and leaves each
/// holding its old entry with the conductance added and subtracted again —
/// so the matrix is restored exactly whenever the scalar's addition cancels
/// with its negation.
pub proof fn lemma_apply_repeal_resistor<S: Scalar>(
    m: Seq<S>,
    stride: int,
    r: S,
    p: usize,
    n: usize,
)
    requires
        0 <= p < stride,
        0 <= n < stride,
        p != n,
        m.len() == stride * stride,
    ensures
        ({
            let kind = BipoleKind::Resistor(r);
            let g = r.spec_recip();
            let m2 = conductance_delta_vals(
                conductance_delta_vals(m, stride, kind, Option::Some(p), Option::Some(n), false),
                stride,
                kind,
                Option::Some(p),
                Option::Some(n),
                true,
            );
            let pp = p * stride + p;
            let nn = n * stride + n;
            let np = n * stride + p;
            let pn = p * stride + n;
            &&& m2.len() == m.len()
            &&& forall|j: int|
                0 <= j < m.len() && j != pp && j != nn && j != np && j != pn ==> #[trigger] m2[j]
                    == m[j]
            &&& m2[pp as int] == m[pp as int].spec_plus(g).spec_plus(g.spec_neg())
            &&& m2[nn as int] == m[nn as int].spec_plus(g).spec_plus(g.spec_neg())
            &&& m2[np as int] == m[np as int].spec_plus(g.spec_neg()).spec_plus(
                g.spec_neg().spec_neg(),
            )
            &&& m2[pn as int] == m[pn as int].spec_plus(g.spec_neg()).spec_plus(
                g.spec_neg().spec_neg(),
            )
        }),
{
    lemma_slots_distinct(p as int, n as int, stride);
}

/// Stamping is additive, source side: applying a potential on a source row
/// and then repealing it touches only that row's right-hand-side entry, and
/// leaves it holding its old value with the potential added and subtracted
/// again.
pub proof fn lemma_apply_repeal_potential<S: Scalar>(k: Seq<S>, nodes: int, v: S, s: usize)
    requires
        0 <= nodes,
        nodes + s < k.len(),
    ensures
        ({
            let kind = BipoleKind::VoltageSource(v);
            let k2 = known_delta_vals(
                known_delta_vals(
                    k,
                    nodes,
                    kind,
                    Option::<usize>::None,
                    Option::<usize>::None,
                    Option::Some(s),
                    false,
                ),
                nodes,
                kind,
                Option::<usize>::None,
                Option::<usize>::None,
                Option::Some(s),
                true,
            );
            &&& k2.len() == k.len()
            &&& forall|j: int| 0 <= j < k.len() && j != nodes + s ==> #[trigger] k2[j] == k[j]
            &&& k2[nodes + s] == k[nodes + s].spec_plus(v).spec_plus(v.spec_neg())
        }),
{
}

/// The four slots of a conductance stamp between two distinct nodes are
/// pairwise distinct, and all inside the square.
proof fn lemma_slots_distinct(p: int, n: int, stride: int)
    requires
        0 <= p < stride,
        0 <= n < stride,
        p != n,
    ensures
        0 <= p * stride + p < stride * stride,
        0 <= n * stride + n < stride * stride,
        0 <= n * stride + p < stride * stride,
        0 <= p * stride + n < stride * stride,
        p * stride + p != n * stride + n,
        p * stride + p != n * stride + p,
        p * stride + p != p * stride + n,
        n * stride + n != n * stride + p,
        n * stride + n != p * stride + n,
        n * stride + p != p * stride + n,
{
    assert((p * stride + p != n * stride + n) && (p * stride + p != n * stride + p) && (n * stride
        + n != p * stride + n) && (n * stride + p != p * stride + n) && 0 <= p * stride + p
        < stride * stride && 0 <= n * stride + n < stride * stride && 0 <= n * stride + p < stride
        * stride && 0 <= p * stride + n < stride * stride) by (nonlinear_arith)
        requires
            0 <= p < stride,
            0 <= n < stride,
            p != n,
    ;
}

/// How `set_kind` on bipole `i` transforms the circuit: the old kind's
/// effect is unstamped and the new kind's stamped wherever the flags allow
/// it to land, the source row is released or allocated as the kind leaves or
/// enters `VoltageSource` (which defers everything to the next `update` by
/// setting both flags), and pins and every other bipole stand untouched.
pub open spec fn set_kind_relation<S: Scalar>(
    pre: Circuit<S>,
    post: Circuit<S>,
    i: int,
    kind: BipoleKind<S>,
) -> bool {
    let b0 = pre.bipoles()[i];
    let b1 = post.bipoles()[i];
    let stride = pre.spec_builder().spec_stride();
    let nodes = pre.spec_builder().spec_nodes();
    let pos = b0.spec_pos().id_spec(pre.node_ns());
    let neg = b0.spec_neg().id_spec(pre.node_ns());
    let vs0 = b0.vsid_spec(pre.src_ns());
    let was_vs = b0.spec_kind() is VoltageSource;
    let is_vs = kind is VoltageSource;
    let vsid_changed = was_vs != is_vs;
    let lin1 = pre.need_lin_spec() || vsid_changed;
    let build_mid = pre.need_build_spec() || b0.spec_kind() is Resistor;
    let m1 = if !pre.need_lin_spec() {
        conductance_delta_vals(pre.spec_builder().mat(), stride, b0.spec_kind(), pos, neg, true)
    } else {
        pre.spec_builder().mat()
    };
    let m2 = if was_vs && !is_vs && !pre.need_lin_spec() {
        match vs0 {
            Option::Some(s) => crate::solver::stamped_vs_con(
                m1,
                stride,
                nodes,
                s,
                pos,
                neg,
                S::spec_zero(),
                S::spec_zero(),
            ),
            Option::None => m1,
        }
    } else {
        m1
    };
    let m3 = if kind is Resistor && !lin1 {
        conductance_delta_vals(m2, stride, kind, pos, neg, false)
    } else {
        m2
    };
    let k1 = if !(b0.spec_kind() is Resistor) && !pre.need_lin_spec() && !pre.need_build_spec() {
        known_delta_vals(
            pre.spec_eval().known(),
            pre.spec_eval().spec_nodes(),
            b0.spec_kind(),
            pos,
            neg,
            vs0,
            true,
        )
    } else {
        pre.spec_eval().known()
    };
    let k2 = if !(kind is Resistor) && !lin1 && !build_mid {
        known_delta_vals(k1, pre.spec_eval().spec_nodes(), kind, pos, neg, vs0, false)
    } else {
        k1
    };
    &&& post.wf()
    &&& post.bipoles().len() == pre.bipoles().len()
    &&& (forall|j: int|
        0 <= j < pre.bipoles().len() && j != i ==> #[trigger] post.bipoles()[j]
            == pre.bipoles()[j])
    &&& b1.spec_kind() == kind
    &&& b1.spec_pos() == b0.spec_pos()
    &&& b1.spec_neg() == b0.spec_neg()
    &&& post.node_ns() == pre.node_ns()
    &&& post.need_lin_spec() == lin1
    &&& post.need_build_spec() == (build_mid || vsid_changed || kind is Resistor)
    &&& (was_vs == is_vs ==> b1.spec_vsid() == b0.spec_vsid() && post.src_ns() == pre.src_ns())
    &&& (was_vs && !is_vs ==> {
        &&& b1.spec_vsid() is None
        &&& post.src_ns().ids() == pre.src_ns().ids()
        &&& post.src_ns().order() == pre.src_ns().order()
        &&& post.src_ns().next_id() == pre.src_ns().next_id()
    })
    &&& (!was_vs && is_vs ==> {
        &&& b1.vsid_spec(post.src_ns()) == Option::Some(pre.src_ns().next_id())
        &&& post.src_ns().next_id() == pre.src_ns().next_id() + 1
    })
    &&& post.spec_builder().spec_nodes() == pre.spec_builder().spec_nodes()
    &&& post.spec_builder().spec_stride() == pre.spec_builder().spec_stride()
    &&& post.spec_builder().mat() == m3
    &&& post.spec_eval().same_system(pre.spec_eval())
    &&& post.spec_eval().out() == pre.spec_eval().out()
    &&& post.spec_eval().known() == k2
}

/// How `post` differs from `pre` when the effect of bipole `i` is stamped
/// (`negate` false) or unstamped (`negate` true): everything stands but for
/// the conductance delta in the builder of a resistor, which marks the
/// factorization stale, and the right-hand-side delta in the evaluator of a
/// source; each lands only while nothing staler is pending.
pub open spec fn stamp_relation<S: Scalar>(
    pre: Circuit<S>,
    post: Circuit<S>,
    i: int,
    negate: bool,
) -> bool {
    &&& post.bipoles() == pre.bipoles()
    &&& post.node_ns() == pre.node_ns()
    &&& post.src_ns() == pre.src_ns()
    &&& post.need_lin_spec() == pre.need_lin_spec()
    &&& post.need_build_spec() == (pre.need_build_spec() || pre.bipoles()[i].spec_kind()
        is Resistor)
    &&& post.spec_builder().spec_nodes() == pre.spec_builder().spec_nodes()
    &&& post.spec_builder().spec_stride() == pre.spec_builder().spec_stride()
    &&& post.spec_builder().mat() == if pre.bipoles()[i].spec_kind() is Resistor
        && !pre.need_lin_spec() {
        resistor_matrix_delta(
            pre.spec_builder().mat(),
            pre.bipoles()[i],
            pre.node_ns(),
            pre.spec_builder().spec_stride(),
            negate,
        )
    } else {
        pre.spec_builder().mat()
    }
    &&& post.spec_eval().same_system(pre.spec_eval())
    &&& post.spec_eval().out() == pre.spec_eval().out()
    &&& post.spec_eval().known() == if !(pre.bipoles()[i].spec_kind() is Resistor)
        && !pre.need_lin_spec() && !pre.need_build_spec() {
        source_known_delta(
            pre.spec_eval().known(),
            pre.bipoles()[i],
            pre.node_ns(),
            pre.src_ns(),
            pre.spec_eval().spec_nodes(),
            negate,
        )
    } else {
        pre.spec_eval().known()
    }
}

} // verus!
