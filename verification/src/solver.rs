use vstd::prelude::*;

use crate::types::Scalar;

verus! {

/// What the matrix layer can fail with.
#[derive(Debug, Clone, Copy, PartialEq, Eq, Structural)]
pub enum MatrixError {
    /// The requested matrix would not fit in the address space.
    Overflow,
    /// Factoring met a zero pivot at this 0-based index: the system has no
    /// unique solution.
    Singular { idx: usize },
    /// The backend routine reported argument `idx` (1-based) as invalid.
    BadArg { idx: usize },
}

/// A square matrix of this side, all entries zero.
pub open spec fn zero_vector<S: Scalar>(n: int) -> Seq<S> {
    Seq::new(n as nat, |i: int| S::spec_zero())
}

/// The MNA conductance stamp: `c` added on the diagonal at `a` and, when `b`
/// names a second node, on the diagonal at `b`, with `-c` added at the two
/// off-diagonal slots (a,b) and (b,a). One update after the other, so the
/// statement is exact even when `a` and `b` coincide.
pub open spec fn stamped_conductance<S: Scalar>(
    m: Seq<S>,
    stride: int,
    a: usize,
    b: Option<usize>,
    c: S,
) -> Seq<S> {
    let aa = a * stride + a;
    let m1 = m.update(aa, m[aa].spec_plus(c));
    match b {
        Option::None => m1,
        Option::Some(n) => {
            let nn = n * stride + n;
            let na = n * stride + a;
            let an = a * stride + n;
            let m2 = m1.update(nn, m1[nn].spec_plus(c));
            let m3 = m2.update(na, m2[na].spec_plus(c.spec_neg()));
            m3.update(an, m3[an].spec_plus(c.spec_neg()))
        },
    }
}

/// The voltage-source constraint stamp: `v` written (not added) at the
/// symmetric pair (nodes+src, p) and (p, nodes+src) for the positive pin,
/// and `-v` likewise for the negative pin. With `v = 1` this is the stamp
/// `add_vs_con` sets; with `v = 0` it is what `remove_vs_con` clears.
pub open spec fn stamped_vs_con<S: Scalar>(
    m: Seq<S>,
    stride: int,
    nodes: int,
    src: usize,
    pos: Option<usize>,
    neg: Option<usize>,
    v_pos: S,
    v_neg: S,
) -> Seq<S> {
    let m1 = match pos {
        Option::None => m,
        Option::Some(p) => m.update((nodes + src) * stride + p, v_pos).update(
            p * stride + nodes + src,
            v_pos,
        ),
    };
    match neg {
        Option::None => m1,
        Option::Some(n) => m1.update((nodes + src) * stride + n, v_neg).update(
            n * stride + nodes + src,
            v_neg,
        ),
    }
}

/// Both indices below the side put the row-major slot inside the square.
proof fn lemma_index_bound(a: int, n: int, stride: int)
    requires
        0 <= a < stride,
        0 <= n < stride,
    ensures
        0 <= a * stride + n < stride * stride,
{
    assert(a * stride + n < stride * stride) by (nonlinear_arith)
        requires
            0 <= a < stride,
            0 <= n < stride,
    ;
}

/// The assembly side of the MNA system: a dense row-major square matrix of
/// side `nodes + sources` that element stamps accumulate into.
#[derive(Debug)]
pub struct MatrixBuilder<S: Scalar> {
    nodes: usize,
    stride: usize,
    matrix: Vec<S>,
}

impl<S: Scalar> MatrixBuilder<S> {
    /// How many node rows the system has.
    pub closed spec fn spec_nodes(self) -> int {
        self.nodes as int
    }

    /// The side of the square system: nodes + sources.
    pub closed spec fn spec_stride(self) -> int {
        self.stride as int
    }

    /// How many voltage-source rows the system has.
    pub open spec fn spec_sources(self) -> int {
        self.spec_stride() - self.spec_nodes()
    }

    /// The matrix contents, row-major.
    pub closed spec fn mat(self) -> Seq<S> {
        self.matrix@
    }

    pub open spec fn wf(self) -> bool {
        &&& 0 <= self.spec_nodes()
        &&& self.spec_nodes() <= self.spec_stride()
        &&& self.mat().len() == self.spec_stride() * self.spec_stride()
    }

    /// A zeroed builder for this many nodes and voltage sources, or
    /// `Overflow` when the square would not fit in the address space.
    pub fn new(nodes: usize, sources: usize) -> (r: Result<MatrixBuilder<S>, MatrixError>)
        ensures
            match r {
                Ok(b) => {
                    &&& b.wf()
                    &&& nodes + sources <= usize::MAX
                    &&& (nodes + sources) * (nodes + sources) <= usize::MAX
                    &&& b.spec_nodes() == nodes
                    &&& b.spec_stride() == nodes + sources
                    &&& b.mat() == zero_vector::<S>((nodes + sources) * (nodes + sources))
                },
                Err(e) => {
                    &&& e == MatrixError::Overflow
                    &&& nodes + sources > usize::MAX || (nodes + sources) * (nodes + sources)
                        > usize::MAX
                },
            },
    {
        let stride = match nodes.checked_add(sources) {
            Some(s) => s,
            None => {
                return Err(MatrixError::Overflow);
            },
        };
        let total = match stride.checked_mul(stride) {
            Some(t) => t,
            None => {
                return Err(MatrixError::Overflow);
            },
        };
        let mut matrix: Vec<S> = Vec::new();
        let mut i: usize = 0;
        while i < total
            invariant
                i <= total,
                matrix@ =~= zero_vector::<S>(i as int),
            decreases total - i,
        {
            matrix.push(S::zero());
            proof {
                assert(matrix@ =~= zero_vector::<S>(i + 1));
            }
            i = i + 1;
        }
        Ok(MatrixBuilder { nodes, stride, matrix })
    }

    pub fn nodes(&self) -> (r: usize)
        ensures
            r == self.spec_nodes(),
    {
        self.nodes
    }

    pub fn sources(&self) -> (r: usize)
        requires
            self.wf(),
        ensures
            r == self.spec_sources(),
    {
        self.stride - self.nodes
    }

    pub fn size(&self) -> (r: usize)
        ensures
            r == self.spec_stride(),
    {
        self.stride
    }

    /// A copy of the matrix contents, row-major.
    pub fn matrix(&self) -> (r: Vec<S>)
        ensures
            r@ == self.mat(),
    {
        copy_vals(&self.matrix)
    }

    /// An identical builder, for factoring without giving this one up.
    pub fn duplicate(&self) -> (r: MatrixBuilder<S>)
        ensures
            r.spec_nodes() == self.spec_nodes(),
            r.spec_stride() == self.spec_stride(),
            r.mat() == self.mat(),
            r.wf() == self.wf(),
    {
        MatrixBuilder { nodes: self.nodes, stride: self.stride, matrix: copy_vals(&self.matrix) }
    }

    /// Stamp a conductance `c` between node `a` and node `b`, ground when
    /// `b` is `None`: `c` joins the diagonal at each named node and `-c` the
    /// two slots that couple them.
    pub fn add_conductance(&mut self, a: usize, b: Option<usize>, c: S)
        requires
            old(self).wf(),
            a < old(self).spec_nodes(),
            match b {
                Option::Some(n) => n < old(self).spec_nodes(),
                Option::None => true,
            },
        ensures
            final(self).wf(),
            final(self).spec_nodes() == old(self).spec_nodes(),
            final(self).spec_stride() == old(self).spec_stride(),
            final(self).mat() == stamped_conductance(
                old(self).mat(),
                old(self).spec_stride(),
                a,
                b,
                c,
            ),
    {
        proof {
            assert(self.matrix.len() == self.mat().len());
            lemma_index_bound(a as int, a as int, self.spec_stride());
        }
        let aa = a * self.stride + a;
        let va = self.matrix[aa];
        self.matrix[aa] = va.plus(c);
        if let Some(n) = b {
            proof {
                lemma_index_bound(n as int, n as int, self.spec_stride());
                lemma_index_bound(n as int, a as int, self.spec_stride());
                lemma_index_bound(a as int, n as int, self.spec_stride());
            }
            let nn = n * self.stride + n;
            let vn = self.matrix[nn];
            self.matrix[nn] = vn.plus(c);
            let na = n * self.stride + a;
            let vna = self.matrix[na];
            self.matrix[na] = vna.plus(c.neg());
            let an = a * self.stride + n;
            let van = self.matrix[an];
            self.matrix[an] = van.plus(c.neg());
        }
    }

    /// Set the ±1 voltage-source constraint pattern for source row `src`:
    /// +1 at the symmetric pair for the positive pin, -1 for the negative
    /// one. Writes, rather than adds, as each source row carries at most one
    /// such pair at a time.
    pub fn add_vs_con(&mut self, src: usize, pos: Option<usize>, neg: Option<usize>)
        requires
            old(self).wf(),
            src < old(self).spec_sources(),
            match pos {
                Option::Some(p) => p < old(self).spec_nodes(),
                Option::None => true,
            },
            match neg {
                Option::Some(n) => n < old(self).spec_nodes(),
                Option::None => true,
            },
        ensures
            final(self).wf(),
            final(self).spec_nodes() == old(self).spec_nodes(),
            final(self).spec_stride() == old(self).spec_stride(),
            final(self).mat() == stamped_vs_con(
                old(self).mat(),
                old(self).spec_stride(),
                old(self).spec_nodes(),
                src,
                pos,
                neg,
                S::spec_one(),
                S::spec_one().spec_neg(),
            ),
    {
        let one = S::one();
        self.write_vs_pair(src, pos, one);
        self.write_vs_pair(src, neg, one.neg());
        proof {
            assert(final(self).mat() == stamped_vs_con(
                old(self).mat(),
                old(self).spec_stride(),
                old(self).spec_nodes(),
                src,
                pos,
                neg,
                S::spec_one(),
                S::spec_one().spec_neg(),
            ));
        }
    }

    /// Clear the ±1 voltage-source constraint pattern set by `add_vs_con`:
    /// zero is written at the same slots.
    pub fn remove_vs_con(&mut self, src: usize, pos: Option<usize>, neg: Option<usize>)
        requires
            old(self).wf(),
            src < old(self).spec_sources(),
            match pos {
                Option::Some(p) => p < old(self).spec_nodes(),
                Option::None => true,
            },
            match neg {
                Option::Some(n) => n < old(self).spec_nodes(),
                Option::None => true,
            },
        ensures
            final(self).wf(),
            final(self).spec_nodes() == old(self).spec_nodes(),
            final(self).spec_stride() == old(self).spec_stride(),
            final(self).mat() == stamped_vs_con(
                old(self).mat(),
                old(self).spec_stride(),
                old(self).spec_nodes(),
                src,
                pos,
                neg,
                S::spec_zero(),
                S::spec_zero(),
            ),
    {
        let zero = S::zero();
        self.write_vs_pair(src, pos, zero);
        self.write_vs_pair(src, neg, zero);
    }

    /// Write `v` at the symmetric pair (nodes+src, p) and (p, nodes+src).
    fn write_vs_pair(&mut self, src: usize, pin: Option<usize>, v: S)
        requires
            old(self).wf(),
            src < old(self).spec_sources(),
            match pin {
                Option::Some(p) => p < old(self).spec_nodes(),
                Option::None => true,
            },
        ensures
            final(self).wf(),
            final(self).spec_nodes() == old(self).spec_nodes(),
            final(self).spec_stride() == old(self).spec_stride(),
            final(self).mat() == match pin {
                Option::None => old(self).mat(),
                Option::Some(p) => old(self).mat().update(
                    (old(self).spec_nodes() + src) * old(self).spec_stride() + p,
                    v,
                ).update(p * old(self).spec_stride() + old(self).spec_nodes() + src, v),
            },
    {
        if let Some(p) = pin {
            proof {
                assert(self.matrix.len() == self.mat().len());
                lemma_index_bound(
                    self.spec_nodes() + src,
                    p as int,
                    self.spec_stride(),
                );
                lemma_index_bound(
                    p as int,
                    self.spec_nodes() + src,
                    self.spec_stride(),
                );
            }
            let row = (self.nodes + src) * self.stride + p;
            self.matrix[row] = v;
            let col = p * self.stride + self.nodes + src;
            self.matrix[col] = v;
        }
    }

    /// Factor the assembled matrix in place, LU with partial pivoting
    /// through the scalar's backend routine, and wrap the factors, the
    /// pivots and zeroed right-hand-side and solution buffers into an
    /// evaluator. The backend's `info` code is mapped as the classical
    /// contract reads it: -k to `BadArg{idx: k}`, k > 0 to
    /// `Singular{idx: k-1}`.
    pub fn build(self) -> (r: Result<MatrixEvaluator<S>, MatrixError>)
        requires
            self.wf(),
        ensures
            match r {
                Ok(ev) => {
                    &&& ev.wf()
                    &&& ev.spec_nodes() == self.spec_nodes()
                    &&& ev.spec_stride() == self.spec_stride()
                    &&& ev.known() == zero_vector::<S>(self.spec_stride())
                    &&& ev.out() == zero_vector::<S>(self.spec_stride())
                    &&& ev.spec_dirty()
                },
                Err(e) => !(e is Overflow),
            },
    {
        let MatrixBuilder { nodes, stride, mut matrix } = self;
        let (piv, info) = S::factor(stride, &mut matrix);
        if info < 0 {
            return Err(MatrixError::BadArg { idx: (0i64 - info as i64) as usize });
        }
        if info > 0 {
            return Err(MatrixError::Singular { idx: (info - 1) as usize });
        }
        let known = zeroed::<S>(stride);
        let out = zeroed::<S>(stride);
        Ok(MatrixEvaluator { dirty: true, nodes, stride, matrix, piv, known, out })
    }
}

/// A vector of this many zero scalars.
fn zeroed<S: Scalar>(n: usize) -> (r: Vec<S>)
    ensures
        r@ == zero_vector::<S>(n as int),
{
    let mut v: Vec<S> = Vec::new();
    let mut i: usize = 0;
    while i < n
        invariant
            i <= n,
            v@ =~= zero_vector::<S>(i as int),
        decreases n - i,
    {
        v.push(S::zero());
        proof {
            assert(v@ =~= zero_vector::<S>(i + 1));
        }
        i = i + 1;
    }
    proof {
        assert(v@ =~= zero_vector::<S>(n as int));
    }
    v
}

/// An element-for-element copy of a vector of scalars.
fn copy_vals<S: Scalar>(src: &Vec<S>) -> (r: Vec<S>)
    ensures
        r@ == src@,
{
    let mut v: Vec<S> = Vec::new();
    let mut i: usize = 0;
    while i < src.len()
        invariant
            i <= src.len(),
            v@ =~= src@.take(i as int),
        decreases src.len() - i,
    {
        v.push(src[i]);
        proof {
            assert(v@ =~= src@.take(i + 1));
        }
        i = i + 1;
    }
    proof {
        assert(v@ =~= src@);
    }
    v
}

/// The solving side of the MNA system: the LU factors, the pivots, the
/// right-hand side `known` (node current injections first, then source
/// potentials) and the solution `out` (node potentials first, then source
/// branch currents), refreshed lazily whenever `known` has changed since the
/// last solve.
pub struct MatrixEvaluator<S: Scalar> {
    dirty: bool,
    nodes: usize,
    stride: usize,
    matrix: Vec<S>,
    piv: Vec<i32>,
    known: Vec<S>,
    out: Vec<S>,
}

impl<S: Scalar> MatrixEvaluator<S> {
    /// How many node rows the system has.
    pub closed spec fn spec_nodes(self) -> int {
        self.nodes as int
    }

    /// The side of the square system: nodes + sources.
    pub closed spec fn spec_stride(self) -> int {
        self.stride as int
    }

    /// How many voltage-source rows the system has.
    pub open spec fn spec_sources(self) -> int {
        self.spec_stride() - self.spec_nodes()
    }

    /// The right-hand side.
    pub closed spec fn known(self) -> Seq<S> {
        self.known@
    }

    /// The solution buffer of the last solve.
    pub closed spec fn out(self) -> Seq<S> {
        self.out@
    }

    /// Whether `known` has changed since the last solve.
    pub closed spec fn spec_dirty(self) -> bool {
        self.dirty
    }

    /// The factored matrix, row-major.
    pub closed spec fn mat(self) -> Seq<S> {
        self.matrix@
    }

    pub open spec fn wf(self) -> bool {
        &&& 0 <= self.spec_nodes()
        &&& self.spec_nodes() <= self.spec_stride()
        &&& self.mat().len() == self.spec_stride() * self.spec_stride()
        &&& self.known().len() == self.spec_stride()
        &&& self.out().len() == self.spec_stride()
        &&& self.piv_len() == self.spec_stride()
    }

    /// Everything but `known`, `out` and the dirty flag is as it was.
    pub open spec fn same_system(self, other: Self) -> bool {
        &&& self.spec_nodes() == other.spec_nodes()
        &&& self.spec_stride() == other.spec_stride()
        &&& self.mat() == other.mat()
    }

    pub closed spec fn piv_len(self) -> int {
        self.piv@.len() as int
    }

    /// The trivially factored evaluator of the empty system: no nodes, no
    /// sources, and nothing to factor, so the backend is not consulted. What
    /// factoring a zero-by-zero builder yields.
    pub(crate) fn trivial() -> (r: MatrixEvaluator<S>)
        ensures
            r.wf(),
            r.spec_nodes() == 0,
            r.spec_stride() == 0,
            r.known() == zero_vector::<S>(0),
            r.out() == zero_vector::<S>(0),
            r.spec_dirty(),
    {
        let r = MatrixEvaluator {
            dirty: true,
            nodes: 0,
            stride: 0,
            matrix: Vec::new(),
            piv: Vec::new(),
            known: Vec::new(),
            out: Vec::new(),
        };
        proof {
            assert(r.known() =~= zero_vector::<S>(0));
            assert(r.out() =~= zero_vector::<S>(0));
        }
        r
    }

    pub fn nodes(&self) -> (r: usize)
        ensures
            r == self.spec_nodes(),
    {
        self.nodes
    }

    pub fn sources(&self) -> (r: usize)
        requires
            self.wf(),
        ensures
            r == self.spec_sources(),
    {
        self.stride - self.nodes
    }

    /// Inject a current `i` into `node`: added onto the node's right-hand
    /// side entry; the solution is stale until the next solve.
    pub fn add_current(&mut self, node: usize, i: S)
        requires
            old(self).wf(),
            node < old(self).spec_nodes(),
        ensures
            final(self).wf(),
            final(self).same_system(*old(self)),
            final(self).out() == old(self).out(),
            final(self).known() == old(self).known().update(
                node as int,
                old(self).known()[node as int].spec_plus(i),
            ),
            final(self).spec_dirty(),
    {
        let v = self.known[node];
        self.known[node] = v.plus(i);
        self.dirty = true;
    }

    /// Impose an extra potential `p` on voltage source `src`: added onto the
    /// source's right-hand side entry; the solution is stale until the next
    /// solve.
    pub fn add_potential(&mut self, src: usize, p: S)
        requires
            old(self).wf(),
            src < old(self).spec_sources(),
        ensures
            final(self).wf(),
            final(self).same_system(*old(self)),
            final(self).out() == old(self).out(),
            final(self).known() == old(self).known().update(
                old(self).spec_nodes() + src,
                old(self).known()[old(self).spec_nodes() + src].spec_plus(p),
            ),
            final(self).spec_dirty(),
    {
        let k = self.nodes + src;
        let v = self.known[k];
        self.known[k] = v.plus(p);
        self.dirty = true;
    }

    /// Overwrite the current injected into `node`. Stands in for writing
    /// through the mutable span over the node half of the right-hand side.
    pub fn set_current(&mut self, node: usize, i: S)
        requires
            old(self).wf(),
            node < old(self).spec_nodes(),
        ensures
            final(self).wf(),
            final(self).same_system(*old(self)),
            final(self).out() == old(self).out(),
            final(self).known() == old(self).known().update(node as int, i),
            final(self).spec_dirty(),
    {
        self.known[node] = i;
        self.dirty = true;
    }

    /// Overwrite the potential imposed by voltage source `src`. Stands in
    /// for writing through the mutable span over the source half of the
    /// right-hand side.
    pub fn set_potential(&mut self, src: usize, p: S)
        requires
            old(self).wf(),
            src < old(self).spec_sources(),
        ensures
            final(self).wf(),
            final(self).same_system(*old(self)),
            final(self).out() == old(self).out(),
            final(self).known() == old(self).known().update(old(self).spec_nodes() + src, p),
            final(self).spec_dirty(),
    {
        self.known[self.nodes + src] = p;
        self.dirty = true;
    }

    /// The node half of the right-hand side: the injected currents.
    pub fn node_currents(&self) -> (r: Vec<S>)
        requires
            self.wf(),
        ensures
            r@ == self.known().take(self.spec_nodes()),
    {
        slice_vals(&self.known, 0, self.nodes)
    }

    /// The source half of the right-hand side: the imposed potentials.
    pub fn src_potentials(&self) -> (r: Vec<S>)
        requires
            self.wf(),
        ensures
            r@ == self.known().skip(self.spec_nodes()),
    {
        slice_vals(&self.known, self.nodes, self.stride)
    }

    /// Refresh the solution: copy `known` into `out` and run the backend's
    /// triangular solve against the stored factors and pivots. On success
    /// the solution is current; a negative `info` surfaces as `BadArg` and
    /// leaves the solution stale.
    pub fn solve(&mut self) -> (r: Result<(), MatrixError>)
        requires
            old(self).wf(),
        ensures
            final(self).wf(),
            final(self).same_system(*old(self)),
            final(self).known() == old(self).known(),
            match r {
                Ok(()) => !final(self).spec_dirty(),
                Err(e) => e is BadArg && final(self).spec_dirty() == old(self).spec_dirty(),
            },
    {
        self.out = copy_vals(&self.known);
        let info = S::back_solve(self.stride, &self.matrix, &self.piv, &mut self.out);
        if info < 0 {
            return Err(MatrixError::BadArg { idx: (0i64 - info as i64) as usize });
        }
        self.dirty = false;
        Ok(())
    }

    /// The potential solved for `node`, solving first if the right-hand
    /// side changed since the last solve.
    pub fn get_potential(&mut self, node: usize) -> (r: Result<S, MatrixError>)
        requires
            old(self).wf(),
            node < old(self).spec_nodes(),
        ensures
            final(self).wf(),
            final(self).same_system(*old(self)),
            final(self).known() == old(self).known(),
            match r {
                Ok(v) => !final(self).spec_dirty() && v == final(self).out()[node as int],
                Err(e) => e is BadArg && old(self).spec_dirty(),
            },
            !old(self).spec_dirty() ==> final(self).out() == old(self).out(),
    {
        if self.dirty {
            match self.solve() {
                Ok(()) => (),
                Err(e) => {
                    return Err(e);
                },
            }
        }
        Ok(self.out[node])
    }

    /// The node half of the solution: the node potentials, solving first if
    /// the right-hand side changed since the last solve.
    pub fn node_potentials(&mut self) -> (r: Result<Vec<S>, MatrixError>)
        requires
            old(self).wf(),
        ensures
            final(self).wf(),
            final(self).same_system(*old(self)),
            final(self).known() == old(self).known(),
            match r {
                Ok(v) => !final(self).spec_dirty() && v@ == final(self).out().take(
                    final(self).spec_nodes(),
                ),
                Err(e) => e is BadArg && old(self).spec_dirty(),
            },
            !old(self).spec_dirty() ==> final(self).out() == old(self).out(),
    {
        if self.dirty {
            match self.solve() {
                Ok(()) => (),
                Err(e) => {
                    return Err(e);
                },
            }
        }
        Ok(slice_vals(&self.out, 0, self.nodes))
    }

    /// The branch current solved for voltage source `src`, solving first if
    /// the right-hand side changed since the last solve. The sign is the
    /// current from the positive to the negative pin inside the source.
    pub fn get_current(&mut self, src: usize) -> (r: Result<S, MatrixError>)
        requires
            old(self).wf(),
            src < old(self).spec_sources(),
        ensures
            final(self).wf(),
            final(self).same_system(*old(self)),
            final(self).known() == old(self).known(),
            match r {
                Ok(v) => !final(self).spec_dirty() && v == final(self).out()[old(
                    self,
                ).spec_nodes() + src],
                Err(e) => e is BadArg && old(self).spec_dirty(),
            },
            !old(self).spec_dirty() ==> final(self).out() == old(self).out(),
    {
        if self.dirty {
            match self.solve() {
                Ok(()) => (),
                Err(e) => {
                    return Err(e);
                },
            }
        }
        Ok(self.out[self.nodes + src])
    }

    /// The source half of the solution: the source branch currents, solving
    /// first if the right-hand side changed since the last solve.
    pub fn src_currents(&mut self) -> (r: Result<Vec<S>, MatrixError>)
        requires
            old(self).wf(),
        ensures
            final(self).wf(),
            final(self).same_system(*old(self)),
            final(self).known() == old(self).known(),
            match r {
                Ok(v) => !final(self).spec_dirty() && v@ == final(self).out().skip(
                    final(self).spec_nodes(),
                ),
                Err(e) => e is BadArg && old(self).spec_dirty(),
            },
            !old(self).spec_dirty() ==> final(self).out() == old(self).out(),
    {
        if self.dirty {
            match self.solve() {
                Ok(()) => (),
                Err(e) => {
                    return Err(e);
                },
            }
        }
        Ok(slice_vals(&self.out, self.nodes, self.stride))
    }
}

/// The elements of `src` from `from` (inclusive) to `to` (exclusive).
fn slice_vals<S: Scalar>(src: &Vec<S>, from: usize, to: usize) -> (r: Vec<S>)
    requires
        from <= to <= src.len(),
    ensures
        r@ == src@.subrange(from as int, to as int),
{
    let mut v: Vec<S> = Vec::new();
    let mut i: usize = from;
    while i < to
        invariant
            from <= i <= to <= src.len(),
            v@ =~= src@.subrange(from as int, i as int),
        decreases to - i,
    {
        v.push(src[i]);
        proof {
            assert(v@ =~= src@.subrange(from as int, i + 1));
        }
        i = i + 1;
    }
    v
}

} // verus!

