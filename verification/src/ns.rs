use vstd::prelude::*;

verus! {

/// A handle to an integer identifier granted by a `LinearNamespace`.
///
/// A `Name` points at one of the namespace's shared id cells. Two `Name`s
/// that have been unified point at the same cell and therefore report the
/// same id, through any later renumbering of that cell.
#[derive(Debug)]
pub struct Name {
    cell: usize,
}

/// One shared id cell: its current id and how many live `Name`s point at it.
/// A cell that no `Name` points at is reclaimed at the next `linearize`.
#[derive(Debug)]
struct IdCell {
    id: usize,
    holders: usize,
}

/// A dense integer allocator with identification (`unify`) and compaction
/// (`linearize`). Renumbering events can be recorded and read back, in place
/// of a reorder callback.
#[derive(Debug)]
pub struct LinearNamespace {
    next: usize,
    cells: Vec<IdCell>,
    /// Cells in order of first allocation; dead cells leave at `linearize`.
    order: Vec<usize>,
    /// Whether renumbering events are recorded.
    record: bool,
    /// Recorded (old id, new id) pairs from `unify` and `linearize`, oldest first.
    events: Vec<(usize, usize)>,
}

impl Name {
    /// The index of the id cell this handle points at.
    pub closed spec fn cell_idx(self) -> int {
        self.cell as int
    }

    /// The handle points into `ns`'s cell table.
    pub open spec fn wf(self, ns: LinearNamespace) -> bool {
        0 <= self.cell_idx() < ns.n_cells()
    }

    /// The current id this handle reads out of `ns`.
    pub fn id(&self, ns: &LinearNamespace) -> (r: usize)
        requires
            self.wf(*ns),
        ensures
            r == ns.id_of(*self),
    {
        ns.cell_id(self.cell)
    }

    /// Alias this handle's cell onto `other`'s, so both report `other`'s id
    /// from now on. When recording is on, the pair (this handle's old id,
    /// `other`'s id) is appended to the event log.
    pub fn unify(&mut self, other: &Name, ns: &mut LinearNamespace)
        requires
            old(ns).wf(),
            old(self).wf(*old(ns)),
            other.wf(*old(ns)),
            old(ns).live(old(self).cell_idx()),
            old(ns).live(other.cell_idx()),
            old(ns).holders()[other.cell_idx()] < usize::MAX,
        ensures
            final(ns).wf(),
            final(self).cell_idx() == other.cell_idx(),
            final(ns).ids() == old(ns).ids(),
            final(ns).order() == old(ns).order(),
            final(ns).next_id() == old(ns).next_id(),
            final(ns).recording() == old(ns).recording(),
            final(ns).events() == if old(ns).recording() {
                old(ns).events().push((old(ns).id_of(*old(self)), old(ns).id_of(*other)))
            } else {
                old(ns).events()
            },
            final(ns).holders() == if old(self).cell_idx() == other.cell_idx() {
                old(ns).holders()
            } else {
                old(ns).holders()
                    .update(old(self).cell_idx(), (old(ns).holders()[old(self).cell_idx()] - 1) as usize)
                    .update(other.cell_idx(), (old(ns).holders()[other.cell_idx()] + 1) as usize)
            },
            final(ns).id_of(*final(self)) == old(ns).id_of(*other),
    {
        if ns.record {
            let a_id = ns.cell_id(self.cell);
            let b_id = ns.cell_id(other.cell);
            ns.events.push((a_id, b_id));
        }
        if self.cell != other.cell {
            let a = self.cell;
            ns.cells[a].holders = ns.cells[a].holders - 1;
            let b = other.cell;
            ns.cells[b].holders = ns.cells[b].holders + 1;
            self.cell = other.cell;
            proof {
                assert(ns.ids() =~= old(ns).ids());
                assert(ns.holders() =~= old(ns).holders()
                    .update(old(self).cell_idx(), (old(ns).holders()[old(self).cell_idx()] - 1) as usize)
                    .update(other.cell_idx(), (old(ns).holders()[other.cell_idx()] + 1) as usize));
                assert forall|c: int| #[trigger] ns.live(c) implies old(ns).live(c) by {
                    assert(ns.holders()[c] > 0);
                }
                lemma_wf_on_live_shrink(*old(ns), *ns);
            }
        } else {
            proof {
                assert(ns.ids() =~= old(ns).ids());
                assert(ns.holders() =~= old(ns).holders());
                assert forall|c: int| #[trigger] ns.live(c) implies old(ns).live(c) by {}
                lemma_wf_on_live_shrink(*old(ns), *ns);
            }
        }
    }
}

/// The renumbering events `linearize` records: for each survivor cell, in
/// order, the pair (its id before, its position) when the two differ.
pub open spec fn renumber_events(ids: Seq<usize>, survivors: Seq<usize>) -> Seq<(usize, usize)>
    decreases survivors.len(),
{
    if survivors.len() == 0 {
        Seq::<(usize, usize)>::empty()
    } else {
        let j = survivors.len() - 1;
        let prev = renumber_events(ids, survivors.drop_last());
        if ids[survivors[j] as int] != j {
            prev.push((ids[survivors[j] as int], j as usize))
        } else {
            prev
        }
    }
}

/// The cell table is a vector, so its length fits in `usize`.
proof fn lemma_cells_len_bound(ns: LinearNamespace)
    ensures
        ns.n_cells() <= usize::MAX,
{
    assert(ns.cells.len() == ns.cells@.len());
}

/// What the live prefix holds: live cells only, each from the first `i`
/// order slots, every live one of those slots represented, no repeats.
proof fn lemma_live_prefix(ns: LinearNamespace, i: int)
    requires
        ns.wf(),
        0 <= i <= ns.order().len(),
    ensures
        forall|k: int|
            0 <= k < ns.live_prefix(i).len() ==> ns.live(
                (#[trigger] ns.live_prefix(i)[k]) as int,
            ),
        forall|k: int|
            0 <= k < ns.live_prefix(i).len() ==> exists|m: int|
                0 <= m < i && ns.order()[m] == #[trigger] ns.live_prefix(i)[k],
        forall|m: int|
            0 <= m < i && ns.live(ns.order()[m] as int) ==> ns.live_prefix(i).contains(
                #[trigger] ns.order()[m],
            ),
        forall|k1: int, k2: int|
            0 <= k1 < ns.live_prefix(i).len() && 0 <= k2 < ns.live_prefix(i).len() && k1 != k2
                ==> #[trigger] ns.live_prefix(i)[k1] != #[trigger] ns.live_prefix(i)[k2],
    decreases i,
{
    if i <= 0 {
    } else {
        lemma_live_prefix(ns, i - 1);
        let prev = ns.live_prefix(i - 1);
        let cur = ns.live_prefix(i);
        let c = ns.order()[i - 1];
        assert forall|m: int|
            0 <= m < i && ns.live(ns.order()[m] as int) implies cur.contains(
            #[trigger] ns.order()[m],
        ) by {
            if m < i - 1 {
                assert(prev.contains(ns.order()[m]));
                let k = choose|k: int| 0 <= k < prev.len() && prev[k] == ns.order()[m];
                assert(cur[k] == ns.order()[m]);
            } else {
                assert(cur[cur.len() - 1] == c);
            }
        }
        if ns.live(c as int) {
            assert forall|k1: int, k2: int|
                0 <= k1 < cur.len() && 0 <= k2 < cur.len() && k1 != k2 implies #[trigger] cur[k1]
                != #[trigger] cur[k2] by {
                if k1 < prev.len() && k2 < prev.len() {
                } else {
                    let kin = if k1 < prev.len() {
                        k1
                    } else {
                        k2
                    };
                    assert(prev[kin] == cur[kin]);
                    let m = choose|m: int| 0 <= m < i - 1 && ns.order()[m] == prev[kin];
                    assert(ns.order()[m] != ns.order()[i - 1]);
                }
            }
        }
    }
}

/// Well-formedness depends only on the ids, holders, order and next views,
/// and survives any change that does not grow the live set.
proof fn lemma_wf_on_live_shrink(a: LinearNamespace, b: LinearNamespace)
    requires
        a.wf(),
        b.ids() == a.ids(),
        b.order() == a.order(),
        b.next_id() == a.next_id(),
        b.ids().len() == b.holders().len(),
        forall|c: int| #[trigger] b.live(c) ==> a.live(c),
    ensures
        b.wf(),
{
    assert forall|c: int| #[trigger] b.live(c) implies b.order().contains(c as usize) by {
        assert(a.live(c));
        assert(a.order().contains(c as usize));
    }
    assert forall|c: int| #[trigger] b.live(c) implies b.ids()[c] < b.next_id() by {
        assert(a.live(c));
    }
    assert forall|c1: int, c2: int|
        #[trigger] b.live(c1) && #[trigger] b.live(c2) && c1 != c2 implies b.ids()[c1]
        != b.ids()[c2] by {
        assert(a.live(c1) && a.live(c2));
    }
}

impl LinearNamespace {
    /// The ids of all cells, live and dead, by cell index.
    pub closed spec fn ids(self) -> Seq<usize> {
        self.cells@.map_values(|c: IdCell| c.id)
    }

    /// The live-handle count of every cell, by cell index.
    pub closed spec fn holders(self) -> Seq<usize> {
        self.cells@.map_values(|c: IdCell| c.holders)
    }

    /// Cell indices in order of first allocation, dead ones dropped at the
    /// last `linearize`.
    pub closed spec fn order(self) -> Seq<usize> {
        self.order@
    }

    /// The next id to hand out; also the size after the last `linearize`.
    pub closed spec fn next_id(self) -> usize {
        self.next
    }

    /// Whether renumbering events are being recorded.
    pub closed spec fn recording(self) -> bool {
        self.record
    }

    /// The recorded (old id, new id) events, oldest first.
    pub closed spec fn events(self) -> Seq<(usize, usize)> {
        self.events@
    }

    pub open spec fn n_cells(self) -> int {
        self.ids().len() as int
    }

    /// A cell is live while at least one `Name` points at it.
    pub open spec fn live(self, c: int) -> bool {
        0 <= c < self.n_cells() && self.holders()[c] > 0
    }

    /// The id a handle currently reads.
    pub open spec fn id_of(self, n: Name) -> usize {
        self.ids()[n.cell_idx()]
    }

    /// The live cells among the first `i` of `order`, in order.
    pub open spec fn live_prefix(self, i: int) -> Seq<usize>
        decreases i,
    {
        if i <= 0 {
            Seq::<usize>::empty()
        } else {
            let prev = self.live_prefix(i - 1);
            if self.live(self.order()[i - 1] as int) {
                prev.push(self.order()[i - 1])
            } else {
                prev
            }
        }
    }

    /// The live cells, in order of first allocation.
    pub open spec fn live_order(self) -> Seq<usize> {
        self.live_prefix(self.order().len() as int)
    }

    /// The state `linearize` leaves behind: `order` holds exactly the live
    /// cells, the i-th one carries id i, and `next` is their number.
    pub open spec fn linearized(self) -> bool {
        &&& self.next_id() == self.order().len()
        &&& forall|j: int|
            0 <= j < self.order().len() ==> self.live(#[trigger] self.order()[j] as int)
        &&& forall|j: int|
            0 <= j < self.order().len() ==> self.ids()[#[trigger] self.order()[j] as int] == j
    }

    /// Internal consistency: `order` indexes distinct cells and carries every
    /// live one; live cells have distinct ids, all below `next`.
    pub open spec fn wf(self) -> bool {
        &&& self.ids().len() == self.holders().len()
        &&& forall|i: int| 0 <= i < self.order().len() ==> (#[trigger] self.order()[i]) < self.n_cells()
        &&& forall|i: int, j: int|
            0 <= i < self.order().len() && 0 <= j < self.order().len() && i != j
                ==> #[trigger] self.order()[i] != #[trigger] self.order()[j]
        &&& forall|c: int| #[trigger] self.live(c) ==> self.order().contains(c as usize)
        &&& forall|c: int| #[trigger] self.live(c) ==> self.ids()[c] < self.next_id()
        &&& forall|c1: int, c2: int|
            #[trigger] self.live(c1) && #[trigger] self.live(c2) && c1 != c2
                ==> self.ids()[c1] != self.ids()[c2]
    }

    fn cell_id(&self, c: usize) -> (r: usize)
        requires
            0 <= c < self.n_cells(),
        ensures
            r == self.ids()[c as int],
    {
        self.cells[c].id
    }

    /// An empty namespace: no cells, next id 0, recording off.
    pub fn new() -> (r: LinearNamespace)
        ensures
            r.wf(),
            r.n_cells() == 0,
            r.next_id() == 0,
            !r.recording(),
            r.order() == Seq::<usize>::empty(),
            r.events() == Seq::<(usize, usize)>::empty(),
    {
        let r = LinearNamespace {
            next: 0,
            cells: Vec::new(),
            order: Vec::new(),
            record: false,
            events: Vec::new(),
        };
        proof {
            assert(r.order() =~= Seq::<usize>::empty());
            assert(r.events() =~= Seq::<(usize, usize)>::empty());
        }
        r
    }

    /// Turn recording of renumbering events on or off. Stands in for
    /// installing a reorder callback: the events can be read back after
    /// `unify` or `linearize` instead of being delivered one by one.
    pub fn set_reorder_fn(&mut self, record: bool)
        ensures
            final(self).recording() == record,
            final(self).ids() == old(self).ids(),
            final(self).holders() == old(self).holders(),
            final(self).order() == old(self).order(),
            final(self).next_id() == old(self).next_id(),
            final(self).events() == old(self).events(),
            old(self).wf() ==> final(self).wf(),
    {
        self.record = record;
        proof {
            if old(self).wf() {
                lemma_wf_on_live_shrink(*old(self), *self);
            }
        }
    }

    /// The recorded (old id, new id) renumbering events, oldest first.
    pub fn reorder_events(&self) -> (r: &Vec<(usize, usize)>)
        ensures
            r@ == self.events(),
    {
        &self.events
    }

    /// Hand out a fresh `Name` carrying the next id.
    pub fn next(&mut self) -> (n: Name)
        requires
            old(self).wf(),
            old(self).next_id() < usize::MAX,
        ensures
            final(self).wf(),
            n.wf(*final(self)),
            n.cell_idx() == old(self).n_cells(),
            final(self).live(n.cell_idx()),
            final(self).id_of(n) == old(self).next_id(),
            final(self).ids() == old(self).ids().push(old(self).next_id()),
            final(self).holders() == old(self).holders().push(1usize),
            final(self).order() == old(self).order().push((old(self).n_cells()) as usize),
            final(self).next_id() == old(self).next_id() + 1,
            final(self).recording() == old(self).recording(),
            final(self).events() == old(self).events(),
    {
        let c = self.cells.len();
        let id = self.next;
        self.cells.push(IdCell { id, holders: 1 });
        self.order.push(c);
        self.next = self.next + 1;
        proof {
            assert(self.ids() =~= old(self).ids().push(id));
            assert(self.holders() =~= old(self).holders().push(1usize));
            assert forall|i: int, j: int|
                0 <= i < self.order().len() && 0 <= j < self.order().len() && i != j implies #[trigger] self.order()[i]
                != #[trigger] self.order()[j] by {
                if i < self.order().len() - 1 && j < self.order().len() - 1 {
                    assert(old(self).order()[i] != old(self).order()[j]);
                } else if i < self.order().len() - 1 {
                    assert(old(self).order()[i] < old(self).n_cells());
                } else if j < self.order().len() - 1 {
                    assert(old(self).order()[j] < old(self).n_cells());
                }
            }
            assert forall|cc: int| #[trigger] self.live(cc) implies self.ids()[cc]
                < self.next_id() by {
                if cc < c {
                    assert(old(self).live(cc));
                }
            }
            assert forall|cc: int| #[trigger] self.live(cc) implies self.order().contains(
                cc as usize,
            ) by {
                if cc < c {
                    assert(old(self).live(cc));
                    let k = choose|k: int|
                        0 <= k < old(self).order().len() && old(self).order()[k] == cc as usize;
                    assert(self.order()[k] == cc as usize);
                } else {
                    assert(self.order()[self.order().len() - 1] == cc as usize);
                }
            }
            assert forall|c1: int, c2: int|
                #[trigger] self.live(c1) && #[trigger] self.live(c2) && c1 != c2 implies self.ids()[c1]
                != self.ids()[c2] by {
                if c1 < c && c2 < c {
                    assert(old(self).live(c1) && old(self).live(c2));
                } else if c1 < c {
                    assert(old(self).live(c1));
                    assert(self.ids()[c1] < id);
                } else if c2 < c {
                    assert(old(self).live(c2));
                    assert(self.ids()[c2] < id);
                }
            }
        }
        Name { cell: c }
    }

    /// Give a `Name` back: one fewer holder of its cell. A cell with no
    /// holders left is reclaimed at the next `linearize`.
    pub fn release(&mut self, n: Name)
        requires
            old(self).wf(),
            n.wf(*old(self)),
            old(self).live(n.cell_idx()),
        ensures
            final(self).wf(),
            final(self).ids() == old(self).ids(),
            final(self).holders() == old(self).holders()
                .update(n.cell_idx(), (old(self).holders()[n.cell_idx()] - 1) as usize),
            final(self).order() == old(self).order(),
            final(self).next_id() == old(self).next_id(),
            final(self).recording() == old(self).recording(),
            final(self).events() == old(self).events(),
    {
        let c = n.cell;
        self.cells[c].holders = self.cells[c].holders - 1;
        proof {
            assert(self.ids() =~= old(self).ids());
            assert(self.holders() =~= old(self).holders().update(
                n.cell_idx(),
                (old(self).holders()[n.cell_idx()] - 1) as usize,
            ));
            assert forall|cc: int| #[trigger] self.live(cc) implies old(self).live(cc) by {
                assert(self.holders()[cc] > 0);
            }
            lemma_wf_on_live_shrink(*old(self), *self);
        }
    }

    /// Compact the ids: drop the cells no `Name` points at, renumber the
    /// survivors densely 0..k-1 in their order of first allocation, set the
    /// next id to k and return k. When recording is on, one (old id, new id)
    /// event is appended for each survivor whose id changes.
    pub fn linearize(&mut self) -> (count: usize)
        requires
            old(self).wf(),
        ensures
            final(self).wf(),
            final(self).linearized(),
            count == old(self).live_order().len(),
            final(self).next_id() == count,
            final(self).order() == old(self).live_order(),
            final(self).holders() == old(self).holders(),
            final(self).recording() == old(self).recording(),
            forall|c: int|
                0 <= c < old(self).n_cells() && !old(self).live_order().contains(c as usize)
                    ==> final(self).ids()[c] == old(self).ids()[c],
            final(self).events() == if old(self).recording() {
                old(self).events() + renumber_events(old(self).ids(), old(self).live_order())
            } else {
                old(self).events()
            },
    {
        let mut survivors: Vec<usize> = Vec::new();
        let mut i: usize = 0;
        while i < self.order.len()
            invariant
                *self == *old(self),
                old(self).wf(),
                i <= self.order().len(),
                survivors@ == old(self).live_prefix(i as int),
            decreases self.order().len() - i,
        {
            let c = self.order[i];
            proof {
                assert(c == old(self).order()[i as int]);
                assert((c as int) < old(self).n_cells());
                assert(old(self).live_prefix(i as int + 1) == if old(self).live(c as int) {
                    old(self).live_prefix(i as int).push(c)
                } else {
                    old(self).live_prefix(i as int)
                });
            }
            if self.cells[c].holders > 0 {
                survivors.push(c);
            }
            i = i + 1;
        }
        proof {
            assert(survivors@ == old(self).live_order());
            lemma_live_prefix(*old(self), old(self).order().len() as int);
        }
        let mut j: usize = 0;
        while j < survivors.len()
            invariant
                old(self).wf(),
                j <= survivors@.len(),
                survivors@ == old(self).live_order(),
                forall|k: int|
                    0 <= k < survivors@.len() ==> old(self).live(#[trigger] survivors@[k] as int),
                forall|k1: int, k2: int|
                    0 <= k1 < survivors@.len() && 0 <= k2 < survivors@.len() && k1 != k2
                        ==> #[trigger] survivors@[k1] != #[trigger] survivors@[k2],
                self.n_cells() == old(self).n_cells(),
                self.holders() == old(self).holders(),
                self.order() == old(self).order(),
                self.next_id() == old(self).next_id(),
                self.recording() == old(self).recording(),
                forall|k: int|
                    0 <= k < j ==> self.ids()[#[trigger] survivors@[k] as int] == k,
                forall|c: int|
                    0 <= c < old(self).n_cells() && !survivors@.contains(c as usize)
                        ==> self.ids()[c] == old(self).ids()[c],
                forall|k: int|
                    j <= k < survivors@.len() ==> self.ids()[#[trigger] survivors@[k] as int]
                        == old(self).ids()[survivors@[k] as int],
                self.events() == if old(self).recording() {
                    old(self).events() + renumber_events(
                        old(self).ids(),
                        survivors@.take(j as int),
                    )
                } else {
                    old(self).events()
                },
            decreases survivors@.len() - j,
        {
            let c = survivors[j];
            let oldid = self.cells[c].id;
            proof {
                assert(survivors@.take(j as int + 1).drop_last() =~= survivors@.take(j as int));
                assert(renumber_events(old(self).ids(), survivors@.take(j as int + 1))
                    == if old(self).ids()[survivors@[j as int] as int] != j as int {
                    renumber_events(old(self).ids(), survivors@.take(j as int)).push(
                        (old(self).ids()[survivors@[j as int] as int], j as usize),
                    )
                } else {
                    renumber_events(old(self).ids(), survivors@.take(j as int))
                });
            }
            if oldid != j {
                let ghost pre = *self;
                if self.record {
                    self.events.push((oldid, j));
                }
                let ghost mid = *self;
                self.cells[c].id = j;
                proof {
                    assert(mid.ids() =~= pre.ids());
                    assert(mid.holders() =~= pre.holders());
                    assert(self.ids() =~= mid.ids().update(c as int, j));
                    assert(self.holders() =~= mid.holders());
                }
            }
            j = j + 1;
        }
        let count = survivors.len();
        self.order = survivors;
        self.next = count;
        proof {
            assert(survivors@.take(survivors@.len() as int) =~= survivors@);
            lemma_cells_len_bound(*old(self));
            lemma_live_prefix(*old(self), old(self).order().len() as int);
            assert forall|cc: int| #[trigger] self.live(cc) implies self.order().contains(
                cc as usize,
            ) by {
                assert(old(self).live(cc));
                assert(old(self).order().contains(cc as usize));
                let m = choose|m: int|
                    0 <= m < old(self).order().len() && old(self).order()[m] == cc as usize;
                assert((cc as usize) as int == cc);
                assert(old(self).live(old(self).order()[m] as int));
                assert(old(self).live_order().contains(cc as usize));
            }
            assert forall|cc: int| #[trigger] self.live(cc) implies self.ids()[cc]
                < self.next_id() by {
                assert(self.order().contains(cc as usize));
                let k = choose|k: int|
                    0 <= k < self.order().len() && self.order()[k] == cc as usize;
                assert((cc as usize) as int == cc);
                assert(self.ids()[self.order()[k] as int] == k);
                assert(self.ids()[cc] == k);
            }
            assert forall|c1: int, c2: int|
                #[trigger] self.live(c1) && #[trigger] self.live(c2) && c1 != c2 implies self.ids()[c1]
                != self.ids()[c2] by {
                assert(self.order().contains(c1 as usize));
                assert(self.order().contains(c2 as usize));
                let k1 = choose|k: int|
                    0 <= k < self.order().len() && self.order()[k] == c1 as usize;
                let k2 = choose|k: int|
                    0 <= k < self.order().len() && self.order()[k] == c2 as usize;
                assert((c1 as usize) as int == c1);
                assert((c2 as usize) as int == c2);
                assert(self.ids()[self.order()[k1] as int] == k1);
                assert(self.ids()[self.order()[k2] as int] == k2);
                assert(self.ids()[c1] == k1);
                assert(self.ids()[c2] == k2);
            }
        }
        count
    }

    /// Mint one more `Name` for every live cell, in order of first
    /// allocation. Each minted handle is counted as a holder of its cell.
    pub fn names(&mut self) -> (r: Vec<Name>)
        requires
            old(self).wf(),
            forall|c: int| #[trigger] old(self).live(c) ==> old(self).holders()[c] < usize::MAX,
        ensures
            final(self).wf(),
            final(self).ids() == old(self).ids(),
            final(self).order() == old(self).order(),
            final(self).next_id() == old(self).next_id(),
            final(self).recording() == old(self).recording(),
            final(self).events() == old(self).events(),
            r@.len() == old(self).live_order().len(),
            forall|k: int|
                0 <= k < r@.len() ==> (#[trigger] r@[k]).cell_idx() == old(self).live_order()[k],
            forall|k: int|
                0 <= k < r@.len() ==> (#[trigger] r@[k]).wf(*final(self)) && final(self).live(
                    r@[k].cell_idx(),
                ),
            forall|c: int|
                0 <= c < old(self).n_cells() ==> final(self).holders()[c] == old(self).holders()[c]
                    + (if exists|m: int|
                    0 <= m < old(self).live_order().len() && old(self).live_order()[m] as int == c {
                    1int
                } else {
                    0int
                }),
    {
        let mut survivors: Vec<usize> = Vec::new();
        let mut i: usize = 0;
        while i < self.order.len()
            invariant
                *self == *old(self),
                old(self).wf(),
                i <= self.order().len(),
                survivors@ == old(self).live_prefix(i as int),
            decreases self.order().len() - i,
        {
            let c = self.order[i];
            proof {
                assert(c == old(self).order()[i as int]);
                assert((c as int) < old(self).n_cells());
                assert(old(self).live_prefix(i as int + 1) == if old(self).live(c as int) {
                    old(self).live_prefix(i as int).push(c)
                } else {
                    old(self).live_prefix(i as int)
                });
            }
            if self.cells[c].holders > 0 {
                survivors.push(c);
            }
            i = i + 1;
        }
        proof {
            assert(survivors@ == old(self).live_order());
            lemma_live_prefix(*old(self), old(self).order().len() as int);
        }
        let mut r: Vec<Name> = Vec::new();
        let mut j: usize = 0;
        while j < survivors.len()
            invariant
                old(self).wf(),
                j <= survivors@.len(),
                survivors@ == old(self).live_order(),
                forall|k: int|
                    0 <= k < survivors@.len() ==> old(self).live((#[trigger] survivors@[k]) as int),
                forall|k1: int, k2: int|
                    0 <= k1 < survivors@.len() && 0 <= k2 < survivors@.len() && k1 != k2
                        ==> #[trigger] survivors@[k1] != #[trigger] survivors@[k2],
                forall|c: int|
                    #[trigger] old(self).live(c) ==> old(self).holders()[c] < usize::MAX,
                self.ids() == old(self).ids(),
                self.order() == old(self).order(),
                self.next_id() == old(self).next_id(),
                self.recording() == old(self).recording(),
                self.events() == old(self).events(),
                self.n_cells() == old(self).n_cells(),
                self.holders().len() == old(self).holders().len(),
                r@.len() == j,
                forall|k: int|
                    0 <= k < j ==> (#[trigger] r@[k]).cell_idx() == survivors@[k],
                forall|c: int|
                    0 <= c < old(self).n_cells() ==> self.holders()[c] == old(self).holders()[c]
                        + (if exists|m: int| 0 <= m < j && survivors@[m] as int == c {
                        1int
                    } else {
                        0int
                    }),
            decreases survivors@.len() - j,
        {
            let c = survivors[j];
            proof {
                assert(old(self).live(c as int));
                assert(!(exists|m: int| 0 <= m < j && survivors@[m] as int == c as int));
                assert(self.holders()[c as int] == old(self).holders()[c as int]);
            }
            let ghost pre = *self;
            self.cells[c].holders = self.cells[c].holders + 1;
            r.push(Name { cell: c });
            proof {
                assert(self.ids() =~= pre.ids());
                assert(self.holders() =~= pre.holders().update(
                    c as int,
                    (pre.holders()[c as int] + 1) as usize,
                ));
                assert forall|cc: int| 0 <= cc < old(self).n_cells() implies self.holders()[cc]
                    == old(self).holders()[cc] + (if exists|m: int|
                    0 <= m < j + 1 && survivors@[m] as int == cc {
                    1int
                } else {
                    0int
                }) by {
                    if cc == c as int {
                        assert(survivors@[j as int] as int == cc);
                    } else {
                        if exists|m: int| 0 <= m < j + 1 && survivors@[m] as int == cc {
                            let m = choose|m: int| 0 <= m < j + 1 && survivors@[m] as int == cc;
                            assert(m < j);
                            assert(exists|m2: int| 0 <= m2 < j && survivors@[m2] as int == cc);
                        }
                    }
                }
            }
            j = j + 1;
        }
        proof {
            assert forall|cc: int| #[trigger] self.live(cc) implies old(self).live(cc) by {
                if exists|m: int| 0 <= m < survivors@.len() && survivors@[m] as int == cc {
                    let m = choose|m: int|
                        0 <= m < survivors@.len() && survivors@[m] as int == cc;
                    assert(old(self).live(survivors@[m] as int));
                } else {
                    assert(self.holders()[cc] == old(self).holders()[cc]);
                }
            }
            lemma_wf_on_live_shrink(*old(self), *self);
            assert forall|k: int| 0 <= k < r@.len() implies (#[trigger] r@[k]).wf(*self)
                && self.live(r@[k].cell_idx()) by {
                assert(r@[k].cell_idx() == survivors@[k] as int);
                assert(old(self).live(survivors@[k] as int));
                assert(self.holders()[survivors@[k] as int] >= old(self).holders()[survivors@[k] as int]);
            }
        }
        r
    }
}

/// One id below the live count for every live Name: a live `Name`'s id is
/// always below the namespace's size after the last `linearize` (its
/// `next_id`), whatever allocations, unifications and releases came between.
pub proof fn lemma_live_id_in_range(ns: LinearNamespace, n: Name)
    requires
        ns.wf(),
        n.wf(ns),
        ns.live(n.cell_idx()),
    ensures
        ns.id_of(n) < ns.next_id(),
{
}

/// Right after `linearize` the ids of the live cells are a permutation of
/// 0..k-1, k the number of live cells: each live cell's id lies below k,
/// every value below k is taken (the witness is the cell at that position of
/// `order`), and no two live cells share an id.
pub proof fn lemma_linearized_ids_permutation(ns: LinearNamespace)
    requires
        ns.wf(),
        ns.linearized(),
    ensures
        forall|c: int| #[trigger] ns.live(c) ==> 0 <= ns.ids()[c] < ns.next_id(),
        forall|k: int|
            0 <= k < ns.next_id() ==> ns.live((#[trigger] ns.order()[k]) as int) && ns.ids()[
                ns.order()[k] as int
            ] == k,
        forall|c1: int, c2: int|
            #[trigger] ns.live(c1) && #[trigger] ns.live(c2) && c1 != c2 ==> ns.ids()[c1]
                != ns.ids()[c2],
{
}

/// Unified Names agree: two handles on one cell read the same id, in this
/// and every later state of the namespace, since any later rename changes
/// the one cell both of them read.
pub proof fn lemma_unified_names_agree(ns: LinearNamespace, a: Name, b: Name)
    requires
        a.cell_idx() == b.cell_idx(),
    ensures
        ns.id_of(a) == ns.id_of(b),
{
}

} // verus!
