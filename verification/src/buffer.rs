//! The render-buffer manager: dirty tracking, capacity doubling and the
//! line-vertex cache derived from the card list.

use vstd::prelude::*;

verus! {

use vstd::arithmetic::power2::pow2;
use crate::types::{InstanceRaw, Vertex, MAX_CARDS};

/// What one `flush` call asked of the backing store.
#[derive(Clone, Copy, PartialEq, Eq, Structural, Debug)]
pub struct FlushOutcome {
    /// The backing buffers were recreated at a doubled capacity.
    pub reallocated: bool,
    /// Instance and line data were (re)written to the backing store.
    pub uploaded: bool,
}

/// Capacity/dirty bookkeeping for the card instance buffer and the line
/// buffer, plus the cached line vertices of the last flush.
pub struct BufferManager {
    pub instance_capacity: usize,
    pub line_capacity: usize,
    pub line_vertex_count: u32,
    pub positions_dirty: bool,
    pub cached_line_verts: Vec<Vertex>,
}

/// Vertex `k` of the line list: lines join consecutive cards, each line
/// tinted by its first endpoint's color.
pub open spec fn line_vert(cards: Seq<InstanceRaw>, k: int) -> Vertex {
    let i = k / 2;
    if k % 2 == 0 {
        Vertex { position: cards[i].position, color: cards[i].color }
    } else {
        Vertex { position: cards[i + 1].position, color: cards[i].color }
    }
}

/// The whole line list for a card list: two vertices per consecutive pair.
pub open spec fn line_verts_of(cards: Seq<InstanceRaw>) -> Seq<Vertex> {
    Seq::new(
        if cards.len() >= 1 {
            (2 * (cards.len() - 1)) as nat
        } else {
            0nat
        },
        |k: int| line_vert(cards, k),
    )
}

/// Instance capacity after a reallocation for `needed` cards: double what is
/// needed, but never below the initial floor.
pub open spec fn grown_capacity(needed: int) -> int {
    if 2 * needed >= 1024 {
        2 * needed
    } else {
        1024
    }
}

impl BufferManager {
    /// Structural bookkeeping invariant, independent of any card list.
    pub open spec fn well_formed(self) -> bool {
        &&& 1024 <= self.instance_capacity <= 2 * MAX_CARDS
        &&& self.line_capacity == 2 * self.instance_capacity
        &&& self.line_vertex_count == self.cached_line_verts@.len()
    }

    /// A clean manager reflects the card list: capacity suffices and the
    /// cached line vertices are exactly the list's line list.
    pub open spec fn synced(self, cards: Seq<InstanceRaw>) -> bool {
        !self.positions_dirty ==> {
            &&& cards.len() <= self.instance_capacity
            &&& self.cached_line_verts@ == line_verts_of(cards)
        }
    }

    /// Fresh manager, dirty, sized for the initial card count.
    pub fn new(initial_count: usize) -> (m: BufferManager)
        requires
            initial_count <= MAX_CARDS,
        ensures
            m.well_formed(),
            m.positions_dirty,
            m.instance_capacity == 2 * (if initial_count >= 1024 {
                initial_count as int
            } else {
                1024
            }),
            m.line_capacity == 2 * m.instance_capacity,
            m.line_vertex_count == 0,
            m.cached_line_verts@ =~= Seq::<Vertex>::empty(),
    {
        let base = if initial_count >= 1024 {
            initial_count
        } else {
            1024
        };
        BufferManager {
            instance_capacity: base * 2,
            line_capacity: base * 4,
            line_vertex_count: 0,
            positions_dirty: true,
            cached_line_verts: Vec::new(),
        }
    }

    /// Note that the card list changed; idempotent.
    pub fn mark_dirty(&mut self)
        ensures
            final(self).positions_dirty,
            final(self).instance_capacity == old(self).instance_capacity,
            final(self).line_capacity == old(self).line_capacity,
            final(self).line_vertex_count == old(self).line_vertex_count,
            final(self).cached_line_verts == old(self).cached_line_verts,
    {
        self.positions_dirty = true;
    }

    /// Bring the backing store up to date with `cards`. A clean manager does
    /// nothing at all; a dirty one grows capacity if the cards outgrew it,
    /// rebuilds the line-vertex cache, reports one upload, and comes out
    /// clean.
    pub fn flush(&mut self, cards: &Vec<InstanceRaw>) -> (outcome: FlushOutcome)
        requires
            old(self).well_formed(),
            old(self).synced(cards@),
            cards@.len() <= MAX_CARDS,
        ensures
            final(self).well_formed(),
            final(self).synced(cards@),
            !old(self).positions_dirty ==> {
                &&& *final(self) == *old(self)
                &&& !outcome.uploaded
                &&& !outcome.reallocated
            },
            old(self).positions_dirty ==> {
                &&& outcome.uploaded
                &&& !final(self).positions_dirty
                &&& (outcome.reallocated <==> cards@.len() > old(self).instance_capacity)
                &&& final(self).instance_capacity == (if cards@.len() > old(self).instance_capacity {
                    grown_capacity(cards@.len() as int)
                } else {
                    old(self).instance_capacity as int
                })
                &&& final(self).line_capacity == 2 * final(self).instance_capacity
                &&& final(self).cached_line_verts@ == line_verts_of(cards@)
                &&& final(self).line_vertex_count == line_verts_of(cards@).len()
            },
    {
        if !self.positions_dirty {
            return FlushOutcome { reallocated: false, uploaded: false };
        }
        self.positions_dirty = false;

        let needed = cards.len();
        let mut reallocated = false;
        if needed > self.instance_capacity {
            let doubled = needed * 2;
            let new_cap = if doubled >= 1024 {
                doubled
            } else {
                1024
            };
            self.instance_capacity = new_cap;
            self.line_capacity = new_cap * 2;
            reallocated = true;
        }

        self.cached_line_verts.clear();
        let ghost pre = *self;
        if needed >= 1 {
            let last = needed - 1;
            let mut i: usize = 0;
            while i < last
                invariant
                    self.instance_capacity == pre.instance_capacity,
                    self.line_capacity == pre.line_capacity,
                    self.line_vertex_count == pre.line_vertex_count,
                    self.positions_dirty == pre.positions_dirty,
                    last == cards@.len() - 1,
                    cards@.len() <= MAX_CARDS,
                    i <= last,
                    self.cached_line_verts@.len() == 2 * i,
                    forall|k: int|
                        0 <= k < 2 * i ==> self.cached_line_verts@[k] == line_verts_of(cards@)[k],
                decreases last - i,
            {
                let color = cards[i].color;
                self.cached_line_verts.push(
                    Vertex { position: cards[i].position, color },
                );
                self.cached_line_verts.push(
                    Vertex { position: cards[i + 1].position, color },
                );
                i = i + 1;
            }
        }
        proof {
            assert(self.cached_line_verts@ =~= line_verts_of(cards@));
            assert(self.cached_line_verts@.len() <= 2 * MAX_CARDS);
        }
        self.line_vertex_count = self.cached_line_verts.len() as u32;
        FlushOutcome { reallocated, uploaded: true }
    }
}

/// The line list always holds two vertices per consecutive card pair:
/// `2 * (count - 1)` of them, or none for an empty or singleton list.
pub proof fn lemma_line_vertex_count(cards: Seq<InstanceRaw>)
    ensures
        line_verts_of(cards).len() == (if cards.len() >= 1 {
            2 * (cards.len() - 1)
        } else {
            0int
        }),
{
}

/// Reallocations performed when the card count grows one by one from `from`
/// to `to` with a flush after every insertion, starting at capacity `cap`.
pub open spec fn growth_reallocs(cap: int, from: int, to: int) -> int
    decreases to - from,
{
    if from >= to {
        0
    } else {
        let next = from + 1;
        if next > cap {
            1 + growth_reallocs(grown_capacity(next), next, to)
        } else {
            growth_reallocs(cap, next, to)
        }
    }
}

/// Growing within capacity reallocates nothing.
pub proof fn lemma_growth_within_capacity(cap: int, from: int, to: int)
    requires
        to <= cap,
    ensures
        growth_reallocs(cap, from, to) == 0,
    decreases to - from,
{
    if from < to {
        lemma_growth_within_capacity(cap, from + 1, to);
    }
}

/// Amortized growth: reaching `to <= cap * 2^k` cards one insertion at a
/// time costs at most `k` reallocations, never one per insertion.
pub proof fn lemma_growth_logarithmic(cap: int, from: int, to: int, k: nat)
    requires
        1 <= cap,
        from <= cap,
        to <= cap * pow2(k),
    ensures
        growth_reallocs(cap, from, to) <= k,
    decreases to - from,
{
    vstd::arithmetic::power2::lemma_pow2_pos(k);
    if from >= to {
    } else {
        let next = from + 1;
        if next > cap {
            assert(to > cap);
            if k == 0 {
                assert(pow2(0) == 1) by {
                    vstd::arithmetic::power2::lemma2_to64();
                }
                assert(to <= cap);
            } else {
                let k1 = (k - 1) as nat;
                let cap2 = grown_capacity(next);
                assert(cap2 >= 2 * cap);
                assert(pow2(k) == 2 * pow2(k1)) by {
                    vstd::arithmetic::power2::lemma_pow2_unfold(k);
                }
                assert(cap * pow2(k) <= cap2 * pow2(k1)) by (nonlinear_arith)
                    requires
                        cap2 >= 2 * cap,
                        pow2(k) == 2 * pow2(k1),
                        pow2(k1) >= 1,
                        cap >= 1,
                ;
                lemma_growth_logarithmic(cap2, next, to, k1);
            }
        } else {
            lemma_growth_logarithmic(cap, next, to, k);
        }
    }
}

} // verus!
