//! The game board: a sequence of tiles, the unmatched counter, pairing and
//! regeneration. Two tiles pair when their ids are equal; the pair relation
//! is always symmetric and mutual.

use vstd::prelude::*;
use crate::character::{collect_kind_from, consume_kind, consume_kind_from, tick_buffs_from, AddDamage, Buff};
use crate::templates::{BuffKind, TemplateService};

verus! {

/// Upper bound on the number of tiles of one map.
pub const MAX_CELLS: usize = 4096;

/// One tile of the board.
#[derive(Clone, PartialEq, Eq, Debug)]
pub struct Cell {
    /// Pairing identity: two tiles of equal id form a pair.
    pub id: u32,
    /// The tile's own position in the map.
    pub index: usize,
    /// Back-reference to the tile this one paired with, mutual once set.
    pub pair_index: Option<usize>,
    /// Buffs attached to the tile.
    pub buffs: Vec<Buff>,
    /// Buff template id granted to whoever opens the tile; 0 means none.
    pub extra_buff: u32,
}

/// What a regenerated map is built from, one seed per tile.
#[derive(Clone, Copy, PartialEq, Eq, Structural, Debug)]
pub struct CellSeed {
    /// Pairing identity of the tile.
    pub id: u32,
    /// Buff template id granted on open; 0 means none.
    pub extra_buff: u32,
    /// Buff template id attached to the tile itself; 0 means none.
    pub buff: u32,
}

/// Number of still-unpaired tiles at positions `i` and on.
pub open spec fn unpaired_from(s: Seq<Cell>, i: int) -> int
    decreases s.len() - i when 0 <= i <= s.len()
{
    if i >= s.len() {
        0
    } else {
        (if s[i].pair_index is None { 1int } else { 0int }) + unpaired_from(s, i + 1)
    }
}

/// Changing one tile shifts the unpaired count by the change at that tile.
pub proof fn lemma_unpaired_update(s: Seq<Cell>, j: int, c: Cell, i: int)
    requires
        0 <= i <= s.len(),
        0 <= j < s.len(),
    ensures
        unpaired_from(s.update(j, c), i) == unpaired_from(s, i) + if i <= j {
            (if c.pair_index is None { 1int } else { 0int })
                - (if s[j].pair_index is None { 1int } else { 0int })
        } else {
            0int
        },
    decreases s.len() - i,
{
    if i < s.len() {
        lemma_unpaired_update(s, j, c, i + 1);
    }
}

/// Appending one tile extends the unpaired count by its contribution.
pub proof fn lemma_unpaired_push(s: Seq<Cell>, c: Cell, i: int)
    requires
        0 <= i <= s.len(),
    ensures
        unpaired_from(s.push(c), i) == unpaired_from(s, i)
            + (if c.pair_index is None { 1int } else { 0int }),
    decreases s.len() - i,
{
    if i < s.len() {
        lemma_unpaired_push(s, c, i + 1);
    } else {
        assert(unpaired_from(s.push(c), i + 1) == 0);
        assert(s.push(c)[i] == c);
    }
}

/// The unpaired count is never negative.
pub proof fn lemma_unpaired_nonneg(s: Seq<Cell>, i: int)
    requires
        0 <= i <= s.len(),
    ensures
        unpaired_from(s, i) >= 0,
    decreases s.len() - i,
{
    if i < s.len() {
        lemma_unpaired_nonneg(s, i + 1);
    }
}

/// An unpaired tile at or after `i` makes the count from `i` positive.
pub proof fn lemma_unpaired_witness(s: Seq<Cell>, w: int, i: int)
    requires
        0 <= i <= w < s.len(),
        s[w].pair_index is None,
    ensures
        unpaired_from(s, i) >= 1,
    decreases w - i,
{
    if i < w {
        lemma_unpaired_witness(s, w, i + 1);
    } else {
        lemma_unpaired_nonneg(s, i + 1);
    }
}

/// With unpaired tiles at `lo` and later at `hi`, the count from `i` is at
/// least 2.
pub proof fn lemma_unpaired_split_from(s: Seq<Cell>, lo: int, hi: int, i: int)
    requires
        0 <= i <= lo < hi < s.len(),
        s[lo].pair_index is None,
        s[hi].pair_index is None,
    ensures
        unpaired_from(s, i) >= 2,
    decreases lo - i,
{
    if i < lo {
        lemma_unpaired_split_from(s, lo, hi, i + 1);
    } else {
        lemma_unpaired_witness(s, hi, i + 1);
    }
}

/// Two distinct unpaired tiles witness an unpaired count of at least 2.
pub proof fn lemma_unpaired_at_least(s: Seq<Cell>, a: int, b: int)
    requires
        0 <= a < s.len(),
        0 <= b < s.len(),
        a != b,
        s[a].pair_index is None,
        s[b].pair_index is None,
    ensures
        unpaired_from(s, 0) >= 2,
{
    if a < b {
        lemma_unpaired_split_from(s, a, b, 0);
    } else {
        lemma_unpaired_split_from(s, b, a, 0);
    }
}

/// The first tile after position `i`, other than `index`, that is unpaired
/// and carries the same id as `index` — the partner an auto-pair resolves.
pub open spec fn find_partner_from(s: Seq<Cell>, index: int, i: int) -> Option<int>
    decreases s.len() - i when 0 <= i <= s.len()
{
    if i >= s.len() {
        None
    } else if i != index && s[i].pair_index is None && s[i].id == s[index].id {
        Some(i)
    } else {
        find_partner_from(s, index, i + 1)
    }
}


/// A found auto-pair partner is a distinct, unpaired tile of the same id.
pub proof fn lemma_find_partner_props(s: Seq<Cell>, index: int, i: int, p: int)
    requires
        0 <= i <= s.len(),
        0 <= index < s.len(),
        find_partner_from(s, index, i) == Some(p),
    ensures
        i <= p < s.len(),
        p != index,
        s[p].pair_index is None,
        s[p].id == s[index].id,
    decreases s.len() - i,
{
    if i < s.len() {
        if !(i != index && s[i].pair_index is None && s[i].id == s[index].id) {
            lemma_find_partner_props(s, index, i + 1, p);
        }
    }
}

/// The board plus the count of tiles not yet permanently resolved.
#[derive(Clone, PartialEq, Eq, Debug)]
pub struct TileMap {
    pub map: Vec<Cell>,
    /// Unmatched counter: even, never negative, down by exactly 2 per
    /// successful pair, reset to the map's full size on regeneration.
    pub un_pair_count: u32,
}

impl TileMap {
    /// Well-formedness: positions are self-describing, the pair relation is
    /// symmetric, mutual, irreflexive and id-consistent, and the unmatched
    /// counter is exactly the number of unpaired tiles, always even.
    pub open spec fn wf(self) -> bool {
        &&& self.map@.len() <= MAX_CELLS
        &&& self.map@.len() % 2 == 0
        &&& self.un_pair_count == unpaired_from(self.map@, 0)
        &&& self.un_pair_count % 2 == 0
        &&& forall|i: int| 0 <= i < self.map@.len() ==> (#[trigger] self.map@[i]).index == i
        &&& forall|i: int| 0 <= i < self.map@.len() ==> match (#[trigger] self.map@[i]).pair_index {
            Some(j) => {
                &&& 0 <= j < self.map@.len()
                &&& j != i
                &&& self.map@[j as int].pair_index == Some(i as usize)
                &&& self.map@[j as int].id == self.map@[i].id
            },
            None => true,
        }
    }

    /// The empty board.
    pub fn new() -> (r: TileMap)
        ensures
            r.wf(),
            r.map@.len() == 0,
            r.un_pair_count == 0,
    {
        TileMap { map: Vec::new(), un_pair_count: 0 }
    }

    /// Build a fresh board from seeds: no tile paired, the unmatched
    /// counter at the full size. Fails only when the seed count is odd or
    /// over the size cap; a seed buff whose template is missing is skipped.
    pub fn init(seeds: &Vec<CellSeed>, ts: &TemplateService) -> (r: Option<TileMap>)
        ensures
            match r {
                Some(m) => {
                    &&& seeds@.len() % 2 == 0
                    &&& seeds@.len() <= MAX_CELLS
                    &&& m.wf()
                    &&& m.map@.len() == seeds@.len()
                    &&& m.un_pair_count == seeds@.len()
                    &&& forall|i: int| 0 <= i < seeds@.len() ==> {
                        &&& (#[trigger] m.map@[i]).id == seeds@[i].id
                        &&& m.map@[i].pair_index is None
                        &&& m.map@[i].extra_buff == seeds@[i].extra_buff
                    }
                },
                None => seeds@.len() % 2 != 0 || seeds@.len() > MAX_CELLS,
            },
    {
        let n = seeds.len();
        if n % 2 != 0 || n > MAX_CELLS {
            return None;
        }
        let mut map: Vec<Cell> = Vec::new();
        let mut i: usize = 0;
        while i < n
            invariant
                n == seeds@.len(),
                i <= n,
                map@.len() == i,
                unpaired_from(map@, 0) == i,
                forall|k: int| 0 <= k < i ==> {
                    &&& (#[trigger] map@[k]).id == seeds@[k].id
                    &&& map@[k].pair_index is None
                    &&& map@[k].extra_buff == seeds@[k].extra_buff
                    &&& map@[k].index == k
                },
            decreases n - i,
        {
            let seed = seeds[i];
            let mut buffs: Vec<Buff> = Vec::new();
            if seed.buff != 0 {
                match ts.get_buff(seed.buff) {
                    Some(t) => {
                        let b = Buff { id: t.id, trigger_timesed: t.trigger_times, keep_times: t.keep_times };
                        if b.trigger_timesed > 0 && b.keep_times > 0 {
                            buffs.push(b);
                        }
                    }
                    None => {}
                }
            }
            let cell = Cell { id: seed.id, index: i, pair_index: None, buffs, extra_buff: seed.extra_buff };
            proof {
                lemma_unpaired_push(map@, cell, 0);
            }
            map.push(cell);
            i += 1;
        }
        let r = TileMap { map, un_pair_count: n as u32 };
        Some(r)
    }

    /// Mark two open tiles of equal id as mutually paired; the unmatched
    /// counter falls by exactly 2.
    pub(crate) fn mark_pair(&mut self, a: usize, b: usize)
        requires
            old(self).wf(),
            a < old(self).map@.len(),
            b < old(self).map@.len(),
            a != b,
            old(self).map@[a as int].pair_index is None,
            old(self).map@[b as int].pair_index is None,
            old(self).map@[a as int].id == old(self).map@[b as int].id,
        ensures
            final(self).wf(),
            final(self).map@ == old(self).map@
                .update(a as int, (Cell { pair_index: Some(b), ..old(self).map@[a as int] }))
                .update(b as int, (Cell { pair_index: Some(a), ..old(self).map@[b as int] })),
            final(self).un_pair_count == old(self).un_pair_count - 2,
            old(self).un_pair_count >= 2,
    {
        proof {
            lemma_unpaired_at_least(self.map@, a as int, b as int);
        }
        let ghost m0 = self.map@;
        let ca = &mut self.map[a];
        ca.pair_index = Some(b);
        let ghost m1 = self.map@;
        let cb = &mut self.map[b];
        cb.pair_index = Some(a);
        proof {
            lemma_unpaired_update(m0, a as int, m1[a as int], 0);
            lemma_unpaired_update(m1, b as int, self.map@[b as int], 0);
        }
        self.un_pair_count = self.un_pair_count - 2;
    }

    /// Swap the identity, granted buff and attached buffs of two unpaired
    /// tiles; positions and the pair relation stay.
    pub(crate) fn swap_cells(&mut self, a: usize, b: usize)
        requires
            old(self).wf(),
            a < old(self).map@.len(),
            b < old(self).map@.len(),
            a != b,
            old(self).map@[a as int].pair_index is None,
            old(self).map@[b as int].pair_index is None,
        ensures
            final(self).wf(),
            final(self).map@ == old(self).map@
                .update(a as int, (Cell { index: a, ..old(self).map@[b as int] }))
                .update(b as int, (Cell { index: b, ..old(self).map@[a as int] })),
            final(self).un_pair_count == old(self).un_pair_count,
    {
        let mut tmp = Cell { id: 0, index: 0, pair_index: None, buffs: Vec::new(), extra_buff: 0 };
        let ghost m0 = self.map@;
        core::mem::swap(&mut self.map[a], &mut tmp);
        let ghost m1 = self.map@;
        core::mem::swap(&mut self.map[b], &mut tmp);
        let ghost m2 = self.map@;
        core::mem::swap(&mut self.map[a], &mut tmp);
        let ghost m3 = self.map@;
        let ca = &mut self.map[a];
        ca.index = a;
        let ghost m4 = self.map@;
        let cb = &mut self.map[b];
        cb.index = b;
        proof {
            lemma_unpaired_update(m0, a as int, m1[a as int], 0);
            lemma_unpaired_update(m1, b as int, m2[b as int], 0);
            lemma_unpaired_update(m2, a as int, m3[a as int], 0);
            lemma_unpaired_update(m3, a as int, m4[a as int], 0);
            lemma_unpaired_update(m4, b as int, self.map@[b as int], 0);
            assert(final(self).map@ =~= old(self).map@
                .update(a as int, (Cell { index: a, ..old(self).map@[b as int] }))
                .update(b as int, (Cell { index: b, ..old(self).map@[a as int] })));
        }
    }

    /// Fire every live buff of one kind on a tile: each consumes one use,
    /// spent ones leave, the fired records come back.
    pub(crate) fn consume_cell_kind(&mut self, i: usize, ts: &TemplateService, kind: BuffKind) -> (fired: Vec<AddDamage>)
        requires
            old(self).wf(),
            i < old(self).map@.len(),
        ensures
            final(self).wf(),
            final(self).map@ == old(self).map@.update(
                i as int,
                (Cell { buffs: final(self).map@[i as int].buffs, ..old(self).map@[i as int] }),
            ),
            final(self).map@[i as int].buffs@ == consume_kind_from(old(self).map@[i as int].buffs@, *ts, kind, 0),
            fired@ == collect_kind_from(old(self).map@[i as int].buffs@, *ts, kind, 0),
            final(self).un_pair_count == old(self).un_pair_count,
    {
        let ghost m0 = self.map@;
        let c = &mut self.map[i];
        let fired = consume_kind(&mut c.buffs, ts, kind);
        proof {
            lemma_unpaired_update(m0, i as int, self.map@[i as int], 0);
        }
        fired
    }


    /// The partner an auto-pair resolves: the first other unpaired tile
    /// with the same id.
    pub(crate) fn find_partner(&self, index: usize) -> (r: Option<usize>)
        requires
            index < self.map@.len(),
        ensures
            match r {
                Some(p) => find_partner_from(self.map@, index as int, 0) == Some(p as int) && p < self.map@.len(),
                None => find_partner_from(self.map@, index as int, 0) is None,
            },
    {
        let n = self.map.len();
        let id = self.map[index].id;
        let mut i: usize = 0;
        while i < n
            invariant
                n == self.map@.len(),
                index < n,
                id == self.map@[index as int].id,
                i <= n,
                find_partner_from(self.map@, index as int, 0) == find_partner_from(self.map@, index as int, i as int),
            decreases n - i,
        {
            if i != index && self.map[i].id == id {
                let open = match self.map[i].pair_index {
                    Some(_) => false,
                    None => true,
                };
                if open {
                    return Some(i);
                }
            }
            i += 1;
        }
        None
    }

    /// Turn-boundary settlement of the buffs attached to one tile.
    pub(crate) fn tick_cell_buffs(&mut self, i: usize)
        requires
            old(self).wf(),
            i < old(self).map@.len(),
        ensures
            final(self).wf(),
            final(self).map@ == old(self).map@.update(
                i as int,
                (Cell { buffs: final(self).map@[i as int].buffs, ..old(self).map@[i as int] }),
            ),
            final(self).map@[i as int].buffs@ == tick_buffs_from(old(self).map@[i as int].buffs@, 0),
            final(self).un_pair_count == old(self).un_pair_count,
    {
        let n = self.map[i].buffs.len();
        let mut out: Vec<Buff> = Vec::new();
        let mut k: usize = 0;
        while k < n
            invariant
                i < self.map@.len(),
                n == self.map@[i as int].buffs@.len(),
                k <= n,
                *self == *old(self),
                tick_buffs_from(self.map@[i as int].buffs@, 0)
                    == out@ + tick_buffs_from(self.map@[i as int].buffs@, k as int),
            decreases n - k,
        {
            let b = self.map[i].buffs[k];
            if b.trigger_timesed > 0 && b.keep_times > 1 {
                out.push(Buff { keep_times: b.keep_times - 1, ..b });
                proof {
                    assert(tick_buffs_from(self.map@[i as int].buffs@, 0)
                        =~= out@ + tick_buffs_from(self.map@[i as int].buffs@, k + 1));
                }
            }
            k += 1;
        }
        proof {
            assert(tick_buffs_from(self.map@[i as int].buffs@, 0) =~= out@);
        }
        let ghost m0 = self.map@;
        let c = &mut self.map[i];
        c.buffs = out;
        proof {
            lemma_unpaired_update(m0, i as int, self.map@[i as int], 0);
        }
    }
}

} // verus!
