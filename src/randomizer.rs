//! The randomizer: an endless sequence of piece types that avoids recent
//! repeats by drawing from a weighted pool of tickets.
use vstd::prelude::*;
use rand::Rng;
use crate::blocktype::{first_candidate_at, is_first_candidate, type_at, BlockType, FIRST_CANDIDATE_COUNT, TYPE_COUNT};

verus! {

/// Number of tickets in the pool: five for each piece type.
pub const POOL_SIZE: usize = 35;

/// Number of recent pieces that a candidate is checked against.
pub const HISTORY_LEN: usize = 4;

/// Number of candidates drawn for one piece; the last is taken unconditionally.
pub const MAX_ROLLS: usize = 6;

/// Relies on `rand::thread_rng` and `Rng::gen_range`: a value drawn from
/// `0..bound`; `gen_range` panics only on an empty range.
#[verifier::external_body]
pub(crate) fn random_below(bound: usize) -> (r: usize)
    requires
        bound > 0,
    ensures
        r < bound,
{
    rand::thread_rng().gen_range(0..bound)
}

/// The index of the roll that is accepted, looking from roll `k` on: the
/// first whose ticket names a type outside `history`, else the last roll.
pub open spec fn accepted_roll(pool: Seq<BlockType>, history: Seq<BlockType>, draws: Seq<usize>, k: int) -> int
    decreases MAX_ROLLS - k,
{
    if k >= MAX_ROLLS - 1 {
        MAX_ROLLS - 1
    } else if !history.contains(pool[draws[k] as int]) {
        k
    } else {
        accepted_roll(pool, history, draws, k + 1)
    }
}

/// The pool slot whose ticket is taken for the rolls `draws`.
pub open spec fn chosen_slot(pool: Seq<BlockType>, history: Seq<BlockType>, draws: Seq<usize>) -> int {
    draws[accepted_roll(pool, history, draws, 0)] as int
}

/// The piece type chosen for the rolls `draws`.
pub open spec fn chosen_type(pool: Seq<BlockType>, history: Seq<BlockType>, draws: Seq<usize>) -> BlockType {
    pool[chosen_slot(pool, history, draws)]
}

/// `order` with its element at `j` moved to the back.
pub open spec fn moved_to_back(order: Seq<BlockType>, j: int) -> Seq<BlockType> {
    order.remove(j).push(order[j])
}

/// `j` is the first position of `t` in `order`.
pub open spec fn first_position(order: Seq<BlockType>, t: BlockType, j: int) -> bool {
    &&& 0 <= j < order.len()
    &&& order[j] == t
    &&& forall|m: int| 0 <= m < j ==> order[m] != t
}

/// `draws` are six valid pool slots.
pub open spec fn valid_rolls(draws: Seq<usize>) -> bool {
    draws.len() == MAX_ROLLS && forall|i: int| 0 <= i < MAX_ROLLS ==> #[trigger] draws[i] < POOL_SIZE
}

/// `b` and `t` are what one draw with the rolls `draws` makes of `a`: the
/// chosen type enters the history and moves to the back of the order, and
/// its ticket is replaced by one for the type now first in the order.
pub open spec fn drew(a: BlockRandomizer, b: BlockRandomizer, draws: Seq<usize>, t: BlockType) -> bool {
    &&& t == chosen_type(a.pool@, a.history@, draws)
    &&& b.started == a.started
    &&& b.history@ == a.history@.subrange(1, HISTORY_LEN as int).push(t)
    &&& exists|j: int| first_position(a.order@, t, j) && b.order@ == moved_to_back(a.order@, j)
    &&& b.pool@ == a.pool@.update(chosen_slot(a.pool@, a.history@, draws), b.order@[0])
}

/// The usual opening history, so that S and Z are avoided early on.
pub open spec fn initial_history() -> Seq<BlockType> {
    seq![BlockType::TypeS, BlockType::TypeZ, BlockType::TypeS, BlockType::TypeZ]
}

/// The pool, history and least-recently-used order of a repeat-avoiding
/// randomizer.
pub struct BlockRandomizer {
    /// Tickets, each naming a piece type.
    pub pool: Vec<BlockType>,
    /// The last pieces handed out, oldest first.
    pub history: Vec<BlockType>,
    /// Every piece type once, least recently handed out first.
    pub order: Vec<BlockType>,
    /// Whether the opening piece has been handed out.
    pub started: bool,
}

/// Once a candidate is accepted before the last roll, it is not among the
/// pieces of the history.
pub proof fn lemma_no_recent_repeat(pool: Seq<BlockType>, history: Seq<BlockType>, draws: Seq<usize>, k: int)
    requires
        0 <= k,
    ensures
        accepted_roll(pool, history, draws, k) < MAX_ROLLS - 1 ==>
            !history.contains(pool[draws[accepted_roll(pool, history, draws, k)] as int]),
        k <= accepted_roll(pool, history, draws, k) || k >= MAX_ROLLS - 1,
        accepted_roll(pool, history, draws, k) <= MAX_ROLLS - 1,
    decreases MAX_ROLLS - k,
{
    if k < MAX_ROLLS - 1 && history.contains(pool[draws[k] as int]) {
        lemma_no_recent_repeat(pool, history, draws, k + 1);
    }
}

/// A draw hands out a type that is not among the last four pieces, unless
/// all six rolls named recent types and the last one was taken as it came.
pub proof fn lemma_fresh_unless_forced(a: BlockRandomizer, b: BlockRandomizer, draws: Seq<usize>, t: BlockType)
    requires
        drew(a, b, draws, t),
    ensures
        accepted_roll(a.pool@, a.history@, draws, 0) < MAX_ROLLS - 1 ==> !a.history@.contains(t),
        a.history@.contains(t) ==> accepted_roll(a.pool@, a.history@, draws, 0) == MAX_ROLLS - 1,
{
    lemma_no_recent_repeat(a.pool@, a.history@, draws, 0);
}

proof fn lemma_moved_to_back_full(order: Seq<BlockType>, j: int)
    requires
        order.len() == TYPE_COUNT,
        forall|t: BlockType| order.contains(t),
        0 <= j < order.len(),
    ensures
        moved_to_back(order, j).len() == TYPE_COUNT,
        forall|t: BlockType| moved_to_back(order, j).contains(t),
{
    let r = moved_to_back(order, j);
    assert forall|t: BlockType| r.contains(t) by {
        if t == order[j] {
            assert(r[r.len() - 1] == t);
        } else {
            assert(order.contains(t));
            let m = choose|m: int| 0 <= m < order.len() && order[m] == t;
            assert(m != j);
            if m < j {
                assert(r[m] == t);
            } else {
                assert(r[m - 1] == t);
            }
        }
    }
}

impl BlockRandomizer {
    pub open spec fn wf(&self) -> bool {
        &&& self.pool@.len() == POOL_SIZE
        &&& self.history@.len() == HISTORY_LEN
        &&& self.order@.len() == TYPE_COUNT
        &&& forall|t: BlockType| self.order@.contains(t)
    }

    /// A fresh randomizer: five tickets of each type, the opening history
    /// S, Z, S, Z and the order I, J, L, O, S, T, Z.
    pub fn new() -> (r: Self)
        ensures
            r.wf(),
            !r.started,
            r.history@ == initial_history(),
            r.order@ == Seq::new(TYPE_COUNT as nat, |i: int| type_at(i)),
            forall|i: int| 0 <= i < POOL_SIZE ==> #[trigger] r.pool@[i] == type_at(i % 7),
    {
        let mut pool: Vec<BlockType> = Vec::new();
        let mut i: usize = 0;
        while i < POOL_SIZE
            invariant
                i <= POOL_SIZE,
                pool@.len() == i,
                forall|k: int| 0 <= k < i ==> #[trigger] pool@[k] == type_at(k % 7),
            decreases POOL_SIZE - i,
        {
            pool.push(BlockType::from_index(i % TYPE_COUNT));
            i = i + 1;
        }
        let mut order: Vec<BlockType> = Vec::new();
        let mut k: usize = 0;
        while k < TYPE_COUNT
            invariant
                k <= TYPE_COUNT,
                order@ == Seq::new(k as nat, |m: int| type_at(m)),
            decreases TYPE_COUNT - k,
        {
            order.push(BlockType::from_index(k));
            k = k + 1;
            assert(order@ =~= Seq::new(k as nat, |m: int| type_at(m)));
        }
        assert forall|t: BlockType| order@.contains(t) by {
            let m: int = match t {
                BlockType::TypeI => 0,
                BlockType::TypeJ => 1,
                BlockType::TypeL => 2,
                BlockType::TypeO => 3,
                BlockType::TypeS => 4,
                BlockType::TypeT => 5,
                BlockType::TypeZ => 6,
            };
            assert(order@[m] == t);
        }
        let history = vec![BlockType::TypeS, BlockType::TypeZ, BlockType::TypeS, BlockType::TypeZ];
        assert(history@ =~= initial_history());
        BlockRandomizer { pool, history, order, started: false }
    }

    /// Starts the sequence over.
    pub fn reset(&mut self)
        ensures
            final(self).wf(),
            !final(self).started,
            final(self).history@ == initial_history(),
            final(self).order@ == Seq::new(TYPE_COUNT as nat, |i: int| type_at(i)),
            forall|i: int| 0 <= i < POOL_SIZE ==> #[trigger] final(self).pool@[i] == type_at(i % 7),
    {
        *self = BlockRandomizer::new();
    }

    /// Is `t` among the recent pieces?
    fn recently_seen(&self, t: BlockType) -> (r: bool)
        ensures
            r == self.history@.contains(t),
    {
        let mut i: usize = 0;
        while i < self.history.len()
            invariant
                i <= self.history@.len(),
                forall|k: int| 0 <= k < i ==> self.history@[k] != t,
            decreases self.history@.len() - i,
        {
            if self.history[i] == t {
                return true;
            }
            i = i + 1;
        }
        false
    }

    /// Records `t` as handed out: it enters the history and moves to the
    /// back of the order. Returns the position it had in the order.
    fn record(&mut self, t: BlockType) -> (j: usize)
        requires
            old(self).wf(),
        ensures
            final(self).wf(),
            first_position(old(self).order@, t, j as int),
            final(self).order@ == moved_to_back(old(self).order@, j as int),
            final(self).history@ == old(self).history@.subrange(1, HISTORY_LEN as int).push(t),
            final(self).pool@ == old(self).pool@,
            final(self).started == old(self).started,
    {
        self.history.remove(0);
        self.history.push(t);
        assert(self.history@ =~= old(self).history@.subrange(1, HISTORY_LEN as int).push(t));
        let mut j: usize = 0;
        while j < self.order.len() && self.order[j] != t
            invariant
                self.order@ == old(self).order@,
                j <= self.order@.len(),
                forall|m: int| 0 <= m < j ==> self.order@[m] != t,
            decreases self.order@.len() - j,
        {
            j = j + 1;
        }
        assert(self.order@.contains(t));
        proof {
            if j == self.order@.len() {
                let m = choose|m: int| 0 <= m < self.order@.len() && self.order@[m] == t;
                assert(self.order@[m] != t);
            }
        }
        let moved = self.order.remove(j);
        self.order.push(moved);
        proof { lemma_moved_to_back_full(old(self).order@, j as int); }
        assert(self.order@ =~= moved_to_back(old(self).order@, j as int));
        j
    }

    /// Hands out the opening piece: the candidate I, J, L or T at `pick`.
    pub fn first_with(&mut self, pick: usize) -> (t: BlockType)
        requires
            old(self).wf(),
            pick < FIRST_CANDIDATE_COUNT,
        ensures
            t == first_candidate_at(pick as int),
            final(self).wf(),
            final(self).started,
            final(self).history@ == old(self).history@.subrange(1, HISTORY_LEN as int).push(t),
            final(self).pool@ == old(self).pool@,
            exists|j: int| first_position(old(self).order@, t, j) && final(self).order@ == moved_to_back(old(self).order@, j),
    {
        let t = BlockType::first_candidate(pick);
        self.record(t);
        self.started = true;
        t
    }

    /// Hands out the next piece from the rolls `draws`, one pool slot for
    /// each: the first roll whose ticket is not among the recent pieces is
    /// taken, or the last roll if there is none. The taken type enters the
    /// history and moves to the back of the order, and its ticket is replaced
    /// by one for the type now first in the order.
    pub fn next_with(&mut self, draws: &Vec<usize>) -> (t: BlockType)
        requires
            old(self).wf(),
            valid_rolls(draws@),
        ensures
            final(self).wf(),
            drew(*old(self), *final(self), draws@, t),
    {
        let mut k: usize = 0;
        while k < MAX_ROLLS - 1 && self.recently_seen(self.pool[draws[k]])
            invariant
                self.wf(),
                *self == *old(self),
                k <= MAX_ROLLS - 1,
                draws@.len() == MAX_ROLLS,
                forall|i: int| 0 <= i < MAX_ROLLS ==> #[trigger] draws@[i] < POOL_SIZE,
                accepted_roll(self.pool@, self.history@, draws@, k as int)
                    == accepted_roll(self.pool@, self.history@, draws@, 0),
            decreases MAX_ROLLS - k,
        {
            k = k + 1;
        }
        let slot = draws[k];
        let t = self.pool[slot];
        self.record(t);
        let lru = self.order[0];
        self.pool.set(slot, lru);
        t
    }

    /// Hands out the next piece: an opening candidate first, then pieces
    /// from six random rolls as `next_with` describes.
    pub fn next(&mut self) -> (t: BlockType)
        requires
            old(self).wf(),
        ensures
            final(self).wf(),
            final(self).started,
            !old(self).started ==> is_first_candidate(t),
            !old(self).started ==> final(self).pool@ == old(self).pool@,
            !old(self).started ==> exists|j: int| first_position(old(self).order@, t, j)
                && final(self).order@ == moved_to_back(old(self).order@, j),
            final(self).history@ == old(self).history@.subrange(1, HISTORY_LEN as int).push(t),
            old(self).started ==> exists|draws: Seq<usize>| valid_rolls(draws) && drew(*old(self), *final(self), draws, t),
    {
        if !self.started {
            let pick = random_below(FIRST_CANDIDATE_COUNT);
            return self.first_with(pick);
        }
        let mut draws: Vec<usize> = Vec::new();
        let mut i: usize = 0;
        while i < MAX_ROLLS
            invariant
                i <= MAX_ROLLS,
                draws@.len() == i,
                forall|k: int| 0 <= k < i ==> #[trigger] draws@[k] < POOL_SIZE,
            decreases MAX_ROLLS - i,
        {
            draws.push(random_below(POOL_SIZE));
            i = i + 1;
        }
        let t = self.next_with(&draws);
        assert(valid_rolls(draws@));
        t
    }
}

} // verus!
