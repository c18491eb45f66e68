use vstd::prelude::*;
use crate::config::{WIDTH, HEIGHT};

verus! {

/// A player, an enemy or a bullet: a cell of the grid and whether it still takes part.
#[derive(Clone, Copy, Debug, PartialEq, Eq, Structural)]
pub struct Entity {
    pub x: usize,
    pub y: usize,
    pub alive: bool,
}

impl Entity {
    /// A live entity at `(x, y)`.
    pub fn new(x: usize, y: usize) -> (r: Entity)
        ensures
            r == (Entity { x, y, alive: true }),
    {
        Entity { x, y, alive: true }
    }

    pub open spec fn in_grid(self) -> bool {
        self.x < WIDTH && self.y < HEIGHT
    }

    pub open spec fn same_cell(self, other: Entity) -> bool {
        self.x == other.x && self.y == other.y
    }

    /// The same entity, marked dead.
    pub open spec fn killed(self) -> Entity {
        Entity { alive: false, ..self }
    }
}

/// Every entity of `s` lies inside the grid.
pub open spec fn all_in_grid(s: Seq<Entity>) -> bool {
    forall|i: int| 0 <= i < s.len() ==> (#[trigger] s[i]).in_grid()
}

/// Every entity of `s` is alive.
pub open spec fn all_alive(s: Seq<Entity>) -> bool {
    forall|i: int| 0 <= i < s.len() ==> (#[trigger] s[i]).alive
}

/// The live entities of `s`, in the order they stand in `s`.
pub open spec fn living(s: Seq<Entity>) -> Seq<Entity>
    decreases s.len(),
{
    if s.len() == 0 {
        Seq::empty()
    } else {
        let rest = living(s.drop_last());
        if s.last().alive {
            rest.push(s.last())
        } else {
            rest
        }
    }
}

/// Number of live entities in `s`.
pub open spec fn live_count(s: Seq<Entity>) -> nat {
    living(s).len()
}

/// Each entity kept by `living` is alive and comes from `s`.
pub proof fn lemma_living_members(s: Seq<Entity>)
    ensures
        living(s).len() <= s.len(),
        all_alive(living(s)),
        forall|i: int| 0 <= i < living(s).len() ==> s.contains(#[trigger] living(s)[i]),
    decreases s.len(),
{
    if s.len() > 0 {
        let d = s.drop_last();
        lemma_living_members(d);
        assert forall|i: int| 0 <= i < living(s).len() implies s.contains(#[trigger] living(s)[i]) by {
            if i < living(d).len() {
                assert(living(s)[i] == living(d)[i]);
                assert(d.contains(living(d)[i]));
                let k = choose|k: int| 0 <= k < d.len() && d[k] == living(d)[i];
                assert(s[k] == living(s)[i]);
            } else {
                assert(s[s.len() - 1] == living(s)[i]);
            }
        }
    }
}

/// A sequence of live entities is left as it is by `living`.
pub proof fn lemma_living_of_all_alive(s: Seq<Entity>)
    requires
        all_alive(s),
    ensures
        living(s) == s,
    decreases s.len(),
{
    if s.len() > 0 {
        let d = s.drop_last();
        lemma_living_of_all_alive(d);
        assert(s.last().alive);
        assert(d.push(s.last()) =~= s);
    }
}

/// Pruning twice in a row removes nothing the second time.
pub proof fn lemma_prune_twice(s: Seq<Entity>)
    ensures
        living(living(s)) == living(s),
{
    lemma_living_members(s);
    lemma_living_of_all_alive(living(s));
}

/// Entities kept by `living` stay inside the grid.
pub proof fn lemma_living_in_grid(s: Seq<Entity>)
    requires
        all_in_grid(s),
    ensures
        all_in_grid(living(s)),
{
    lemma_living_members(s);
    assert forall|i: int| 0 <= i < living(s).len() implies (#[trigger] living(s)[i]).in_grid() by {
        assert(s.contains(living(s)[i]));
    }
}

/// Killing one live entity lowers the live count by exactly one.
pub proof fn lemma_kill_one(s: Seq<Entity>, j: int)
    requires
        0 <= j < s.len(),
        s[j].alive,
    ensures
        live_count(s.update(j, s[j].killed())) + 1 == live_count(s),
    decreases s.len(),
{
    let t = s.update(j, s[j].killed());
    if j == s.len() - 1 {
        assert(t.drop_last() =~= s.drop_last());
    } else {
        lemma_kill_one(s.drop_last(), j);
        assert(t.drop_last() =~= s.drop_last().update(j, s[j].killed()));
        assert(t.last() == s.last());
    }
}

} // verus!
