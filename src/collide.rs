use vstd::prelude::*;
use crate::config::{KILL_SCORE, LOSS_ROW};
use crate::entity::{Entity, living, live_count, lemma_living_members, lemma_living_in_grid, lemma_kill_one};
use crate::game::{Game, keep_living};

verus! {

/// `target` is alive and stands on `probe`'s cell.
pub open spec fn strikes(probe: Entity, target: Entity) -> bool {
    target.alive && target.same_cell(probe)
}

/// Index of the first entity of `ts` that `probe` strikes, or `ts.len()` when there is none.
pub open spec fn first_strike(probe: Entity, ts: Seq<Entity>) -> int
    decreases ts.len(),
{
    if ts.len() == 0 {
        0
    } else if strikes(probe, ts[0]) {
        0
    } else {
        1 + first_strike(probe, ts.drop_first())
    }
}

/// Player bullet `i` of `bs` against the enemies `es`: when the bullet is alive
/// and some live enemy shares its cell, the bullet and the first such enemy die.
pub open spec fn shot_step(bs: Seq<Entity>, es: Seq<Entity>, i: int) -> (Seq<Entity>, Seq<Entity>) {
    let j = first_strike(bs[i], es);
    if bs[i].alive && j < es.len() {
        (bs.update(i, bs[i].killed()), es.update(j, es[j].killed()))
    } else {
        (bs, es)
    }
}

/// Player bullets and enemies after the first `n` bullets of `bs` have been
/// resolved against `es`, in order.
pub open spec fn shots(bs: Seq<Entity>, es: Seq<Entity>, n: nat) -> (Seq<Entity>, Seq<Entity>)
    decreases n,
{
    if n == 0 {
        (bs, es)
    } else {
        let p = shots(bs, es, (n - 1) as nat);
        shot_step(p.0, p.1, n - 1)
    }
}

/// The enemy bullets after the hit on `player`, if any: the first live bullet
/// on the player's cell dies.
pub open spec fn after_player_hit(player: Entity, ebs: Seq<Entity>) -> Seq<Entity> {
    let k = first_strike(player, ebs);
    if k < ebs.len() {
        ebs.update(k, ebs[k].killed())
    } else {
        ebs
    }
}

proof fn lemma_first_strike_at(probe: Entity, ts: Seq<Entity>, j: int)
    requires
        0 <= j <= ts.len(),
        forall|m: int| 0 <= m < j ==> !strikes(probe, #[trigger] ts[m]),
        j == ts.len() || strikes(probe, ts[j]),
    ensures
        first_strike(probe, ts) == j,
    decreases j,
{
    if j > 0 {
        assert(!strikes(probe, ts[0]));
        let d = ts.drop_first();
        assert forall|m: int| 0 <= m < j - 1 implies !strikes(probe, #[trigger] d[m]) by {
            assert(d[m] == ts[m + 1]);
        }
        lemma_first_strike_at(probe, d, j - 1);
    }
}

/// Index of the first live entity of `ts` on `probe`'s cell, or `ts.len()`.
fn find_strike(probe: &Entity, ts: &Vec<Entity>) -> (j: usize)
    ensures
        j == first_strike(*probe, ts@),
        j <= ts@.len(),
        forall|m: int| 0 <= m < j ==> !strikes(*probe, #[trigger] ts@[m]),
        j < ts@.len() ==> strikes(*probe, ts@[j as int]),
{
    let mut j: usize = 0;
    while j < ts.len()
        invariant
            j <= ts@.len(),
            forall|m: int| 0 <= m < j ==> !strikes(*probe, #[trigger] ts@[m]),
        decreases ts@.len() - j,
    {
        let t = ts[j];
        if t.alive && t.x == probe.x && t.y == probe.y {
            proof {
                lemma_first_strike_at(*probe, ts@, j as int);
            }
            return j;
        }
        j = j + 1;
    }
    proof {
        lemma_first_strike_at(*probe, ts@, j as int);
    }
    j
}

/// How Collision & Cleanup takes the world from `b` to `a`; see
/// `Game::check_collisions`.
pub open spec fn collision_step(b: Game, a: Game) -> bool {
    let p = shots(b.player_bullets@, b.enemies@, b.player_bullets@.len());
    let hit = first_strike(b.player, b.enemy_bullets@) < b.enemy_bullets@.len();
    &&& a.player_bullets@ == living(p.0)
    &&& a.enemies@ == living(p.1)
    &&& a.enemy_bullets@ == living(after_player_hit(b.player, b.enemy_bullets@))
    &&& a.player == if hit { b.player.killed() } else { b.player }
    &&& a.game_over == (b.game_over || hit)
    &&& a.score == b.score + KILL_SCORE * (live_count(b.enemies@) - a.enemies@.len())
    &&& a.formation_direction == b.formation_direction
    &&& a.tick_counter == b.tick_counter
}

impl Game {
    /// Resolves the hits of one tick and removes the dead. Each live player
    /// bullet, in order, kills the first live enemy on its cell (and dies),
    /// scoring `KILL_SCORE`; then the first live enemy bullet on the player's
    /// cell kills the player and ends the game. Finally every dead bullet and
    /// enemy is removed.
    pub fn check_collisions(&mut self)
        requires
            old(self).wf(),
        ensures
            final(self).wf(),
            collision_step(*old(self), *final(self)),
            final(self).enemies@.len() <= live_count(old(self).enemies@),
            forall|i: int, j: int|
                0 <= i < final(self).player_bullets@.len() && 0 <= j < final(self).enemies@.len()
                    ==> !(#[trigger] final(self).player_bullets@[i]).same_cell(
                    #[trigger] final(self).enemies@[j],
                ),
    {
        let ghost bs0 = self.player_bullets@;
        let ghost es0 = self.enemies@;
        proof {
            lemma_living_members(es0);
        }
        let n: usize = self.player_bullets.len();
        let mut i: usize = 0;
        while i < n
            invariant
                n == bs0.len(),
                i <= n,
                (self.player_bullets@, self.enemies@) == shots(bs0, es0, i as nat),
                self.player_bullets@.len() == n,
                self.enemies@.len() == es0.len(),
                forall|k: int| i <= k < n ==> #[trigger] self.player_bullets@[k] == bs0[k],
                forall|k: int| 0 <= k < n ==> (#[trigger] self.player_bullets@[k]).same_cell(bs0[k]),
                forall|k: int| 0 <= k < es0.len() ==> (#[trigger] self.enemies@[k]).same_cell(es0[k]),
                live_count(self.enemies@) <= live_count(es0),
                self.score + KILL_SCORE * live_count(self.enemies@) == old(self).score + KILL_SCORE * live_count(es0),
                live_count(es0) <= es0.len(),
                forall|a: int, b: int|
                    0 <= a < i && 0 <= b < es0.len() && (#[trigger] self.player_bullets@[a]).alive
                        && (#[trigger] self.enemies@[b]).alive ==> !self.player_bullets@[a].same_cell(
                        self.enemies@[b],
                    ),
                self.player == old(self).player,
                self.enemy_bullets == old(self).enemy_bullets,
                self.game_over == old(self).game_over,
                self.formation_direction == old(self).formation_direction,
                self.tick_counter == old(self).tick_counter,
                bs0 == old(self).player_bullets@,
                es0 == old(self).enemies@,
                old(self).wf(),
            decreases n - i,
        {
            let b = self.player_bullets[i];
            if b.alive {
                let j = find_strike(&b, &self.enemies);
                if j < self.enemies.len() {
                    proof {
                        lemma_kill_one(self.enemies@, j as int);
                    }
                    let mut e = self.enemies[j];
                    e.alive = false;
                    self.enemies.set(j, e);
                    let mut dead = b;
                    dead.alive = false;
                    self.player_bullets.set(i, dead);
                    self.score = self.score + KILL_SCORE;
                }
            }
            i = i + 1;
        }
        let ghost p = shots(bs0, es0, n as nat);
        let k = find_strike(&self.player, &self.enemy_bullets);
        if k < self.enemy_bullets.len() {
            let mut dead = self.enemy_bullets[k];
            dead.alive = false;
            self.enemy_bullets.set(k, dead);
            self.player.alive = false;
            self.game_over = true;
        }
        assert(self.enemy_bullets@ == after_player_hit(old(self).player, old(self).enemy_bullets@));
        proof {
            lemma_living_members(self.player_bullets@);
            lemma_living_members(self.enemies@);
            lemma_living_members(self.enemy_bullets@);
            lemma_living_in_grid(self.player_bullets@);
            lemma_living_in_grid(self.enemies@);
            lemma_living_in_grid(self.enemy_bullets@);
        }
        let ghost pb = self.player_bullets@;
        let ghost es = self.enemies@;
        self.player_bullets = keep_living(&self.player_bullets);
        self.enemies = keep_living(&self.enemies);
        self.enemy_bullets = keep_living(&self.enemy_bullets);
        assert forall|i: int, j: int|
            0 <= i < self.player_bullets@.len() && 0 <= j < self.enemies@.len() implies !(
            #[trigger] self.player_bullets@[i]).same_cell(#[trigger] self.enemies@[j]) by {
            assert(pb.contains(self.player_bullets@[i]));
            assert(es.contains(self.enemies@[j]));
            let a = choose|a: int| 0 <= a < pb.len() && pb[a] == self.player_bullets@[i];
            let b = choose|b: int| 0 <= b < es.len() && es[b] == self.enemies@[j];
            assert(pb[a].alive && es[b].alive);
        }
        assert forall|j: int| 0 <= j < self.enemies@.len() implies (#[trigger] self.enemies@[j]).y <= LOSS_ROW
            && (!self.game_over ==> self.enemies@[j].y < LOSS_ROW) by {
            assert(es.contains(self.enemies@[j]));
            let b = choose|b: int| 0 <= b < es.len() && es[b] == self.enemies@[j];
            assert(es[b].same_cell(es0[b]));
        }
    }
}

} // verus!
