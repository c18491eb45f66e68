use vstd::prelude::*;
use crate::config::{LOSS_ROW, FIRE_NUMERATOR, FIRE_DENOMINATOR};
use crate::entity::{Entity, all_in_grid};
use crate::game::Game;
use crate::chance::bernoulli;

verus! {

/// The bullet that enemy `e` fires: one row below it.
pub open spec fn shot_from(e: Entity) -> Entity {
    Entity { x: e.x, y: (e.y + 1) as usize, alive: true }
}

/// The bullets fired by the enemies of `es` when enemy `i` fires exactly when
/// it is alive and `rolls[i]` holds, in the order of the enemies.
pub open spec fn fired(es: Seq<Entity>, rolls: Seq<bool>) -> Seq<Entity>
    decreases es.len(),
{
    if es.len() == 0 || rolls.len() == 0 {
        Seq::empty()
    } else {
        let rest = fired(es.drop_last(), rolls.drop_last());
        if es.last().alive && rolls.last() {
            rest.push(shot_from(es.last()))
        } else {
            rest
        }
    }
}

impl Game {
    /// Appends the enemy bullets of one tick, given the outcome of each
    /// enemy's draw: enemy `i` fires when it is alive and `rolls[i]` holds.
    pub fn enemy_fire(&mut self, rolls: &Vec<bool>)
        requires
            old(self).wf(),
            rolls@.len() == old(self).enemies@.len(),
        ensures
            final(self).wf(),
            final(self).enemy_bullets@ == old(self).enemy_bullets@ + fired(old(self).enemies@, rolls@),
            final(self).player == old(self).player,
            final(self).enemies == old(self).enemies,
            final(self).player_bullets == old(self).player_bullets,
            final(self).score == old(self).score,
            final(self).game_over == old(self).game_over,
            final(self).formation_direction == old(self).formation_direction,
            final(self).tick_counter == old(self).tick_counter,
    {
        let n: usize = self.enemies.len();
        let mut i: usize = 0;
        while i < n
            invariant
                n == old(self).enemies@.len(),
                rolls@.len() == n,
                i <= n,
                self.enemy_bullets@ == old(self).enemy_bullets@ + fired(
                    old(self).enemies@.take(i as int),
                    rolls@.take(i as int),
                ),
                all_in_grid(self.enemy_bullets@),
                self.player == old(self).player,
                self.enemies == old(self).enemies,
                self.player_bullets == old(self).player_bullets,
                self.score == old(self).score,
                self.game_over == old(self).game_over,
                self.formation_direction == old(self).formation_direction,
                self.tick_counter == old(self).tick_counter,
                old(self).wf(),
            decreases n - i,
        {
            let ghost es = old(self).enemies@;
            assert(es.take(i as int + 1).drop_last() =~= es.take(i as int));
            assert(rolls@.take(i as int + 1).drop_last() =~= rolls@.take(i as int));
            let e = self.enemies[i];
            if e.alive && rolls[i] {
                assert(es[i as int].in_grid() && es[i as int].y <= LOSS_ROW);
                self.enemy_bullets.push(Entity { x: e.x, y: e.y + 1, alive: true });
            }
            i = i + 1;
        }
        assert(old(self).enemies@.take(n as int) =~= old(self).enemies@);
        assert(rolls@.take(n as int) =~= rolls@);
    }

    /// Lets every live enemy fire with probability
    /// `FIRE_NUMERATOR / FIRE_DENOMINATOR`, one independent draw per live enemy.
    pub fn enemy_shoot(&mut self)
        requires
            old(self).wf(),
        ensures
            final(self).wf(),
            exists|rolls: Seq<bool>|
                rolls.len() == old(self).enemies@.len() && final(self).enemy_bullets@
                    == old(self).enemy_bullets@ + #[trigger] fired(old(self).enemies@, rolls),
            final(self).player == old(self).player,
            final(self).enemies == old(self).enemies,
            final(self).player_bullets == old(self).player_bullets,
            final(self).score == old(self).score,
            final(self).game_over == old(self).game_over,
            final(self).formation_direction == old(self).formation_direction,
            final(self).tick_counter == old(self).tick_counter,
    {
        let n: usize = self.enemies.len();
        let mut rolls: Vec<bool> = Vec::new();
        let mut i: usize = 0;
        while i < n
            invariant
                n == self.enemies@.len(),
                i <= n,
                rolls@.len() == i,
            decreases n - i,
        {
            let r = if self.enemies[i].alive {
                bernoulli(FIRE_NUMERATOR, FIRE_DENOMINATOR)
            } else {
                false
            };
            rolls.push(r);
            i = i + 1;
        }
        self.enemy_fire(&rolls);
    }
}

} // verus!
