use vstd::prelude::*;
use crate::entity::{Entity, all_in_grid};
use crate::game::{Game, bullet_up, bullet_down};
use crate::sweep::sweep_step;
use crate::fire::fired;
use crate::collide::collision_step;

verus! {

/// One decoded input intent.
#[derive(Clone, Copy, Debug, PartialEq, Eq, Structural)]
pub enum Intent {
    Left,
    Right,
    Fire,
    Quit,
    Idle,
}

/// Where a game stands after an iteration of the outer loop.
#[derive(Clone, Copy, Debug, PartialEq, Eq, Structural)]
pub enum Status {
    Playing,
    Won,
    Lost,
}

/// How Motion & Spawn takes the world from `b` to `a`: every bullet moves,
/// the formation takes its step, and the enemies where they now stand fire
/// according to some draw `rolls`, one per enemy.
pub open spec fn motion_step(b: Game, a: Game) -> bool {
    &&& a.player_bullets@.len() == b.player_bullets@.len()
    &&& forall|i: int| 0 <= i < b.player_bullets@.len() ==>
        #[trigger] a.player_bullets@[i] == bullet_up(b.player_bullets@[i])
    &&& sweep_step(b, a)
    &&& exists|rolls: Seq<bool>| rolls.len() == a.enemies@.len() && a.enemy_bullets@
        == b.enemy_bullets@.map_values(|e: Entity| bullet_down(e)) + #[trigger] fired(a.enemies@, rolls)
    &&& a.player == b.player
    &&& a.score == b.score
}

impl Game {
    /// Applies one intent at once and tells whether the outer loop goes on:
    /// `Quit` stops it without touching the game, `Idle` changes nothing.
    pub fn apply(&mut self, intent: Intent) -> (keep_running: bool)
        requires
            old(self).wf(),
        ensures
            final(self).wf(),
            keep_running == (intent != Intent::Quit),
            intent == Intent::Left ==> ({
                let nx = old(self).player.x - 1;
                final(self).player.x == if 0 < nx < crate::config::WIDTH - 1 { nx } else { old(self).player.x as int }
            }),
            intent == Intent::Right ==> ({
                let nx = old(self).player.x + 1;
                final(self).player.x == if 0 < nx < crate::config::WIDTH - 1 { nx } else { old(self).player.x as int }
            }),
            intent == Intent::Fire ==> final(self).player_bullets@ == old(self).player_bullets@.push(
                Entity { x: old(self).player.x, y: (old(self).player.y - 1) as usize, alive: true },
            ),
            intent != Intent::Fire ==> final(self).player_bullets == old(self).player_bullets,
            intent != Intent::Left && intent != Intent::Right ==> final(self).player == old(self).player,
            final(self).player.y == old(self).player.y,
            final(self).player.alive == old(self).player.alive,
            final(self).enemies == old(self).enemies,
            final(self).enemy_bullets == old(self).enemy_bullets,
            final(self).score == old(self).score,
            final(self).game_over == old(self).game_over,
            final(self).formation_direction == old(self).formation_direction,
            final(self).tick_counter == old(self).tick_counter,
    {
        match intent {
            Intent::Left => {
                self.move_player(-1);
                true
            },
            Intent::Right => {
                self.move_player(1);
                true
            },
            Intent::Fire => {
                self.shoot_bullet();
                true
            },
            Intent::Quit => false,
            Intent::Idle => true,
        }
    }

    /// The Motion & Spawn stage of one tick: bullets move, the formation
    /// advances its sweep, enemies fire. Every entity stays on the grid.
    pub fn motion_and_spawn(&mut self)
        requires
            old(self).wf(),
        ensures
            final(self).wf(),
            final(self).player.in_grid(),
            all_in_grid(final(self).enemies@),
            all_in_grid(final(self).player_bullets@),
            all_in_grid(final(self).enemy_bullets@),
            motion_step(*old(self), *final(self)),
    {
        self.move_bullets();
        let ghost moved = self.enemy_bullets@;
        assert(moved =~= old(self).enemy_bullets@.map_values(|e: Entity| bullet_down(e)));
        self.move_enemies();
        self.enemy_shoot();
    }

    /// One full tick: Motion & Spawn, then Collision & Cleanup.
    pub fn tick(&mut self)
        requires
            old(self).wf(),
        ensures
            final(self).wf(),
            exists|mid: Game| #[trigger] motion_step(*old(self), mid) && mid.wf() && collision_step(mid, *final(self)),
            final(self).score >= old(self).score,
            old(self).game_over ==> final(self).game_over,
    {
        self.motion_and_spawn();
        let ghost mid = *self;
        self.check_collisions();
        assert(motion_step(*old(self), mid) && mid.wf() && collision_step(mid, *self));
    }

    /// A loss is reported first; otherwise an empty formation is a win.
    pub fn status(&self) -> (r: Status)
        ensures
            r == if self.game_over {
                Status::Lost
            } else if self.enemies@.len() == 0 {
                Status::Won
            } else {
                Status::Playing
            },
    {
        if self.game_over {
            Status::Lost
        } else if self.enemies.len() == 0 {
            Status::Won
        } else {
            Status::Playing
        }
    }
}

} // verus!
