use vstd::prelude::*;
use crate::config::{WIDTH, HEIGHT};
use crate::entity::{Entity, all_in_grid};
use crate::game::Game;
use vstd::string::StringExecFns;

verus! {

/// What a cell of the snapshot shows.
#[derive(Clone, Copy, Debug, PartialEq, Eq, Structural)]
pub enum Cell {
    Blank,
    Player,
    Enemy,
    Bullet,
}

/// A read-only picture of the world: `WIDTH * HEIGHT` cells, row by row, and the score.
pub struct Snapshot {
    pub cells: Vec<Cell>,
    pub score: usize,
}

/// Number of cells in the grid.
pub open spec fn grid_len() -> int {
    WIDTH * HEIGHT
}

/// Row-major index of the cell that `e` stands on.
pub open spec fn cell_index(e: Entity) -> int {
    e.y * WIDTH + e.x
}

/// Some live entity of `s` stands on cell `k`.
pub open spec fn covers(s: Seq<Entity>, k: int) -> bool {
    exists|i: int| 0 <= i < s.len() && #[trigger] s[i].alive && cell_index(s[i]) == k
}

/// What cell `k` shows when the player, the enemies, the player bullets and
/// the enemy bullets are drawn in that order, each over what is beneath it.
pub open spec fn shown(g: Game, k: int) -> Cell {
    if covers(g.enemy_bullets@, k) || covers(g.player_bullets@, k) {
        Cell::Bullet
    } else if covers(g.enemies@, k) {
        Cell::Enemy
    } else if g.player.alive && cell_index(g.player) == k {
        Cell::Player
    } else {
        Cell::Blank
    }
}

/// `base` with every live entity of `s` drawn on it as `c`, in order.
pub open spec fn painted(base: Seq<Cell>, s: Seq<Entity>, c: Cell) -> Seq<Cell>
    decreases s.len(),
{
    if s.len() == 0 {
        base
    } else {
        let p = painted(base, s.drop_last(), c);
        if s.last().alive {
            p.update(cell_index(s.last()), c)
        } else {
            p
        }
    }
}

proof fn lemma_cell_index_in_grid(e: Entity)
    requires
        e.in_grid(),
    ensures
        0 <= cell_index(e) < grid_len(),
{
    assert(e.y * WIDTH + e.x < WIDTH * HEIGHT) by (nonlinear_arith)
        requires
            e.x < WIDTH,
            e.y < HEIGHT,
    ;
}

proof fn lemma_painted(base: Seq<Cell>, s: Seq<Entity>, c: Cell)
    requires
        base.len() == grid_len(),
        all_in_grid(s),
    ensures
        painted(base, s, c).len() == grid_len(),
        forall|k: int| 0 <= k < grid_len() ==> #[trigger] painted(base, s, c)[k] == if covers(s, k) {
            c
        } else {
            base[k]
        },
    decreases s.len(),
{
    if s.len() > 0 {
        let d = s.drop_last();
        lemma_painted(base, d, c);
        let l = s.last();
        assert(s[s.len() - 1] == l);
        lemma_cell_index_in_grid(l);
        assert forall|k: int| 0 <= k < grid_len() implies #[trigger] painted(base, s, c)[k] == if covers(s, k) {
            c
        } else {
            base[k]
        } by {
            if covers(d, k) {
                let i = choose|i: int| 0 <= i < d.len() && #[trigger] d[i].alive && cell_index(d[i]) == k;
                assert(s[i] == d[i]);
            }
            if covers(s, k) && !(l.alive && cell_index(l) == k) {
                let i = choose|i: int| 0 <= i < s.len() && #[trigger] s[i].alive && cell_index(s[i]) == k;
                assert(i < d.len());
                assert(d[i] == s[i]);
            }
        }
    }
}

/// Draws every live entity of `s` onto `cells` as `c`, in order.
fn paint(cells: &mut Vec<Cell>, s: &Vec<Entity>, c: Cell)
    requires
        old(cells)@.len() == grid_len(),
        all_in_grid(s@),
    ensures
        final(cells)@ == painted(old(cells)@, s@, c),
{
    let mut i: usize = 0;
    while i < s.len()
        invariant
            i <= s@.len(),
            all_in_grid(s@),
            old(cells)@.len() == grid_len(),
            cells@ == painted(old(cells)@, s@.take(i as int), c),
        decreases s@.len() - i,
    {
        proof {
            lemma_painted(old(cells)@, s@.take(i as int), c);
            assert(s@.take(i as int + 1).drop_last() =~= s@.take(i as int));
        }
        let e = s[i];
        if e.alive {
            proof {
                lemma_cell_index_in_grid(e);
            }
            cells.set(e.y * WIDTH + e.x, c);
        }
        i = i + 1;
    }
    assert(s@.take(s@.len() as int) =~= s@);
}

/// The character that shows cell content `c` in text.
pub open spec fn glyph(c: Cell) -> char {
    match c {
        Cell::Blank => ' ',
        Cell::Player => '^',
        Cell::Enemy => 'W',
        Cell::Bullet => '|',
    }
}

/// Row `y` of `cells` as text, ended by a newline.
pub open spec fn row_text(cells: Seq<Cell>, y: int) -> Seq<char> {
    Seq::new(WIDTH as nat, |x: int| glyph(cells[y * WIDTH + x])).push('\n')
}

/// The first `n` rows of `cells` as text.
pub open spec fn rows_text(cells: Seq<Cell>, n: nat) -> Seq<char>
    decreases n,
{
    if n == 0 {
        Seq::empty()
    } else {
        rows_text(cells, (n - 1) as nat) + row_text(cells, n - 1)
    }
}

/// The whole grid `cells` as text: `HEIGHT` lines of `WIDTH` characters.
pub open spec fn screen_text(cells: Seq<Cell>) -> Seq<char> {
    rows_text(cells, HEIGHT as nat)
}

fn glyph_str(c: Cell) -> (r: &'static str)
    ensures
        r@ == seq![glyph(c)],
{
    match c {
        Cell::Blank => {
            proof {
                reveal_strlit(" ");
            }
            " "
        },
        Cell::Player => {
            proof {
                reveal_strlit("^");
            }
            "^"
        },
        Cell::Enemy => {
            proof {
                reveal_strlit("W");
            }
            "W"
        },
        Cell::Bullet => {
            proof {
                reveal_strlit("|");
            }
            "|"
        },
    }
}

impl Snapshot {
    /// The grid as text, one line per row, each ended by a newline.
    pub fn text(&self) -> (r: String)
        requires
            self.cells@.len() == grid_len(),
        ensures
            r@ == screen_text(self.cells@),
    {
        let ghost cs = self.cells@;
        let mut out = String::new();
        let mut y: usize = 0;
        while y < HEIGHT
            invariant
                y <= HEIGHT,
                cs == self.cells@,
                cs.len() == grid_len(),
                out@ == rows_text(cs, y as nat),
            decreases HEIGHT - y,
        {
            let mut x: usize = 0;
            while x < WIDTH
                invariant
                    x <= WIDTH,
                    y < HEIGHT,
                    cs == self.cells@,
                    cs.len() == grid_len(),
                    out@ == rows_text(cs, y as nat) + Seq::new(x as nat, |i: int| glyph(cs[y * WIDTH + i])),
                decreases WIDTH - x,
            {
                proof {
                    lemma_cell_index_in_grid(Entity { x, y, alive: true });
                }
                let g = glyph_str(self.cells[y * WIDTH + x]);
                out.append(g);
                assert(Seq::new((x + 1) as nat, |i: int| glyph(cs[y * WIDTH + i])) =~= Seq::new(
                    x as nat,
                    |i: int| glyph(cs[y * WIDTH + i]),
                ).push(glyph(cs[y * WIDTH + x])));
                x = x + 1;
            }
            proof {
                reveal_strlit("\n");
            }
            out.append("\n");
            assert(rows_text(cs, (y + 1) as nat) =~= rows_text(cs, y as nat) + row_text(cs, y as int));
            y = y + 1;
        }
        out
    }

    /// What the cell at column `x`, row `y` shows.
    pub fn cell(&self, x: usize, y: usize) -> (r: Cell)
        requires
            x < WIDTH,
            y < HEIGHT,
            self.cells@.len() == grid_len(),
        ensures
            r == self.cells@[y * WIDTH + x],
    {
        proof {
            lemma_cell_index_in_grid(Entity { x, y, alive: true });
        }
        self.cells[y * WIDTH + x]
    }
}

impl Game {
    /// The snapshot of the world: each cell shows what `shown` gives (bullets
    /// over enemies over the player), and the score beside the grid.
    pub fn snapshot(&self) -> (r: Snapshot)
        requires
            self.wf(),
        ensures
            r.cells@.len() == grid_len(),
            forall|k: int| 0 <= k < grid_len() ==> #[trigger] r.cells@[k] == shown(*self, k),
            r.score == self.score,
    {
        let mut cells: Vec<Cell> = Vec::new();
        let mut i: usize = 0;
        while i < WIDTH * HEIGHT
            invariant
                i <= WIDTH * HEIGHT,
                cells@.len() == i,
                forall|k: int| 0 <= k < i ==> #[trigger] cells@[k] == Cell::Blank,
            decreases WIDTH * HEIGHT - i,
        {
            cells.push(Cell::Blank);
            i = i + 1;
        }
        let ghost blank = cells@;
        if self.player.alive {
            proof {
                lemma_cell_index_in_grid(self.player);
            }
            cells.set(self.player.y * WIDTH + self.player.x, Cell::Player);
        }
        let ghost base = cells@;
        paint(&mut cells, &self.enemies, Cell::Enemy);
        let ghost with_enemies = cells@;
        proof {
            lemma_painted(base, self.enemies@, Cell::Enemy);
        }
        paint(&mut cells, &self.player_bullets, Cell::Bullet);
        let ghost with_shots = cells@;
        proof {
            lemma_painted(with_enemies, self.player_bullets@, Cell::Bullet);
        }
        paint(&mut cells, &self.enemy_bullets, Cell::Bullet);
        proof {
            lemma_painted(with_shots, self.enemy_bullets@, Cell::Bullet);
            assert forall|k: int| 0 <= k < grid_len() implies #[trigger] cells@[k] == shown(*self, k) by {
                assert(with_shots[k] == if covers(self.player_bullets@, k) { Cell::Bullet } else { with_enemies[k] });
                assert(with_enemies[k] == if covers(self.enemies@, k) { Cell::Enemy } else { base[k] });
                assert(blank[k] == Cell::Blank);
            }
        }
        Snapshot { cells, score: self.score }
    }

    /// The grid as text (see `Snapshot::text`); the score is not part of it.
    pub fn render(&self) -> (r: String)
        requires
            self.wf(),
        ensures
            r@ == screen_text(Seq::new(grid_len() as nat, |k: int| shown(*self, k))),
    {
        let snap = self.snapshot();
        assert(snap.cells@ =~= Seq::new(grid_len() as nat, |k: int| shown(*self, k)));
        snap.text()
    }
}

} // verus!
