use vstd::prelude::*;
use vstd::pervasive::VecAdditionalExecFns;
use crate::color::{snake_color, snake_color_spec, Color, BACKGROUND_COLOR, FRUIT_COLOR};
use crate::grid::{
    cell_index, lemma_cell_index_injective, pos_minus, pos_plus, wrap_spec, Pos, GRID_CELLS,
    GRID_COLS, GRID_ROWS,
};
use crate::rng::{random_bool, random_index};
use crate::snake::{Snake, SNAKE_INITIAL_LENGTH};

verus! {

/// Tick period of the render loop, in milliseconds.
pub const UPDATE_INTERVAL_MS: u64 = 200;

/// One rendered output buffer: a color for every grid cell, row-major.
pub struct Frame {
    cells: Vec<Color>,
}

impl Frame {
    /// The cell colors, row-major.
    pub closed spec fn view(&self) -> Seq<Color> {
        self.cells@
    }

    /// Well-formedness: one color per grid cell.
    pub open spec fn wf(&self) -> bool {
        self@.len() == GRID_CELLS
    }

    /// A frame of background-colored cells.
    pub fn empty() -> (f: Frame)
        ensures
            f.wf(),
            forall|i: int| 0 <= i < GRID_CELLS ==> f@[i] == BACKGROUND_COLOR,
    {
        Frame { cells: vec![BACKGROUND_COLOR; GRID_CELLS] }
    }

    /// The color of the cell at an in-bounds position.
    pub fn get(&self, p: Pos) -> (c: Color)
        requires
            self.wf(),
            p.in_bounds(),
        ensures
            c == self@[cell_index(p)],
    {
        self.cells[(p.y * GRID_COLS + p.x) as usize]
    }

    /// Paints the cell at an in-bounds position.
    pub fn put(&mut self, p: Pos, c: Color)
        requires
            old(self).wf(),
            p.in_bounds(),
        ensures
            final(self).wf(),
            final(self)@ == old(self)@.update(cell_index(p), c),
    {
        self.cells.set((p.y * GRID_COLS + p.x) as usize, c);
    }
}

/// The color a snake sequence paints onto cell `p`: later roster slots
/// overpaint earlier ones, so the last snake covering `p` wins.
pub open spec fn painted_color(snakes: Seq<Snake>, p: Pos) -> Option<Color>
    decreases snakes.len(),
{
    if snakes.len() == 0 {
        None
    } else if snakes.last().body@.contains(p) {
        Some(snakes.last().color)
    } else {
        painted_color(snakes.drop_last(), p)
    }
}

/// The whole arena: the roster of snakes and the single shared fruit.
pub struct State {
    /// Roster, indexed by stable slot; it grows and is never reordered.
    pub snakes: Vec<Snake>,
    /// The shared fruit cell, absent only right before a full reset.
    pub fruit: Option<Pos>,
}

impl State {
    /// Well-formedness: every snake is well-formed and the fruit in bounds.
    pub open spec fn wf(self) -> bool {
        &&& forall|i: int| 0 <= i < self.snakes@.len() ==> (#[trigger] self.snakes@[i]).wf()
        &&& match self.fruit {
            Some(p) => p.in_bounds(),
            None => true,
        }
    }

    /// Some snake's body occupies cell `p`.
    pub open spec fn occupied(self, p: Pos) -> bool {
        exists|i: int| 0 <= i < self.snakes@.len() && (#[trigger] self.snakes@[i]).body@.contains(p)
    }

    /// An arena with no snakes and no fruit.
    pub fn empty() -> (s: State)
        ensures
            s.wf(),
            s.snakes@.len() == 0,
            s.fruit is None,
    {
        State { snakes: Vec::new(), fruit: None }
    }

    /// Number of roster slots.
    pub fn snake_count(&self) -> (n: usize)
        ensures
            n == self.snakes@.len(),
    {
        self.snakes.len()
    }

    /// Read access to one snake.
    pub fn snake(&self, i: usize) -> (s: &Snake)
        requires
            i < self.snakes@.len(),
        ensures
            *s == self.snakes@[i as int],
    {
        &self.snakes[i]
    }

    /// The current fruit cell.
    pub fn fruit(&self) -> (f: Option<Pos>)
        ensures
            f == self.fruit,
    {
        self.fruit
    }

    /// Mutable access to one snake; the rest of the arena is untouched.
    pub fn snake_mut(&mut self, i: usize) -> (s: &mut Snake)
        requires
            i < old(self).snakes@.len(),
        ensures
            *s == old(self).snakes@[i as int],
            final(self).snakes@ == old(self).snakes@.update(i as int, *final(s)),
            final(self).fruit == old(self).fruit,
    {
        &mut self.snakes[i]
    }

    /// True iff any snake's body occupies `p`.
    pub fn any_snake_contains(&self, p: Pos) -> (r: bool)
        ensures
            r == self.occupied(p),
    {
        let mut i: usize = 0;
        while i < self.snakes.len()
            invariant
                i <= self.snakes@.len(),
                forall|k: int| 0 <= k < i ==> !(#[trigger] self.snakes@[k]).body@.contains(p),
            decreases self.snakes@.len() - i,
        {
            if self.snakes[i].contains(p) {
                return true;
            }
            i = i + 1;
        }
        false
    }

    /// Samples a fruit cell uniformly from the free cells, or reports that
    /// the whole grid is occupied.
    pub fn random_fruit_pos(&self) -> (r: Option<Pos>)
        ensures
            match r {
                Some(p) => p.in_bounds() && !self.occupied(p),
                None => forall|p: Pos| p.in_bounds() ==> self.occupied(p),
            },
    {
        let mut free: Vec<Pos> = Vec::new();
        let mut y: i32 = 0;
        while y < GRID_ROWS
            invariant
                0 <= y <= GRID_ROWS,
                forall|i: int| 0 <= i < free@.len() ==> (#[trigger] free@[i]).in_bounds()
                    && !self.occupied(free@[i]),
                forall|p: Pos| p.in_bounds() && p.y < y && !self.occupied(p) ==> free@.contains(p),
            decreases GRID_ROWS - y,
        {
            let mut x: i32 = 0;
            while x < GRID_COLS
                invariant
                    0 <= y < GRID_ROWS,
                    0 <= x <= GRID_COLS,
                    forall|i: int| 0 <= i < free@.len() ==> (#[trigger] free@[i]).in_bounds()
                        && !self.occupied(free@[i]),
                    forall|p: Pos|
                        p.in_bounds() && (p.y < y || (p.y == y && p.x < x)) && !self.occupied(p)
                            ==> free@.contains(p),
                decreases GRID_COLS - x,
            {
                let p = Pos { x, y };
                if !self.any_snake_contains(p) {
                    let ghost old_free = free@;
                    free.push(p);
                    proof {
                        assert(free@[old_free.len() as int] == p);
                        assert forall|q: Pos| #[trigger] old_free.contains(q) implies free@.contains(
                            q,
                        ) by {
                            let i = choose|i: int| 0 <= i < old_free.len() && old_free[i] == q;
                            assert(free@[i] == q);
                        }
                    }
                }
                x = x + 1;
            }
            y = y + 1;
        }
        if free.len() == 0 {
            assert forall|p: Pos| p.in_bounds() implies self.occupied(p) by {
                if !self.occupied(p) {
                    assert(free@.contains(p));
                }
            }
            None
        } else {
            let k = random_index(free.len());
            Some(free[k])
        }
    }

    /// Grows the roster up to `count` with freshly spawned snakes, colored
    /// round-robin from the palette by slot index. Never shrinks: the roster
    /// length never decreases, existing snakes are untouched.
    pub fn ensure_snakes(&mut self, count: usize)
        requires
            old(self).wf(),
        ensures
            final(self).wf(),
            final(self).snakes@.len() == if old(self).snakes@.len() >= count {
                old(self).snakes@.len() as int
            } else {
                count as int
            },
            final(self).snakes@.len() >= old(self).snakes@.len(),
            forall|i: int| 0 <= i < old(self).snakes@.len() ==> final(self).snakes@[i] == old(
                self,
            ).snakes@[i],
            forall|i: int|
                old(self).snakes@.len() <= i < final(self).snakes@.len() ==> {
                    let s = #[trigger] final(self).snakes@[i];
                    s.wf() && s.contiguous() && s.body@.len() == SNAKE_INITIAL_LENGTH && s.color
                        == snake_color_spec(i)
                },
            final(self).fruit == old(self).fruit,
    {
        while self.snakes.len() < count
            invariant
                self.wf(),
                self.snakes@.len() >= old(self).snakes@.len(),
                self.snakes@.len() <= count || self.snakes@.len() == old(self).snakes@.len(),
                forall|i: int| 0 <= i < old(self).snakes@.len() ==> self.snakes@[i] == old(
                    self,
                ).snakes@[i],
                forall|i: int|
                    old(self).snakes@.len() <= i < self.snakes@.len() ==> {
                        let s = #[trigger] self.snakes@[i];
                        s.wf() && s.contiguous() && s.body@.len() == SNAKE_INITIAL_LENGTH
                            && s.color == snake_color_spec(i)
                    },
                self.fruit == old(self).fruit,
            decreases count - self.snakes@.len(),
        {
            let c = snake_color(self.snakes.len());
            self.snakes.push(Snake::new(c));
        }
    }

    /// A fresh arena: one snake and, as long as any cell is free, a fruit on
    /// a free cell.
    pub fn new() -> (s: State)
        ensures
            s.wf(),
            s.snakes@.len() == 1,
            s.snakes@[0].wf(),
            s.snakes@[0].contiguous(),
            s.snakes@[0].body@.len() == SNAKE_INITIAL_LENGTH,
            s.snakes@[0].color == snake_color_spec(0),
            s.fruit is Some,
            !s.occupied(s.fruit->Some_0),
    {
        let mut state = State::empty();
        state.ensure_snakes(1);
        let fruit = state.random_fruit_pos();
        proof {
            if fruit is None {
                lemma_short_roster_leaves_free_cell(state);
            }
        }
        state.fruit = fruit;
        state
    }

    /// Replaces the whole arena with a fresh one.
    pub fn reset(&mut self)
        ensures
            final(self).wf(),
            final(self).snakes@.len() == 1,
            final(self).snakes@[0].wf(),
            final(self).snakes@[0].contiguous(),
            final(self).snakes@[0].body@.len() == SNAKE_INITIAL_LENGTH,
            final(self).snakes@[0].color == snake_color_spec(0),
            final(self).fruit is Some,
            !final(self).occupied(final(self).fruit->Some_0),
    {
        *self = State::new();
    }

    /// Replaces snake `i` with a freshly spawned one of the same color, at a
    /// new random position and heading. The placement makes no attempt to
    /// avoid other snakes or the fruit.
    pub fn respawn(&mut self, i: usize)
        requires
            old(self).wf(),
            i < old(self).snakes@.len(),
        ensures
            final(self).wf(),
            final(self).snakes@ == old(self).snakes@.update(
                i as int,
                final(self).snakes@[i as int],
            ),
            respawn_of(old(self).snakes@[i as int], final(self).snakes@[i as int]),
            final(self).fruit == old(self).fruit,
    {
        let c = self.snakes[i].color();
        self.snakes.set(i, Snake::new(c));
    }
}

/// Some snake of the sequence occupies cell `p`.
pub open spec fn seq_occupied(snakes: Seq<Snake>, p: Pos) -> bool {
    exists|k: int| 0 <= k < snakes.len() && (#[trigger] snakes[k]).body@.contains(p)
}

/// `b` is `a` after one movement step.
pub open spec fn stepped(a: Snake, b: Snake) -> bool {
    &&& b.body@ == seq![wrap_spec(pos_plus(a.body@[0], a.dir))] + a.body@.drop_last()
    &&& b.dir == a.dir
    &&& b.color == a.color
}

/// `b` is `a` grown by one tail cell.
pub open spec fn grown_of(a: Snake, b: Snake) -> bool {
    &&& b.body@ == a.body@.push(wrap_spec(pos_minus(a.body@.last(), a.dir)))
    &&& b.dir == a.dir
    &&& b.color == a.color
}

/// `b` is a fresh respawn in `a`'s roster slot: a new random body, laid out
/// contiguously behind a new random head, with the same color.
pub open spec fn respawn_of(a: Snake, b: Snake) -> bool {
    &&& b.wf()
    &&& b.contiguous()
    &&& b.body@.len() == SNAKE_INITIAL_LENGTH
    &&& b.color == a.color
}

/// The snake's body revisits a cell.
pub open spec fn self_hit(s: Snake) -> bool {
    s.body@.to_set().len() < s.body@.len()
}

/// The pair collides: one body holds the other's head.
pub open spec fn pair_hit(a: Snake, b: Snake) -> bool {
    a.body@.contains(b.body@[0]) || b.body@.contains(a.body@[0])
}

/// No unordered pair that the scan visits before `(i, j)` collides.
pub open spec fn no_pair_hit_before(snakes: Seq<Snake>, i: int, j: int) -> bool {
    forall|a: int, b: int|
        0 <= a < b < snakes.len() && (a < i || (a == i && b < j)) ==> !pair_hit(
            #[trigger] snakes[a],
            #[trigger] snakes[b],
        )
}

/// Movement-phase relation: every snake has taken exactly one step.
pub open spec fn moved(pre: Seq<Snake>, post: Seq<Snake>) -> bool {
    &&& post.len() == pre.len()
    &&& forall|i: int| 0 <= i < pre.len() ==> stepped(pre[i], #[trigger] post[i])
}

/// Self-collision-phase relation: the roster is unchanged unless a snake
/// intersects itself; then exactly the first such snake (by roster index) is
/// respawned and the rest are untouched.
pub open spec fn self_collisions_resolved(pre: Seq<Snake>, post: Seq<Snake>) -> bool {
    &&& post.len() == pre.len()
    &&& ((forall|i: int| 0 <= i < pre.len() ==> !self_hit(#[trigger] pre[i])) ==> post == pre)
    &&& ((exists|i: int| 0 <= i < pre.len() && self_hit(#[trigger] pre[i])) ==> exists|i: int|
        {
            &&& 0 <= i < pre.len()
            &&& self_hit(#[trigger] pre[i])
            &&& forall|j: int| 0 <= j < i ==> !self_hit(#[trigger] pre[j])
            &&& post == pre.update(i, post[i])
            &&& respawn_of(pre[i], post[i])
        })
}

/// Pairwise-collision-phase relation: the roster is unchanged unless some
/// pair collides; then the first colliding pair in scan order yields one
/// loser, who is respawned. A head-on collision leaves the loser open (it is
/// drawn at random); any other collision determines it.
pub open spec fn pair_collisions_resolved(pre: Seq<Snake>, post: Seq<Snake>) -> bool {
    &&& post.len() == pre.len()
    &&& (no_pair_hit_before(pre, pre.len() as int, pre.len() as int) ==> post == pre)
    &&& (!no_pair_hit_before(pre, pre.len() as int, pre.len() as int) ==> exists|i: int, j: int, l: int|
        {
            &&& 0 <= i < j < pre.len()
            &&& pair_hit(pre[i], pre[j])
            &&& no_pair_hit_before(pre, i, j)
            &&& (l == i || l == j)
            &&& (pre[i].body@[0] != pre[j].body@[0] ==> l == if pre[i].body@.contains(
                pre[j].body@[0],
            ) {
                j
            } else {
                i
            })
            &&& post == pre.update(l, post[l])
            &&& respawn_of(pre[l], post[l])
        })
}

/// Fruit-phase relation: nothing changes unless a snake's head sits on the
/// fruit; then the first such snake grows by one cell and the fruit moves to
/// a free cell, or, with no free cell left, the whole arena resets to one
/// fresh snake.
pub open spec fn fruit_resolved(
    pre: Seq<Snake>,
    pre_fruit: Option<Pos>,
    post: Seq<Snake>,
    post_fruit: Option<Pos>,
) -> bool {
    &&& ((forall|i: int| 0 <= i < pre.len() ==> pre_fruit != Some(
        (#[trigger] pre[i]).body@[0],
    )) ==> post == pre && post_fruit == pre_fruit)
    &&& ((exists|i: int| 0 <= i < pre.len() && pre_fruit == Some(
        (#[trigger] pre[i]).body@[0],
    )) ==> exists|i: int, b: Snake|
        {
            &&& 0 <= i < pre.len()
            &&& pre_fruit == Some(pre[i].body@[0])
            &&& forall|j: int| 0 <= j < i ==> pre_fruit != Some((#[trigger] pre[j]).body@[0])
            &&& grown_of(pre[i], b)
            &&& post_fruit is Some
            &&& post_fruit->Some_0.in_bounds()
            &&& !seq_occupied(post, post_fruit->Some_0)
            &&& (post == pre.update(i, b) || {
                &&& forall|p: Pos| p.in_bounds() ==> seq_occupied(pre.update(i, b), p)
                &&& post.len() == 1
                &&& post[0].contiguous()
                &&& post[0].body@.len() == SNAKE_INITIAL_LENGTH
            })
        })
}

impl State {
    /// Movement phase: every snake takes one step, simultaneously in effect,
    /// since each step reads only that snake's own pre-move body.
    pub fn step_snakes(&mut self)
        requires
            old(self).wf(),
        ensures
            final(self).wf(),
            moved(old(self).snakes@, final(self).snakes@),
            final(self).fruit == old(self).fruit,
    {
        let n = self.snakes.len();
        let mut i: usize = 0;
        while i < n
            invariant
                n == old(self).snakes@.len(),
                i <= n,
                self.snakes@.len() == n,
                self.fruit == old(self).fruit,
                self.wf(),
                forall|k: int| 0 <= k < i ==> stepped(
                    old(self).snakes@[k],
                    #[trigger] self.snakes@[k],
                ),
                forall|k: int| i <= k < n ==> #[trigger] self.snakes@[k] == old(self).snakes@[k],
            decreases n - i,
        {
            let s = self.snake_mut(i);
            s.step();
            i = i + 1;
        }
    }

    /// Self-collision phase: the first snake in roster order that intersects
    /// itself is respawned; at most one per tick, the rest are untouched.
    pub fn check_self_collisions(&mut self)
        requires
            old(self).wf(),
        ensures
            final(self).wf(),
            final(self).fruit == old(self).fruit,
            self_collisions_resolved(old(self).snakes@, final(self).snakes@),
    {
        let n = self.snakes.len();
        let mut i: usize = 0;
        while i < n
            invariant
                n == self.snakes@.len(),
                i <= n,
                *self == *old(self),
                self.wf(),
                forall|j: int| 0 <= j < i ==> !self_hit(#[trigger] self.snakes@[j]),
            decreases n - i,
        {
            if self.snakes[i].intersects_itself() {
                self.respawn(i);
                return ;
            }
            i = i + 1;
        }
    }

    /// Pairwise-collision phase: pairs are scanned in ascending order; the
    /// first colliding pair yields one loser, who is respawned, and the scan
    /// ends. A head-on collision picks the loser uniformly at random.
    pub fn check_collisions(&mut self)
        requires
            old(self).wf(),
        ensures
            final(self).wf(),
            final(self).fruit == old(self).fruit,
            pair_collisions_resolved(old(self).snakes@, final(self).snakes@),
    {
        let n = self.snakes.len();
        let mut i: usize = 0;
        while i < n
            invariant
                n == self.snakes@.len(),
                i <= n,
                *self == *old(self),
                self.wf(),
                no_pair_hit_before(self.snakes@, i as int, i as int + 1),
            decreases n - i,
        {
            let mut j: usize = i + 1;
            while j < n
                invariant
                    n == self.snakes@.len(),
                    i < n,
                    i < j <= n,
                    *self == *old(self),
                    self.wf(),
                    no_pair_hit_before(self.snakes@, i as int, j as int),
                decreases n - j,
            {
                let h1 = self.snakes[i].head();
                let h2 = self.snakes[j].head();
                let loser: Option<usize> = if h1 == h2 {
                    Some(if random_bool() { i } else { j })
                } else if self.snakes[i].contains(h2) {
                    Some(j)
                } else if self.snakes[j].contains(h1) {
                    Some(i)
                } else {
                    None
                };
                match loser {
                    Some(l) => {
                        assert(pair_hit(self.snakes@[i as int], self.snakes@[j as int]));
                        self.respawn(l);
                        return ;
                    },
                    None => {
                        assert(!pair_hit(self.snakes@[i as int], self.snakes@[j as int]));
                    },
                }
                j = j + 1;
            }
            i = i + 1;
        }
    }

    /// Fruit phase: the first snake in roster order whose head sits on the
    /// fruit grows by one cell, and the fruit moves to a uniformly chosen
    /// free cell; with no free cell left, the whole arena resets: the group
    /// win condition.
    pub fn check_fruits(&mut self)
        requires
            old(self).wf(),
        ensures
            final(self).wf(),
            fruit_resolved(
                old(self).snakes@,
                old(self).fruit,
                final(self).snakes@,
                final(self).fruit,
            ),
    {
        let fr = match self.fruit {
            Some(p) => p,
            None => {
                return ;
            },
        };
        let n = self.snakes.len();
        let mut i: usize = 0;
        while i < n
            invariant
                n == self.snakes@.len(),
                i <= n,
                *self == *old(self),
                self.wf(),
                self.fruit == Some(fr),
                forall|j: int| 0 <= j < i ==> self.fruit != Some(
                    (#[trigger] self.snakes@[j]).body@[0],
                ),
            decreases n - i,
        {
            let head = self.snakes[i].head();
            if head.x == fr.x && head.y == fr.y {
                let s = self.snake_mut(i);
                s.grow();
                let ghost b = self.snakes@[i as int];
                assert(grown_of(old(self).snakes@[i as int], b));
                assert(self.snakes@ == old(self).snakes@.update(i as int, b));
                match self.random_fruit_pos() {
                    Some(f) => {
                        self.fruit = Some(f);
                    },
                    None => {
                        self.reset();
                    },
                }
                return ;
            }
            i = i + 1;
        }
    }

    /// One simulation tick: movement, self-collision, pairwise collision,
    /// fruit resolution, in that order. The roster length is preserved
    /// unless the tick ended in a full reset, which leaves one snake.
    pub fn step(&mut self)
        requires
            old(self).wf(),
        ensures
            final(self).wf(),
            exists|s1: Seq<Snake>, s2: Seq<Snake>, s3: Seq<Snake>|
                {
                    &&& #[trigger] moved(old(self).snakes@, s1)
                    &&& #[trigger] self_collisions_resolved(s1, s2)
                    &&& #[trigger] pair_collisions_resolved(s2, s3)
                    &&& fruit_resolved(
                        s3,
                        old(self).fruit,
                        final(self).snakes@,
                        final(self).fruit,
                    )
                },
            final(self).snakes@.len() == old(self).snakes@.len() || final(self).snakes@.len()
                == 1,
            old(self).snakes@.len() >= 1 ==> final(self).snakes@.len() >= 1,
            old(self).snakes@.len() == 0 ==> final(self).snakes@ == old(self).snakes@
                && final(self).fruit == old(self).fruit,
    {
        self.step_snakes();
        let ghost s1 = self.snakes@;
        self.check_self_collisions();
        let ghost s2 = self.snakes@;
        self.check_collisions();
        let ghost s3 = self.snakes@;
        self.check_fruits();
        proof {
            assert(moved(old(self).snakes@, s1));
            assert(self_collisions_resolved(s1, s2));
            assert(pair_collisions_resolved(s2, s3));
            assert(fruit_resolved(s3, old(self).fruit, final(self).snakes@, final(self).fruit));
            if old(self).snakes@.len() == 0 {
                assert(final(self).snakes@ =~= old(self).snakes@);
            }
        }
    }

    /// Renders the arena: background everywhere, the fruit cell in the fruit
    /// color, and every snake painted over it in roster order, later slots
    /// overpainting earlier ones.
    pub fn render(&self) -> (f: Frame)
        requires
            self.wf(),
        ensures
            f.wf(),
            forall|p: Pos| p.in_bounds() ==> f@[cell_index(p)] == self.render_color(p),
    {
        let mut f = Frame::empty();
        match self.fruit {
            Some(fr) => {
                f.put(fr, FRUIT_COLOR);
                assert forall|p: Pos| p.in_bounds() implies f@[cell_index(p)] == (if self.fruit
                    == Some(p) {
                    FRUIT_COLOR
                } else {
                    BACKGROUND_COLOR
                }) by {
                    if p != fr {
                        lemma_cell_index_distinct(p, fr);
                    }
                }
            },
            None => {},
        }
        let n = self.snakes.len();
        let mut i: usize = 0;
        while i < n
            invariant
                n == self.snakes@.len(),
                i <= n,
                self.wf(),
                f.wf(),
                forall|p: Pos| p.in_bounds() ==> f@[cell_index(p)] == (match painted_color(
                    self.snakes@.take(i as int),
                    p,
                ) {
                    Some(c) => c,
                    None => if self.fruit == Some(p) {
                        FRUIT_COLOR
                    } else {
                        BACKGROUND_COLOR
                    },
                }),
            decreases n - i,
        {
            let ghost prefix = self.snakes@.take(i as int);
            self.snakes[i].render_to(&mut f);
            proof {
                let next = self.snakes@.take(i as int + 1);
                assert(next.drop_last() =~= prefix);
                assert(next.last() == self.snakes@[i as int]);
                assert forall|p: Pos| p.in_bounds() implies f@[cell_index(p)] == (match
                    painted_color(next, p) {
                    Some(c) => c,
                    None => if self.fruit == Some(p) {
                        FRUIT_COLOR
                    } else {
                        BACKGROUND_COLOR
                    },
                }) by {
                    if self.snakes@[i as int].body@.contains(p) {
                        assert(painted_color(next, p) == Some(self.snakes@[i as int].color));
                    } else {
                        assert(painted_color(next, p) == painted_color(prefix, p));
                    }
                }
            }
            i = i + 1;
        }
        proof {
            assert(self.snakes@.take(n as int) =~= self.snakes@);
        }
        f
    }

    /// The color the renderer gives cell `p`.
    pub open spec fn render_color(self, p: Pos) -> Color {
        match painted_color(self.snakes@, p) {
            Some(c) => c,
            None => if self.fruit == Some(p) {
                FRUIT_COLOR
            } else {
                BACKGROUND_COLOR
            },
        }
    }
}

/// Distinct in-bounds positions render to distinct frame indices.
proof fn lemma_cell_index_distinct(p: Pos, q: Pos)
    requires
        p.in_bounds(),
        q.in_bounds(),
        p != q,
    ensures
        cell_index(p) != cell_index(q),
{
    if cell_index(p) == cell_index(q) {
        lemma_cell_index_injective(p, q);
    }
}

/// A roster of one snake of the initial length cannot cover the whole grid.
proof fn lemma_short_roster_leaves_free_cell(s: State)
    requires
        s.snakes@.len() == 1,
        s.snakes@[0].body@.len() == SNAKE_INITIAL_LENGTH,
    ensures
        !(forall|p: Pos| p.in_bounds() ==> s.occupied(p)),
{
    if forall|p: Pos| p.in_bounds() ==> s.occupied(p) {
        let body = s.snakes@[0].body@;
        let p0 = Pos { x: 0, y: 0 };
        let p1 = Pos { x: 1, y: 0 };
        let p2 = Pos { x: 2, y: 0 };
        let p3 = Pos { x: 3, y: 0 };
        assert(p0.in_bounds() && p1.in_bounds() && p2.in_bounds() && p3.in_bounds());
        assert(s.occupied(p0) && s.occupied(p1) && s.occupied(p2) && s.occupied(p3));
        assert(body.contains(p0) && body.contains(p1) && body.contains(p2) && body.contains(p3));
        let i0 = choose|i: int| 0 <= i < body.len() && body[i] == p0;
        let i1 = choose|i: int| 0 <= i < body.len() && body[i] == p1;
        let i2 = choose|i: int| 0 <= i < body.len() && body[i] == p2;
        let i3 = choose|i: int| 0 <= i < body.len() && body[i] == p3;
        assert(false);
    }
}

} // verus!
