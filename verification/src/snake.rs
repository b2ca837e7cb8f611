use vstd::prelude::*;
use crate::color::Color;
use crate::grid::{pos_minus, pos_plus, wrap, wrap_spec, Delta, Pos};
use crate::rng::{random_cardinal, random_position};

verus! {

/// Initial body length of a freshly spawned snake.
pub const SNAKE_INITIAL_LENGTH: usize = 3;

/// One snake: an ordered body (front = head, back = tail), a heading and a color.
#[derive(Clone, Debug)]
pub struct Snake {
    /// Body cells, most recently visited first.
    pub body: Vec<Pos>,
    /// Current heading, applied at the next movement step.
    pub dir: Delta,
    /// Identity-bearing display color of this roster slot.
    pub color: Color,
}

impl Snake {
    /// Well-formedness: a non-empty in-bounds body and a cardinal heading.
    pub open spec fn wf(self) -> bool {
        &&& self.body@.len() >= 1
        &&& forall|i: int| 0 <= i < self.body@.len() ==> (#[trigger] self.body@[i]).in_bounds()
        &&& self.dir.is_cardinal()
    }

    /// The body laid out contiguously against the heading: every cell is one
    /// wrapped step behind its predecessor.
    pub open spec fn contiguous(self) -> bool {
        forall|i: int|
            0 <= i < self.body@.len() - 1 ==> self.body@[i + 1] == wrap_spec(
                pos_minus(#[trigger] self.body@[i], self.dir),
            )
    }

    /// A snake of the given length laid out behind `start` against `dir`.
    pub fn with_length_at(length: usize, color: Color, start: Pos, dir: Delta) -> (s: Snake)
        requires
            1 <= length,
            start.in_bounds(),
            dir.is_cardinal(),
        ensures
            s.wf(),
            s.contiguous(),
            s.body@.len() == length,
            s.body@[0] == start,
            s.dir == dir,
            s.color == color,
    {
        let mut body: Vec<Pos> = Vec::new();
        let mut pos = start;
        let mut k: usize = 0;
        while k < length
            invariant
                k <= length,
                body@.len() == k,
                k > 0 ==> body@[0] == start,
                k == 0 ==> pos == start,
                k > 0 ==> pos == wrap_spec(pos_minus(body@[k - 1], dir)),
                pos.in_bounds(),
                dir.is_cardinal(),
                forall|i: int|
                    0 <= i < k ==> (#[trigger] body@[i]).in_bounds(),
                forall|i: int|
                    0 <= i < k - 1 ==> body@[i + 1] == wrap_spec(
                        pos_minus(#[trigger] body@[i], dir),
                    ),
            decreases length - k,
        {
            body.push(pos);
            pos = wrap(Pos { x: pos.x - dir.dx, y: pos.y - dir.dy });
            k = k + 1;
        }
        Snake { body, dir, color }
    }

    /// A snake of the given length at a random position with a random heading.
    pub fn with_length(length: usize, color: Color) -> (s: Snake)
        requires
            1 <= length,
        ensures
            s.wf(),
            s.contiguous(),
            s.body@.len() == length,
            s.color == color,
    {
        let start = random_position();
        let dir = random_cardinal();
        Self::with_length_at(length, color, start, dir)
    }

    /// A freshly spawned snake of the initial length.
    pub fn new(color: Color) -> (s: Snake)
        ensures
            s.wf(),
            s.contiguous(),
            s.body@.len() == SNAKE_INITIAL_LENGTH,
            s.color == color,
    {
        Self::with_length(SNAKE_INITIAL_LENGTH, color)
    }

    /// The head cell (front of the body).
    pub fn head(&self) -> (p: Pos)
        requires
            self.body@.len() >= 1,
        ensures
            p == self.body@[0],
    {
        self.body[0]
    }

    /// The tail cell (back of the body).
    pub fn back(&self) -> (p: Pos)
        requires
            self.body@.len() >= 1,
        ensures
            p == self.body@.last(),
    {
        self.body[self.body.len() - 1]
    }

    /// Body length.
    pub fn len(&self) -> (n: usize)
        ensures
            n == self.body@.len(),
    {
        self.body.len()
    }

    /// The body cells, front first.
    pub fn fields(&self) -> (r: &Vec<Pos>)
        ensures
            r@ == self.body@,
    {
        &self.body
    }

    /// The color of this snake.
    pub fn color(&self) -> (c: Color)
        ensures
            c == self.color,
    {
        self.color
    }

    /// Sets the pending heading; the body does not move.
    pub fn rotate_head(&mut self, dir: Delta)
        requires
            dir.is_cardinal(),
        ensures
            final(self).body@ == old(self).body@,
            final(self).dir == dir,
            final(self).color == old(self).color,
    {
        self.dir = dir;
    }

    /// One movement step: the wrapped cell ahead of the head becomes the new
    /// head, the tail cell is dropped. Length is preserved.
    pub fn step(&mut self)
        requires
            old(self).wf(),
        ensures
            final(self).wf(),
            final(self).body@ == seq![
                wrap_spec(pos_plus(old(self).body@[0], old(self).dir)),
            ] + old(self).body@.drop_last(),
            final(self).body@.len() == old(self).body@.len(),
            final(self).dir == old(self).dir,
            final(self).color == old(self).color,
    {
        let head = self.head();
        self.body.pop();
        let new_head = wrap(Pos { x: head.x + self.dir.dx, y: head.y + self.dir.dy });
        self.body.insert(0, new_head);
        assert(final(self).body@ =~= seq![
            wrap_spec(pos_plus(old(self).body@[0], old(self).dir)),
        ] + old(self).body@.drop_last());
    }

    /// Growth: appends one wrapped cell behind the tail, away from the
    /// direction of travel. Length increases by one, prior cells are unchanged.
    pub fn grow(&mut self)
        requires
            old(self).wf(),
        ensures
            final(self).wf(),
            final(self).body@ == old(self).body@.push(
                wrap_spec(pos_minus(old(self).body@.last(), old(self).dir)),
            ),
            final(self).body@.len() == old(self).body@.len() + 1,
            final(self).dir == old(self).dir,
            final(self).color == old(self).color,
    {
        let back = self.back();
        let cell = wrap(Pos { x: back.x - self.dir.dx, y: back.y - self.dir.dy });
        self.body.push(cell);
    }

    /// Membership of a cell in the body.
    pub fn contains(&self, pos: Pos) -> (r: bool)
        ensures
            r == self.body@.contains(pos),
    {
        let mut k: usize = 0;
        while k < self.body.len()
            invariant
                k <= self.body@.len(),
                forall|i: int| 0 <= i < k ==> self.body@[i] != pos,
            decreases self.body@.len() - k,
        {
            if self.body[k] == pos {
                return true;
            }
            k = k + 1;
        }
        false
    }

    /// The distinct body cells, in order of first occurrence.
    pub fn field_set(&self) -> (r: Vec<Pos>)
        ensures
            r@.no_duplicates(),
            r@.to_set() == self.body@.to_set(),
    {
        let mut r: Vec<Pos> = Vec::new();
        let mut k: usize = 0;
        while k < self.body.len()
            invariant
                k <= self.body@.len(),
                r@.no_duplicates(),
                forall|i: int| 0 <= i < k ==> r@.contains(#[trigger] self.body@[i]),
                forall|p: Pos| #[trigger] r@.contains(p) ==> self.body@.contains(p),
            decreases self.body@.len() - k,
        {
            let p = self.body[k];
            let mut seen = false;
            let mut j: usize = 0;
            while j < r.len()
                invariant
                    j <= r@.len(),
                    seen <==> exists|i: int| 0 <= i < j && r@[i] == p,
                decreases r@.len() - j,
            {
                if r[j] == p {
                    seen = true;
                }
                j = j + 1;
            }
            assert(seen == r@.contains(p));
            if !seen {
                let ghost old_r = r@;
                r.push(p);
                proof {
                    assert(self.body@[k as int] == p);
                    assert(r@.contains(p)) by {
                        assert(r@[old_r.len() as int] == p);
                    }
                    assert forall|q: Pos| #[trigger] old_r.contains(q) implies r@.contains(
                        q,
                    ) by {
                        let i = choose|i: int| 0 <= i < old_r.len() && old_r[i] == q;
                        assert(r@[i] == q);
                    }
                    assert forall|q: Pos| #[trigger] r@.contains(q) implies self.body@.contains(
                        q,
                    ) by {
                        let i = choose|i: int| 0 <= i < r@.len() && r@[i] == q;
                        if i < old_r.len() {
                            assert(old_r.contains(q)) by {
                                assert(old_r[i] == q);
                            }
                        } else {
                            assert(q == p);
                            assert(self.body@[k as int] == q);
                        }
                    }
                }
            } else {
                assert(r@.contains(self.body@[k as int]));
            }
            k = k + 1;
        }
        proof {
            assert forall|p: Pos| r@.to_set().contains(p) <==> self.body@.to_set().contains(
                p,
            ) by {
                if self.body@.contains(p) {
                    let i = choose|i: int| 0 <= i < self.body@.len() && self.body@[i] == p;
                    assert(r@.contains(self.body@[i]));
                }
            }
            assert(r@.to_set() =~= self.body@.to_set());
        }
        r
    }

    /// Paints every body cell with this snake's color; other cells keep
    /// their previous color.
    pub fn render_to(&self, frame: &mut crate::state::Frame)
        requires
            self.wf(),
            old(frame).wf(),
        ensures
            final(frame).wf(),
            forall|p: Pos| p.in_bounds() ==> final(frame)@[crate::grid::cell_index(p)] == (
            if self.body@.contains(p) {
                self.color
            } else {
                old(frame)@[crate::grid::cell_index(p)]
            }),
    {
        let mut k: usize = 0;
        while k < self.body.len()
            invariant
                self.wf(),
                k <= self.body@.len(),
                frame.wf(),
                forall|p: Pos| p.in_bounds() ==> frame@[crate::grid::cell_index(p)] == (
                if exists|t: int| 0 <= t < k && self.body@[t] == p {
                    self.color
                } else {
                    old(frame)@[crate::grid::cell_index(p)]
                }),
            decreases self.body@.len() - k,
        {
            let cell = self.body[k];
            frame.put(cell, self.color);
            proof {
                assert forall|p: Pos| p.in_bounds() implies frame@[crate::grid::cell_index(p)]
                    == (if exists|t: int| 0 <= t < k + 1 && self.body@[t] == p {
                    self.color
                } else {
                    old(frame)@[crate::grid::cell_index(p)]
                }) by {
                    if p == cell {
                        assert(self.body@[k as int] == p);
                    } else {
                        if crate::grid::cell_index(p) == crate::grid::cell_index(cell) {
                            crate::grid::lemma_cell_index_injective(p, cell);
                        }
                    }
                }
            }
            k = k + 1;
        }
        proof {
            assert forall|p: Pos| p.in_bounds() implies ((exists|t: int|
                0 <= t < self.body@.len() && self.body@[t] == p) == self.body@.contains(p)) by {}
        }
    }

    /// Self-intersection: true iff the body revisits a cell, that is iff the
    /// number of distinct body cells is smaller than the body length.
    pub fn intersects_itself(&self) -> (r: bool)
        ensures
            r == (self.body@.to_set().len() < self.body@.len()),
    {
        let distinct = self.field_set();
        proof {
            distinct@.unique_seq_to_set();
            self.body@.lemma_cardinality_of_set();
        }
        distinct.len() < self.body.len()
    }
}

} // verus!
