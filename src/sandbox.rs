use crate::particle::Particle;
use crate::particle::Rgba;
use vstd::prelude::*;

verus! {

/// The colour reported for an empty cell.
pub const BACKGROUND_COLOR: Rgba = (30, 30, 46, 255);

/// The colour shown for a cell.
pub open spec fn shade(c: Option<Particle>) -> Rgba {
    match c {
        Some(p) => p.color,
        None => BACKGROUND_COLOR,
    }
}

/// The number of occupied cells in a sequence of cells.
pub open spec fn occupied(cells: Seq<Option<Particle>>) -> nat
    decreases cells.len(),
{
    if cells.len() == 0 {
        0
    } else {
        occupied(cells.drop_last()) + if cells.last().is_some() {
            1nat
        } else {
            0nat
        }
    }
}

/// The grid store: a fixed `width` by `height` lattice kept as one flat
/// sequence, where cell `(x, y)` sits at index `y * width + x`.
#[derive(PartialEq, Eq, Debug)]
pub struct Sandbox {
    width: usize,
    height: usize,
    particles: Vec<Option<Particle>>,
}

impl View for Sandbox {
    type V = Seq<Option<Particle>>;

    closed spec fn view(&self) -> Seq<Option<Particle>> {
        self.particles@
    }
}

/// Distinct cells of a `w` by `h` grid have distinct indices, all in range.
pub proof fn lemma_index(w: int, h: int, x1: int, y1: int, x2: int, y2: int)
    requires
        0 <= x1 < w,
        0 <= y1 < h,
        0 <= x2 < w,
        0 <= y2 < h,
    ensures
        0 <= y1 * w + x1 < w * h,
        (x1 != x2 || y1 != y2) ==> y1 * w + x1 != y2 * w + x2,
{
    assert(0 <= y1 * w + x1 < w * h) by (nonlinear_arith)
        requires
            0 <= x1 < w,
            0 <= y1 < h,
    ;
    if y1 < y2 {
        assert(y1 * w + x1 < y2 * w + x2) by (nonlinear_arith)
            requires
                0 <= x1 < w,
                0 <= x2,
                y1 < y2,
        ;
    } else if y2 < y1 {
        assert(y2 * w + x2 < y1 * w + x1) by (nonlinear_arith)
            requires
                0 <= x2 < w,
                0 <= x1,
                y2 < y1,
        ;
    }
}

/// Every in-bounds cell other than `(x, y)` has an index other than that of `(x, y)`.
pub proof fn lemma_index_distinct(w: int, h: int, x: int, y: int)
    requires
        0 <= x < w,
        0 <= y < h,
    ensures
        0 <= y * w + x < w * h,
        forall|a: int, b: int|
            0 <= a < w && 0 <= b < h && (a != x || b != y) ==> #[trigger] (b * w + a) != y * w + x
                && 0 <= b * w + a < w * h,
{
    lemma_index(w, h, x, y, x, y);
    assert forall|a: int, b: int| 0 <= a < w && 0 <= b < h && (a != x || b != y) implies #[trigger] (b
        * w + a) != y * w + x && 0 <= b * w + a < w * h by {
        lemma_index(w, h, a, b, x, y);
    }
}

/// Changing one cell changes the number of occupied cells by at most one.
pub proof fn lemma_update_occupancy(cells: Seq<Option<Particle>>, i: int, p: Option<Particle>)
    requires
        0 <= i < cells.len(),
    ensures
        occupied(cells.update(i, p)) == occupied(cells) + (if p.is_some() {
            1int
        } else {
            0int
        }) - (if cells[i].is_some() {
            1int
        } else {
            0int
        }),
    decreases cells.len(),
{
    let u = cells.update(i, p);
    if i == cells.len() - 1 {
        assert(u.drop_last() =~= cells.drop_last());
    } else {
        lemma_update_occupancy(cells.drop_last(), i, p);
        assert(u.drop_last() =~= cells.drop_last().update(i, p));
    }
}

/// No more cells are occupied than the sequence holds.
pub proof fn lemma_occupancy_bounded(cells: Seq<Option<Particle>>)
    ensures
        occupied(cells) <= cells.len(),
    decreases cells.len(),
{
    if cells.len() > 0 {
        lemma_occupancy_bounded(cells.drop_last());
    }
}

impl Sandbox {
    pub closed spec fn w(&self) -> int {
        self.width as int
    }

    pub closed spec fn h(&self) -> int {
        self.height as int
    }

    /// The cell at `(x, y)`.
    pub closed spec fn cell(&self, x: int, y: int) -> Option<Particle> {
        self.particles@[y * self.width + x]
    }

    /// The number of occupied cells.
    pub closed spec fn occupancy(&self) -> nat {
        occupied(self.particles@)
    }

    /// One cell per coordinate pair, with coordinates that fit `i32`.
    pub open spec fn wf(&self) -> bool {
        &&& self@.len() == self.w() * self.h()
        &&& self.w() <= i32::MAX
        &&& self.h() <= i32::MAX
    }

    pub open spec fn in_bounds(&self, x: int, y: int) -> bool {
        0 <= x < self.w() && 0 <= y < self.h()
    }

    pub open spec fn same_shape(&self, other: &Sandbox) -> bool {
        self.w() == other.w() && self.h() == other.h()
    }

    /// Every cell but `(x, y)` is as in `other`.
    pub open spec fn agrees_except(&self, other: &Sandbox, x: int, y: int) -> bool {
        forall|a: int, b: int|
            self.in_bounds(a, b) && (a != x || b != y) ==> #[trigger] self.cell(a, b)
                == other.cell(a, b)
    }

    /// Every cell but `(x1, y1)` and `(x2, y2)` is as in `other`.
    pub open spec fn agrees_except2(&self, other: &Sandbox, x1: int, y1: int, x2: int, y2: int) -> bool {
        forall|a: int, b: int|
            self.in_bounds(a, b) && (a != x1 || b != y1) && (a != x2 || b != y2)
                ==> #[trigger] self.cell(a, b) == other.cell(a, b)
    }

    /// The occupancy is at most `width * height`.
    pub proof fn lemma_occupancy_fits(&self)
        requires
            self.wf(),
        ensures
            self.occupancy() <= self.w() * self.h(),
    {
        lemma_occupancy_bounded(self.particles@);
    }

    /// An empty `width` by `height` grid.
    pub fn new(width: usize, height: usize) -> (r: Sandbox)
        requires
            width * height <= usize::MAX,
            width <= i32::MAX,
            height <= i32::MAX,
        ensures
            r.wf(),
            r.w() == width,
            r.h() == height,
            r.occupancy() == 0,
            forall|x: int, y: int| r.in_bounds(x, y) ==> #[trigger] r.cell(x, y).is_none(),
    {
        let n: usize = width * height;
        let mut particles: Vec<Option<Particle>> = Vec::new();
        let mut i: usize = 0;
        while i < n
            invariant
                i <= n,
                particles@.len() == i,
                forall|j: int| 0 <= j < i ==> #[trigger] particles@[j].is_none(),
                occupied(particles@) == 0,
            decreases n - i,
        {
            let ghost before = particles@;
            particles.push(None);
            i = i + 1;
            assert(particles@.drop_last() =~= before);
        }
        let r = Sandbox { width, height, particles };
        assert forall|x: int, y: int| r.in_bounds(x, y) implies #[trigger] r.cell(x, y).is_none() by {
            lemma_index(width as int, height as int, x, y, x, y);
        }
        r
    }

    pub fn width(&self) -> (r: usize)
        ensures
            r == self.w(),
    {
        self.width
    }

    pub fn height(&self) -> (r: usize)
        ensures
            r == self.h(),
    {
        self.height
    }

    /// The flat index of an in-bounds cell.
    pub fn to_index(&self, x: usize, y: usize) -> (r: usize)
        requires
            self.wf(),
            self.in_bounds(x as int, y as int),
        ensures
            r == y * self.w() + x,
            r < self@.len(),
    {
        let n = self.particles.len();
        proof {
            lemma_index(self.w(), self.h(), x as int, y as int, x as int, y as int);
            assert(0 <= y * self.width <= y * self.width + x) by (nonlinear_arith)
                requires
                    0 <= x,
                    0 <= y,
                    0 <= self.width,
            ;
        }
        y * self.width + x
    }

    pub fn out_of_bounds_usize(&self, x: usize, y: usize) -> (r: bool)
        ensures
            r == !self.in_bounds(x as int, y as int),
    {
        x >= self.width || y >= self.height
    }

    pub fn out_of_bounds_i32(&self, x: i32, y: i32) -> (r: bool)
        requires
            self.wf(),
        ensures
            r == !self.in_bounds(x as int, y as int),
    {
        x < 0 || x >= self.width as i32 || y < 0 || y >= self.height as i32
    }

    /// The particle at an in-bounds cell, if any.
    pub fn get(&self, x: usize, y: usize) -> (r: Option<&Particle>)
        requires
            self.wf(),
            self.in_bounds(x as int, y as int),
        ensures
            r.is_some() == self.cell(x as int, y as int).is_some(),
            r.is_some() ==> *r.unwrap() == self.cell(x as int, y as int).unwrap(),
    {
        let index = self.to_index(x, y);
        self.particles[index].as_ref()
    }

    /// The particle at `(x, y)`, or none when the cell is empty or outside the grid.
    pub fn checked_get(&self, x: usize, y: usize) -> (r: Option<&Particle>)
        requires
            self.wf(),
        ensures
            !self.in_bounds(x as int, y as int) ==> r.is_none(),
            self.in_bounds(x as int, y as int) ==> r.is_some() == self.cell(
                x as int,
                y as int,
            ).is_some(),
            r.is_some() ==> *r.unwrap() == self.cell(x as int, y as int).unwrap(),
    {
        if self.out_of_bounds_usize(x, y) {
            None
        } else {
            self.get(x, y)
        }
    }

    /// The particle at signed coordinates, or none when empty or outside the grid.
    pub fn checked_get_i32(&self, x: i32, y: i32) -> (r: Option<&Particle>)
        requires
            self.wf(),
        ensures
            !self.in_bounds(x as int, y as int) ==> r.is_none(),
            self.in_bounds(x as int, y as int) ==> r.is_some() == self.cell(
                x as int,
                y as int,
            ).is_some(),
            r.is_some() ==> *r.unwrap() == self.cell(x as int, y as int).unwrap(),
    {
        if self.out_of_bounds_i32(x, y) {
            None
        } else {
            self.get(x as usize, y as usize)
        }
    }

    /// A copy of the cell at an in-bounds position.
    pub fn at(&self, x: usize, y: usize) -> (r: Option<Particle>)
        requires
            self.wf(),
            self.in_bounds(x as int, y as int),
        ensures
            r == self.cell(x as int, y as int),
    {
        let index = self.to_index(x, y);
        self.particles[index]
    }

    /// Mutable access to the particle at an in-bounds cell, if any.
    pub fn get_mut(&mut self, x: usize, y: usize) -> (r: Option<&mut Particle>)
        requires
            old(self).wf(),
            old(self).in_bounds(x as int, y as int),
        ensures
            final(self).wf(),
            final(self).same_shape(old(self)),
            final(self).agrees_except(old(self), x as int, y as int),
            r.is_some() == old(self).cell(x as int, y as int).is_some(),
            match r {
                Some(m) => {
                    &&& *m == old(self).cell(x as int, y as int).unwrap()
                    &&& final(self).cell(x as int, y as int) == Some(*final(m))
                },
                None => final(self).cell(x as int, y as int) == old(self).cell(x as int, y as int),
            },
    {
        let index = self.to_index(x, y);
        proof {
            lemma_index_distinct(self.w(), self.h(), x as int, y as int);
        }
        self.particles[index].as_mut()
    }

    /// Mutable access to the particle at `(x, y)`, or none when the cell is
    /// empty or outside the grid.
    pub fn checked_get_mut(&mut self, x: usize, y: usize) -> (r: Option<&mut Particle>)
        requires
            old(self).wf(),
        ensures
            final(self).wf(),
            final(self).same_shape(old(self)),
            final(self).agrees_except(old(self), x as int, y as int),
            !old(self).in_bounds(x as int, y as int) ==> r.is_none(),
            old(self).in_bounds(x as int, y as int) ==> r.is_some() == old(self).cell(
                x as int,
                y as int,
            ).is_some(),
            match r {
                Some(m) => {
                    &&& *m == old(self).cell(x as int, y as int).unwrap()
                    &&& final(self).cell(x as int, y as int) == Some(*final(m))
                },
                None => old(self).in_bounds(x as int, y as int) ==> final(self).cell(x as int, y as int)
                    == old(self).cell(x as int, y as int),
            },
    {
        if self.out_of_bounds_usize(x, y) {
            None
        } else {
            self.get_mut(x, y)
        }
    }

    /// Exchanges the contents of two in-bounds cells.
    pub fn swap(&mut self, x1: usize, y1: usize, x2: usize, y2: usize)
        requires
            old(self).wf(),
            old(self).in_bounds(x1 as int, y1 as int),
            old(self).in_bounds(x2 as int, y2 as int),
        ensures
            final(self).wf(),
            final(self).same_shape(old(self)),
            final(self).cell(x1 as int, y1 as int) == old(self).cell(x2 as int, y2 as int),
            final(self).cell(x2 as int, y2 as int) == old(self).cell(x1 as int, y1 as int),
            final(self).agrees_except2(old(self), x1 as int, y1 as int, x2 as int, y2 as int),
            final(self).occupancy() == old(self).occupancy(),
    {
        let index1 = self.to_index(x1, y1);
        let index2 = self.to_index(x2, y2);
        let particle1 = self.particles[index1];
        let particle2 = self.particles[index2];
        proof {
            lemma_update_occupancy(self.particles@, index1 as int, particle2);
            lemma_update_occupancy(self.particles@.update(index1 as int, particle2), index2 as int, particle1);
            lemma_index(self.w(), self.h(), x1 as int, y1 as int, x2 as int, y2 as int);
        }
        self.particles.set(index1, particle2);
        self.particles.set(index2, particle1);
        proof {
            assert forall|a: int, b: int|
                self.in_bounds(a, b) && (a != x1 || b != y1) && (a != x2 || b != y2)
                implies #[trigger] self.cell(a, b) == old(self).cell(a, b) by {
                lemma_index(self.w(), self.h(), a, b, x1 as int, y1 as int);
                lemma_index(self.w(), self.h(), a, b, x2 as int, y2 as int);
            }
        }
    }

    /// Marks the particle at an in-bounds cell as having acted this tick.
    pub fn mark_updated(&mut self, x: usize, y: usize)
        requires
            old(self).wf(),
            old(self).in_bounds(x as int, y as int),
        ensures
            final(self).wf(),
            final(self).same_shape(old(self)),
            final(self).agrees_except(old(self), x as int, y as int),
            final(self).cell(x as int, y as int) == match old(self).cell(x as int, y as int) {
                Some(p) => Some(Particle { updated: true, ..p }),
                None => None,
            },
            final(self).occupancy() == old(self).occupancy(),
    {
        match self.at(x, y) {
            Some(p) => {
                self.set(x, y, Some(Particle { updated: true, ..p }));
            },
            None => {},
        }
    }

    /// Clears every per-tick mark.
    pub fn reset_updated(&mut self)
        requires
            old(self).wf(),
        ensures
            final(self).wf(),
            final(self).same_shape(old(self)),
            forall|a: int, b: int|
                old(self).in_bounds(a, b) ==> #[trigger] final(self).cell(a, b) == match old(
                    self,
                ).cell(a, b) {
                    Some(p) => Some(Particle { updated: false, ..p }),
                    None => None,
                },
    {
        let n = self.particles.len();
        let mut i: usize = 0;
        while i < n
            invariant
                i <= n,
                n == self.particles@.len(),
                self.width == old(self).width,
                self.height == old(self).height,
                forall|j: int|
                    0 <= j < n ==> #[trigger] self.particles@[j] == if j < i {
                        match old(self).particles@[j] {
                            Some(p) => Some(Particle { updated: false, ..p }),
                            None => None,
                        }
                    } else {
                        old(self).particles@[j]
                    },
            decreases n - i,
        {
            match self.particles[i] {
                Some(p) => {
                    self.particles.set(i, Some(Particle { updated: false, ..p }));
                },
                None => {},
            }
            i = i + 1;
        }
        proof {
            assert forall|a: int, b: int| old(self).in_bounds(a, b) implies #[trigger] self.cell(a, b)
                == match old(self).cell(a, b) {
                Some(p) => Some(Particle { updated: false, ..p }),
                None => None,
            } by {
                lemma_index(self.w(), self.h(), a, b, a, b);
            }
        }
    }

    /// The colour shown for `(x, y)`: the particle's own, or the background
    /// for an empty cell or one outside the grid.
    pub fn color(&self, x: usize, y: usize) -> (r: Rgba)
        requires
            self.wf(),
        ensures
            r == if self.in_bounds(x as int, y as int) && self.cell(x as int, y as int).is_some() {
                self.cell(x as int, y as int).unwrap().color
            } else {
                BACKGROUND_COLOR
            },
    {
        match self.checked_get(x, y) {
            Some(p) => p.color,
            None => BACKGROUND_COLOR,
        }
    }

    /// Writes `particle` (or emptiness) into `(x, y)`; outside the grid nothing changes.
    pub fn set(&mut self, x: usize, y: usize, particle: Option<Particle>)
        requires
            old(self).wf(),
        ensures
            final(self).wf(),
            final(self).same_shape(old(self)),
            final(self).agrees_except(old(self), x as int, y as int),
            old(self).in_bounds(x as int, y as int) ==> final(self).cell(x as int, y as int)
                == particle,
            !old(self).in_bounds(x as int, y as int) ==> final(self)@ == old(self)@
                && final(self).occupancy() == old(self).occupancy(),
            old(self).in_bounds(x as int, y as int) ==> final(self).occupancy() == old(
                self,
            ).occupancy() + (if particle.is_some() {
                1int
            } else {
                0int
            }) - (if old(self).cell(x as int, y as int).is_some() {
                1int
            } else {
                0int
            }),
    {
        if self.out_of_bounds_usize(x, y) {
            return;
        }
        let index = self.to_index(x, y);
        proof {
            lemma_update_occupancy(self.particles@, index as int, particle);
        }
        self.particles.set(index, particle);
        proof {
            assert forall|a: int, b: int|
                self.in_bounds(a, b) && (a != x || b != y) implies #[trigger] self.cell(a, b)
                == old(self).cell(a, b) by {
                lemma_index(self.w(), self.h(), a, b, x as int, y as int);
            }
        }
    }
}

} // verus!
