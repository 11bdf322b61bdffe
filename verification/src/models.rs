//! The value types of the automaton: coordinates, cell states and cells.

use vstd::prelude::*;

verus! {

/// A position on the plane, identified by its integer column `x` and row `y`.
#[derive(Debug, PartialEq, Eq, Clone, Copy, Hash, Structural)]
pub struct Coordinates {
    pub x: i32,
    pub y: i32,
}

/// What a cell is doing in one generation.
///
/// `Born` and `Died` mark a cell whose fate changed in the step that produced
/// the board; for the rules `Born` counts as alive and `Died` as dead.
#[derive(Debug, PartialEq, Eq, Clone, Copy, Hash, Structural)]
pub enum CellState {
    Alive,
    Dead,
    Born,
    Died,
}

/// A state placed at a location.
#[derive(Debug, PartialEq, Eq, Clone, Copy, Hash, Structural)]
pub struct Cell {
    pub cell_state: CellState,
    pub location: Coordinates,
}

/// The eight steps of the Moore neighbourhood, in the order in which
/// neighbours are listed.
pub open spec fn moore_offsets() -> Seq<(int, int)> {
    seq![(-1, -1), (-1, 0), (-1, 1), (0, -1), (0, 1), (1, 1), (1, 0), (1, -1)]
}

impl CellState {
    /// Whether the state counts as alive for the rules.
    pub open spec fn is_living(self) -> bool {
        self == CellState::Alive || self == CellState::Born
    }

    /// Executable form of [`CellState::is_living`].
    pub fn living(&self) -> (r: bool)
        ensures
            r == self.is_living(),
    {
        match self {
            CellState::Alive | CellState::Born => true,
            CellState::Dead | CellState::Died => false,
        }
    }
}

impl Coordinates {
    /// Whether `other` lies within one step of `self` along both axes.
    /// A coordinate is adjacent to itself.
    pub open spec fn adjacent(self, other: Coordinates) -> bool {
        &&& -1 <= self.x - other.x <= 1
        &&& -1 <= self.y - other.y <= 1
    }

    /// The coordinate `step` away from `self`, unless it leaves the range of
    /// the coordinate type.
    pub open spec fn shifted(self, step: (int, int)) -> Option<Coordinates> {
        if i32::MIN <= self.x + step.0 <= i32::MAX && i32::MIN <= self.y + step.1 <= i32::MAX {
            Some(Coordinates { x: (self.x + step.0) as i32, y: (self.y + step.1) as i32 })
        } else {
            None
        }
    }

    /// The Moore neighbourhood of `self`: the coordinates one step away in
    /// any of the eight directions, in the order of [`moore_offsets`].
    /// A step that would leave the range of the coordinate type has no
    /// neighbour.
    pub open spec fn neighbourhood(self) -> Seq<Coordinates> {
        moore_offsets().filter_map(|step: (int, int)| self.shifted(step))
    }

    /// Whether all eight steps stay inside the range of the coordinate type.
    pub open spec fn is_interior(self) -> bool {
        &&& i32::MIN < self.x < i32::MAX
        &&& i32::MIN < self.y < i32::MAX
    }

    /// The neighbourhood of an interior coordinate, written out.
    pub open spec fn eight_around(self) -> Seq<Coordinates> {
        seq![
            Coordinates { x: (self.x - 1) as i32, y: (self.y - 1) as i32 },
            Coordinates { x: (self.x - 1) as i32, y: self.y },
            Coordinates { x: (self.x - 1) as i32, y: (self.y + 1) as i32 },
            Coordinates { x: self.x, y: (self.y - 1) as i32 },
            Coordinates { x: self.x, y: (self.y + 1) as i32 },
            Coordinates { x: (self.x + 1) as i32, y: (self.y + 1) as i32 },
            Coordinates { x: (self.x + 1) as i32, y: self.y },
            Coordinates { x: (self.x + 1) as i32, y: (self.y - 1) as i32 },
        ]
    }

    /// Whether `other` is one of the coordinates around `self`: within one
    /// step along both axes, and not `self` itself.
    pub fn is_neighbour(&self, other: &Coordinates) -> (r: bool)
        ensures
            r == (self.adjacent(*other) && *other != *self),
            r == self.neighbourhood().contains(*other),
    {
        proof {
            lemma_neighbourhood_is_moore(*self, *other);
        }
        let dx: i64 = (self.x as i64) - (other.x as i64);
        let dy: i64 = (self.y as i64) - (other.y as i64);
        -1 <= dx && dx <= 1 && -1 <= dy && dy <= 1 && !(dx == 0 && dy == 0)
    }

    /// The coordinate `dx` columns and `dy` rows away, if it can be
    /// represented.
    pub fn step(&self, dx: i32, dy: i32) -> (r: Option<Coordinates>)
        ensures
            r == self.shifted((dx as int, dy as int)),
    {
        match (self.x.checked_add(dx), self.y.checked_add(dy)) {
            (Some(x), Some(y)) => Some(Coordinates { x, y }),
            _ => None,
        }
    }

    /// The coordinates around `self`: column by column from the left, the
    /// left column downwards, then the one above and the one below, then
    /// the right column upwards.
    pub fn neighbours(&self) -> (r: Vec<Coordinates>)
        ensures
            r@ == self.neighbourhood(),
            self.is_interior() ==> r@ == self.eight_around(),
    {
        let steps: [(i32, i32); 8] = [
            (-1, -1),
            (-1, 0),
            (-1, 1),
            (0, -1),
            (0, 1),
            (1, 1),
            (1, 0),
            (1, -1),
        ];
        let ghost offsets = moore_offsets();
        let ghost shift = |step: (int, int)| self.shifted(step);
        let mut found: Vec<Coordinates> = Vec::new();
        let mut k: usize = 0;
        while k < 8
            invariant
                k <= 8,
                offsets == moore_offsets(),
                shift == (|step: (int, int)| self.shifted(step)),
                forall|i: int|
                    0 <= i < 8 ==> (#[trigger] steps[i]).0 == offsets[i].0 && steps[i].1
                        == offsets[i].1,
                found@ == offsets.take(k as int).filter_map(shift),
            decreases 8 - k,
        {
            let (dx, dy) = steps[k];
            proof {
                offsets.lemma_filter_map_take_succ(shift, k as int);
            }
            match self.step(dx, dy) {
                Some(n) => {
                    found.push(n);
                },
                None => {},
            }
            k += 1;
        }
        proof {
            assert(offsets.take(8) =~= offsets);
            if self.is_interior() {
                lemma_neighbourhood_interior(*self);
            }
        }
        found
    }
}

/// Away from the edge of the coordinate range the neighbourhood is the full
/// ring of eight.
pub proof fn lemma_neighbourhood_interior(c: Coordinates)
    requires
        c.is_interior(),
    ensures
        c.neighbourhood() == c.eight_around(),
{
    lemma_ring_prefix(c, 8);
    assert(moore_offsets().take(8) =~= moore_offsets());
    assert(c.eight_around().take(8) =~= c.eight_around());
}

/// The neighbours of a coordinate are the coordinates adjacent to it, itself
/// left out.
pub proof fn lemma_neighbourhood_is_moore(c: Coordinates, n: Coordinates)
    ensures
        c.neighbourhood().contains(n) <==> c.adjacent(n) && n != c,
{
    let offsets = moore_offsets();
    let shift = |step: (int, int)| c.shifted(step);
    if c.neighbourhood().contains(n) {
        offsets.lemma_filter_map_contains(shift, n);
        let step = choose|step: (int, int)| #[trigger]
            offsets.contains(step) && shift(step) == Some(n);
        let k = choose|k: int| 0 <= k < offsets.len() && offsets[k] == step;
        assert(0 <= k < 8);
    }
    if c.adjacent(n) && n != c {
        let step = (n.x - c.x, n.y - c.y);
        let k: int = if step == (-1int, -1int) {
            0
        } else if step == (-1int, 0int) {
            1
        } else if step == (-1int, 1int) {
            2
        } else if step == (0int, -1int) {
            3
        } else if step == (0int, 1int) {
            4
        } else if step == (1int, 1int) {
            5
        } else if step == (1int, 0int) {
            6
        } else {
            7
        };
        assert(offsets[k] == step);
        assert(shift(step) == Some(n));
        lemma_filter_map_keeps(offsets, shift, k);
    }
}

/// What `f` makes of an item of `s` is among what it makes of `s`.
proof fn lemma_filter_map_keeps<A, B>(s: Seq<A>, f: spec_fn(A) -> Option<B>, i: int)
    requires
        0 <= i < s.len(),
        f(s[i]) is Some,
    ensures
        s.filter_map(f).contains(f(s[i])->0),
    decreases s.len(),
{
    let made = f(s[i])->0;
    let rest = s.drop_last();
    if i == s.len() - 1 {
        let all = rest.filter_map(f) + seq![made];
        assert(all[all.len() - 1] == made);
    } else {
        lemma_filter_map_keeps(rest, f, i);
        let kept = rest.filter_map(f);
        let j = choose|j: int| 0 <= j < kept.len() && kept[j] == made;
        match f(s.last()) {
            Some(more) => {
                assert((kept + seq![more])[j] == made);
            },
            None => {},
        }
    }
}

/// The first `k` steps around an interior coordinate reach the first `k`
/// coordinates of its ring.
proof fn lemma_ring_prefix(c: Coordinates, k: int)
    requires
        c.is_interior(),
        0 <= k <= 8,
    ensures
        moore_offsets().take(k).filter_map(|step: (int, int)| c.shifted(step))
            == c.eight_around().take(k),
    decreases k,
{
    let offsets = moore_offsets();
    let shift = |step: (int, int)| c.shifted(step);
    let ring = c.eight_around();
    if k == 0 {
        assert(offsets.take(0).filter_map(shift) =~= ring.take(0));
    } else {
        lemma_ring_prefix(c, k - 1);
        offsets.lemma_filter_map_take_succ(shift, k - 1);
        assert(shift(offsets[k - 1]) == Some(ring[k - 1]));
        assert(ring.take(k) =~= ring.take(k - 1) + seq![ring[k - 1]]);
    }
}

} // verus!
