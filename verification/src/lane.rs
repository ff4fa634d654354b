//! The three lanes of the track, and how a runner moves between them.

use rand::Rng;
use vstd::prelude::*;

verus! {

/// One of the three fixed lateral positions of the track.
#[derive(Clone, Copy, Debug, PartialEq, Eq, Structural)]
pub enum Lane {
    Left,
    Middle,
    Right,
}

impl Lane {
    /// Position of the lane in a row, counted from the left.
    pub open spec fn position(self) -> int {
        match self {
            Lane::Left => 0,
            Lane::Middle => 1,
            Lane::Right => 2,
        }
    }

    /// Lateral coordinate of the lane: the middle lane is the origin.
    pub open spec fn lateral(self) -> int {
        self.position() - 1
    }

    /// The name under which a row written as a table files this lane's cell.
    pub open spec fn key(self) -> Seq<char> {
        match self {
            Lane::Left => "left"@,
            Lane::Middle => "middle"@,
            Lane::Right => "right"@,
        }
    }

    /// Where a runner in this lane stands after one reading of the two
    /// steering keys. A press to the right wins over one to the left, and a
    /// press towards the edge the runner already hugs is ignored.
    pub open spec fn steered(self, left: bool, right: bool) -> Lane {
        if right && self != Lane::Right {
            Lane::at(self.position() + 1)
        } else if left && self != Lane::Left {
            Lane::at(self.position() - 1)
        } else {
            self
        }
    }

    /// The lane at a position counted from the left.
    pub open spec fn at(position: int) -> Lane {
        if position <= 0 {
            Lane::Left
        } else if position == 1 {
            Lane::Middle
        } else {
            Lane::Right
        }
    }

    /// Position of the lane in a row, counted from the left.
    pub fn index(self) -> (i: usize)
        ensures
            i == self.position(),
    {
        match self {
            Lane::Left => 0,
            Lane::Middle => 1,
            Lane::Right => 2,
        }
    }

    /// Lateral coordinate of the lane: -1, 0 or 1.
    pub fn offset(self) -> (z: i8)
        ensures
            z == self.lateral(),
    {
        match self {
            Lane::Left => -1,
            Lane::Middle => 0,
            Lane::Right => 1,
        }
    }

    /// The name under which a row written as a table files this lane's cell.
    pub fn name(self) -> (s: &'static str)
        ensures
            s@ == self.key(),
    {
        match self {
            Lane::Left => "left",
            Lane::Middle => "middle",
            Lane::Right => "right",
        }
    }

    /// Moves a runner by one reading of the steering keys.
    pub fn steer(self, left: bool, right: bool) -> (next: Lane)
        ensures
            next == self.steered(left, right),
    {
        match self {
            Lane::Left => if right {
                Lane::Middle
            } else {
                Lane::Left
            },
            Lane::Middle => if right {
                Lane::Right
            } else if left {
                Lane::Left
            } else {
                Lane::Middle
            },
            Lane::Right => if left {
                Lane::Middle
            } else {
                Lane::Right
            },
        }
    }

    /// Maps any drawn number onto a lane: its remainder modulo three, taken
    /// as a position from the left.
    pub fn from_draw(draw: i16) -> (lane: Lane)
        ensures
            lane.position() == draw as int % 3,
    {
        match draw.checked_rem_euclid(3) {
            Some(0) => Lane::Left,
            Some(1) => Lane::Middle,
            _ => Lane::Right,
        }
    }

    /// A lane picked by one draw from the thread's random generator.
    pub fn random() -> (lane: Lane) {
        Lane::from_draw(draw())
    }
}

/// `rand::Rng::gen::<i16>` on `rand::thread_rng()`: one number from the
/// thread-local generator. Nothing is claimed of the number drawn. The call
/// panics only if the operating system cannot seed the generator.
#[verifier::external_body]
fn draw() -> i16 {
    rand::thread_rng().gen::<i16>()
}

} // verus!
