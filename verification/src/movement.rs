//! The six directions in which the camera moves, and what each of them means:
//! along which axis of the camera it goes, which way, and how fast.

use vstd::prelude::*;
use vstd::string::StrSliceExecFns;

verus! {

/// A direction of movement, as seen from the camera.
#[derive(Clone, Copy, Debug, PartialEq, Eq, Structural)]
pub enum Direction {
    Forward,
    Backward,
    Left,
    Right,
    Up,
    Down,
}

/// One of the three axes that the camera carries with it.
#[derive(Clone, Copy, Debug, PartialEq, Eq, Structural)]
pub enum Axis {
    Front,
    Right,
    Up,
}

impl Direction {
    /// The direction that a name stands for. Names are written in capitals;
    /// any other text stands for no direction.
    pub open spec fn named(name: Seq<char>) -> Option<Direction> {
        if name == "FORWARD"@ {
            Some(Direction::Forward)
        } else if name == "BACKWARD"@ {
            Some(Direction::Backward)
        } else if name == "LEFT"@ {
            Some(Direction::Left)
        } else if name == "RIGHT"@ {
            Some(Direction::Right)
        } else if name == "UP"@ {
            Some(Direction::Up)
        } else if name == "DOWN"@ {
            Some(Direction::Down)
        } else {
            None
        }
    }

    /// The camera axis along which this direction moves.
    pub open spec fn spec_axis(self) -> Axis {
        match self {
            Direction::Forward | Direction::Backward => Axis::Front,
            Direction::Left | Direction::Right => Axis::Right,
            Direction::Up | Direction::Down => Axis::Up,
        }
    }

    /// Whether this direction adds the axis to the position rather than
    /// taking it away.
    pub open spec fn spec_is_positive(self) -> bool {
        self == Direction::Forward || self == Direction::Right || self == Direction::Up
    }

    /// The share of the base speed at which this direction moves, in
    /// tenths: 5 along the view, 7 sideways, 3 up and down.
    pub open spec fn spec_speed_tenths(self) -> int {
        match self.spec_axis() {
            Axis::Front => 5,
            Axis::Right => 7,
            Axis::Up => 3,
        }
    }

    /// Reads a direction from its name.
    pub fn from_name(name: &str) -> (direction: Option<Direction>)
        ensures
            direction == Direction::named(name@),
    {
        if same_text(name, "FORWARD") {
            Some(Direction::Forward)
        } else if same_text(name, "BACKWARD") {
            Some(Direction::Backward)
        } else if same_text(name, "LEFT") {
            Some(Direction::Left)
        } else if same_text(name, "RIGHT") {
            Some(Direction::Right)
        } else if same_text(name, "UP") {
            Some(Direction::Up)
        } else if same_text(name, "DOWN") {
            Some(Direction::Down)
        } else {
            None
        }
    }

    /// Gives the camera axis along which this direction moves.
    #[verifier::when_used_as_spec(spec_axis)]
    pub fn axis(self) -> (axis: Axis)
        ensures
            axis == self.spec_axis(),
    {
        match self {
            Direction::Forward | Direction::Backward => Axis::Front,
            Direction::Left | Direction::Right => Axis::Right,
            Direction::Up | Direction::Down => Axis::Up,
        }
    }

    /// Tells whether this direction adds the axis to the position
    /// (forward, right, up) or takes it away (backward, left, down).
    #[verifier::when_used_as_spec(spec_is_positive)]
    pub fn is_positive(self) -> (positive: bool)
        ensures
            positive == self.spec_is_positive(),
    {
        match self {
            Direction::Forward | Direction::Right | Direction::Up => true,
            Direction::Backward | Direction::Left | Direction::Down => false,
        }
    }

    /// Gives the share of the base speed at which this direction moves, in
    /// tenths.
    pub fn speed_tenths(self) -> (tenths: u32)
        ensures
            tenths == self.spec_speed_tenths(),
    {
        match self {
            Direction::Forward | Direction::Backward => 5,
            Direction::Left | Direction::Right => 7,
            Direction::Up | Direction::Down => 3,
        }
    }
}

/// Tells whether two texts hold the same characters.
fn same_text(a: &str, b: &str) -> (same: bool)
    ensures
        same == (a@ == b@),
{
    let n: usize = a.unicode_len();
    if n != b.unicode_len() {
        return false;
    }
    let mut i: usize = 0;
    while i < n
        invariant
            i <= n,
            n == a@.len(),
            n == b@.len(),
            forall|j: int| 0 <= j < i ==> a@[j] == b@[j],
        decreases n - i,
    {
        if a.get_char(i) != b.get_char(i) {
            return false;
        }
        i += 1;
    }
    assert(a@ =~= b@);
    true
}

} // verus!
