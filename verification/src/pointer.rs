use vstd::prelude::*;

verus! {

/// Registration marker for the pointer subsystem. The wiring that opens
/// the firmware pointer device and samples it once per tick lives outside
/// the verified core.
pub struct PointerPlugin;

/// Signed addition saturating at the type bounds instead of wrapping.
pub open spec fn spec_sat_add(a: int, b: int) -> int {
    if a + b > isize::MAX {
        isize::MAX as int
    } else if a + b < isize::MIN {
        isize::MIN as int
    } else {
        a + b
    }
}

fn sat_add(a: isize, b: isize) -> (r: isize)
    ensures
        r == spec_sat_add(a as int, b as int),
{
    if b >= 0 {
        if a <= isize::MAX - b {
            a + b
        } else {
            isize::MAX
        }
    } else {
        if a >= isize::MIN - b {
            a + b
        } else {
            isize::MIN
        }
    }
}

/// The accumulated pointer state: running totals of the relative movement
/// on three axes, and the latest sampled state of the two buttons.
#[derive(Clone, Copy, PartialEq, Eq, Structural, Debug)]
pub struct Pointer {
    pub x: isize,
    pub y: isize,
    pub z: isize,
    pub left_click: bool,
    pub right_click: bool,
}

impl Default for Pointer {
    /// The state before the first sample: no movement, no button held.
    fn default() -> (r: Pointer)
        ensures
            r == (Pointer { x: 0, y: 0, z: 0, left_click: false, right_click: false }),
    {
        Pointer { x: 0, y: 0, z: 0, left_click: false, right_click: false }
    }
}

impl Pointer {
    /// Fold one sampled device report into the state: each axis's relative
    /// movement saturates into its running total, the buttons latch the
    /// latest sample and are not accumulated.
    pub fn apply_state(&mut self, dx: i32, dy: i32, dz: i32, left: bool, right: bool)
        ensures
            final(self).x == spec_sat_add(old(self).x as int, dx as int),
            final(self).y == spec_sat_add(old(self).y as int, dy as int),
            final(self).z == spec_sat_add(old(self).z as int, dz as int),
            final(self).left_click == left,
            final(self).right_click == right,
    {
        self.x = sat_add(self.x, dx as isize);
        self.y = sat_add(self.y, dy as isize);
        self.z = sat_add(self.z, dz as isize);
        self.left_click = left;
        self.right_click = right;
    }

    pub fn is_left_pressed(&self) -> (r: bool)
        ensures
            r == self.left_click,
    {
        self.left_click
    }

    pub fn is_right_pressed(&self) -> (r: bool)
        ensures
            r == self.right_click,
    {
        self.right_click
    }

    pub fn get_position(&self) -> (r: (isize, isize))
        ensures
            r == (self.x, self.y),
    {
        (self.x, self.y)
    }

    pub fn get_scroll(&self) -> (r: isize)
        ensures
            r == self.z,
    {
        self.z
    }
}

} // verus!
