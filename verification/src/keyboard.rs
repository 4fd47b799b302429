use vstd::prelude::*;

verus! {

/// Registration marker for the keyboard subsystem. The wiring that opens
/// the firmware text-input device and polls it into a tick's event queue
/// lives outside the verified core.
pub struct KeyInputPlugin;

/// A key report from the input device: a direction key, a printable
/// character, or some other special key the core does not act on.
#[derive(Clone, Copy, PartialEq, Eq, Structural, Debug)]
pub enum Key {
    Up,
    Down,
    Left,
    Right,
    Printable(char),
    OtherSpecial,
}

/// One discrete input event, as drained from the per-tick queue.
#[derive(Clone, Copy, PartialEq, Eq, Structural, Debug)]
pub struct KeyEvent {
    pub key: Key,
}

/// The horizontal unit step one key contributes: left decrements, right
/// increments, every other key contributes nothing.
pub open spec fn key_dx(k: Key) -> int {
    match k {
        Key::Left => -1,
        Key::Right => 1,
        _ => 0,
    }
}

/// The vertical unit step one key contributes: up decrements, down
/// increments, every other key contributes nothing.
pub open spec fn key_dy(k: Key) -> int {
    match k {
        Key::Up => -1,
        Key::Down => 1,
        _ => 0,
    }
}

/// The net horizontal velocity delta a drained event sequence carries:
/// the unit steps of all its events, summed.
pub open spec fn net_dx(events: Seq<KeyEvent>) -> int
    decreases events.len(),
{
    if events.len() == 0 {
        0
    } else {
        net_dx(events.drop_last()) + key_dx(events.last().key)
    }
}

/// The net vertical velocity delta a drained event sequence carries.
pub open spec fn net_dy(events: Seq<KeyEvent>) -> int
    decreases events.len(),
{
    if events.len() == 0 {
        0
    } else {
        net_dy(events.drop_last()) + key_dy(events.last().key)
    }
}

/// Each event moves the net delta by at most one unit.
pub proof fn lemma_net_delta_bound(events: Seq<KeyEvent>)
    ensures
        -(events.len() as int) <= net_dx(events) <= events.len(),
        -(events.len() as int) <= net_dy(events) <= events.len(),
    decreases events.len(),
{
    if events.len() > 0 {
        lemma_net_delta_bound(events.drop_last());
    }
}

/// Translate one tick's drained events into the velocity delta they
/// carry: direction keys sum linearly, in order of arrival, with no
/// clamping at this stage.
pub fn net_delta(events: &Vec<KeyEvent>) -> (r: (isize, isize))
    requires
        events@.len() <= isize::MAX,
    ensures
        r.0 == net_dx(events@),
        r.1 == net_dy(events@),
{
    let n: usize = events.len();
    let mut dx: isize = 0;
    let mut dy: isize = 0;
    let mut i: usize = 0;
    while i < n
        invariant
            i <= n,
            n == events@.len(),
            n <= isize::MAX,
            dx == net_dx(events@.take(i as int)),
            dy == net_dy(events@.take(i as int)),
            -(i as int) <= dx <= i,
            -(i as int) <= dy <= i,
        decreases n - i,
    {
        let k: Key = events[i].key;
        match k {
            Key::Up => {
                dy = dy - 1;
            },
            Key::Down => {
                dy = dy + 1;
            },
            Key::Left => {
                dx = dx - 1;
            },
            Key::Right => {
                dx = dx + 1;
            },
            _ => {},
        }
        proof {
            assert(events@.take(i + 1).drop_last() =~= events@.take(i as int));
            assert(events@.take(i + 1).last() == events@[i as int]);
        }
        i = i + 1;
    }
    proof {
        assert(events@.take(n as int) =~= events@);
    }
    (dx, dy)
}

} // verus!
