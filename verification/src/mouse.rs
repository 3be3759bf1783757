//! Mouse packets: what a mouse action sends, one packet at a time.

use vstd::prelude::*;

use crate::inject::MouseAction;

verus! {

/// Guest milliseconds between injected packets: the rate at which the controller
/// can hand them on.
pub const MOUSE_PACKET_SPACING_MS: u64 = 5;

/// Packets that driving the pointer into the corner takes, with room for a coarse
/// driver.
pub const MOUSE_HOME_PACKETS: usize = 20;

/// The longest motion that one packet can carry.
pub const MOUSE_PACKET_MAX_DELTA: i32 = 255;

/// How long a click holds the button, in guest milliseconds: longer than a frame.
pub const MOUSE_CLICK_HOLD_MS: u64 = 100;

/// One packet, and how long the guest runs after it.
#[derive(Clone, Copy, Debug, PartialEq, Eq, Structural)]
pub struct MousePacket {
    pub dx: i32,
    pub dy: i32,
    pub buttons: u8,
    pub dwell_ms: u64,
}

/// As much of a motion as one packet can carry.
pub open spec fn packet_delta(left: int) -> int {
    if left > MOUSE_PACKET_MAX_DELTA {
        MOUSE_PACKET_MAX_DELTA as int
    } else if left < -MOUSE_PACKET_MAX_DELTA {
        -MOUSE_PACKET_MAX_DELTA
    } else {
        left
    }
}

/// The length of a motion.
pub open spec fn distance(d: int) -> nat {
    if d < 0 {
        (-d) as nat
    } else {
        d as nat
    }
}

/// The packets of a motion: as much as fits into each, until nothing is left.
pub open spec fn move_packets(dx: int, dy: int, buttons: u8) -> Seq<MousePacket>
    decreases distance(dx) + distance(dy),
{
    if dx == 0 && dy == 0 {
        Seq::empty()
    } else {
        seq![
            MousePacket {
                dx: packet_delta(dx) as i32,
                dy: packet_delta(dy) as i32,
                buttons,
                dwell_ms: MOUSE_PACKET_SPACING_MS,
            },
        ] + move_packets(dx - packet_delta(dx), dy - packet_delta(dy), buttons)
    }
}

/// The buttons that are down after an action.
pub open spec fn buttons_after(action: MouseAction, buttons: u8) -> u8 {
    match action {
        MouseAction::Button(mask) => mask,
        MouseAction::Click => 0,
        _ => buttons,
    }
}

/// The packets of an action while `buttons` are down. Motion carries the buttons,
/// so that a press, a move and a release are a drag.
pub open spec fn action_packets(action: MouseAction, buttons: u8) -> Seq<MousePacket> {
    match action {
        MouseAction::Home => Seq::new(
            MOUSE_HOME_PACKETS as nat,
            |i: int|
                MousePacket {
                    dx: (-MOUSE_PACKET_MAX_DELTA) as i32,
                    dy: (-MOUSE_PACKET_MAX_DELTA) as i32,
                    buttons,
                    dwell_ms: MOUSE_PACKET_SPACING_MS,
                },
        ),
        MouseAction::Move { dx, dy } => move_packets(dx as int, dy as int, buttons),
        MouseAction::Button(mask) => seq![
            MousePacket { dx: 0, dy: 0, buttons: mask, dwell_ms: MOUSE_PACKET_SPACING_MS },
        ],
        MouseAction::Click => seq![
            MousePacket { dx: 0, dy: 0, buttons: 1, dwell_ms: MOUSE_CLICK_HOLD_MS },
            MousePacket { dx: 0, dy: 0, buttons: 0, dwell_ms: MOUSE_PACKET_SPACING_MS },
        ],
    }
}

/// As much of a motion as one packet can carry.
fn clamp_delta(left: i32) -> (delta: i32)
    ensures
        delta == packet_delta(left as int),
{
    if left > MOUSE_PACKET_MAX_DELTA {
        MOUSE_PACKET_MAX_DELTA
    } else if left < -MOUSE_PACKET_MAX_DELTA {
        -MOUSE_PACKET_MAX_DELTA
    } else {
        left
    }
}

/// The packets of a motion.
fn split_move(dx: i32, dy: i32, buttons: u8) -> (packets: Vec<MousePacket>)
    ensures
        packets@ == move_packets(dx as int, dy as int, buttons),
{
    let mut packets: Vec<MousePacket> = Vec::new();
    let mut left_x: i32 = dx;
    let mut left_y: i32 = dy;
    assert(packets@ + move_packets(dx as int, dy as int, buttons) =~= move_packets(
        dx as int,
        dy as int,
        buttons,
    ));
    while left_x != 0 || left_y != 0
        invariant
            packets@ + move_packets(left_x as int, left_y as int, buttons) == move_packets(
                dx as int,
                dy as int,
                buttons,
            ),
        decreases distance(left_x as int) + distance(left_y as int),
    {
        let step_x: i32 = clamp_delta(left_x);
        let step_y: i32 = clamp_delta(left_y);
        let packet: MousePacket = MousePacket {
            dx: step_x,
            dy: step_y,
            buttons,
            dwell_ms: MOUSE_PACKET_SPACING_MS,
        };
        proof {
            let rest = move_packets(left_x - step_x, left_y - step_y, buttons);
            assert(packets@ + (seq![packet] + rest) =~= packets@.push(packet) + rest);
        }
        packets.push(packet);
        left_x = left_x - step_x;
        left_y = left_y - step_y;
    }
    assert(packets@ + Seq::<MousePacket>::empty() =~= packets@);
    packets
}

/// The packets of an action. `buttons` is what is down before it, and after it.
pub fn mouse_action_packets(action: &MouseAction, buttons: &mut u8) -> (packets: Vec<MousePacket>)
    ensures
        packets@ == action_packets(*action, *old(buttons)),
        *final(buttons) == buttons_after(*action, *old(buttons)),
{
    match action {
        MouseAction::Home => {
            let packet: MousePacket = MousePacket {
                dx: -MOUSE_PACKET_MAX_DELTA,
                dy: -MOUSE_PACKET_MAX_DELTA,
                buttons: *buttons,
                dwell_ms: MOUSE_PACKET_SPACING_MS,
            };
            let mut packets: Vec<MousePacket> = Vec::new();
            while packets.len() < MOUSE_HOME_PACKETS
                invariant
                    packets@.len() <= MOUSE_HOME_PACKETS,
                    forall|i: int| 0 <= i < packets@.len() ==> packets@[i] == packet,
                decreases MOUSE_HOME_PACKETS - packets@.len(),
            {
                packets.push(packet);
            }
            assert(packets@ =~= action_packets(*action, *buttons));
            packets
        },
        MouseAction::Move { dx, dy } => split_move(*dx, *dy, *buttons),
        MouseAction::Button(mask) => {
            *buttons = *mask;
            let packets: Vec<MousePacket> = vec![
                MousePacket { dx: 0, dy: 0, buttons: *mask, dwell_ms: MOUSE_PACKET_SPACING_MS },
            ];
            assert(packets@ =~= action_packets(*action, *buttons));
            packets
        },
        MouseAction::Click => {
            *buttons = 0;
            let packets: Vec<MousePacket> = vec![
                MousePacket { dx: 0, dy: 0, buttons: 1, dwell_ms: MOUSE_CLICK_HOLD_MS },
                MousePacket { dx: 0, dy: 0, buttons: 0, dwell_ms: MOUSE_PACKET_SPACING_MS },
            ];
            assert(packets@ =~= action_packets(*action, *buttons));
            packets
        },
    }
}

// ---------------------------------------------------------------------------
// Laws
// ---------------------------------------------------------------------------

/// The motion that packets carry together.
pub open spec fn total_motion(packets: Seq<MousePacket>) -> (int, int)
    decreases packets.len(),
{
    if packets.len() == 0 {
        (0, 0)
    } else {
        let rest = total_motion(packets.drop_first());
        (packets[0].dx + rest.0, packets[0].dy + rest.1)
    }
}

/// The larger of two lengths.
pub open spec fn longer(a: nat, b: nat) -> nat {
    if a >= b {
        a
    } else {
        b
    }
}

/// Every packet is one that a mouse can send, and the guest runs the packet spacing
/// after each but the press of a click, which it holds.
pub proof fn law_packets_fit_the_protocol(action: MouseAction, buttons: u8)
    ensures
        forall|i: int|
            0 <= i < action_packets(action, buttons).len() ==> {
                let p = #[trigger] action_packets(action, buttons)[i];
                &&& -MOUSE_PACKET_MAX_DELTA <= p.dx <= MOUSE_PACKET_MAX_DELTA
                &&& -MOUSE_PACKET_MAX_DELTA <= p.dy <= MOUSE_PACKET_MAX_DELTA
                &&& p.dwell_ms == if action is Click && i == 0 {
                    MOUSE_CLICK_HOLD_MS
                } else {
                    MOUSE_PACKET_SPACING_MS
                }
            },
{
    if let MouseAction::Move { dx, dy } = action {
        lemma_move_packets(dx as int, dy as int, buttons);
    }
}

/// A motion arrives whole: its packets add up to it, they are no more than it
/// needs, and each carries the buttons that are down and waits the packet spacing.
pub proof fn law_a_motion_arrives_whole(dx: i32, dy: i32, buttons: u8)
    ensures
        total_motion(action_packets(MouseAction::Move { dx, dy }, buttons)) == (
            dx as int,
            dy as int,
        ),
        action_packets(MouseAction::Move { dx, dy }, buttons).len() == (longer(
            distance(dx as int),
            distance(dy as int),
        ) + 254) / 255,
        forall|i: int|
            0 <= i < action_packets(MouseAction::Move { dx, dy }, buttons).len() ==> (
            #[trigger] action_packets(MouseAction::Move { dx, dy }, buttons)[i]).buttons == buttons
                && action_packets(MouseAction::Move { dx, dy }, buttons)[i].dwell_ms
                == MOUSE_PACKET_SPACING_MS,
{
    lemma_move_packets(dx as int, dy as int, buttons);
}

/// What holds of the packets of a motion.
proof fn lemma_move_packets(dx: int, dy: int, buttons: u8)
    ensures
        total_motion(move_packets(dx, dy, buttons)) == (dx, dy),
        move_packets(dx, dy, buttons).len() == (longer(distance(dx), distance(dy)) + 254) / 255,
        forall|i: int|
            0 <= i < move_packets(dx, dy, buttons).len() ==> {
                let p = #[trigger] move_packets(dx, dy, buttons)[i];
                &&& -MOUSE_PACKET_MAX_DELTA <= p.dx <= MOUSE_PACKET_MAX_DELTA
                &&& -MOUSE_PACKET_MAX_DELTA <= p.dy <= MOUSE_PACKET_MAX_DELTA
                &&& p.dwell_ms == MOUSE_PACKET_SPACING_MS
                &&& p.buttons == buttons
            },
    decreases distance(dx) + distance(dy),
{
    if dx != 0 || dy != 0 {
        let rest = move_packets(dx - packet_delta(dx), dy - packet_delta(dy), buttons);
        let all = move_packets(dx, dy, buttons);
        lemma_move_packets(dx - packet_delta(dx), dy - packet_delta(dy), buttons);
        assert(all.drop_first() =~= rest);
        assert(forall|i: int| 1 <= i < all.len() ==> all[i] == rest[i - 1]);
    }
}

/// A click is a press that outlasts a frame at twenty-four a second, then a
/// release, and leaves no button down.
pub proof fn law_a_click_is_seen_and_lets_go(buttons: u8)
    ensures
        action_packets(MouseAction::Click, buttons).len() == 2,
        action_packets(MouseAction::Click, buttons)[0].buttons == 1,
        action_packets(MouseAction::Click, buttons)[0].dwell_ms > 1000int / 24,
        action_packets(MouseAction::Click, buttons)[1].buttons == 0,
        buttons_after(MouseAction::Click, buttons) == 0,
{
}

/// Driving into the corner crosses a screen of 480 lines even where one packet is
/// worth 31 pixels.
pub proof fn law_home_reaches_the_corner(buttons: u8)
    ensures
        action_packets(MouseAction::Home, buttons).len() * (255int * 8 / 64) >= 480,
        total_motion(action_packets(MouseAction::Home, buttons)) == (-5100int, -5100int),
{
    lemma_same_motion(action_packets(MouseAction::Home, buttons), -255, -255);
    assert(action_packets(MouseAction::Home, buttons).len() == 20);
    assert(255int * 8 / 64 == 31);
}

/// Packets of one motion each add up to that motion times their number.
proof fn lemma_same_motion(packets: Seq<MousePacket>, dx: int, dy: int)
    requires
        forall|i: int| 0 <= i < packets.len() ==> (#[trigger] packets[i]).dx == dx && packets[i].dy
            == dy,
    ensures
        total_motion(packets) == (packets.len() * dx, packets.len() * dy),
    decreases packets.len(),
{
    if packets.len() > 0 {
        lemma_same_motion(packets.drop_first(), dx, dy);
        let n = packets.len();
        assert((n - 1) * dx + dx == n * dx && (n - 1) * dy + dy == n * dy) by (nonlinear_arith);
    } else {
        assert(0 * dx == 0 && 0 * dy == 0) by (nonlinear_arith);
    }
}

/// The buttons that the guest saw last are those that are down: the last packet of an
/// action carries them, and an action without packets changes none. Two hundred packets
/// take one guest second.
pub proof fn law_the_last_packet_says_the_buttons(action: MouseAction, buttons: u8)
    ensures
        action_packets(action, buttons).len() > 0 ==> action_packets(action, buttons).last().buttons
            == buttons_after(action, buttons),
        action_packets(action, buttons).len() == 0 ==> buttons_after(action, buttons) == buttons,
        action is Button ==> buttons_after(action, buttons) == action->Button_0,
        action is Home || action is Move ==> buttons_after(action, buttons) == buttons,
        action is Button ==> total_motion(action_packets(action, buttons)) == (0int, 0int),
        action is Click ==> total_motion(action_packets(action, buttons)) == (0int, 0int),
        200 * MOUSE_PACKET_SPACING_MS == 1000,
{
    reveal_with_fuel(total_motion, 3);
    match action {
        MouseAction::Move { dx, dy } => {
            law_a_motion_arrives_whole(dx, dy, buttons);
            let packets = action_packets(action, buttons);
            if packets.len() > 0 {
                assert(packets[packets.len() - 1].buttons == buttons);
            }
        },
        _ => {},
    }
}

} // verus!
