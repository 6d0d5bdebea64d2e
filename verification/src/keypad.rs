use vstd::prelude::*;
use crate::machine::NUM_KEYS;

verus! {

/// A key of the host's keyboard, as far as the keypad is concerned: the
/// sixteen keys of the left-hand 4x4 block, and `Other` for every other key.
#[derive(Clone, Copy, Debug, PartialEq, Eq, Structural)]
pub enum HostKey {
    Key1,
    Key2,
    Key3,
    Key4,
    Q,
    W,
    E,
    R,
    A,
    S,
    D,
    F,
    Z,
    X,
    C,
    V,
    Other,
}

/// The keypad slot that a host key stands for. The 4x4 block
///
/// ```text
/// 1 2 3 4        1 2 3 C
/// Q W E R  maps  4 5 6 D
/// A S D F   to   7 8 9 E
/// Z X C V        A 0 B F
/// ```
///
/// and no other key has a slot.
pub open spec fn slot_of(key: HostKey) -> Option<u8> {
    match key {
        HostKey::Key1 => Some(0x1u8),
        HostKey::Key2 => Some(0x2u8),
        HostKey::Key3 => Some(0x3u8),
        HostKey::Key4 => Some(0xCu8),
        HostKey::Q => Some(0x4u8),
        HostKey::W => Some(0x5u8),
        HostKey::E => Some(0x6u8),
        HostKey::R => Some(0xDu8),
        HostKey::A => Some(0x7u8),
        HostKey::S => Some(0x8u8),
        HostKey::D => Some(0x9u8),
        HostKey::F => Some(0xEu8),
        HostKey::Z => Some(0xAu8),
        HostKey::X => Some(0x0u8),
        HostKey::C => Some(0xBu8),
        HostKey::V => Some(0xFu8),
        HostKey::Other => None,
    }
}

/// Whether one of the keys in `down` stands for keypad slot `k`.
pub open spec fn slot_is_down(down: Seq<HostKey>, k: int) -> bool {
    exists|i: int| 0 <= i < down.len() && slot_of(#[trigger] down[i]) == Some(k as u8)
}

/// The keypad slot that `key` stands for, if it has one.
pub fn key_slot(key: HostKey) -> (r: Option<u8>)
    ensures
        r == slot_of(key),
        r matches Some(k) ==> k < NUM_KEYS,
{
    match key {
        HostKey::Key1 => Some(0x1),
        HostKey::Key2 => Some(0x2),
        HostKey::Key3 => Some(0x3),
        HostKey::Key4 => Some(0xC),
        HostKey::Q => Some(0x4),
        HostKey::W => Some(0x5),
        HostKey::E => Some(0x6),
        HostKey::R => Some(0xD),
        HostKey::A => Some(0x7),
        HostKey::S => Some(0x8),
        HostKey::D => Some(0x9),
        HostKey::F => Some(0xE),
        HostKey::Z => Some(0xA),
        HostKey::X => Some(0x0),
        HostKey::C => Some(0xB),
        HostKey::V => Some(0xF),
        HostKey::Other => None,
    }
}

/// The state of the keypad for one batch of instructions, from the host keys
/// released since the last batch and the host keys that are down now. Every
/// slot starts out up; a released key puts its slot up, then a key that is
/// down puts its slot down. So a slot is down exactly when one of the keys in
/// `down` stands for it, whatever was released.
pub fn handle_input(released: &[HostKey], down: &[HostKey]) -> (keys: [bool; NUM_KEYS])
    ensures
        forall|k: int| 0 <= k < NUM_KEYS ==> keys@[k] == slot_is_down(down@, k),
{
    let mut keys_state = [false; NUM_KEYS];
    let mut i: usize = 0;
    while i < released.len()
        invariant
            i <= released@.len(),
            forall|k: int| 0 <= k < NUM_KEYS ==> !keys_state@[k],
        decreases released@.len() - i,
    {
        if let Some(slot) = key_slot(released[i]) {
            keys_state[slot as usize] = false;
        }
        i += 1;
    }
    let mut j: usize = 0;
    while j < down.len()
        invariant
            j <= down@.len(),
            forall|k: int|
                0 <= k < NUM_KEYS ==> keys_state@[k] == slot_is_down(down@.take(j as int), k),
        decreases down@.len() - j,
    {
        let ghost before = down@.take(j as int);
        let ghost after = down@.take(j + 1);
        if let Some(slot) = key_slot(down[j]) {
            keys_state[slot as usize] = true;
        }
        proof {
            assert(after[j as int] == down@[j as int]);
            assert forall|k: int| 0 <= k < NUM_KEYS implies keys_state@[k] == slot_is_down(
                after,
                k,
            ) by {
                if slot_is_down(before, k) {
                    let w = choose|w: int|
                        0 <= w < before.len() && slot_of(#[trigger] before[w]) == Some(k as u8);
                    assert(after[w] == before[w]);
                }
                if slot_is_down(after, k) && slot_of(down@[j as int]) != Some(k as u8) {
                    let w = choose|w: int|
                        0 <= w < after.len() && slot_of(#[trigger] after[w]) == Some(k as u8);
                    assert(before[w] == after[w]);
                }
            }
        }
        j += 1;
    }
    assert(down@.take(down@.len() as int) == down@);
    keys_state
}

} // verus!
