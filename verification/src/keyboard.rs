//! The key-input state: sixteen pressed/released flags.
//!
//! An input adapter outside the library polls the host for key events and
//! feeds them in through [`Keyboard::press`] and [`key_action`]; the
//! interpreter only reads the flags. The adapter provided with this machine
//! keeps at most one key pressed at a time (pressing a key releases the
//! others); the interpreter does not rely on that policy.

use crate::machine::first_pressed_from;
use crate::machine::spec_first_pressed;
use vstd::prelude::*;

verus! {

/// What the input adapter should do with one typed character.
#[derive(Clone, Copy, Debug, PartialEq, Eq, Structural)]
pub enum KeyAction {
    /// The quit key: end the run.
    Quit,
    /// A hexadecimal key: mark that key as the one pressed.
    Press(u8),
    /// Any other character: do nothing.
    Ignore,
}

/// The key value a typed character stands for: `'0'..'9'` and the hex
/// letters in either case map to 0-15, everything else to nothing.
pub open spec fn spec_key_of_char(c: char) -> Option<u8> {
    if '0' as u32 <= c as u32 && c as u32 <= '9' as u32 {
        Some((c as u32 - '0' as u32) as u8)
    } else if 'a' as u32 <= c as u32 && c as u32 <= 'f' as u32 {
        Some((c as u32 - 'a' as u32 + 10) as u8)
    } else if 'A' as u32 <= c as u32 && c as u32 <= 'F' as u32 {
        Some((c as u32 - 'A' as u32 + 10) as u8)
    } else {
        None
    }
}

/// Decide what one typed character means to the running machine: `q` quits,
/// a hexadecimal digit presses the matching key, anything else is ignored.
pub fn key_action(c: char) -> (r: KeyAction)
    ensures
        c == 'q' ==> r == KeyAction::Quit,
        c != 'q' && spec_key_of_char(c) is Some ==> r == KeyAction::Press(
            spec_key_of_char(c)->Some_0,
        ),
        c != 'q' && spec_key_of_char(c) is None ==> r == KeyAction::Ignore,
        r is Press ==> r->Press_0 < 16,
{
    let u: u32 = c as u32;
    if c == 'q' {
        KeyAction::Quit
    } else if u >= '0' as u32 && u <= '9' as u32 {
        KeyAction::Press((u - '0' as u32) as u8)
    } else if u >= 'a' as u32 && u <= 'f' as u32 {
        KeyAction::Press((u - 'a' as u32 + 10) as u8)
    } else if u >= 'A' as u32 && u <= 'F' as u32 {
        KeyAction::Press((u - 'A' as u32 + 10) as u8)
    } else {
        KeyAction::Ignore
    }
}

/// What the input adapter should do with a character typed in step mode.
#[derive(Clone, Copy, Debug, PartialEq, Eq, Structural)]
pub enum StepAction {
    /// The advance key: let the next cycle run.
    Advance,
    /// The quit key: end the run.
    Quit,
    /// Any other character: keep waiting.
    Ignore,
}

/// Decide what one typed character means while the machine waits in
/// step/debug mode: `n` advances, `q` quits, anything else keeps waiting.
pub fn step_action(c: char) -> (r: StepAction)
    ensures
        r == (if c == 'n' {
            StepAction::Advance
        } else if c == 'q' {
            StepAction::Quit
        } else {
            StepAction::Ignore
        }),
{
    if c == 'n' {
        StepAction::Advance
    } else if c == 'q' {
        StepAction::Quit
    } else {
        StepAction::Ignore
    }
}

/// The sixteen key flags, indexed 0-15.
pub struct Keyboard {
    key: Vec<bool>,
}

impl View for Keyboard {
    type V = Seq<bool>;

    closed spec fn view(&self) -> Seq<bool> {
        self.key@
    }
}

impl Keyboard {
    /// A well-formed keyboard holds exactly sixteen flags.
    pub open spec fn wf(&self) -> bool {
        self@.len() == 16
    }

    /// A fresh keyboard with no key pressed.
    pub fn new() -> (k: Keyboard)
        ensures
            k.wf(),
            forall|i: int| 0 <= i < 16 ==> !k@[i],
    {
        let mut key: Vec<bool> = Vec::new();
        while key.len() < 16
            invariant
                key@.len() <= 16,
                forall|i: int| 0 <= i < key@.len() ==> !key@[i],
            decreases 16 - key.len(),
        {
            key.push(false);
        }
        Keyboard { key }
    }

    /// Whether key `k` is currently pressed.
    pub fn get(&self, k: usize) -> (b: bool)
        requires
            self.wf(),
            k < 16,
        ensures
            b == self@[k as int],
    {
        self.key[k]
    }

    /// The lowest pressed key index, if any key is pressed.
    pub fn find_pressed_key(&self) -> (r: Option<u8>)
        requires
            self.wf(),
        ensures
            r == spec_first_pressed(self@),
    {
        let mut i: usize = 0;
        while i < 16
            invariant
                self.wf(),
                i <= 16,
                spec_first_pressed(self@) == first_pressed_from(self@, i as int),
            decreases 16 - i,
        {
            if self.key[i] {
                return Some(i as u8);
            }
            i = i + 1;
        }
        None
    }

    /// Mark `k` as the one pressed key, releasing all others (the adapter's
    /// at-most-one-pressed policy).
    pub fn press(&mut self, k: u8)
        requires
            old(self).wf(),
            k < 16,
        ensures
            final(self).wf(),
            final(self)@ == Seq::new(16, |i: int| i == k as int),
    {
        let mut i: usize = 0;
        while i < 16
            invariant
                self@.len() == 16,
                i <= 16,
                forall|j: int| 0 <= j < i ==> !self@[j],
                forall|j: int| i <= j < 16 ==> self@[j] == old(self)@[j],
            decreases 16 - i,
        {
            self.key[i] = false;
            i = i + 1;
        }
        self.key[k as usize] = true;
        proof {
            assert(self@ =~= Seq::new(16, |i: int| i == k as int));
        }
    }
}

} // verus!
