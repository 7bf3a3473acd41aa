//! Keystrokes, and where an arrow key moves a selection.

use vstd::arithmetic::div_mod::{lemma_add_mod_noop, lemma_mod_multiples_vanish, lemma_small_mod, lemma_sub_mod_noop};
use vstd::prelude::*;

verus! {

/// A key with what is held down beside it.
#[derive(Clone, Debug, PartialEq, Eq)]
pub struct Keystroke {
    pub key: String,
    pub shift: bool,
    pub control: bool,
    pub alt: bool,
    pub platform: bool,
}

impl Keystroke {
    /// Whether anything is held down beside the key.
    pub open spec fn modified(self) -> bool {
        self.shift || self.control || self.alt || self.platform
    }

    /// Whether anything is held down beside the key.
    pub fn is_modified(&self) -> (r: bool)
        ensures
            r == self.modified(),
    {
        self.shift || self.control || self.alt || self.platform
    }

    /// A key by itself.
    pub fn bare(key: &str) -> (r: Keystroke)
        ensures
            r.key@ == key@,
            !r.modified(),
    {
        Keystroke {
            key: key.to_owned(),
            shift: false,
            control: false,
            alt: false,
            platform: false,
        }
    }
}

/// Where a selection goes when it moves by `delta`: around, at either end.
pub open spec fn stepped_to(selection: int, count: int, delta: int) -> int {
    if count == 0 {
        0
    } else {
        (selection + delta) % count
    }
}

/// Where a selection goes when it moves by `delta`. The list is short, so running
/// off one end returns to the other.
pub fn step(selection: usize, count: usize, delta: isize) -> (r: usize)
    ensures
        r == stepped_to(selection as int, count as int, delta as int),
{
    if count == 0 {
        return 0;
    }
    let at: u128 = (selection % count) as u128;
    let n: u128 = count as u128;
    if delta >= 0 {
        let more: u128 = (delta as u128) % n;
        proof {
            lemma_add_mod_noop(selection as int, delta as int, count as int);
        }
        ((at + more) % n) as usize
    } else {
        let back: u128 = ((-(delta as i128)) as u128) % n;
        proof {
            lemma_sub_mod_noop(selection as int, -(delta as int), count as int);
            lemma_mod_multiples_vanish(1, at as int - back as int, count as int);
            assert(count * 1 + (at as int - back as int) == at + n - back);
        }
        ((at + n - back) % n) as usize
    }
}

/// A selection stays on the list, one step there and one back is no step, and a
/// list of one row has nowhere to go.
pub proof fn lemma_stepping_wraps(selection: int, count: int)
    requires
        0 <= selection < count,
    ensures
        0 <= stepped_to(selection, count, 1) < count,
        0 <= stepped_to(selection, count, -1) < count,
        stepped_to(stepped_to(selection, count, 1), count, -1) == selection,
        stepped_to(count - 1, count, 1) == 0,
        stepped_to(0, count, -1) == count - 1,
{
    if selection + 1 < count {
        lemma_small_mod((selection + 1) as nat, count as nat);
        lemma_small_mod(selection as nat, count as nat);
    } else {
        lemma_mod_multiples_vanish(1, 0, count);
    }
    lemma_mod_multiples_vanish(1, -1, count);
    lemma_mod_multiples_vanish(1, 0, count);
    lemma_small_mod((count - 1) as nat, count as nat);
    lemma_small_mod(0, count as nat);
    if selection > 0 {
        lemma_small_mod((selection - 1) as nat, count as nat);
    }
}

/// A place on a list, or the last one where the list is shorter.
pub open spec fn clamped(place: int, count: int) -> int {
    if place < count {
        place
    } else if count == 0 {
        0
    } else {
        count - 1
    }
}

/// A place on a list, or the last one where the list is shorter.
pub fn clamp(place: usize, count: usize) -> (r: usize)
    ensures
        r == clamped(place as int, count as int),
{
    if place < count {
        place
    } else if count == 0 {
        0
    } else {
        count - 1
    }
}

} // verus!
