//! Control-surface state: which view the surface shows and which keys its
//! on-screen keyboard holds down. The drawing itself is an external
//! collaborator; this is the state it renders from.

use vstd::prelude::*;

verus! {

/// The view the control surface is showing.
#[derive(Clone, Copy, Debug, PartialEq, Eq, Structural)]
pub enum AppState {
    StartScreen,
    MainApp,
    Diagnostics,
    DoomMode,
}

/// The keys the on-screen keyboard shows as pressed. Unlike the engine's
/// held-note stack, a re-pressed key keeps its place.
pub struct Keyboard {
    pressed_keys: Vec<u8>,
}

impl View for Keyboard {
    type V = Seq<u8>;

    closed spec fn view(&self) -> Seq<u8> {
        self.pressed_keys@
    }
}

impl Keyboard {
    /// The keyboard never shows a key twice.
    pub closed spec fn wf(&self) -> bool {
        crate::notes::no_dups(self.pressed_keys@)
    }

    /// A keyboard with nothing pressed.
    pub fn new() -> (k: Keyboard)
        ensures
            k.wf(),
            k@ == Seq::<u8>::empty(),
    {
        Keyboard { pressed_keys: Vec::new() }
    }

    /// Show `key` as pressed; a key already down stays where it is.
    pub fn add_key(&mut self, key: u8)
        requires
            old(self).wf(),
        ensures
            final(self).wf(),
            final(self)@ == (if old(self)@.contains(key) {
                old(self)@
            } else {
                old(self)@.push(key)
            }),
    {
        let len = self.pressed_keys.len();
        let mut i: usize = 0;
        while i < len && *self.pressed_keys.get(i).unwrap() != key
            invariant
                i <= len,
                len == self.pressed_keys@.len(),
                forall|j: int| 0 <= j < i ==> self.pressed_keys@[j] != key,
            decreases len - i,
        {
            i = i + 1;
        }
        if i == len {
            proof {
                if self.pressed_keys@.contains(key) {
                    let j = choose|j: int|
                        0 <= j < self.pressed_keys@.len() && self.pressed_keys@[j] == key;
                    assert(self.pressed_keys@[j] != key);
                }
                let p = self.pressed_keys@.push(key);
                assert forall|a: int, b: int| 0 <= a < b < p.len() implies p[a] != p[b] by {
                    if b == p.len() - 1 {
                        assert(p[a] == self.pressed_keys@[a]);
                    }
                }
            }
            self.pressed_keys.push(key);
        } else {
            proof {
                assert(self.pressed_keys@[i as int] == key);
                assert(self.pressed_keys@.contains(key));
            }
        }
    }

    /// Show `key` as released; a key that is not down is left alone.
    pub fn remove_key(&mut self, key: u8)
        requires
            old(self).wf(),
        ensures
            final(self).wf(),
            final(self)@ == old(self)@.remove_value(key),
            !final(self)@.contains(key),
    {
        proof {
            crate::notes::lemma_release_no_dups(self.pressed_keys@, key);
            self.pressed_keys@.index_of_first_ensures(key);
        }
        let len = self.pressed_keys.len();
        let mut i: usize = 0;
        while i < len && *self.pressed_keys.get(i).unwrap() != key
            invariant
                i <= len,
                len == self.pressed_keys@.len(),
                forall|j: int| 0 <= j < i ==> self.pressed_keys@[j] != key,
            decreases len - i,
        {
            i = i + 1;
        }
        if i < len {
            self.pressed_keys.remove(i);
        } else {
            proof {
                if self.pressed_keys@.contains(key) {
                    let j = choose|j: int|
                        0 <= j < self.pressed_keys@.len() && self.pressed_keys@[j] == key;
                    assert(self.pressed_keys@[j] != key);
                }
            }
        }
    }

    /// True when `key` is shown as pressed.
    pub fn is_pressed(&self, key: u8) -> (b: bool)
        ensures
            b == self@.contains(key),
    {
        let len = self.pressed_keys.len();
        let mut i: usize = 0;
        while i < len && *self.pressed_keys.get(i).unwrap() != key
            invariant
                i <= len,
                len == self.pressed_keys@.len(),
                forall|j: int| 0 <= j < i ==> self.pressed_keys@[j] != key,
            decreases len - i,
        {
            i = i + 1;
        }
        proof {
            if i < len {
                assert(self@.contains(key));
            } else if self@.contains(key) {
                let j = choose|j: int| 0 <= j < self@.len() && self@[j] == key;
                assert(self.pressed_keys@[j] != key);
            }
        }
        i < len
    }
}

} // verus!
