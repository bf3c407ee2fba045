//! The held-note collection of the parameter store.
//!
//! Notes are kept in press order; pressing a note that is already held moves
//! it to the end, releasing a note that is not held is a no-op. The stack
//! also carries the last-note / any-note-held pair that the voices read.

use vstd::prelude::*;

verus! {

/// True when `s` holds no note twice.
pub open spec fn no_dups(s: Seq<u8>) -> bool {
    forall|i: int, j: int| 0 <= i < j < s.len() ==> s[i] != s[j]
}

/// What pressing `n` does to the held-note list: a note already held moves
/// to the end, a new note is appended.
pub open spec fn press(s: Seq<u8>, n: u8) -> Seq<u8> {
    if s.contains(n) {
        s.remove_value(n).push(n)
    } else {
        s.push(n)
    }
}

/// What releasing `n` does to the held-note list: its entry is removed;
/// releasing a note that is not held changes nothing.
pub open spec fn release(s: Seq<u8>, n: u8) -> Seq<u8> {
    s.remove_value(n)
}

/// Removing one entry keeps the remaining entries duplicate-free.
proof fn lemma_remove_no_dups(s: Seq<u8>, i: int)
    requires
        no_dups(s),
        0 <= i < s.len(),
    ensures
        no_dups(s.remove(i)),
{
    let r = s.remove(i);
    assert forall|p: int, q: int| 0 <= p < q < r.len() implies r[p] != r[q] by {
        let sp: int = if p < i { p } else { p + 1 };
        let sq: int = if q < i { q } else { q + 1 };
        assert(r[p] == s[sp]);
        assert(r[q] == s[sq]);
    }
}

/// In a duplicate-free list, removing the first occurrence of `n` removes
/// every occurrence of `n`.
proof fn lemma_remove_value_all_gone(s: Seq<u8>, n: u8)
    requires
        no_dups(s),
        s.contains(n),
    ensures
        !s.remove_value(n).contains(n),
        no_dups(s.remove_value(n)),
{
    s.index_of_first_ensures(n);
    let i = s.index_of_first(n).unwrap();
    lemma_remove_no_dups(s, i);
    let r = s.remove(i);
    assert forall|j: int| 0 <= j < r.len() implies r[j] != n by {
        if j < i {
            assert(r[j] == s[j]);
        } else {
            assert(r[j] == s[j + 1]);
        }
    }
    if r.contains(n) {
        let j = choose|j: int| 0 <= j < r.len() && r[j] == n;
        assert(r[j] != n);
    }
}

/// Pressing a note keeps the list duplicate-free.
pub proof fn lemma_press_no_dups(s: Seq<u8>, n: u8)
    requires
        no_dups(s),
    ensures
        no_dups(press(s, n)),
        press(s, n).len() > 0,
        press(s, n).last() == n,
{
    if s.contains(n) {
        lemma_remove_value_all_gone(s, n);
        let r = s.remove_value(n);
        let p = r.push(n);
        assert forall|i: int, j: int| 0 <= i < j < p.len() implies p[i] != p[j] by {
            if j == p.len() - 1 {
                assert(p[i] == r[i]);
                assert(!r.contains(n));
            }
        }
    } else {
        let p = s.push(n);
        assert forall|i: int, j: int| 0 <= i < j < p.len() implies p[i] != p[j] by {
            if j == p.len() - 1 {
                assert(p[i] == s[i]);
                if p[i] == n {
                    assert(s.contains(n));
                }
            }
        }
    }
}

/// Releasing a note keeps the list duplicate-free.
pub proof fn lemma_release_no_dups(s: Seq<u8>, n: u8)
    requires
        no_dups(s),
    ensures
        no_dups(release(s, n)),
        !release(s, n).contains(n),
{
    if s.contains(n) {
        lemma_remove_value_all_gone(s, n);
    } else {
        s.index_of_first_ensures(n);
        if release(s, n).contains(n) {
            let j = choose|j: int| 0 <= j < s.len() && s[j] == n;
        }
    }
}

/// One note event: a key pressed or a key released.
pub enum NoteOp {
    On(u8),
    Off(u8),
}

/// The held-note list after a sequence of note events.
pub open spec fn apply_ops(s: Seq<u8>, ops: Seq<NoteOp>) -> Seq<u8>
    decreases ops.len(),
{
    if ops.len() == 0 {
        s
    } else {
        let t = match ops[0] {
            NoteOp::On(n) => press(s, n),
            NoteOp::Off(n) => release(s, n),
        };
        apply_ops(t, ops.drop_first())
    }
}

/// For any interleaving of presses and releases, the held-note list never
/// holds a note twice.
pub proof fn lemma_ops_no_dups(s: Seq<u8>, ops: Seq<NoteOp>)
    requires
        no_dups(s),
    ensures
        no_dups(apply_ops(s, ops)),
    decreases ops.len(),
{
    if ops.len() > 0 {
        match ops[0] {
            NoteOp::On(n) => {
                lemma_press_no_dups(s, n);
                lemma_ops_no_dups(press(s, n), ops.drop_first());
            },
            NoteOp::Off(n) => {
                lemma_release_no_dups(s, n);
                lemma_ops_no_dups(release(s, n), ops.drop_first());
            },
        }
    }
}

/// The ordered collection of currently held notes.
pub struct NoteStack {
    keys: Vec<u8>,
    last_note: u8,
    any_held: bool,
}

impl View for NoteStack {
    type V = Seq<u8>;

    closed spec fn view(&self) -> Seq<u8> {
        self.keys@
    }
}

impl NoteStack {
    /// The stack never holds a note twice, the any-note-held flag is true
    /// exactly when some note is held, and the last note tracks the tail.
    pub closed spec fn wf(&self) -> bool {
        &&& no_dups(self.keys@)
        &&& forall|i: int| 0 <= i < self.keys@.len() ==> #[trigger] self.keys@[i] < 128
        &&& self.any_held == (self.keys@.len() > 0)
        &&& self.keys@.len() > 0 ==> self.last_note == self.keys@.last()
        &&& self.keys@.len() == 0 ==> self.last_note == 0
    }

    /// An empty stack: nothing held.
    pub fn new() -> (s: NoteStack)
        ensures
            s.wf(),
            s@ == Seq::<u8>::empty(),
    {
        NoteStack { keys: Vec::new(), last_note: 0, any_held: false }
    }

    /// The position of the first entry equal to `n`, or the length if absent.
    fn find(&self, n: u8) -> (i: usize)
        ensures
            i <= self.keys@.len(),
            forall|j: int| 0 <= j < i ==> self.keys@[j] != n,
            i < self.keys@.len() ==> self.keys@[i as int] == n,
            (i < self.keys@.len()) == self@.contains(n),
    {
        let len = self.keys.len();
        let mut i: usize = 0;
        while i < len && *self.keys.get(i).unwrap() != n
            invariant
                i <= len,
                len == self.keys@.len(),
                forall|j: int| 0 <= j < i ==> self.keys@[j] != n,
            decreases len - i,
        {
            i = i + 1;
        }
        proof {
            if i < self.keys@.len() {
                assert(self@.contains(n));
            } else if self@.contains(n) {
                let j = choose|j: int| 0 <= j < self.keys@.len() && self.keys@[j] == n;
                assert(self.keys@[j] != n);
            }
        }
        i
    }

    /// Press note `n`: append it, or move it to the end if already held;
    /// the note becomes the last note and the held flag is set.
    pub fn note_on(&mut self, n: u8)
        requires
            old(self).wf(),
            n < 128,
        ensures
            final(self).wf(),
            final(self)@ == press(old(self)@, n),
            final(self)@.len() > 0,
            final(self)@.last() == n,
    {
        proof {
            lemma_press_no_dups(self.keys@, n);
        }
        let i = self.find(n);
        if i < self.keys.len() {
            proof {
                self.keys@.index_of_first_ensures(n);
            }
            self.keys.remove(i);
            self.keys.push(n);
        } else {
            self.keys.push(n);
        }
        self.last_note = n;
        self.any_held = true;
    }

    /// Release note `n`: remove it if held (a no-op otherwise); the held flag
    /// and the last note follow the remaining tail.
    pub fn note_off(&mut self, n: u8)
        requires
            old(self).wf(),
        ensures
            final(self).wf(),
            final(self)@ == release(old(self)@, n),
    {
        proof {
            lemma_release_no_dups(self.keys@, n);
            self.keys@.index_of_first_ensures(n);
        }
        let i = self.find(n);
        if i < self.keys.len() {
            self.keys.remove(i);
        }
        let len = self.keys.len();
        if len > 0 {
            self.last_note = *self.keys.get(len - 1).unwrap();
            self.any_held = true;
        } else {
            self.last_note = 0;
            self.any_held = false;
        }
    }

    /// True when at least one note is held.
    pub fn any_held(&self) -> (b: bool)
        requires
            self.wf(),
        ensures
            b == (self@.len() > 0),
    {
        self.any_held
    }

    /// The most recently pressed of the held notes, or 0 when none is held.
    pub fn last_note(&self) -> (n: u8)
        requires
            self.wf(),
        ensures
            self@.len() > 0 ==> n == self@.last(),
            self@.len() == 0 ==> n == 0,
            n < 128,
    {
        self.last_note
    }

    /// How many notes are held.
    pub fn count(&self) -> (c: usize)
        ensures
            c == self@.len(),
    {
        self.keys.len()
    }

    /// The note at position `i`, oldest first.
    pub fn note_at(&self, i: usize) -> (n: u8)
        requires
            self.wf(),
            i < self@.len(),
        ensures
            n == self@[i as int],
            n < 128,
    {
        *self.keys.get(i).unwrap()
    }
}

} // verus!
