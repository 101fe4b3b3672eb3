//! The password being typed: a small text buffer with edit operations,
//! owned exclusively by the lock state machine on the reactor thread. The
//! credential check receives a copy taken at dispatch time, never a shared
//! handle, so the buffer is never accessed concurrently.

use vstd::prelude::*;

verus! {

/// A mutable text buffer of Unicode scalar values.
pub struct PasswordBuffer {
    text: Vec<char>,
}

impl View for PasswordBuffer {
    type V = Seq<char>;

    closed spec fn view(&self) -> Seq<char> {
        self.text@
    }
}

impl PasswordBuffer {
    /// An empty buffer.
    pub fn create() -> (r: PasswordBuffer)
        ensures
            r@ == Seq::<char>::empty(),
    {
        let r = PasswordBuffer { text: Vec::new() };
        proof {
            assert(r@ =~= Seq::<char>::empty());
        }
        r
    }

    /// Number of characters currently held.
    pub fn len(&self) -> (r: usize)
        ensures
            r == self@.len(),
    {
        self.text.len()
    }

    /// Appends one character.
    pub fn push(&mut self, ch: char)
        ensures
            final(self)@ == old(self)@.push(ch),
    {
        self.text.push(ch);
    }

    /// Removes the last character; reports whether anything was removed.
    pub fn pop(&mut self) -> (r: bool)
        ensures
            r == (old(self)@.len() > 0),
            old(self)@.len() > 0 ==> final(self)@ == old(self)@.subrange(
                0,
                old(self)@.len() - 1,
            ),
            old(self)@.len() == 0 ==> final(self)@ == old(self)@,
    {
        match self.text.pop() {
            Some(_) => true,
            None => false,
        }
    }

    /// Discards every character.
    pub fn clear(&mut self)
        ensures
            final(self)@ == Seq::<char>::empty(),
    {
        self.text.clear();
    }

    /// The copy handed to the authenticator worker at dispatch time.
    pub fn snapshot(&self) -> (r: Vec<char>)
        ensures
            r@ == self@,
    {
        let n = self.text.len();
        let mut out: Vec<char> = Vec::new();
        let mut k: usize = 0;
        while k < n
            invariant
                k <= n,
                n == self@.len(),
                out@.len() == k,
                forall|j: int| 0 <= j < k ==> out@[j] == self@[j],
            decreases n - k,
        {
            out.push(self.text[k]);
            k = k + 1;
        }
        proof {
            assert(out@ =~= self@);
        }
        out
    }
}

} // verus!
