//! A forward-only cursor over characters that can be duplicated cheaply: a
//! copy of a cursor advances independently of the original.

use vstd::prelude::*;

verus! {

/// A position in a borrowed run of characters. The cursor only ever moves
/// forward; to come back to a position, keep a copy of the cursor taken there.
#[derive(Clone, Copy)]
pub struct CharCursor<'a> {
    rest: &'a [char],
}

impl<'a> View for CharCursor<'a> {
    type V = Seq<char>;

    /// The characters that the cursor has yet to hand out, in order.
    closed spec fn view(&self) -> Seq<char> {
        self.rest@
    }
}

impl<'a> CharCursor<'a> {
    /// A cursor at the start of `chars`.
    pub fn new(chars: &'a [char]) -> (r: Self)
        ensures
            r@ == chars@,
    {
        CharCursor { rest: chars }
    }

    /// The number of characters left.
    pub fn remaining(&self) -> (r: usize)
        ensures
            r == self@.len(),
    {
        self.rest.len()
    }

    /// The next character, without moving the cursor.
    pub fn peek(&self) -> (r: Option<char>)
        ensures
            self@.len() == 0 ==> r is None,
            self@.len() > 0 ==> r == Some(self@[0]),
    {
        if self.rest.len() == 0 {
            None
        } else {
            Some(self.rest[0])
        }
    }

    /// Hands out the next character and moves past it; at the end, hands out
    /// nothing and stays put.
    pub fn next(&mut self) -> (r: Option<char>)
        ensures
            old(self)@.len() == 0 ==> r is None && final(self)@ == old(self)@,
            old(self)@.len() > 0 ==> r == Some(old(self)@[0]) && final(self)@
                == old(self)@.drop_first(),
    {
        if self.rest.len() == 0 {
            None
        } else {
            let c = self.rest[0];
            let (_, tail) = self.rest.split_at(1);
            self.rest = tail;
            proof {
                assert(tail@ =~= old(self)@.drop_first());
            }
            Some(c)
        }
    }
}

} // verus!
