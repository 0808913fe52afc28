//! Lockstep comparison of two cursors, with a caller's choice of answer for
//! the case where the right-hand side ends first.

use vstd::prelude::*;

use crate::cursor::CharCursor;

verus! {

/// The outcome of comparing `l` with `r` element by element: `false` at the
/// first mismatch; when `l` ends, whether `r` ends too; when only `r` ends,
/// `if_right_empty`.
pub open spec fn lockstep(l: Seq<char>, r: Seq<char>, if_right_empty: bool) -> bool
    decreases l.len(),
{
    if l.len() == 0 {
        r.len() == 0
    } else if r.len() == 0 {
        if_right_empty
    } else if l[0] != r[0] {
        false
    } else {
        lockstep(l.drop_first(), r.drop_first(), if_right_empty)
    }
}

/// The number of leading positions at which `l` and `r` agree.
pub open spec fn common_prefix_len(l: Seq<char>, r: Seq<char>) -> nat
    decreases l.len(),
{
    if l.len() == 0 || r.len() == 0 || l[0] != r[0] {
        0
    } else {
        1 + common_prefix_len(l.drop_first(), r.drop_first())
    }
}

/// How many characters a lockstep comparison takes from a side holding `len`
/// characters: every step takes one from each side, and the comparison stops
/// at the step after the common prefix.
pub open spec fn taken(l: Seq<char>, r: Seq<char>, len: nat) -> int {
    let d = common_prefix_len(l, r) + 1;
    if d < len {
        d as int
    } else {
        len as int
    }
}

/// Compares `left` and `right` in lockstep. Returns `false` at the first
/// mismatch, whether `right` is exhausted too once `left` is, and
/// `if_right_empty` once `right` is exhausted while `left` is not. Each step
/// draws from `left` before `right`, so the step that finds `right` exhausted
/// has already taken one character from `left`.
pub fn compare_iters(left: &mut CharCursor, right: &mut CharCursor, if_right_empty: bool) -> (r:
    bool)
    ensures
        r == lockstep(old(left)@, old(right)@, if_right_empty),
        final(left)@ == old(left)@.skip(taken(old(left)@, old(right)@, old(left)@.len())),
        final(right)@ == old(right)@.skip(taken(old(left)@, old(right)@, old(right)@.len())),
{
    let ghost l0 = left@;
    let ghost r0 = right@;
    let ghost mut i: int = 0;
    loop
        invariant
            l0 == old(left)@,
            r0 == old(right)@,
            0 <= i <= l0.len(),
            i <= r0.len(),
            left@ == l0.skip(i),
            right@ == r0.skip(i),
            lockstep(l0, r0, if_right_empty) == lockstep(left@, right@, if_right_empty),
            common_prefix_len(l0, r0) == i + common_prefix_len(left@, right@),
        decreases left@.len(),
    {
        let ghost l1 = left@;
        let ghost r1 = right@;
        let x = match left.next() {
            None => {
                let e = right.next().is_none();
                proof {
                    assert(l1.len() == 0);
                    if r1.len() > 0 {
                        assert(right@ =~= r0.skip(i + 1));
                    }
                }
                return e;
            },
            Some(val) => val,
        };
        let y = match right.next() {
            None => {
                proof {
                    assert(left@ =~= l0.skip(i + 1));
                }
                return if_right_empty;
            },
            Some(val) => val,
        };
        if x != y {
            proof {
                assert(left@ =~= l0.skip(i + 1));
                assert(right@ =~= r0.skip(i + 1));
            }
            return false;
        }
        proof {
            assert(left@ =~= l0.skip(i + 1));
            assert(right@ =~= r0.skip(i + 1));
            i = i + 1;
        }
    }
}

} // verus!
