//! Containment search that restarts a failed match attempt at the first later
//! haystack position holding the needle's first character, using copies of the
//! haystack cursor in place of seeking backward.

use vstd::prelude::*;

use crate::cursor::CharCursor;

verus! {

/// `needle` stands in `haystack` starting at index `i`.
pub open spec fn occurs_at(haystack: Seq<char>, needle: Seq<char>, i: int) -> bool {
    &&& 0 <= i
    &&& i + needle.len() <= haystack.len()
    &&& haystack.subrange(i, i + needle.len()) == needle
}

/// `needle` stands somewhere in `haystack` as a contiguous run.
pub open spec fn occurs_in(haystack: Seq<char>, needle: Seq<char>) -> bool {
    exists|i: int| occurs_at(haystack, needle, i)
}

/// The empty needle occurs in every haystack.
pub proof fn lemma_empty_needle_occurs(haystack: Seq<char>)
    ensures
        occurs_in(haystack, Seq::<char>::empty()),
{
    assert(haystack.subrange(0, 0) =~= Seq::<char>::empty());
    assert(occurs_at(haystack, Seq::<char>::empty(), 0));
}

/// Every sequence occurs in itself.
pub proof fn lemma_occurs_in_itself(haystack: Seq<char>)
    ensures
        occurs_in(haystack, haystack),
{
    assert(haystack.subrange(0, haystack.len() as int) =~= haystack);
    assert(occurs_at(haystack, haystack, 0));
}

/// A needle occurs in the empty haystack exactly when the needle is empty.
pub proof fn lemma_empty_haystack(needle: Seq<char>)
    ensures
        occurs_in(Seq::<char>::empty(), needle) <==> needle.len() == 0,
{
    if needle.len() == 0 {
        lemma_empty_needle_occurs(Seq::<char>::empty());
        assert(needle =~= Seq::<char>::empty());
    }
}

/// Every contiguous slice of a haystack occurs in it.
pub proof fn lemma_slice_occurs(haystack: Seq<char>, start: int, end: int)
    requires
        0 <= start <= end <= haystack.len(),
    ensures
        occurs_in(haystack, haystack.subrange(start, end)),
{
    assert(occurs_at(haystack, haystack.subrange(start, end), start));
}

/// The answer depends on the characters of the two sources alone: two
/// searches over sources that hold the same characters give the same answer.
pub proof fn lemma_search_repeatable(
    haystack1: Seq<char>,
    needle1: Seq<char>,
    haystack2: Seq<char>,
    needle2: Seq<char>,
)
    requires
        haystack1 == haystack2,
        needle1 == needle2,
    ensures
        occurs_in(haystack1, needle1) == occurs_in(haystack2, needle2),
{
}

/// Whether the characters left in `right` (the needle) occur as a contiguous
/// run among those left in `left` (the haystack). An empty needle occurs in
/// every haystack.
pub fn contains_kmp(left: CharCursor, right: CharCursor) -> (r: bool)
    ensures
        r == occurs_in(left@, right@),
{
    let ghost hay = left@;
    let ghost ndl = right@;
    let mut hay_cur = left;
    let mut ndl_cur = right;
    let first = match ndl_cur.next() {
        None => {
            proof {
                assert(hay.subrange(0, 0) =~= ndl);
                assert(occurs_at(hay, ndl, 0));
            }
            return true;
        },
        Some(c) => c,
    };
    let ndl_restart = ndl_cur;
    // Position in the haystack of the next character that `hay_cur` hands out.
    let ghost mut p: int = 0;
    loop
        invariant
            hay == left@,
            ndl == right@,
            ndl.len() > 0,
            first == ndl[0],
            ndl_cur@ == ndl.drop_first(),
            ndl_restart@ == ndl.drop_first(),
            0 <= p <= hay.len(),
            hay_cur@ == hay.subrange(p, hay.len() as int),
            forall|i: int| 0 <= i < p ==> !occurs_at(hay, ndl, i),
        decreases hay_cur@.len(),
    {
        let x = match hay_cur.next() {
            None => {
                proof {
                    assert forall|i: int| !occurs_at(hay, ndl, i) by {
                        if occurs_at(hay, ndl, i) {
                            assert(i < p);
                        }
                    }
                    assert(!occurs_in(hay, ndl));
                }
                return false;
            },
            Some(c) => c,
        };
        proof {
            assert(x == hay[p]);
            assert(hay_cur@ =~= hay.subrange(p + 1, hay.len() as int));
        }
        if x != first {
            proof {
                assert(!occurs_at(hay, ndl, p)) by {
                    if occurs_at(hay, ndl, p) {
                        assert(hay.subrange(p, p + ndl.len())[0] == ndl[0]);
                    }
                }
                p = p + 1;
            }
            continue;
        }
        // A match attempt starts at `s`.
        let ghost s: int = p;
        proof {
            p = p + 1;
        }
        let mut restart: Option<CharCursor> = None;
        // Position in the haystack at which `restart` stands.
        let ghost mut q: int = 0;
        loop
            invariant_except_break
                p - s <= ndl.len(),
                ndl_cur@ == ndl.subrange(p - s, ndl.len() as int),
                hay.subrange(s, p) == ndl.subrange(0, p - s),
                restart is None ==> forall|j: int| s < j < p ==> hay[j] != first,
                restart is Some ==> {
                    &&& s < q < p
                    &&& restart->0@ == hay.subrange(q, hay.len() as int)
                    &&& forall|j: int| s < j < q ==> hay[j] != first
                },
            invariant
                hay == left@,
                ndl == right@,
                ndl.len() > 0,
                first == ndl[0],
                ndl_restart@ == ndl.drop_first(),
                0 <= s < p <= hay.len(),
                hay_cur@ == hay.subrange(p, hay.len() as int),
                forall|i: int| 0 <= i < s ==> !occurs_at(hay, ndl, i),
            ensures
                ndl_cur@ == ndl.drop_first(),
                forall|i: int| 0 <= i < p ==> !occurs_at(hay, ndl, i),
            decreases hay_cur@.len(),
        {
            let y = match ndl_cur.next() {
                None => {
                    proof {
                        assert(ndl.subrange(0, p - s) =~= ndl);
                        assert(occurs_at(hay, ndl, s));
                        assert(occurs_in(hay, ndl));
                    }
                    return true;
                },
                Some(c) => c,
            };
            proof {
                assert(y == ndl[p - s]);
                assert(ndl_cur@ =~= ndl.subrange(p - s + 1, ndl.len() as int));
            }
            if let Some(nxt) = hay_cur.peek() {
                if nxt == first && restart.is_none() {
                    restart = Some(hay_cur);
                    proof {
                        q = p;
                    }
                }
            }
            let x = match hay_cur.next() {
                None => {
                    proof {
                        assert forall|i: int| !occurs_at(hay, ndl, i) by {
                            if occurs_at(hay, ndl, i) {
                                assert(i < s);
                            }
                        }
                        assert(!occurs_in(hay, ndl));
                    }
                    return false;
                },
                Some(c) => c,
            };
            proof {
                assert(x == hay[p]);
                assert(hay_cur@ =~= hay.subrange(p + 1, hay.len() as int));
            }
            if y == x {
                proof {
                    assert(hay.subrange(s, p + 1) =~= hay.subrange(s, p).push(x));
                    assert(ndl.subrange(0, p + 1 - s) =~= ndl.subrange(0, p - s).push(y));
                    p = p + 1;
                }
                continue;
            }
            proof {
                assert(!occurs_at(hay, ndl, s)) by {
                    if occurs_at(hay, ndl, s) {
                        assert(hay.subrange(s, s + ndl.len())[p - s] == ndl[p - s]);
                    }
                }
            }
            match restart {
                Some(c) => {
                    hay_cur = c;
                    proof {
                        assert forall|i: int| 0 <= i < q implies !occurs_at(hay, ndl, i) by {
                            if s < i && occurs_at(hay, ndl, i) {
                                assert(hay.subrange(i, i + ndl.len())[0] == ndl[0]);
                            }
                        }
                        p = q;
                    }
                },
                None => {
                    proof {
                        assert forall|i: int| 0 <= i < p + 1 implies !occurs_at(hay, ndl, i) by {
                            if s < i && occurs_at(hay, ndl, i) {
                                assert(hay.subrange(i, i + ndl.len())[0] == ndl[0]);
                            }
                        }
                        p = p + 1;
                    }
                },
            }
            ndl_cur = ndl_restart;
            break;
        }
    }
}

} // verus!
