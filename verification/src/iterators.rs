use crate::junction::Junction;
use crate::multi_location::MultiLocation;
use vstd::prelude::*;

verus! {

/// An owned forward walk over a path: yields the junctions outermost-first,
/// consuming the path one junction per step.
pub struct MultiLocationIterator(MultiLocation);

/// An owned reverse walk over a path: yields the junctions innermost-first,
/// consuming the path one junction per step.
pub struct MultiLocationReverseIterator(MultiLocation);

/// A borrowed forward walk over a path: yields references to the junctions,
/// outermost-first.
pub struct MultiLocationRefIterator<'a>(&'a MultiLocation, usize);

/// A borrowed reverse walk over a path: yields references to the junctions,
/// innermost-first.
pub struct MultiLocationReverseRefIterator<'a>(&'a MultiLocation, usize);

impl View for MultiLocationIterator {
    type V = Seq<Junction>;

    /// The junctions still to be yielded, in yield order.
    closed spec fn view(&self) -> Seq<Junction> {
        self.0@
    }
}

impl View for MultiLocationReverseIterator {
    type V = Seq<Junction>;

    /// The junctions still to be yielded, in yield order.
    closed spec fn view(&self) -> Seq<Junction> {
        self.0@.reverse()
    }
}

impl<'a> View for MultiLocationRefIterator<'a> {
    type V = Seq<Junction>;

    /// The junctions still to be yielded, in yield order.
    closed spec fn view(&self) -> Seq<Junction> {
        if self.1 <= self.0@.len() {
            self.0@.skip(self.1 as int)
        } else {
            Seq::empty()
        }
    }
}

impl<'a> View for MultiLocationReverseRefIterator<'a> {
    type V = Seq<Junction>;

    /// The junctions still to be yielded, in yield order.
    closed spec fn view(&self) -> Seq<Junction> {
        if self.1 <= self.0@.len() {
            self.0@.take(self.0@.len() - self.1).reverse()
        } else {
            Seq::empty()
        }
    }
}

impl MultiLocation {
    /// A borrowed forward walk over the junctions, outermost-first.
    pub fn iter(&self) -> (r: MultiLocationRefIterator<'_>)
        ensures
            r@ == self@,
    {
        let r = MultiLocationRefIterator(self, 0);
        proof {
            assert(r@ =~= self@);
        }
        r
    }

    /// A borrowed reverse walk over the junctions, innermost-first.
    pub fn iter_rev(&self) -> (r: MultiLocationReverseRefIterator<'_>)
        ensures
            r@ == self@.reverse(),
    {
        let r = MultiLocationReverseRefIterator(self, 0);
        proof {
            assert(self@.take(self@.len() as int) =~= self@);
        }
        r
    }

    /// An owned forward walk over the junctions, outermost-first.
    pub fn into_iter(self) -> (r: MultiLocationIterator)
        ensures
            r@ == self@,
    {
        MultiLocationIterator(self)
    }

    /// An owned reverse walk over the junctions, innermost-first.
    pub fn into_iter_rev(self) -> (r: MultiLocationReverseIterator)
        ensures
            r@ == self@.reverse(),
    {
        MultiLocationReverseIterator(self)
    }
}

impl MultiLocationIterator {
    /// The next junction, or nothing once the walk is exhausted.
    pub fn next(&mut self) -> (r: Option<Junction>)
        ensures
            old(self)@.len() == 0 ==> r is None && final(self)@ == old(self)@,
            old(self)@.len() > 0 ==> r == Some(old(self)@.first()) && final(self)@ == old(
                self,
            )@.drop_first(),
    {
        self.0.take_first()
    }

    /// Drains the walk into a vector holding exactly the junctions still to
    /// be yielded, in yield order: a fresh walk yields `len()` junctions.
    pub fn into_vec(self) -> (v: Vec<Junction>)
        ensures
            v@ == self@,
            v@.len() == self@.len(),
    {
        let ghost expected = self@;
        let mut it = self;
        let mut v: Vec<Junction> = Vec::new();
        loop
            invariant
                v@ + it@ == expected,
            ensures
                v@ == expected,
            decreases it@.len(),
        {
            match it.next() {
                Some(j) => {
                    v.push(j);
                },
                None => {
                    proof {
                        assert(v@ + it@ =~= v@);
                    }
                    break ;
                },
            }
        }
        v
    }
}

impl MultiLocationReverseIterator {
    /// The next junction, or nothing once the walk is exhausted.
    pub fn next(&mut self) -> (r: Option<Junction>)
        ensures
            old(self)@.len() == 0 ==> r is None && final(self)@ == old(self)@,
            old(self)@.len() > 0 ==> r == Some(old(self)@.first()) && final(self)@ == old(
                self,
            )@.drop_first(),
    {
        proof {
            if self.0@.len() > 0 {
                lemma_reverse_step(self.0@);
            }
        }
        self.0.take_last()
    }

    /// Drains the walk into a vector holding exactly the junctions still to
    /// be yielded, in yield order: a fresh walk yields `len()` junctions.
    pub fn into_vec(self) -> (v: Vec<Junction>)
        ensures
            v@ == self@,
            v@.len() == self@.len(),
    {
        let ghost expected = self@;
        let mut it = self;
        let mut v: Vec<Junction> = Vec::new();
        loop
            invariant
                v@ + it@ == expected,
            ensures
                v@ == expected,
            decreases it@.len(),
        {
            match it.next() {
                Some(j) => {
                    v.push(j);
                },
                None => {
                    proof {
                        assert(v@ + it@ =~= v@);
                    }
                    break ;
                },
            }
        }
        v
    }
}

impl<'a> MultiLocationRefIterator<'a> {
    /// The next junction, or nothing once the walk is exhausted.
    pub fn next(&mut self) -> (r: Option<&'a Junction>)
        ensures
            old(self)@.len() == 0 ==> r is None && final(self)@ == old(self)@,
            old(self)@.len() > 0 ==> r is Some && *r.unwrap() == old(self)@.first() && final(self)@ == old(self)@.drop_first(),
    {
        proof {
            crate::multi_location::lemma_len_bounded(*self.0);
        }
        match self.0.at(self.1) {
            Some(j) => {
                self.1 = self.1 + 1;
                proof {
                    assert(old(self)@.drop_first() =~= self@);
                }
                Some(j)
            },
            None => None,
        }
    }

    /// Drains the walk into a vector holding copies of exactly the junctions
    /// still to be yielded, in yield order: a fresh walk yields `len()`
    /// junctions.
    pub fn into_vec(self) -> (v: Vec<Junction>)
        ensures
            v@ == self@,
            v@.len() == self@.len(),
    {
        let ghost expected = self@;
        let mut it = self;
        let mut v: Vec<Junction> = Vec::new();
        loop
            invariant
                v@ + it@ == expected,
            ensures
                v@ == expected,
            decreases it@.len(),
        {
            match it.next() {
                Some(j) => {
                    v.push(*j);
                },
                None => {
                    proof {
                        assert(v@ + it@ =~= v@);
                    }
                    break ;
                },
            }
        }
        v
    }
}

impl<'a> MultiLocationReverseRefIterator<'a> {
    /// The next junction, or nothing once the walk is exhausted.
    pub fn next(&mut self) -> (r: Option<&'a Junction>)
        ensures
            old(self)@.len() == 0 ==> r is None && final(self)@ == old(self)@,
            old(self)@.len() > 0 ==> r is Some && *r.unwrap() == old(self)@.first() && final(self)@ == old(self)@.drop_first(),
    {
        proof {
            crate::multi_location::lemma_len_bounded(*self.0);
        }
        let n = self.0.len();
        if self.1 < n {
            self.1 = self.1 + 1;
            proof {
                lemma_reverse_step(self.0@.take(self.0@.len() - self.1 + 1));
                assert(self.0@.take(self.0@.len() - self.1 + 1).drop_last() =~= self.0@.take(
                    self.0@.len() - self.1,
                ));
            }
            self.0.at(n - self.1)
        } else {
            None
        }
    }

    /// Drains the walk into a vector holding copies of exactly the junctions
    /// still to be yielded, in yield order: a fresh walk yields `len()`
    /// junctions.
    pub fn into_vec(self) -> (v: Vec<Junction>)
        ensures
            v@ == self@,
            v@.len() == self@.len(),
    {
        let ghost expected = self@;
        let mut it = self;
        let mut v: Vec<Junction> = Vec::new();
        loop
            invariant
                v@ + it@ == expected,
            ensures
                v@ == expected,
            decreases it@.len(),
        {
            match it.next() {
                Some(j) => {
                    v.push(*j);
                },
                None => {
                    proof {
                        assert(v@ + it@ =~= v@);
                    }
                    break ;
                },
            }
        }
        v
    }
}

/// Reversing a non-empty sequence yields its last element first, followed by
/// the reversal of the rest.
proof fn lemma_reverse_step(s: Seq<Junction>)
    requires
        s.len() > 0,
    ensures
        s.reverse().first() == s.last(),
        s.reverse().drop_first() == s.drop_last().reverse(),
{
    assert(s.reverse().drop_first() =~= s.drop_last().reverse());
}

} // verus!
