use crate::junction::Junction;
use vstd::prelude::*;

verus! {

/// A path of zero to four junctions, outermost (root-most) first.
///
/// The maximum length of four is enforced by construction: the active case
/// itself encodes the length, and no operation produces a case beyond `X4`.
#[derive(Clone, Copy, PartialEq, Eq, PartialOrd, Ord, Structural, Debug, Hash)]
pub enum MultiLocation {
    Null,
    X1(Junction),
    X2(Junction, Junction),
    X3(Junction, Junction, Junction),
    X4(Junction, Junction, Junction, Junction),
}

impl View for MultiLocation {
    type V = Seq<Junction>;

    open spec fn view(&self) -> Seq<Junction> {
        match self {
            MultiLocation::Null => Seq::empty(),
            MultiLocation::X1(a) => seq![*a],
            MultiLocation::X2(a, b) => seq![*a, *b],
            MultiLocation::X3(a, b, c) => seq![*a, *b, *c],
            MultiLocation::X4(a, b, c, d) => seq![*a, *b, *c, *d],
        }
    }
}

/// The result of cancelling ascend/descend pairs between a prefix and a
/// suffix: while the prefix ends in a junction other than the ascend marker
/// and the suffix begins with the ascend marker, the pair collapses and both
/// junctions are removed.
pub open spec fn cancelled(prefix: Seq<Junction>, suffix: Seq<Junction>) -> (Seq<Junction>, Seq<
    Junction,
>)
    decreases prefix.len(),
{
    if prefix.len() > 0 && suffix.len() > 0 && prefix.last() != Junction::Parent
        && suffix.first() == Junction::Parent {
        cancelled(prefix.drop_last(), suffix.drop_first())
    } else {
        (prefix, suffix)
    }
}

/// The result of splicing `prefix` onto the front of `suffix` by pushing its
/// junctions innermost-first: junctions of the prefix that do not fit within
/// the maximum length of four are silently dropped, outermost first.
pub open spec fn spliced(prefix: Seq<Junction>, suffix: Seq<Junction>) -> Seq<Junction> {
    let room: int = if suffix.len() >= 4 {
        0
    } else {
        4 - suffix.len()
    };
    if prefix.len() <= room {
        prefix + suffix
    } else {
        prefix.skip(prefix.len() - room) + suffix
    }
}

/// Every path holds at most four junctions: the case itself bounds the length.
pub proof fn lemma_len_bounded(m: MultiLocation)
    ensures
        m@.len() <= 4,
{
    match m {
        MultiLocation::Null => {},
        MultiLocation::X1(..) => {},
        MultiLocation::X2(..) => {},
        MultiLocation::X3(..) => {},
        MultiLocation::X4(..) => {},
    }
}

impl MultiLocation {
    /// The number of junctions in the path, zero to four.
    pub fn len(&self) -> (r: usize)
        ensures
            r == self@.len(),
    {
        match self {
            MultiLocation::Null => 0,
            MultiLocation::X1(..) => 1,
            MultiLocation::X2(..) => 2,
            MultiLocation::X3(..) => 3,
            MultiLocation::X4(..) => 4,
        }
    }

    /// The outermost (first) junction, or nothing if the path is empty.
    pub fn first(&self) -> (r: Option<&Junction>)
        ensures
            match r {
                Some(j) => self@.len() > 0 && *j == self@.first(),
                None => self@.len() == 0,
            },
    {
        match self {
            MultiLocation::Null => None,
            MultiLocation::X1(a) => Some(a),
            MultiLocation::X2(a, ..) => Some(a),
            MultiLocation::X3(a, ..) => Some(a),
            MultiLocation::X4(a, ..) => Some(a),
        }
    }

    /// The innermost (last) junction, or nothing if the path is empty.
    pub fn last(&self) -> (r: Option<&Junction>)
        ensures
            match r {
                Some(j) => self@.len() > 0 && *j == self@.last(),
                None => self@.len() == 0,
            },
    {
        match self {
            MultiLocation::Null => None,
            MultiLocation::X1(a) => Some(a),
            MultiLocation::X2(.., a) => Some(a),
            MultiLocation::X3(.., a) => Some(a),
            MultiLocation::X4(.., a) => Some(a),
        }
    }

    /// The junction at position `i` (zero-indexed, outermost first), or
    /// nothing if `i` is out of range.
    pub fn at(&self, i: usize) -> (r: Option<&Junction>)
        ensures
            i < self@.len() ==> r is Some && *r.unwrap() == self@[i as int],
            i >= self@.len() ==> r is None,
    {
        match (i, self) {
            (0, MultiLocation::X1(a)) => Some(a),
            (0, MultiLocation::X2(a, ..)) => Some(a),
            (0, MultiLocation::X3(a, ..)) => Some(a),
            (0, MultiLocation::X4(a, ..)) => Some(a),
            (1, MultiLocation::X2(_, a)) => Some(a),
            (1, MultiLocation::X3(_, a, ..)) => Some(a),
            (1, MultiLocation::X4(_, a, ..)) => Some(a),
            (2, MultiLocation::X3(_, _, a)) => Some(a),
            (2, MultiLocation::X4(_, _, a, ..)) => Some(a),
            (3, MultiLocation::X4(_, _, _, a)) => Some(a),
            _ => None,
        }
    }

    /// A mutable borrow of the junction at position `i`, or nothing if `i`
    /// is out of range (in which case the path is left unchanged).
    pub fn at_mut(&mut self, i: usize) -> (r: Option<&mut Junction>)
        ensures
            i < old(self)@.len() ==> r is Some && *r.unwrap() == old(self)@[i as int]
                && final(self)@ == old(self)@.update(i as int, *final(r.unwrap())),
            i >= old(self)@.len() ==> r is None && *final(self) == *old(self),
    {
        match (i, self) {
            (0, MultiLocation::X1(a)) => Some(a),
            (0, MultiLocation::X2(a, ..)) => Some(a),
            (0, MultiLocation::X3(a, ..)) => Some(a),
            (0, MultiLocation::X4(a, ..)) => Some(a),
            (1, MultiLocation::X2(_, a)) => Some(a),
            (1, MultiLocation::X3(_, a, ..)) => Some(a),
            (1, MultiLocation::X4(_, a, ..)) => Some(a),
            (2, MultiLocation::X3(_, _, a)) => Some(a),
            (2, MultiLocation::X4(_, _, a, ..)) => Some(a),
            (3, MultiLocation::X4(_, _, _, a)) => Some(a),
            _ => None,
        }
    }

    /// Consumes the path and splits off the outermost junction: the remaining
    /// path (one shorter, or empty if it was empty) and the removed junction.
    pub fn split_first(self) -> (r: (MultiLocation, Option<Junction>))
        ensures
            self@.len() == 0 ==> r.0@ == self@ && r.1 is None,
            self@.len() > 0 ==> r.0@ == self@.drop_first() && r.1 == Some(self@.first()),
    {
        match self {
            MultiLocation::Null => (MultiLocation::Null, None),
            MultiLocation::X1(a) => (MultiLocation::Null, Some(a)),
            MultiLocation::X2(a, b) => (MultiLocation::X1(b), Some(a)),
            MultiLocation::X3(a, b, c) => (MultiLocation::X2(b, c), Some(a)),
            MultiLocation::X4(a, b, c, d) => (MultiLocation::X3(b, c, d), Some(a)),
        }
    }

    /// Consumes the path and splits off the innermost junction: the remaining
    /// path (one shorter, or empty if it was empty) and the removed junction.
    pub fn split_last(self) -> (r: (MultiLocation, Option<Junction>))
        ensures
            self@.len() == 0 ==> r.0@ == self@ && r.1 is None,
            self@.len() > 0 ==> r.0@ == self@.drop_last() && r.1 == Some(self@.last()),
    {
        match self {
            MultiLocation::Null => (MultiLocation::Null, None),
            MultiLocation::X1(a) => (MultiLocation::Null, Some(a)),
            MultiLocation::X2(a, b) => (MultiLocation::X1(a), Some(b)),
            MultiLocation::X3(a, b, c) => (MultiLocation::X2(a, b), Some(c)),
            MultiLocation::X4(a, b, c, d) => (MultiLocation::X3(a, b, c), Some(d)),
        }
    }

    /// Removes and returns the outermost junction, leaving the rest of the
    /// path in place; returns nothing (and leaves the path empty) if the path
    /// was empty.
    pub fn take_first(&mut self) -> (r: Option<Junction>)
        ensures
            old(self)@.len() == 0 ==> final(self)@ == old(self)@ && r is None,
            old(self)@.len() > 0 ==> final(self)@ == old(self)@.drop_first()
                && r == Some(old(self)@.first()),
    {
        let mut d = MultiLocation::Null;
        std::mem::swap(&mut *self, &mut d);
        let (tail, head) = d.split_first();
        *self = tail;
        head
    }

    /// Removes and returns the innermost junction, leaving the rest of the
    /// path in place; returns nothing (and leaves the path empty) if the path
    /// was empty.
    pub fn take_last(&mut self) -> (r: Option<Junction>)
        ensures
            old(self)@.len() == 0 ==> final(self)@ == old(self)@ && r is None,
            old(self)@.len() > 0 ==> final(self)@ == old(self)@.drop_last()
                && r == Some(old(self)@.last()),
    {
        let mut d = MultiLocation::Null;
        std::mem::swap(&mut *self, &mut d);
        let (head, tail) = d.split_last();
        *self = head;
        tail
    }

    /// Consumes the path and appends `new` at the innermost end. Succeeds
    /// exactly when the path held fewer than four junctions; on failure the
    /// original path is returned unchanged.
    pub fn pushed_with(self, new: Junction) -> (r: Result<Self, Self>)
        ensures
            self@.len() < 4 ==> r is Ok && r.unwrap()@ == self@.push(new),
            self@.len() >= 4 ==> r == Result::<Self, Self>::Err(self),
    {
        match self {
            MultiLocation::Null => Ok(MultiLocation::X1(new)),
            MultiLocation::X1(a) => Ok(MultiLocation::X2(a, new)),
            MultiLocation::X2(a, b) => Ok(MultiLocation::X3(a, b, new)),
            MultiLocation::X3(a, b, c) => Ok(MultiLocation::X4(a, b, c, new)),
            s => Err(s),
        }
    }

    /// Consumes the path and prepends `new` at the outermost end. Succeeds
    /// exactly when the path held fewer than four junctions; on failure the
    /// original path is returned unchanged.
    pub fn pushed_front_with(self, new: Junction) -> (r: Result<Self, Self>)
        ensures
            self@.len() < 4 ==> r is Ok && r.unwrap()@ == seq![new] + self@,
            self@.len() >= 4 ==> r == Result::<Self, Self>::Err(self),
    {
        match self {
            MultiLocation::Null => Ok(MultiLocation::X1(new)),
            MultiLocation::X1(a) => Ok(MultiLocation::X2(new, a)),
            MultiLocation::X2(a, b) => Ok(MultiLocation::X3(new, a, b)),
            MultiLocation::X3(a, b, c) => Ok(MultiLocation::X4(new, a, b, c)),
            s => Err(s),
        }
    }

    /// Appends `new` at the innermost end in place. Succeeds exactly when the
    /// path held fewer than four junctions; on failure the path is unchanged.
    pub fn push(&mut self, new: Junction) -> (r: Result<(), ()>)
        ensures
            old(self)@.len() < 4 ==> r is Ok && final(self)@ == old(self)@.push(new),
            old(self)@.len() >= 4 ==> r is Err && *final(self) == *old(self),
    {
        let mut n = MultiLocation::Null;
        std::mem::swap(&mut *self, &mut n);
        match n.pushed_with(new) {
            Ok(result) => {
                *self = result;
                Ok(())
            },
            Err(old) => {
                *self = old;
                Err(())
            },
        }
    }

    /// Prepends `new` at the outermost end in place. Succeeds exactly when the
    /// path held fewer than four junctions; on failure the path is unchanged.
    pub fn push_front(&mut self, new: Junction) -> (r: Result<(), ()>)
        ensures
            old(self)@.len() < 4 ==> r is Ok && final(self)@ == seq![new] + old(self)@,
            old(self)@.len() >= 4 ==> r is Err && *final(self) == *old(self),
    {
        let mut n = MultiLocation::Null;
        std::mem::swap(&mut *self, &mut n);
        match n.pushed_front_with(new) {
            Ok(result) => {
                *self = result;
                Ok(())
            },
            Err(old) => {
                *self = old;
                Err(())
            },
        }
    }

    /// Consumes both paths and appends every junction of `new`, outermost
    /// first, at the innermost end of `self`. Succeeds exactly when the
    /// combined length fits in four junctions; on overflow the error carries
    /// the partial result accumulated so far (filled to length four), not the
    /// original path.
    pub fn appended_with(self, new: MultiLocation) -> (r: Result<Self, Self>)
        ensures
            self@.len() + new@.len() <= 4 ==> r is Ok && r.unwrap()@ == self@ + new@,
            self@.len() + new@.len() > 4 ==> r is Err && r.unwrap_err()@ == (self@
                + new@).take(4),
    {
        let mut result = self;
        let mut rest = new;
        loop
            invariant
                result@ + rest@ == self@ + new@,
                result@.len() <= 4,
            decreases rest@.len(),
        {
            match rest.take_first() {
                Some(j) => {
                    match result.pushed_with(j) {
                        Ok(grown) => {
                            result = grown;
                        },
                        Err(full) => {
                            proof {
                                assert((self@ + new@).take(4) =~= full@);
                            }
                            return Err(full);
                        },
                    }
                },
                None => {
                    proof {
                        assert(result@ + rest@ =~= result@);
                    }
                    return Ok(result);
                },
            }
        }
    }

    /// Mutates `self` in place to become `prefix` followed by its original
    /// contents, after cancelling ascend/descend pairs between the two: each
    /// non-ascend junction at the innermost end of the prefix collapses
    /// against an ascend marker at the outermost end of `self`. Prefix
    /// junctions that do not fit within the maximum length of four after
    /// cancellation are silently dropped, outermost first; callers that need
    /// lossless behaviour must check the lengths beforehand.
    pub fn prepend_with(&mut self, prefix: &MultiLocation)
        ensures
            final(self)@ == spliced(
                cancelled(prefix@, old(self)@).0,
                cancelled(prefix@, old(self)@).1,
            ),
    {
        proof {
            lemma_len_bounded(*old(self));
        }
        let mut pre = *prefix;
        let mut suf = *self;
        loop
            invariant
                cancelled(prefix@, old(self)@) == cancelled(pre@, suf@),
                suf@.len() <= 4,
            ensures
                cancelled(prefix@, old(self)@) == (pre@, suf@),
                suf@.len() <= 4,
            decreases pre@.len(),
        {
            let cancel = match (pre.last(), suf.first()) {
                (Some(x), Some(y)) => *x != Junction::Parent && *y == Junction::Parent,
                _ => false,
            };
            if cancel {
                pre.take_last();
                suf.take_first();
            } else {
                break ;
            }
        }
        loop
            invariant
                spliced(cancelled(prefix@, old(self)@).0, cancelled(prefix@, old(self)@).1)
                    == spliced(pre@, suf@),
                suf@.len() <= 4,
            ensures
                spliced(cancelled(prefix@, old(self)@).0, cancelled(prefix@, old(self)@).1)
                    == spliced(pre@, suf@),
                pre@.len() == 0,
            decreases pre@.len(),
        {
            let ghost pre_before = pre@;
            let ghost suf_before = suf@;
            match pre.take_last() {
                Some(j) => {
                    // Junctions that no longer fit are dropped silently.
                    match suf.push_front(j) {
                        Ok(_) => {
                            proof {
                                lemma_spliced_push_front(pre_before, suf_before);
                            }
                        },
                        Err(_) => {
                            proof {
                                lemma_spliced_full(pre_before, suf_before);
                                lemma_spliced_full(pre_before.drop_last(), suf_before);
                            }
                        },
                    }
                },
                None => {
                    break ;
                },
            }
        }
        proof {
            assert(pre@ + suf@ =~= suf@);
        }
        *self = suf;
    }
}

impl From<Junction> for MultiLocation {
    fn from(x: Junction) -> (r: Self) {
        MultiLocation::X1(x)
    }
}

impl vstd::std_specs::convert::FromSpecImpl<Junction> for MultiLocation {
    open spec fn obeys_from_spec() -> bool {
        true
    }

    open spec fn from_spec(x: Junction) -> Self {
        MultiLocation::X1(x)
    }
}

impl From<()> for MultiLocation {
    fn from(_x: ()) -> (r: Self) {
        MultiLocation::Null
    }
}

impl vstd::std_specs::convert::FromSpecImpl<()> for MultiLocation {
    open spec fn obeys_from_spec() -> bool {
        true
    }

    open spec fn from_spec(_x: ()) -> Self {
        MultiLocation::Null
    }
}

impl From<(Junction,)> for MultiLocation {
    fn from(x: (Junction,)) -> (r: Self) {
        MultiLocation::X1(x.0)
    }
}

impl vstd::std_specs::convert::FromSpecImpl<(Junction,)> for MultiLocation {
    open spec fn obeys_from_spec() -> bool {
        true
    }

    open spec fn from_spec(x: (Junction,)) -> Self {
        MultiLocation::X1(x.0)
    }
}

impl From<(Junction, Junction)> for MultiLocation {
    fn from(x: (Junction, Junction)) -> (r: Self) {
        MultiLocation::X2(x.0, x.1)
    }
}

impl vstd::std_specs::convert::FromSpecImpl<(Junction, Junction)> for MultiLocation {
    open spec fn obeys_from_spec() -> bool {
        true
    }

    open spec fn from_spec(x: (Junction, Junction)) -> Self {
        MultiLocation::X2(x.0, x.1)
    }
}

impl From<(Junction, Junction, Junction)> for MultiLocation {
    fn from(x: (Junction, Junction, Junction)) -> (r: Self) {
        MultiLocation::X3(x.0, x.1, x.2)
    }
}

impl vstd::std_specs::convert::FromSpecImpl<(Junction, Junction, Junction)> for MultiLocation {
    open spec fn obeys_from_spec() -> bool {
        true
    }

    open spec fn from_spec(x: (Junction, Junction, Junction)) -> Self {
        MultiLocation::X3(x.0, x.1, x.2)
    }
}

impl From<(Junction, Junction, Junction, Junction)> for MultiLocation {
    fn from(x: (Junction, Junction, Junction, Junction)) -> (r: Self) {
        MultiLocation::X4(x.0, x.1, x.2, x.3)
    }
}

impl vstd::std_specs::convert::FromSpecImpl<(Junction, Junction, Junction, Junction)> for MultiLocation {
    open spec fn obeys_from_spec() -> bool {
        true
    }

    open spec fn from_spec(x: (Junction, Junction, Junction, Junction)) -> Self {
        MultiLocation::X4(x.0, x.1, x.2, x.3)
    }
}

impl From<[Junction; 0]> for MultiLocation {
    fn from(_x: [Junction; 0]) -> (r: Self) {
        MultiLocation::Null
    }
}

impl vstd::std_specs::convert::FromSpecImpl<[Junction; 0]> for MultiLocation {
    open spec fn obeys_from_spec() -> bool {
        true
    }

    open spec fn from_spec(_x: [Junction; 0]) -> Self {
        MultiLocation::Null
    }
}

impl From<[Junction; 1]> for MultiLocation {
    fn from(x: [Junction; 1]) -> (r: Self) {
        MultiLocation::X1(x[0])
    }
}

impl vstd::std_specs::convert::FromSpecImpl<[Junction; 1]> for MultiLocation {
    open spec fn obeys_from_spec() -> bool {
        true
    }

    open spec fn from_spec(x: [Junction; 1]) -> Self {
        MultiLocation::X1(x[0])
    }
}

impl From<[Junction; 2]> for MultiLocation {
    fn from(x: [Junction; 2]) -> (r: Self) {
        MultiLocation::X2(x[0], x[1])
    }
}

impl vstd::std_specs::convert::FromSpecImpl<[Junction; 2]> for MultiLocation {
    open spec fn obeys_from_spec() -> bool {
        true
    }

    open spec fn from_spec(x: [Junction; 2]) -> Self {
        MultiLocation::X2(x[0], x[1])
    }
}

impl From<[Junction; 3]> for MultiLocation {
    fn from(x: [Junction; 3]) -> (r: Self) {
        MultiLocation::X3(x[0], x[1], x[2])
    }
}

impl vstd::std_specs::convert::FromSpecImpl<[Junction; 3]> for MultiLocation {
    open spec fn obeys_from_spec() -> bool {
        true
    }

    open spec fn from_spec(x: [Junction; 3]) -> Self {
        MultiLocation::X3(x[0], x[1], x[2])
    }
}

impl From<[Junction; 4]> for MultiLocation {
    fn from(x: [Junction; 4]) -> (r: Self) {
        MultiLocation::X4(x[0], x[1], x[2], x[3])
    }
}

impl vstd::std_specs::convert::FromSpecImpl<[Junction; 4]> for MultiLocation {
    open spec fn obeys_from_spec() -> bool {
        true
    }

    open spec fn from_spec(x: [Junction; 4]) -> Self {
        MultiLocation::X4(x[0], x[1], x[2], x[3])
    }
}

/// Splicing one junction from the innermost end of the prefix onto the front
/// of a suffix that still has room leaves the spliced result unchanged.
proof fn lemma_spliced_push_front(pre: Seq<Junction>, suf: Seq<Junction>)
    requires
        pre.len() > 0,
        suf.len() < 4,
    ensures
        spliced(pre, suf) == spliced(pre.drop_last(), seq![pre.last()] + suf),
{
    let room: int = 4 - suf.len();
    if pre.len() <= room {
        assert(spliced(pre, suf) =~= spliced(pre.drop_last(), seq![pre.last()] + suf));
    } else {
        let k = pre.len() - room;
        assert(pre.skip(k) + suf =~= pre.drop_last().skip(k) + (seq![pre.last()] + suf));
    }
}

/// Splicing any prefix onto a suffix that is already full drops the whole
/// prefix.
proof fn lemma_spliced_full(pre: Seq<Junction>, suf: Seq<Junction>)
    requires
        suf.len() >= 4,
    ensures
        spliced(pre, suf) == suf,
{
    if pre.len() <= 0 {
        assert(pre + suf =~= suf);
    } else {
        assert(pre.skip(pre.len() as int) + suf =~= suf);
    }
}

/// Law: pushing a junction onto a path that is not full and then taking the
/// innermost junction returns the pushed junction and restores the original
/// path; together with the contracts of `push` and `take_last` this covers
/// the mutating pair.
pub proof fn lemma_push_then_take_last(s: Seq<Junction>, j: Junction)
    requires
        s.len() < 4,
    ensures
        s.push(j).last() == j,
        s.push(j).drop_last() == s,
{
    assert(s.push(j).drop_last() =~= s);
}

/// Law: splitting off the outermost junction of a non-empty path and pushing
/// it back at the front restores the original path; together with the
/// contracts of `split_first` and `push_front` this covers reconstruction.
pub proof fn lemma_split_first_then_push_front(s: Seq<Junction>)
    requires
        s.len() > 0,
    ensures
        seq![s.first()] + s.drop_first() == s,
{
    assert(seq![s.first()] + s.drop_first() =~= s);
}

/// Law: when the prefix ends in a junction other than the ascend marker and
/// the path begins with the ascend marker, prepending cancels exactly one
/// junction from each side before the splice continues.
pub proof fn lemma_prepend_cancels_pair(prefix: Seq<Junction>, suffix: Seq<Junction>)
    requires
        prefix.len() > 0,
        suffix.len() > 0,
        prefix.last() != Junction::Parent,
        suffix.first() == Junction::Parent,
    ensures
        cancelled(prefix, suffix) == cancelled(prefix.drop_last(), suffix.drop_first()),
{
}

} // verus!
