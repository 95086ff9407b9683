use crate::junction::Junction;
use crate::multi_location::{lemma_len_bounded, MultiLocation};
use vstd::bytes::{
    lemma_auto_spec_u64_to_from_le_bytes, spec_u64_from_le_bytes, spec_u64_to_le_bytes,
    u64_from_le_bytes, u64_to_le_bytes,
};
use vstd::prelude::*;
use vstd::slice::{slice_index_get, slice_subrange};

verus! {

/// The wire form of one junction: a tag byte distinguishing the variant,
/// followed by its payload (for a child index, eight little-endian bytes).
pub open spec fn junction_bytes(j: Junction) -> Seq<u8> {
    match j {
        Junction::Parent => seq![0u8],
        Junction::ChildIndex(n) => seq![1u8] + spec_u64_to_le_bytes(n),
    }
}

/// The wire form of a sequence of junctions: their wire forms, in order.
pub open spec fn junctions_bytes(s: Seq<Junction>) -> Seq<u8>
    decreases s.len(),
{
    if s.len() == 0 {
        Seq::empty()
    } else {
        junction_bytes(s.first()) + junctions_bytes(s.drop_first())
    }
}

/// The wire form of a path: a discriminant byte holding the length, followed
/// by the junctions in order, outermost first. There is no length prefix
/// beyond the discriminant and no padding.
pub open spec fn path_bytes(s: Seq<Junction>) -> Seq<u8> {
    seq![s.len() as u8] + junctions_bytes(s)
}

/// The junction sequence a byte string holds when it consists of exactly `n`
/// junction wire forms and nothing else, or nothing otherwise.
pub open spec fn decoded_junctions(b: Seq<u8>, n: nat) -> Option<Seq<Junction>>
    decreases n,
{
    if n == 0 {
        if b.len() == 0 {
            Some(Seq::empty())
        } else {
            None
        }
    } else if b.len() == 0 {
        None
    } else if b.first() == 0u8 {
        match decoded_junctions(b.drop_first(), (n - 1) as nat) {
            Some(s) => Some(seq![Junction::Parent] + s),
            None => None,
        }
    } else if b.first() == 1u8 {
        if b.len() >= 9 {
            match decoded_junctions(b.skip(9), (n - 1) as nat) {
                Some(s) => Some(
                    seq![Junction::ChildIndex(spec_u64_from_le_bytes(b.subrange(1, 9)))] + s,
                ),
                None => None,
            }
        } else {
            None
        }
    } else {
        None
    }
}

/// The path a byte string holds when it is exactly the wire form of a path
/// of zero to four junctions, or nothing otherwise.
pub open spec fn decoded_path(b: Seq<u8>) -> Option<Seq<Junction>> {
    if b.len() == 0 || b.first() > 4u8 {
        None
    } else {
        decoded_junctions(b.drop_first(), b.first() as nat)
    }
}

/// A byte string of exactly `n` junction wire forms decodes to exactly `n`
/// junctions.
proof fn lemma_decoded_junctions_len(b: Seq<u8>, n: nat)
    requires
        decoded_junctions(b, n) is Some,
    ensures
        decoded_junctions(b, n).unwrap().len() == n,
    decreases n,
{
    if n > 0 {
        if b.first() == 0u8 {
            lemma_decoded_junctions_len(b.drop_first(), (n - 1) as nat);
        } else {
            lemma_decoded_junctions_len(b.skip(9), (n - 1) as nat);
        }
    }
}

/// Appending one junction to a sequence appends its wire form.
proof fn lemma_junctions_bytes_push(s: Seq<Junction>, j: Junction)
    ensures
        junctions_bytes(s.push(j)) == junctions_bytes(s) + junction_bytes(j),
    decreases s.len(),
{
    if s.len() == 0 {
        assert(s.push(j).drop_first() =~= Seq::<Junction>::empty());
        assert(junction_bytes(j) + junctions_bytes(Seq::<Junction>::empty()) =~= junction_bytes(j));
        assert(junctions_bytes(s) + junction_bytes(j) =~= junction_bytes(j));
    } else {
        assert(s.push(j).drop_first() =~= s.drop_first().push(j));
        lemma_junctions_bytes_push(s.drop_first(), j);
        assert(junction_bytes(s.first()) + (junctions_bytes(s.drop_first()) + junction_bytes(j))
            =~= (junction_bytes(s.first()) + junctions_bytes(s.drop_first())) + junction_bytes(j));
    }
}

/// Appends the wire form of one junction to a byte vector.
fn encode_junction_into(out: &mut Vec<u8>, j: Junction)
    ensures
        final(out)@ == old(out)@ + junction_bytes(j),
{
    match j {
        Junction::Parent => {
            out.push(0u8);
            proof {
                assert(old(out)@ + junction_bytes(j) =~= old(out)@.push(0u8));
            }
        },
        Junction::ChildIndex(n) => {
            out.push(1u8);
            let mut tail = u64_to_le_bytes(n);
            out.append(&mut tail);
            proof {
                assert(old(out)@ + junction_bytes(j) =~= old(out)@.push(1u8)
                    + spec_u64_to_le_bytes(n));
            }
        },
    }
}

/// Decodes exactly `n` junction wire forms from `bytes`, beginning at `pos`
/// and consuming the input to its end; fails on an unknown tag, truncated
/// input or trailing bytes.
fn decode_junctions(bytes: &[u8], pos: usize, n: usize) -> (r: Result<Vec<Junction>, ()>)
    requires
        pos <= bytes@.len(),
    ensures
        match decoded_junctions(bytes@.skip(pos as int), n as nat) {
            Some(s) => r is Ok && r.unwrap()@ == s,
            None => r is Err,
        },
    decreases n,
{
    let ghost b = bytes@.skip(pos as int);
    if n == 0 {
        if pos == bytes.len() {
            Ok(Vec::new())
        } else {
            Err(())
        }
    } else if pos == bytes.len() {
        Err(())
    } else {
        let tag = *slice_index_get(bytes, pos);
        if tag == 0 {
            proof {
                assert(b.drop_first() =~= bytes@.skip(pos + 1));
            }
            match decode_junctions(bytes, pos + 1, n - 1) {
                Ok(mut v) => {
                    v.insert(0, Junction::Parent);
                    proof {
                        assert(v@ =~= seq![Junction::Parent]
                            + decoded_junctions(b.drop_first(), (n - 1) as nat).unwrap());
                    }
                    Ok(v)
                },
                Err(_) => Err(()),
            }
        } else if tag == 1 {
            if bytes.len() - pos >= 9 {
                proof {
                    assert(b.len() >= 9);
                    assert(b.subrange(1, 9) =~= bytes@.subrange(pos + 1, pos + 9));
                    assert(b.skip(9) =~= bytes@.skip(pos + 9));
                }
                let payload = slice_subrange(bytes, pos + 1, pos + 9);
                let value = u64_from_le_bytes(payload);
                match decode_junctions(bytes, pos + 9, n - 1) {
                    Ok(mut v) => {
                        v.insert(0, Junction::ChildIndex(value));
                        proof {
                            assert(v@ =~= seq![Junction::ChildIndex(value)]
                                + decoded_junctions(b.skip(9), (n - 1) as nat).unwrap());
                        }
                        Ok(v)
                    },
                    Err(_) => Err(()),
                }
            } else {
                Err(())
            }
        } else {
            Err(())
        }
    }
}

/// Rebuilds a path from a vector of at most four junctions.
fn path_from_junctions(v: &Vec<Junction>) -> (m: MultiLocation)
    requires
        v@.len() <= 4,
    ensures
        m@ == v@,
{
    let m = if v.len() == 0 {
        MultiLocation::Null
    } else if v.len() == 1 {
        MultiLocation::X1(v[0])
    } else if v.len() == 2 {
        MultiLocation::X2(v[0], v[1])
    } else if v.len() == 3 {
        MultiLocation::X3(v[0], v[1], v[2])
    } else {
        MultiLocation::X4(v[0], v[1], v[2], v[3])
    };
    proof {
        assert(m@ =~= v@);
    }
    m
}

impl MultiLocation {
    /// Encodes the path into its wire form: a discriminant byte holding the
    /// length, then each junction's wire form in order, outermost first.
    pub fn encode(&self) -> (out: Vec<u8>)
        ensures
            out@ == path_bytes(self@),
    {
        proof {
            lemma_len_bounded(*self);
        }
        let n = self.len();
        let mut out: Vec<u8> = Vec::new();
        out.push(n as u8);
        proof {
            assert(Seq::<u8>::empty().push(self@.len() as u8) =~= seq![self@.len() as u8]);
            assert(self@.take(0) =~= Seq::<Junction>::empty());
        }
        let mut i: usize = 0;
        while i < n
            invariant
                i <= n,
                n == self@.len(),
                out@ == seq![self@.len() as u8] + junctions_bytes(self@.take(i as int)),
            decreases n - i,
        {
            let j = *self.at(i).unwrap();
            encode_junction_into(&mut out, j);
            proof {
                assert(self@.take(i + 1) =~= self@.take(i as int).push(self@[i as int]));
                lemma_junctions_bytes_push(self@.take(i as int), self@[i as int]);
                assert((seq![self@.len() as u8] + junctions_bytes(self@.take(i as int)))
                    + junction_bytes(self@[i as int]) =~= seq![self@.len() as u8]
                    + (junctions_bytes(self@.take(i as int)) + junction_bytes(self@[i as int])));
            }
            i = i + 1;
        }
        proof {
            assert(self@.take(n as int) =~= self@);
        }
        out
    }

    /// Decodes a path from its exact wire form; fails on a discriminant
    /// beyond four, an unknown junction tag, truncated input or trailing
    /// bytes.
    pub fn decode(bytes: &[u8]) -> (r: Result<MultiLocation, ()>)
        ensures
            match decoded_path(bytes@) {
                Some(s) => r is Ok && r.unwrap()@ == s,
                None => r is Err,
            },
    {
        if bytes.len() == 0 {
            return Err(());
        }
        let d = *slice_index_get(bytes, 0);
        if d > 4 {
            return Err(());
        }
        proof {
            assert(bytes@.drop_first() =~= bytes@.skip(1));
        }
        match decode_junctions(bytes, 1, d as usize) {
            Ok(v) => {
                proof {
                    lemma_decoded_junctions_len(bytes@.skip(1), d as nat);
                }
                Ok(path_from_junctions(&v))
            },
            Err(_) => Err(()),
        }
    }
}

/// The wire forms of a junction sequence decode back to the same sequence.
proof fn lemma_junctions_round_trip(s: Seq<Junction>)
    ensures
        decoded_junctions(junctions_bytes(s), s.len()) == Some(s),
    decreases s.len(),
{
    lemma_auto_spec_u64_to_from_le_bytes();
    if s.len() == 0 {
        assert(decoded_junctions(junctions_bytes(s), s.len()) =~= Some(s));
    } else {
        let j = s.first();
        let rest = junctions_bytes(s.drop_first());
        let b = junction_bytes(j) + rest;
        assert(junctions_bytes(s) == b);
        lemma_junctions_round_trip(s.drop_first());
        match j {
            Junction::Parent => {
                assert(b.first() == 0u8);
                assert(b.drop_first() =~= rest);
                assert(seq![Junction::Parent] + s.drop_first() =~= s);
            },
            Junction::ChildIndex(n) => {
                assert(b.first() == 1u8);
                assert(b.len() >= 9);
                assert(b.subrange(1, 9) =~= spec_u64_to_le_bytes(n));
                assert(b.skip(9) =~= rest);
                assert(seq![Junction::ChildIndex(n)] + s.drop_first() =~= s);
            },
        }
    }
}

/// A byte string that decodes as exactly `n` junction wire forms is exactly
/// the wire form of the decoded junctions.
proof fn lemma_decoded_junctions_sound(b: Seq<u8>, n: nat)
    requires
        decoded_junctions(b, n) is Some,
    ensures
        junctions_bytes(decoded_junctions(b, n).unwrap()) == b,
    decreases n,
{
    lemma_auto_spec_u64_to_from_le_bytes();
    let s = decoded_junctions(b, n).unwrap();
    if n == 0 {
        assert(junctions_bytes(s) =~= b);
    } else if b.first() == 0u8 {
        let rest = decoded_junctions(b.drop_first(), (n - 1) as nat).unwrap();
        lemma_decoded_junctions_sound(b.drop_first(), (n - 1) as nat);
        assert(s.drop_first() =~= rest);
        assert(junction_bytes(Junction::Parent) + b.drop_first() =~= b);
    } else {
        let value = spec_u64_from_le_bytes(b.subrange(1, 9));
        let rest = decoded_junctions(b.skip(9), (n - 1) as nat).unwrap();
        lemma_decoded_junctions_sound(b.skip(9), (n - 1) as nat);
        assert(s.drop_first() =~= rest);
        assert(b.subrange(1, 9).len() == 8);
        assert(spec_u64_to_le_bytes(value) == b.subrange(1, 9));
        assert(junction_bytes(Junction::ChildIndex(value)) + b.skip(9) =~= b);
    }
}

/// Law: a byte string decodes to a path only if it is exactly that path's
/// wire form; together with the round trip below, decoding succeeds if and
/// only if the input is the wire form of some path of zero to four
/// junctions.
pub proof fn lemma_decode_sound(b: Seq<u8>)
    requires
        decoded_path(b) is Some,
    ensures
        decoded_path(b).unwrap().len() <= 4,
        path_bytes(decoded_path(b).unwrap()) == b,
{
    let s = decoded_path(b).unwrap();
    lemma_decoded_junctions_len(b.drop_first(), b.first() as nat);
    lemma_decoded_junctions_sound(b.drop_first(), b.first() as nat);
    assert(s.len() as u8 == b.first());
    assert(seq![b.first()] + b.drop_first() =~= b);
}

/// Law: decoding the wire form of any path of zero to four junctions yields
/// a path equal to the original (round trip through `encode` and `decode`).
pub proof fn lemma_codec_round_trip(s: Seq<Junction>)
    requires
        s.len() <= 4,
    ensures
        decoded_path(path_bytes(s)) == Some(s),
{
    let b = path_bytes(s);
    assert(b.first() == s.len() as u8);
    assert(b.first() <= 4u8);
    assert(b.drop_first() =~= junctions_bytes(s));
    lemma_junctions_round_trip(s);
}

} // verus!
