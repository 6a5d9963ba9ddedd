//! The request and response records exchanged with an animation routine.
use vstd::prelude::*;
use crate::codec::{
    attr_bytes, lemma_attr_bytes_injective, lemma_attr_bytes_len, lemma_skeleton_bytes_injective,
    lemma_skeleton_bytes_len, put_attr, put_skeleton, read_attr, read_skeleton, skeleton_bytes,
    ATTR_LEN, SKELETON_LEN,
};
use crate::skeleton::{CharacterSkeleton, SkeletonAttr};
use crate::wire::{get_u32, get_u64, le32, le64, lemma_le32_injective, lemma_le64_injective, put_u32, put_u64};

verus! {

/// Size of the staging buffer shared by a module and its host.
pub const STAGING_LEN: usize = 2048;

/// Encoded size of a request.
pub const REQUEST_LEN: usize = 908;

/// Encoded size of a response.
pub const RESPONSE_LEN: usize = 804;

/// What the host hands an animation routine: a dependency value (the bits of
/// an `f64`, such as the global time), the current skeleton, its attribute
/// record and a playback rate (the bits of an `f32`).
#[derive(Clone, Copy, Debug)]
pub struct AnimationPassTrough {
    pub dependency: u64,
    pub skeleton: CharacterSkeleton,
    pub attr: SkeletonAttr,
    pub rate: u32,
}

/// What an animation routine hands back: the next pose and the playback rate
/// (the bits of an `f32`).
#[derive(Clone, Copy, Debug)]
pub struct AnimReturn(pub CharacterSkeleton, pub u32);

/// Bytes of a request: dependency, skeleton, attributes, rate.
pub open spec fn request_bytes(x: AnimationPassTrough) -> Seq<u8> {
    le64(x.dependency) + skeleton_bytes(x.skeleton) + attr_bytes(x.attr) + le32(x.rate)
}

/// Bytes of a response: skeleton, rate.
pub open spec fn response_bytes(x: AnimReturn) -> Seq<u8> {
    skeleton_bytes(x.0) + le32(x.1)
}

pub proof fn lemma_request_bytes_len(x: AnimationPassTrough)
    ensures
        request_bytes(x).len() == REQUEST_LEN,
{
    lemma_skeleton_bytes_len(x.skeleton);
    lemma_attr_bytes_len(x.attr);
}

pub proof fn lemma_response_bytes_len(x: AnimReturn)
    ensures
        response_bytes(x).len() == RESPONSE_LEN,
{
    lemma_skeleton_bytes_len(x.0);
}

/// Decoding gives back what was encoded: a request is the only one whose
/// encoding opens any byte string that starts with its own encoding.
pub proof fn lemma_request_round_trip(x: AnimationPassTrough, y: AnimationPassTrough, rest: Seq<u8>)
    requires
        request_bytes(y) == (request_bytes(x) + rest).subrange(0, REQUEST_LEN as int),
    ensures
        y == x,
{
    lemma_request_bytes_len(x);
    lemma_request_bytes_len(y);
    lemma_skeleton_bytes_len(x.skeleton);
    lemma_skeleton_bytes_len(y.skeleton);
    lemma_attr_bytes_len(x.attr);
    lemma_attr_bytes_len(y.attr);
    let bx = request_bytes(x);
    let by = request_bytes(y);
    assert(by =~= bx);
    assert(bx.subrange(0, 8) =~= le64(x.dependency));
    assert(by.subrange(0, 8) =~= le64(y.dependency));
    assert(bx.subrange(8, 808) =~= skeleton_bytes(x.skeleton));
    assert(by.subrange(8, 808) =~= skeleton_bytes(y.skeleton));
    assert(bx.subrange(808, 904) =~= attr_bytes(x.attr));
    assert(by.subrange(808, 904) =~= attr_bytes(y.attr));
    assert(bx.subrange(904, 908) =~= le32(x.rate));
    assert(by.subrange(904, 908) =~= le32(y.rate));
    lemma_le64_injective(x.dependency, y.dependency);
    lemma_skeleton_bytes_injective(x.skeleton, y.skeleton);
    lemma_attr_bytes_injective(x.attr, y.attr);
    lemma_le32_injective(x.rate, y.rate);
}

/// Decoding gives back what was encoded: a response is the only one whose
/// encoding opens any byte string that starts with its own encoding.
pub proof fn lemma_response_round_trip(x: AnimReturn, y: AnimReturn, rest: Seq<u8>)
    requires
        response_bytes(y) == (response_bytes(x) + rest).subrange(0, RESPONSE_LEN as int),
    ensures
        y == x,
{
    lemma_response_bytes_len(x);
    lemma_response_bytes_len(y);
    lemma_skeleton_bytes_len(x.0);
    lemma_skeleton_bytes_len(y.0);
    let bx = response_bytes(x);
    let by = response_bytes(y);
    assert(by =~= bx);
    assert(bx.subrange(0, 800) =~= skeleton_bytes(x.0));
    assert(by.subrange(0, 800) =~= skeleton_bytes(y.0));
    assert(bx.subrange(800, 804) =~= le32(x.1));
    assert(by.subrange(800, 804) =~= le32(y.1));
    lemma_skeleton_bytes_injective(x.0, y.0);
    lemma_le32_injective(x.1, y.1);
}

impl AnimationPassTrough {
    /// The request's bytes.
    pub fn encode(&self) -> (r: Vec<u8>)
        ensures
            r@ == request_bytes(*self),
            r@.len() == REQUEST_LEN,
    {
        let mut out: Vec<u8> = Vec::new();
        put_u64(&mut out, self.dependency);
        put_skeleton(&mut out, &self.skeleton);
        put_attr(&mut out, &self.attr);
        put_u32(&mut out, self.rate);
        assert(out@ =~= request_bytes(*self));
        proof {
            lemma_request_bytes_len(*self);
        }
        out
    }

    /// The request whose bytes open `b`, or `None` where `b` is shorter than a request.
    pub fn decode(b: &Vec<u8>) -> (r: Option<AnimationPassTrough>)
        ensures
            r is Some <==> b@.len() >= REQUEST_LEN,
            r matches Some(x) ==> request_bytes(x) == b@.subrange(0, REQUEST_LEN as int),
            forall|x: AnimationPassTrough|
                #![trigger request_bytes(x)]
                request_bytes(x).len() <= b@.len() && b@.subrange(0, REQUEST_LEN as int)
                    == request_bytes(x) ==> r == Some(x),
    {
        if b.len() < REQUEST_LEN {
            proof {
                assert forall|x: AnimationPassTrough| request_bytes(x).len() > b@.len() by {
                    lemma_request_bytes_len(x);
                }
            }
            return None;
        }
        let dependency = get_u64(b, 0);
        let skeleton = read_skeleton(b, 8);
        let attr = read_attr(b, 8 + SKELETON_LEN);
        let rate = get_u32(b, 8 + SKELETON_LEN + ATTR_LEN);
        let r = AnimationPassTrough { dependency, skeleton, attr, rate };
        assert(request_bytes(r) =~= b@.subrange(0, REQUEST_LEN as int));
        proof {
            assert forall|x: AnimationPassTrough|
                #![trigger request_bytes(x)]
                request_bytes(x).len() <= b@.len() && b@.subrange(0, REQUEST_LEN as int)
                    == request_bytes(x) implies r == x by {
                lemma_request_bytes_len(x);
                assert((request_bytes(x) + seq![]).subrange(0, REQUEST_LEN as int) =~= request_bytes(x));
                lemma_request_round_trip(x, r, seq![]);
            }
        }
        Some(r)
    }
}

impl AnimReturn {
    /// The response's bytes.
    pub fn encode(&self) -> (r: Vec<u8>)
        ensures
            r@ == response_bytes(*self),
            r@.len() == RESPONSE_LEN,
    {
        let mut out: Vec<u8> = Vec::new();
        put_skeleton(&mut out, &self.0);
        put_u32(&mut out, self.1);
        assert(out@ =~= response_bytes(*self));
        proof {
            lemma_response_bytes_len(*self);
        }
        out
    }

    /// The response whose bytes open `b`, or `None` where `b` is shorter than a response.
    pub fn decode(b: &Vec<u8>) -> (r: Option<AnimReturn>)
        ensures
            r is Some <==> b@.len() >= RESPONSE_LEN,
            r matches Some(x) ==> response_bytes(x) == b@.subrange(0, RESPONSE_LEN as int),
            forall|x: AnimReturn|
                #![trigger response_bytes(x)]
                response_bytes(x).len() <= b@.len() && b@.subrange(0, RESPONSE_LEN as int)
                    == response_bytes(x) ==> r == Some(x),
    {
        if b.len() < RESPONSE_LEN {
            proof {
                assert forall|x: AnimReturn| response_bytes(x).len() > b@.len() by {
                    lemma_response_bytes_len(x);
                }
            }
            return None;
        }
        let skeleton = read_skeleton(b, 0);
        let rate = get_u32(b, SKELETON_LEN);
        let r = AnimReturn(skeleton, rate);
        assert(response_bytes(r) =~= b@.subrange(0, RESPONSE_LEN as int));
        proof {
            assert forall|x: AnimReturn|
                #![trigger response_bytes(x)]
                response_bytes(x).len() <= b@.len() && b@.subrange(0, RESPONSE_LEN as int)
                    == response_bytes(x) implies r == x by {
                lemma_response_bytes_len(x);
                assert((response_bytes(x) + seq![]).subrange(0, RESPONSE_LEN as int) =~= response_bytes(x));
                lemma_response_round_trip(x, r, seq![]);
            }
        }
        Some(r)
    }
}

} // verus!
