//! The exchange format of the request and response records: every field at a
//! fixed width, in declared order, little-endian, with no padding.
use vstd::prelude::*;
use crate::skeleton::{
    attr_words, bone_words, bones, lemma_attr_words_injective, lemma_bone_words_injective,
    lemma_bones_injective, Bone, CharacterSkeleton, SkeletonAttr,
};
use crate::wire::{get_u32, le32, lemma_le32_injective, put_u32};

verus! {

/// Bytes of a word sequence, each word little-endian.
pub open spec fn words_le(ws: Seq<u32>) -> Seq<u8>
    decreases ws.len(),
{
    if ws.len() == 0 {
        seq![]
    } else {
        words_le(ws.drop_last()) + le32(ws.last())
    }
}

pub proof fn lemma_words_le_len(ws: Seq<u32>)
    ensures
        words_le(ws).len() == 4 * ws.len(),
    decreases ws.len(),
{
    if ws.len() > 0 {
        lemma_words_le_len(ws.drop_last());
    }
}

/// Word sequences of one length with equal bytes are equal.
pub proof fn lemma_words_le_injective(a: Seq<u32>, b: Seq<u32>)
    requires
        a.len() == b.len(),
        words_le(a) == words_le(b),
    ensures
        a == b,
    decreases a.len(),
{
    if a.len() > 0 {
        lemma_words_le_len(a.drop_last());
        lemma_words_le_len(b.drop_last());
        let n = 4 * (a.len() - 1);
        assert(words_le(a).subrange(0, n) =~= words_le(a.drop_last()));
        assert(words_le(b).subrange(0, n) =~= words_le(b.drop_last()));
        assert(words_le(a).subrange(n, n + 4) =~= le32(a.last()));
        assert(words_le(b).subrange(n, n + 4) =~= le32(b.last()));
        lemma_le32_injective(a.last(), b.last());
        lemma_words_le_injective(a.drop_last(), b.drop_last());
        assert(a =~= a.drop_last().push(a.last()));
        assert(b =~= b.drop_last().push(b.last()));
    } else {
        assert(a =~= b);
    }
}

/// Appends the bytes of `ws`.
pub fn put_words(out: &mut Vec<u8>, ws: &Vec<u32>)
    ensures
        final(out)@ == old(out)@ + words_le(ws@),
{
    let mut i: usize = 0;
    while i < ws.len()
        invariant
            i <= ws.len(),
            out@ == old(out)@ + words_le(ws@.subrange(0, i as int)),
        decreases ws.len() - i,
    {
        assert(ws@.subrange(0, i + 1).drop_last() =~= ws@.subrange(0, i as int));
        put_u32(out, ws[i]);
        i += 1;
        assert(out@ =~= old(out)@ + words_le(ws@.subrange(0, i as int)));
    }
    assert(ws@.subrange(0, ws.len() as int) =~= ws@);
}

/// Reads `n` words starting at `pos`.
pub fn read_words(b: &Vec<u8>, pos: usize, n: usize) -> (r: Vec<u32>)
    requires
        pos + 4 * n <= b.len(),
    ensures
        r@.len() == n,
        words_le(r@) == b@.subrange(pos as int, pos + 4 * n),
{
    let mut r: Vec<u32> = Vec::new();
    let mut i: usize = 0;
    while i < n
        invariant
            pos + 4 * n <= b.len(),
            i <= n,
            r@.len() == i,
            words_le(r@) == b@.subrange(pos as int, pos + 4 * i),
        decreases n - i,
    {
        let v = get_u32(b, pos + 4 * i);
        let ghost prev = r@;
        r.push(v);
        assert(r@.drop_last() =~= prev);
        assert(b@.subrange(pos as int, pos + 4 * (i + 1)) =~= b@.subrange(pos as int, pos + 4 * i)
            + b@.subrange(pos + 4 * i, pos + 4 * i + 4));
        i += 1;
    }
    r
}

/// Bytes of a bone: its ten words.
pub open spec fn bone_bytes(b: Bone) -> Seq<u8> {
    words_le(bone_words(b))
}

/// Bytes of a bone sequence, bone after bone.
pub open spec fn bones_le(bs: Seq<Bone>) -> Seq<u8>
    decreases bs.len(),
{
    if bs.len() == 0 {
        seq![]
    } else {
        bones_le(bs.drop_last()) + bone_bytes(bs.last())
    }
}

pub proof fn lemma_bones_le_len(bs: Seq<Bone>)
    ensures
        bones_le(bs).len() == 40 * bs.len(),
    decreases bs.len(),
{
    if bs.len() > 0 {
        lemma_bones_le_len(bs.drop_last());
        lemma_words_le_len(bone_words(bs.last()));
    }
}

/// Bone sequences of one length with equal bytes are equal.
pub proof fn lemma_bones_le_injective(a: Seq<Bone>, b: Seq<Bone>)
    requires
        a.len() == b.len(),
        bones_le(a) == bones_le(b),
    ensures
        a == b,
    decreases a.len(),
{
    if a.len() > 0 {
        lemma_bones_le_len(a.drop_last());
        lemma_bones_le_len(b.drop_last());
        lemma_words_le_len(bone_words(a.last()));
        lemma_words_le_len(bone_words(b.last()));
        let n = 40 * (a.len() - 1);
        assert(bones_le(a).subrange(0, n) =~= bones_le(a.drop_last()));
        assert(bones_le(b).subrange(0, n) =~= bones_le(b.drop_last()));
        assert(bones_le(a).subrange(n, n + 40) =~= bone_bytes(a.last()));
        assert(bones_le(b).subrange(n, n + 40) =~= bone_bytes(b.last()));
        lemma_words_le_injective(bone_words(a.last()), bone_words(b.last()));
        lemma_bone_words_injective(a.last(), b.last());
        lemma_bones_le_injective(a.drop_last(), b.drop_last());
        assert(a =~= a.drop_last().push(a.last()));
        assert(b =~= b.drop_last().push(b.last()));
    } else {
        assert(a =~= b);
    }
}

/// Bytes of a skeleton: its twenty bones in wire order.
pub open spec fn skeleton_bytes(s: CharacterSkeleton) -> Seq<u8> {
    bones_le(bones(s))
}

/// Bytes of an attribute record: its twenty-four words.
pub open spec fn attr_bytes(a: SkeletonAttr) -> Seq<u8> {
    words_le(attr_words(a))
}

/// Encoded size of a skeleton.
pub const SKELETON_LEN: usize = 800;

/// Encoded size of an attribute record.
pub const ATTR_LEN: usize = 96;

pub proof fn lemma_skeleton_bytes_len(s: CharacterSkeleton)
    ensures
        skeleton_bytes(s).len() == SKELETON_LEN,
{
    lemma_bones_le_len(bones(s));
}

pub proof fn lemma_attr_bytes_len(a: SkeletonAttr)
    ensures
        attr_bytes(a).len() == ATTR_LEN,
{
    lemma_words_le_len(attr_words(a));
}

/// Skeletons with equal bytes are equal.
pub proof fn lemma_skeleton_bytes_injective(a: CharacterSkeleton, b: CharacterSkeleton)
    requires
        skeleton_bytes(a) == skeleton_bytes(b),
    ensures
        a == b,
{
    lemma_bones_le_injective(bones(a), bones(b));
    lemma_bones_injective(a, b);
}

/// Attribute records with equal bytes are equal.
pub proof fn lemma_attr_bytes_injective(a: SkeletonAttr, b: SkeletonAttr)
    requires
        attr_bytes(a) == attr_bytes(b),
    ensures
        a == b,
{
    lemma_words_le_injective(attr_words(a), attr_words(b));
    lemma_attr_words_injective(a, b);
}

/// Appends the bytes of `s`.
pub fn put_skeleton(out: &mut Vec<u8>, s: &CharacterSkeleton)
    ensures
        final(out)@ == old(out)@ + skeleton_bytes(*s),
{
    let bs = s.to_bones();
    let mut i: usize = 0;
    while i < bs.len()
        invariant
            bs@ == bones(*s),
            i <= bs.len(),
            out@ == old(out)@ + bones_le(bs@.subrange(0, i as int)),
        decreases bs.len() - i,
    {
        assert(bs@.subrange(0, i + 1).drop_last() =~= bs@.subrange(0, i as int));
        let ws = bs[i].to_words();
        put_words(out, &ws);
        i += 1;
        assert(out@ =~= old(out)@ + bones_le(bs@.subrange(0, i as int)));
    }
    assert(bs@.subrange(0, bs.len() as int) =~= bs@);
}

/// Reads the skeleton encoded at `pos`.
pub fn read_skeleton(b: &Vec<u8>, pos: usize) -> (r: CharacterSkeleton)
    requires
        pos + SKELETON_LEN <= b.len(),
    ensures
        skeleton_bytes(r) == b@.subrange(pos as int, pos + SKELETON_LEN),
{
    let mut v: Vec<Bone> = Vec::new();
    let mut i: usize = 0;
    while i < 20
        invariant
            pos + SKELETON_LEN <= b.len(),
            i <= 20,
            v@.len() == i,
            bones_le(v@) == b@.subrange(pos as int, pos + 40 * i),
        decreases 20 - i,
    {
        let ws = read_words(b, pos + 40 * i, 10);
        let bone = Bone::from_words(&ws, 0);
        assert(ws@.subrange(0, 10) =~= ws@);
        let ghost prev = v@;
        v.push(bone);
        assert(v@.drop_last() =~= prev);
        assert(b@.subrange(pos as int, pos + 40 * (i + 1)) =~= b@.subrange(pos as int, pos + 40 * i)
            + b@.subrange(pos + 40 * i, pos + 40 * i + 40));
        i += 1;
    }
    CharacterSkeleton::from_bones(&v)
}

/// Appends the bytes of `a`.
pub fn put_attr(out: &mut Vec<u8>, a: &SkeletonAttr)
    ensures
        final(out)@ == old(out)@ + attr_bytes(*a),
{
    let ws = a.to_words();
    put_words(out, &ws);
}

/// Reads the attribute record encoded at `pos`.
pub fn read_attr(b: &Vec<u8>, pos: usize) -> (r: SkeletonAttr)
    requires
        pos + ATTR_LEN <= b.len(),
    ensures
        attr_bytes(r) == b@.subrange(pos as int, pos + ATTR_LEN),
{
    let ws = read_words(b, pos, 24);
    assert(ws@.subrange(0, 24) =~= ws@);
    SkeletonAttr::from_words(&ws, 0)
}

} // verus!
