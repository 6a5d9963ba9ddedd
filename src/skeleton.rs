//! Bones, the Character skeleton and its attribute record.
use vstd::prelude::*;

verus! {

/// Bit pattern of the single-precision `1.0`.
pub const ONE_BITS: u32 = 0x3f80_0000;

/// Bit pattern of the single-precision `1.0 / 11.0`, the default bone scale.
pub const ELEVENTH_BITS: u32 = 0x3dba_2e8c;

/// A three-component single-precision vector, held as bit patterns.
#[derive(Clone, Copy, Debug, PartialEq, Eq, Structural)]
pub struct Vec3Bits {
    pub x: u32,
    pub y: u32,
    pub z: u32,
}

/// A single-precision quaternion `(x, y, z, w)`, held as bit patterns.
#[derive(Clone, Copy, Debug, PartialEq, Eq, Structural)]
pub struct QuatBits {
    pub x: u32,
    pub y: u32,
    pub z: u32,
    pub w: u32,
}

/// A local transform relative to the parent bone: offset, orientation and
/// scale. The local basis matrix is `Translate(offset) * Scale(scale) * Rotate(ori)`.
#[derive(Clone, Copy, Debug, PartialEq, Eq, Structural)]
pub struct Bone {
    pub offset: Vec3Bits,
    pub ori: QuatBits,
    pub scale: Vec3Bits,
}

/// The default pose of a bone: no offset, identity orientation, uniform scale 1/11.
pub open spec fn default_bone() -> Bone {
    Bone {
        offset: Vec3Bits { x: 0, y: 0, z: 0 },
        ori: QuatBits { x: 0, y: 0, z: 0, w: ONE_BITS },
        scale: Vec3Bits { x: ELEVENTH_BITS, y: ELEVENTH_BITS, z: ELEVENTH_BITS },
    }
}

impl Default for Bone {
    fn default() -> (r: Bone)
        ensures
            r == default_bone(),
    {
        Bone {
            offset: Vec3Bits { x: 0, y: 0, z: 0 },
            ori: QuatBits { x: 0, y: 0, z: 0, w: ONE_BITS },
            scale: Vec3Bits { x: ELEVENTH_BITS, y: ELEVENTH_BITS, z: ELEVENTH_BITS },
        }
    }
}

/// The ten words of a bone in wire order: offset, orientation, scale.
pub open spec fn bone_words(b: Bone) -> Seq<u32> {
    seq![
        b.offset.x,
        b.offset.y,
        b.offset.z,
        b.ori.x,
        b.ori.y,
        b.ori.z,
        b.ori.w,
        b.scale.x,
        b.scale.y,
        b.scale.z,
    ]
}

impl Bone {
    /// The bone whose words stand at `ws[i .. i + 10]`.
    pub fn from_words(ws: &Vec<u32>, i: usize) -> (r: Bone)
        requires
            i + 10 <= ws.len(),
        ensures
            bone_words(r) == ws@.subrange(i as int, i + 10),
    {
        let r = Bone {
            offset: Vec3Bits { x: ws[i], y: ws[i + 1], z: ws[i + 2] },
            ori: QuatBits { x: ws[i + 3], y: ws[i + 4], z: ws[i + 5], w: ws[i + 6] },
            scale: Vec3Bits { x: ws[i + 7], y: ws[i + 8], z: ws[i + 9] },
        };
        assert(bone_words(r) =~= ws@.subrange(i as int, i + 10));
        r
    }

    /// The bone's words in wire order.
    pub fn to_words(&self) -> (r: Vec<u32>)
        ensures
            r@ == bone_words(*self),
    {
        let r = vec![
            self.offset.x,
            self.offset.y,
            self.offset.z,
            self.ori.x,
            self.ori.y,
            self.ori.z,
            self.ori.w,
            self.scale.x,
            self.scale.y,
            self.scale.z,
        ];
        assert(r@ =~= bone_words(*self));
        r
    }
}

/// A bone is determined by its words.
pub proof fn lemma_bone_words_injective(a: Bone, b: Bone)
    requires
        bone_words(a) == bone_words(b),
    ensures
        a == b,
{
    assert(bone_words(a)[0] == bone_words(b)[0] && bone_words(a)[1] == bone_words(b)[1]);
    assert(bone_words(a)[2] == bone_words(b)[2] && bone_words(a)[3] == bone_words(b)[3]);
    assert(bone_words(a)[4] == bone_words(b)[4] && bone_words(a)[5] == bone_words(b)[5]);
    assert(bone_words(a)[6] == bone_words(b)[6] && bone_words(a)[7] == bone_words(b)[7]);
    assert(bone_words(a)[8] == bone_words(b)[8] && bone_words(a)[9] == bone_words(b)[9]);
}

/// The kinds of skeleton that a module can animate.
#[derive(Clone, Copy, Debug, PartialEq, Eq, Structural)]
pub enum SkeletonTy {
    Character,
}

/// The bones of the Character skeleton, in wire order.
#[derive(Clone, Copy, Debug, PartialEq, Eq, Structural)]
pub enum BoneId {
    Head,
    Chest,
    Belt,
    Back,
    Shorts,
    LHand,
    RHand,
    LFoot,
    RFoot,
    LShoulder,
    RShoulder,
    Glider,
    Main,
    Second,
    Lantern,
    Hold,
    Torso,
    Control,
    LControl,
    RControl,
}

/// Position of a bone in wire order.
pub open spec fn bone_index(id: BoneId) -> int {
    match id {
        BoneId::Head => 0,
        BoneId::Chest => 1,
        BoneId::Belt => 2,
        BoneId::Back => 3,
        BoneId::Shorts => 4,
        BoneId::LHand => 5,
        BoneId::RHand => 6,
        BoneId::LFoot => 7,
        BoneId::RFoot => 8,
        BoneId::LShoulder => 9,
        BoneId::RShoulder => 10,
        BoneId::Glider => 11,
        BoneId::Main => 12,
        BoneId::Second => 13,
        BoneId::Lantern => 14,
        BoneId::Hold => 15,
        BoneId::Torso => 16,
        BoneId::Control => 17,
        BoneId::LControl => 18,
        BoneId::RControl => 19,
    }
}

/// The Character skeleton: twenty named bones, each a local transform.
#[derive(Clone, Copy, Debug, PartialEq, Eq, Structural)]
pub struct CharacterSkeleton {
    pub head: Bone,
    pub chest: Bone,
    pub belt: Bone,
    pub back: Bone,
    pub shorts: Bone,
    pub l_hand: Bone,
    pub r_hand: Bone,
    pub l_foot: Bone,
    pub r_foot: Bone,
    pub l_shoulder: Bone,
    pub r_shoulder: Bone,
    pub glider: Bone,
    pub main: Bone,
    pub second: Bone,
    pub lantern: Bone,
    pub hold: Bone,
    pub torso: Bone,
    pub control: Bone,
    pub l_control: Bone,
    pub r_control: Bone,
}

/// The bones of a skeleton in wire order.
pub open spec fn bones(s: CharacterSkeleton) -> Seq<Bone> {
    seq![
        s.head,
        s.chest,
        s.belt,
        s.back,
        s.shorts,
        s.l_hand,
        s.r_hand,
        s.l_foot,
        s.r_foot,
        s.l_shoulder,
        s.r_shoulder,
        s.glider,
        s.main,
        s.second,
        s.lantern,
        s.hold,
        s.torso,
        s.control,
        s.l_control,
        s.r_control,
    ]
}

/// A skeleton is determined by its bones.
pub proof fn lemma_bones_injective(a: CharacterSkeleton, b: CharacterSkeleton)
    requires
        bones(a) == bones(b),
    ensures
        a == b,
{
    assert(bones(a)[0] == bones(b)[0]);
    assert(bones(a)[1] == bones(b)[1]);
    assert(bones(a)[2] == bones(b)[2]);
    assert(bones(a)[3] == bones(b)[3]);
    assert(bones(a)[4] == bones(b)[4]);
    assert(bones(a)[5] == bones(b)[5]);
    assert(bones(a)[6] == bones(b)[6]);
    assert(bones(a)[7] == bones(b)[7]);
    assert(bones(a)[8] == bones(b)[8]);
    assert(bones(a)[9] == bones(b)[9]);
    assert(bones(a)[10] == bones(b)[10]);
    assert(bones(a)[11] == bones(b)[11]);
    assert(bones(a)[12] == bones(b)[12]);
    assert(bones(a)[13] == bones(b)[13]);
    assert(bones(a)[14] == bones(b)[14]);
    assert(bones(a)[15] == bones(b)[15]);
    assert(bones(a)[16] == bones(b)[16]);
    assert(bones(a)[17] == bones(b)[17]);
    assert(bones(a)[18] == bones(b)[18]);
    assert(bones(a)[19] == bones(b)[19]);
}

impl CharacterSkeleton {
    /// The skeleton in its default pose: every bone is the default bone.
    pub fn new() -> (r: CharacterSkeleton)
        ensures
            forall|i: int| 0 <= i < 20 ==> #[trigger] bones(r)[i] == default_bone(),
    {
        CharacterSkeleton {
            head: Bone::default(),
            chest: Bone::default(),
            belt: Bone::default(),
            back: Bone::default(),
            shorts: Bone::default(),
            l_hand: Bone::default(),
            r_hand: Bone::default(),
            l_foot: Bone::default(),
            r_foot: Bone::default(),
            l_shoulder: Bone::default(),
            r_shoulder: Bone::default(),
            glider: Bone::default(),
            main: Bone::default(),
            second: Bone::default(),
            lantern: Bone::default(),
            hold: Bone::default(),
            torso: Bone::default(),
            control: Bone::default(),
            l_control: Bone::default(),
            r_control: Bone::default(),
        }
    }

    /// The bones in wire order.
    pub fn to_bones(&self) -> (r: Vec<Bone>)
        ensures
            r@ == bones(*self),
    {
        let r = vec![
            self.head,
            self.chest,
            self.belt,
            self.back,
            self.shorts,
            self.l_hand,
            self.r_hand,
            self.l_foot,
            self.r_foot,
            self.l_shoulder,
            self.r_shoulder,
            self.glider,
            self.main,
            self.second,
            self.lantern,
            self.hold,
            self.torso,
            self.control,
            self.l_control,
            self.r_control,
        ];
        assert(r@ =~= bones(*self));
        r
    }

    /// The skeleton whose bones, in wire order, are `v`.
    pub fn from_bones(v: &Vec<Bone>) -> (r: CharacterSkeleton)
        requires
            v@.len() == 20,
        ensures
            bones(r) == v@,
    {
        let r = CharacterSkeleton {
            head: v[0],
            chest: v[1],
            belt: v[2],
            back: v[3],
            shorts: v[4],
            l_hand: v[5],
            r_hand: v[6],
            l_foot: v[7],
            r_foot: v[8],
            l_shoulder: v[9],
            r_shoulder: v[10],
            glider: v[11],
            main: v[12],
            second: v[13],
            lantern: v[14],
            hold: v[15],
            torso: v[16],
            control: v[17],
            l_control: v[18],
            r_control: v[19],
        };
        assert(bones(r) =~= v@);
        r
    }

    /// The bone named `id`.
    pub fn bone(&self, id: BoneId) -> (r: Bone)
        ensures
            r == bones(*self)[bone_index(id)],
    {
        match id {
            BoneId::Head => self.head,
            BoneId::Chest => self.chest,
            BoneId::Belt => self.belt,
            BoneId::Back => self.back,
            BoneId::Shorts => self.shorts,
            BoneId::LHand => self.l_hand,
            BoneId::RHand => self.r_hand,
            BoneId::LFoot => self.l_foot,
            BoneId::RFoot => self.r_foot,
            BoneId::LShoulder => self.l_shoulder,
            BoneId::RShoulder => self.r_shoulder,
            BoneId::Glider => self.glider,
            BoneId::Main => self.main,
            BoneId::Second => self.second,
            BoneId::Lantern => self.lantern,
            BoneId::Hold => self.hold,
            BoneId::Torso => self.torso,
            BoneId::Control => self.control,
            BoneId::LControl => self.l_control,
            BoneId::RControl => self.r_control,
        }
    }
}

/// Per-character proportions read by the animation routines, as bit patterns:
/// a scale factor, a head scale, and offset tuples for the body parts.
#[derive(Clone, Copy, Debug)]
pub struct SkeletonAttr {
    pub scaler: u32,
    pub head_scale: u32,
    pub head: (u32, u32),
    pub chest: (u32, u32),
    pub belt: (u32, u32),
    pub back: (u32, u32),
    pub shorts: (u32, u32),
    pub hand: (u32, u32, u32),
    pub foot: (u32, u32, u32),
    pub shoulder: (u32, u32, u32),
    pub lantern: (u32, u32, u32),
}

/// The twenty-four words of an attribute record in wire order.
pub open spec fn attr_words(a: SkeletonAttr) -> Seq<u32> {
    seq![
        a.scaler,
        a.head_scale,
        a.head.0,
        a.head.1,
        a.chest.0,
        a.chest.1,
        a.belt.0,
        a.belt.1,
        a.back.0,
        a.back.1,
        a.shorts.0,
        a.shorts.1,
        a.hand.0,
        a.hand.1,
        a.hand.2,
        a.foot.0,
        a.foot.1,
        a.foot.2,
        a.shoulder.0,
        a.shoulder.1,
        a.shoulder.2,
        a.lantern.0,
        a.lantern.1,
        a.lantern.2,
    ]
}

/// An attribute record is determined by its words.
pub proof fn lemma_attr_words_injective(a: SkeletonAttr, b: SkeletonAttr)
    requires
        attr_words(a) == attr_words(b),
    ensures
        a == b,
{
    assert(attr_words(a)[0] == attr_words(b)[0]);
    assert(attr_words(a)[1] == attr_words(b)[1]);
    assert(attr_words(a)[2] == attr_words(b)[2]);
    assert(attr_words(a)[3] == attr_words(b)[3]);
    assert(attr_words(a)[4] == attr_words(b)[4]);
    assert(attr_words(a)[5] == attr_words(b)[5]);
    assert(attr_words(a)[6] == attr_words(b)[6]);
    assert(attr_words(a)[7] == attr_words(b)[7]);
    assert(attr_words(a)[8] == attr_words(b)[8]);
    assert(attr_words(a)[9] == attr_words(b)[9]);
    assert(attr_words(a)[10] == attr_words(b)[10]);
    assert(attr_words(a)[11] == attr_words(b)[11]);
    assert(attr_words(a)[12] == attr_words(b)[12]);
    assert(attr_words(a)[13] == attr_words(b)[13]);
    assert(attr_words(a)[14] == attr_words(b)[14]);
    assert(attr_words(a)[15] == attr_words(b)[15]);
    assert(attr_words(a)[16] == attr_words(b)[16]);
    assert(attr_words(a)[17] == attr_words(b)[17]);
    assert(attr_words(a)[18] == attr_words(b)[18]);
    assert(attr_words(a)[19] == attr_words(b)[19]);
    assert(attr_words(a)[20] == attr_words(b)[20]);
    assert(attr_words(a)[21] == attr_words(b)[21]);
    assert(attr_words(a)[22] == attr_words(b)[22]);
    assert(attr_words(a)[23] == attr_words(b)[23]);
}

impl Default for SkeletonAttr {
    /// The record with every component zero.
    fn default() -> (r: SkeletonAttr)
        ensures
            forall|i: int| 0 <= i < 24 ==> #[trigger] attr_words(r)[i] == 0,
    {
        SkeletonAttr {
            scaler: 0,
            head_scale: 0,
            head: (0, 0),
            chest: (0, 0),
            belt: (0, 0),
            back: (0, 0),
            shorts: (0, 0),
            hand: (0, 0, 0),
            foot: (0, 0, 0),
            shoulder: (0, 0, 0),
            lantern: (0, 0, 0),
        }
    }
}

impl SkeletonAttr {
    /// The record whose words stand at `ws[i .. i + 24]`.
    pub fn from_words(ws: &Vec<u32>, i: usize) -> (r: SkeletonAttr)
        requires
            i + 24 <= ws.len(),
        ensures
            attr_words(r) == ws@.subrange(i as int, i + 24),
    {
        let r = SkeletonAttr {
            scaler: ws[i],
            head_scale: ws[i + 1],
            head: (ws[i + 2], ws[i + 3]),
            chest: (ws[i + 4], ws[i + 5]),
            belt: (ws[i + 6], ws[i + 7]),
            back: (ws[i + 8], ws[i + 9]),
            shorts: (ws[i + 10], ws[i + 11]),
            hand: (ws[i + 12], ws[i + 13], ws[i + 14]),
            foot: (ws[i + 15], ws[i + 16], ws[i + 17]),
            shoulder: (ws[i + 18], ws[i + 19], ws[i + 20]),
            lantern: (ws[i + 21], ws[i + 22], ws[i + 23]),
        };
        assert(attr_words(r) =~= ws@.subrange(i as int, i + 24));
        r
    }

    /// The record's words in wire order.
    pub fn to_words(&self) -> (r: Vec<u32>)
        ensures
            r@ == attr_words(*self),
    {
        let r = vec![
            self.scaler,
            self.head_scale,
            self.head.0,
            self.head.1,
            self.chest.0,
            self.chest.1,
            self.belt.0,
            self.belt.1,
            self.back.0,
            self.back.1,
            self.shorts.0,
            self.shorts.1,
            self.hand.0,
            self.hand.1,
            self.hand.2,
            self.foot.0,
            self.foot.1,
            self.foot.2,
            self.shoulder.0,
            self.shoulder.1,
            self.shoulder.2,
            self.lantern.0,
            self.lantern.1,
            self.lantern.2,
        ];
        assert(r@ =~= attr_words(*self));
        r
    }
}

} // verus!
