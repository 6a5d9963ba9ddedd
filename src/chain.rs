//! The compositor's fixed parent chains: for each output slot, the bones whose
//! local matrices are multiplied, root first, into that slot's world matrix.
use vstd::prelude::*;
use crate::skeleton::{bone_index, bones, Bone, BoneId, CharacterSkeleton, ONE_BITS};

verus! {

/// Number of world matrices the compositor produces.
pub const SLOT_COUNT: usize = 16;

/// The slot whose world matrix, applied to the origin, gives the attachment
/// point of the character's light.
pub const LANTERN_SLOT: usize = 14;

/// The chain of each slot, root first.
pub open spec fn chain_of(slot: int) -> Seq<BoneId> {
    if slot == 0 {
        seq![BoneId::Torso, BoneId::Chest, BoneId::Head]
    } else if slot == 1 {
        seq![BoneId::Torso, BoneId::Chest]
    } else if slot == 2 {
        seq![BoneId::Torso, BoneId::Chest, BoneId::Belt]
    } else if slot == 3 {
        seq![BoneId::Torso, BoneId::Chest, BoneId::Back]
    } else if slot == 4 {
        seq![BoneId::Torso, BoneId::Chest, BoneId::Shorts]
    } else if slot == 5 {
        seq![BoneId::Torso, BoneId::Chest, BoneId::Control, BoneId::LControl, BoneId::LHand]
    } else if slot == 6 {
        seq![BoneId::Torso, BoneId::Chest, BoneId::Control, BoneId::RControl, BoneId::RHand]
    } else if slot == 7 {
        seq![BoneId::Torso, BoneId::LFoot]
    } else if slot == 8 {
        seq![BoneId::Torso, BoneId::RFoot]
    } else if slot == 9 {
        seq![BoneId::Torso, BoneId::Chest, BoneId::LShoulder]
    } else if slot == 10 {
        seq![BoneId::Torso, BoneId::Chest, BoneId::RShoulder]
    } else if slot == 11 {
        seq![BoneId::Torso, BoneId::Glider]
    } else if slot == 12 {
        seq![BoneId::Torso, BoneId::Chest, BoneId::Control, BoneId::LControl, BoneId::Main]
    } else if slot == 13 {
        seq![BoneId::Torso, BoneId::Chest, BoneId::Control, BoneId::RControl, BoneId::Second]
    } else if slot == 14 {
        seq![BoneId::Torso, BoneId::Chest, BoneId::Shorts, BoneId::Lantern]
    } else {
        seq![BoneId::Torso, BoneId::Chest, BoneId::LHand, BoneId::Hold]
    }
}

/// The bones of the chain of `slot` in `s`, root first. It depends on the
/// skeleton's value alone, so the compositor's inputs for a skeleton are the
/// same on every call.
pub open spec fn chain_bones_of(s: CharacterSkeleton, slot: int) -> Seq<Bone> {
    chain_of(slot).map_values(|id: BoneId| bones(s)[bone_index(id)])
}

/// Number of bones the Character skeleton reports through `Skeleton`; the
/// compositor nonetheless fills `SLOT_COUNT` slots.
pub const CHARACTER_BONE_COUNT: usize = 15;

/// What every skeleton kind offers the compositor.
pub trait Skeleton {
    /// Number of bones the skeleton reports.
    fn bone_count(&self) -> usize;
}

impl Skeleton for CharacterSkeleton {
    fn bone_count(&self) -> (r: usize)
        ensures
            r == CHARACTER_BONE_COUNT,
    {
        CHARACTER_BONE_COUNT
    }
}

impl CharacterSkeleton {
    /// The chain of `slot`, root first.
    pub fn chain(slot: usize) -> (r: Vec<BoneId>)
        requires
            slot < SLOT_COUNT,
        ensures
            r@ == chain_of(slot as int),
    {
        let r = match slot {
            0 => vec![BoneId::Torso, BoneId::Chest, BoneId::Head],
            1 => vec![BoneId::Torso, BoneId::Chest],
            2 => vec![BoneId::Torso, BoneId::Chest, BoneId::Belt],
            3 => vec![BoneId::Torso, BoneId::Chest, BoneId::Back],
            4 => vec![BoneId::Torso, BoneId::Chest, BoneId::Shorts],
            5 => vec![BoneId::Torso, BoneId::Chest, BoneId::Control, BoneId::LControl, BoneId::LHand],
            6 => vec![BoneId::Torso, BoneId::Chest, BoneId::Control, BoneId::RControl, BoneId::RHand],
            7 => vec![BoneId::Torso, BoneId::LFoot],
            8 => vec![BoneId::Torso, BoneId::RFoot],
            9 => vec![BoneId::Torso, BoneId::Chest, BoneId::LShoulder],
            10 => vec![BoneId::Torso, BoneId::Chest, BoneId::RShoulder],
            11 => vec![BoneId::Torso, BoneId::Glider],
            12 => vec![BoneId::Torso, BoneId::Chest, BoneId::Control, BoneId::LControl, BoneId::Main],
            13 => vec![BoneId::Torso, BoneId::Chest, BoneId::Control, BoneId::RControl, BoneId::Second],
            14 => vec![BoneId::Torso, BoneId::Chest, BoneId::Shorts, BoneId::Lantern],
            _ => vec![BoneId::Torso, BoneId::Chest, BoneId::LHand, BoneId::Hold],
        };
        assert(r@ =~= chain_of(slot as int));
        r
    }

    /// The bones of the chain of `slot` in this skeleton, root first.
    pub fn chain_bones(&self, slot: usize) -> (r: Vec<Bone>)
        requires
            slot < SLOT_COUNT,
        ensures
            r@ == chain_bones_of(*self, slot as int),
    {
        let ids = CharacterSkeleton::chain(slot);
        let mut r: Vec<Bone> = Vec::new();
        let mut i: usize = 0;
        while i < ids.len()
            invariant
                ids@ == chain_of(slot as int),
                i <= ids@.len(),
                r@.len() == i,
                forall|k: int| 0 <= k < i ==> #[trigger] r@[k] == bones(*self)[bone_index(ids@[k])],
            decreases ids.len() - i,
        {
            r.push(self.bone(ids[i]));
            i += 1;
        }
        assert(r@ =~= chain_bones_of(*self, slot as int));
        r
    }
}

/// One world matrix as handed to the renderer: four columns of four
/// single-precision entries, held as bit patterns.
#[derive(Clone, Copy, Debug, PartialEq, Eq)]
pub struct FigureBoneData {
    bone_mat: [[u32; 4]; 4],
}

impl FigureBoneData {
    /// The matrix whose columns are `cols`.
    pub fn new(cols: [[u32; 4]; 4]) -> (r: FigureBoneData)
        ensures
            r.cols() == cols,
    {
        FigureBoneData { bone_mat: cols }
    }

    pub closed spec fn cols(&self) -> [[u32; 4]; 4] {
        self.bone_mat
    }

    /// The matrix's columns.
    pub fn columns(&self) -> (r: [[u32; 4]; 4])
        ensures
            r == self.cols(),
    {
        self.bone_mat
    }

    /// The identity matrix.
    pub fn default() -> (r: FigureBoneData)
        ensures
            forall|c: int, k: int|
                0 <= c < 4 && 0 <= k < 4 ==> #[trigger] r.cols()@[c]@[k] == if c == k {
                    ONE_BITS
                } else {
                    0u32
                },
    {
        let r = FigureBoneData::new(
            [[ONE_BITS, 0, 0, 0], [0, ONE_BITS, 0, 0], [0, 0, ONE_BITS, 0], [0, 0, 0, ONE_BITS]],
        );
        r
    }
}

} // verus!
