use figure_anim::codec::{put_words, read_words};
use figure_anim::skeleton::{ELEVENTH_BITS, ONE_BITS};
use figure_anim::wire::{get_u32, get_u64, put_u32, put_u64};
use figure_anim::{
    AnimReturn, AnimationPassTrough, Bone, CharacterSkeleton, QuatBits, SkeletonAttr, Vec3Bits,
    REQUEST_LEN, RESPONSE_LEN, STAGING_LEN,
};

fn bits(x: f32) -> u32 {
    x.to_bits()
}

fn sample_bone(k: u32) -> Bone {
    let f = k as f32;
    Bone {
        offset: Vec3Bits { x: bits(f), y: bits(f + 0.25), z: bits(-f) },
        ori: QuatBits { x: bits(0.5), y: bits(-0.5), z: bits(f * 0.125), w: bits(1.0) },
        scale: Vec3Bits { x: bits(1.5), y: bits(f + 2.0), z: bits(0.0) },
    }
}

fn sample_skeleton() -> CharacterSkeleton {
    let bones: Vec<Bone> = (0..20).map(sample_bone).collect();
    CharacterSkeleton::from_bones(&bones)
}

fn sample_attr() -> SkeletonAttr {
    SkeletonAttr {
        scaler: bits(1.25),
        head_scale: bits(0.9),
        head: (bits(1.0), bits(2.0)),
        chest: (bits(3.0), bits(4.0)),
        belt: (bits(5.0), bits(6.0)),
        back: (bits(7.0), bits(8.0)),
        shorts: (bits(9.0), bits(10.0)),
        hand: (bits(11.0), bits(12.0), bits(13.0)),
        foot: (bits(14.0), bits(15.0), bits(16.0)),
        shoulder: (bits(17.0), bits(18.0), bits(19.0)),
        lantern: (bits(20.0), bits(21.0), bits(22.0)),
    }
}

fn bone_floats(b: &Bone) -> [f32; 10] {
    let f = f32::from_bits;
    [
        f(b.offset.x),
        f(b.offset.y),
        f(b.offset.z),
        f(b.ori.x),
        f(b.ori.y),
        f(b.ori.z),
        f(b.ori.w),
        f(b.scale.x),
        f(b.scale.y),
        f(b.scale.z),
    ]
}

fn skeleton_floats(s: &CharacterSkeleton) -> [[f32; 10]; 20] {
    let mut out = [[0.0f32; 10]; 20];
    for (i, b) in s.to_bones().iter().enumerate() {
        out[i] = bone_floats(b);
    }
    out
}

#[allow(clippy::type_complexity)]
fn attr_floats(
    a: &SkeletonAttr,
) -> (
    f32,
    f32,
    (f32, f32),
    (f32, f32),
    (f32, f32),
    (f32, f32),
    (f32, f32),
    (f32, f32, f32),
    (f32, f32, f32),
    (f32, f32, f32),
    (f32, f32, f32),
) {
    let f = f32::from_bits;
    (
        f(a.scaler),
        f(a.head_scale),
        (f(a.head.0), f(a.head.1)),
        (f(a.chest.0), f(a.chest.1)),
        (f(a.belt.0), f(a.belt.1)),
        (f(a.back.0), f(a.back.1)),
        (f(a.shorts.0), f(a.shorts.1)),
        (f(a.hand.0), f(a.hand.1), f(a.hand.2)),
        (f(a.foot.0), f(a.foot.1), f(a.foot.2)),
        (f(a.shoulder.0), f(a.shoulder.1), f(a.shoulder.2)),
        (f(a.lantern.0), f(a.lantern.1), f(a.lantern.2)),
    )
}

#[test]
fn le_words_are_little_endian() {
    let mut out = Vec::new();
    put_u32(&mut out, 0x0102_0304);
    put_u64(&mut out, 0x1122_3344_5566_7788);
    assert_eq!(out, vec![4, 3, 2, 1, 0x88, 0x77, 0x66, 0x55, 0x44, 0x33, 0x22, 0x11]);
    assert_eq!(get_u32(&out, 0), 0x0102_0304);
    assert_eq!(get_u64(&out, 4), 0x1122_3344_5566_7788);
}

#[test]
fn words_round_trip() {
    let ws = vec![0u32, 1, 0xdead_beef, u32::MAX];
    let mut out = vec![9u8];
    put_words(&mut out, &ws);
    assert_eq!(out.len(), 17);
    assert_eq!(read_words(&out, 1, 4), ws);
}

#[test]
fn default_bone_is_identity_pose() {
    let b = Bone::default();
    assert_eq!(f32::from_bits(b.offset.x), 0.0);
    assert_eq!(f32::from_bits(b.ori.w), 1.0);
    assert_eq!(b.ori.w, ONE_BITS);
    assert_eq!(f32::from_bits(b.scale.y), 1.0f32 / 11.0);
    assert_eq!(b.scale.z, ELEVENTH_BITS);
    let s = CharacterSkeleton::new();
    assert!(s.to_bones().iter().all(|x| *x == b));
}

#[test]
fn request_round_trip() {
    let x = AnimationPassTrough {
        dependency: 12.5f64.to_bits(),
        skeleton: sample_skeleton(),
        attr: sample_attr(),
        rate: bits(3.5),
    };
    let bytes = x.encode();
    assert_eq!(bytes.len(), REQUEST_LEN);
    let mut padded = bytes.clone();
    padded.extend_from_slice(&[0xaa; 40]);
    let y = AnimationPassTrough::decode(&padded).unwrap();
    assert_eq!(y.dependency, x.dependency);
    assert_eq!(y.skeleton, x.skeleton);
    assert_eq!(y.attr.to_words(), x.attr.to_words());
    assert_eq!(y.rate, x.rate);
    assert!(AnimationPassTrough::decode(&bytes[..REQUEST_LEN - 1].to_vec()).is_none());
}

#[test]
fn request_layout_matches_bincode() {
    let x = AnimationPassTrough {
        dependency: 0.75f64.to_bits(),
        skeleton: sample_skeleton(),
        attr: sample_attr(),
        rate: bits(-2.0),
    };
    let reference = bincode::serialize(&(
        0.75f64,
        skeleton_floats(&x.skeleton),
        attr_floats(&x.attr),
        -2.0f32,
    ))
    .unwrap();
    assert_eq!(x.encode(), reference);
}

#[test]
fn response_round_trip_and_layout() {
    let x = AnimReturn(sample_skeleton(), bits(0.5));
    let bytes = x.encode();
    assert_eq!(bytes.len(), RESPONSE_LEN);
    let reference = bincode::serialize(&(skeleton_floats(&x.0), 0.5f32)).unwrap();
    assert_eq!(bytes, reference);
    let y = AnimReturn::decode(&bytes).unwrap();
    assert_eq!(y.0, x.0);
    assert_eq!(y.1, x.1);
    assert!(AnimReturn::decode(&vec![0u8; 10]).is_none());
}

#[test]
fn records_fit_in_staging_buffer() {
    assert!(REQUEST_LEN <= STAGING_LEN);
    assert!(RESPONSE_LEN <= STAGING_LEN);
    assert_eq!(figure_anim::metadata().encode().len(), 58);
}
