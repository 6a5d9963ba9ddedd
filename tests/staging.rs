use figure_anim::chain::CHARACTER_BONE_COUNT;
use figure_anim::skeleton::ONE_BITS;
use figure_anim::{
    metadata, AnimReturn, AnimationPassTrough, BoneId, CharacterSkeleton, FigureBoneData, Skeleton,
    SkeletonAttr, SkeletonTy, StagingBuffer, StagingError, LANTERN_SLOT, METADATA_VERSION, SLOT_COUNT,
    STAGING_LEN,
};

#[test]
fn metadata_scenario() {
    let m = metadata();
    assert_eq!(m.version, METADATA_VERSION);
    assert_eq!(m.version, 0);
    assert_eq!(m.skeletons.len(), 1);
    assert_eq!(m.skeletons[0].0, SkeletonTy::Character);
    assert_eq!(m.skeletons[0].1, vec![("idle".to_string(), "character_idle".to_string())]);
    let decoded: (u32, Vec<(u32, Vec<(String, String)>)>) =
        bincode::deserialize(&m.encode()).unwrap();
    assert_eq!(decoded, (0, vec![(0, vec![("idle".to_string(), "character_idle".to_string())])]));
}

#[test]
fn symbol_lookup() {
    let m = metadata();
    assert_eq!(
        m.symbol(SkeletonTy::Character, &"idle".to_string()),
        Some("character_idle".to_string())
    );
    assert_eq!(m.symbol(SkeletonTy::Character, &"run".to_string()), None);
}

#[test]
fn published_metadata_in_buffer() {
    let mut buf = StagingBuffer::new();
    buf.publish_metadata();
    let bytes = metadata().encode();
    assert_eq!(&buf.bytes()[..bytes.len()], &bytes[..]);
    assert!(buf.bytes()[bytes.len()..].iter().all(|b| *b == 0));
    assert_eq!(buf.bytes().len(), STAGING_LEN);
}

#[test]
fn write_overflow_is_rejected() {
    let mut buf = StagingBuffer::new();
    assert_eq!(buf.write(&vec![7u8; 3]), Ok(()));
    assert_eq!(buf.write(&vec![1u8; STAGING_LEN + 1]), Err(StagingError::Overflow));
    assert_eq!(&buf.bytes()[..4], &[7, 7, 7, 0]);
    assert_eq!(buf.write(&vec![2u8; STAGING_LEN]), Ok(()));
    assert!(buf.bytes().iter().all(|b| *b == 2));
}

#[test]
fn request_and_response_through_buffer() {
    let mut buf = StagingBuffer::new();
    let req = AnimationPassTrough {
        dependency: 0,
        skeleton: CharacterSkeleton::new(),
        attr: SkeletonAttr::default(),
        rate: 3.5f32.to_bits(),
    };
    buf.write_request(&req);
    let got = buf.read_request();
    assert_eq!(got.skeleton, req.skeleton);
    assert_eq!(f32::from_bits(got.rate), 3.5);
    buf.write_response(&AnimReturn(got.skeleton, got.rate));
    let ret = buf.read_response();
    assert_eq!(ret.0, CharacterSkeleton::new());
    assert_eq!(ret.1, req.rate);
}

#[test]
fn compositor_chains() {
    assert_eq!(SLOT_COUNT, 16);
    assert_eq!(CharacterSkeleton::chain(0), vec![BoneId::Torso, BoneId::Chest, BoneId::Head]);
    assert_eq!(
        CharacterSkeleton::chain(5),
        vec![BoneId::Torso, BoneId::Chest, BoneId::Control, BoneId::LControl, BoneId::LHand]
    );
    assert_eq!(
        CharacterSkeleton::chain(LANTERN_SLOT),
        vec![BoneId::Torso, BoneId::Chest, BoneId::Shorts, BoneId::Lantern]
    );
    assert_eq!(
        CharacterSkeleton::chain(15),
        vec![BoneId::Torso, BoneId::Chest, BoneId::LHand, BoneId::Hold]
    );
    let mut s = CharacterSkeleton::new();
    s.torso.offset.x = 1;
    s.hold.offset.x = 2;
    let bones = s.chain_bones(15);
    assert_eq!(bones.len(), 4);
    assert_eq!(bones[0], s.torso);
    assert_eq!(bones[3], s.hold);
    assert_eq!(s.bone(BoneId::Hold), s.hold);
}

#[test]
fn bone_count_and_identity_matrix() {
    let s = CharacterSkeleton::new();
    assert_eq!(s.bone_count(), CHARACTER_BONE_COUNT);
    assert_eq!(s.bone_count(), 15);
    let m = FigureBoneData::default().columns();
    for c in 0..4 {
        for k in 0..4 {
            assert_eq!(m[c][k], if c == k { ONE_BITS } else { 0 });
        }
    }
}

#[test]
fn metadata_decode_round_trip() {
    let m = metadata();
    let mut bytes = m.encode();
    bytes.extend_from_slice(&[0xff; 30]);
    let d = figure_anim::Metadata::decode(&bytes).unwrap();
    assert_eq!(d.version, 0);
    assert_eq!(d.skeletons, m.skeletons);
    let mut buf = StagingBuffer::new();
    buf.publish_metadata();
    let r = buf.read_metadata().unwrap();
    assert_eq!(r.skeletons, m.skeletons);
}

#[test]
fn metadata_decode_rejects_malformed() {
    let bytes = metadata().encode();
    assert!(figure_anim::Metadata::decode(&bytes[..bytes.len() - 1].to_vec()).is_none());
    assert!(figure_anim::Metadata::decode(&vec![0u8; 11]).is_none());
    let mut bad_tag = bytes.clone();
    bad_tag[12] = 1;
    assert!(figure_anim::Metadata::decode(&bad_tag).is_none());
    let mut bad_utf8 = bytes.clone();
    bad_utf8[32] = 0xff;
    assert!(figure_anim::Metadata::decode(&bad_utf8).is_none());
    let other = figure_anim::Metadata {
        version: 7,
        skeletons: vec![
            (SkeletonTy::Character, vec![]),
            (SkeletonTy::Character, vec![("wave".to_string(), "hände".to_string())]),
        ],
    };
    let d = figure_anim::Metadata::decode(&other.encode()).unwrap();
    assert_eq!(d.version, 7);
    assert_eq!(d.skeletons, other.skeletons);
    assert_eq!(
        d.symbol(SkeletonTy::Character, &"wave".to_string()),
        Some("hände".to_string())
    );
}
