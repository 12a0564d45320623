use skelanim::entity::EntityVariableArray;
use skelanim::mesh::{index_layout, resolve_corners, split_indices, CornerAttributes, IndexLayout, IndexStreams, MeshError, PrimitiveInput, Semantic};
use skelanim::sprite::SpriteAnimation;

#[test]
fn variables_declare_get_delete() {
    let mut vars: EntityVariableArray<i64> = EntityVariableArray::new();
    assert_eq!(vars.len(), 0);
    *vars.declare("speed", 3) += 1;
    vars.declare("lives", 9);
    assert_eq!(vars.len(), 2);
    assert_eq!(*vars.get("speed"), 4);
    *vars.get("lives") -= 1;
    vars.declare("speed", 10);
    assert_eq!(vars.len(), 2);
    assert_eq!(vars.delete("speed"), 10);
    assert_eq!(vars.delete("lives"), 8);
    assert_eq!(vars.len(), 0);
}

#[test]
fn sprite_frames_advance_and_wrap() {
    let mut s = SpriteAnimation::new(vec!['a', 'b', 'c']);
    assert_eq!(*s.get_current_frame(), 'a');
    s.animate(20, 90);
    assert_eq!((s.current_frame, s.elapsed_time), (0, 20));
    s.animate(20, 90);
    assert_eq!(s.elapsed_time, 40);
    s.animate(20, 90);
    assert_eq!((s.current_frame, s.elapsed_time), (1, 0));
    s.current_frame = 2;
    s.elapsed_time = 30;
    s.animate(1, 90);
    assert_eq!(*s.get_current_frame(), 'a');
}

#[test]
fn sprite_without_frames_only_counts() {
    let mut s: SpriteAnimation<u8> = SpriteAnimation::new(vec![]);
    s.animate(5, 10);
    s.animate(5, 10);
    assert_eq!((s.current_frame, s.elapsed_time), (0, 10));
}

#[test]
fn layout_takes_last_offsets_and_widest_stride() {
    let inputs = vec![
        PrimitiveInput { semantic: Semantic::Other, offset: 0 },
        PrimitiveInput { semantic: Semantic::Normal, offset: 1 },
        PrimitiveInput { semantic: Semantic::TexCoord, offset: 2 },
        PrimitiveInput { semantic: Semantic::Color, offset: 4 },
        PrimitiveInput { semantic: Semantic::Normal, offset: 3 },
    ];
    assert_eq!(
        index_layout(&inputs),
        IndexLayout { stride: 5, normal: Some(3), texcoord: Some(2), color: Some(4) }
    );
    let plain = index_layout(&vec![PrimitiveInput { semantic: Semantic::Other, offset: 0 }]);
    assert_eq!(plain, IndexLayout { stride: 3, normal: None, texcoord: None, color: None });
}

#[test]
fn indices_split_into_streams() {
    let layout = IndexLayout { stride: 3, normal: Some(1), texcoord: None, color: Some(2) };
    let mut s = IndexStreams { positions: vec![], normals: vec![], texcoords: vec![], colors: vec![] };
    split_indices(&vec![0, 10, 20, 1, 11, 21], &layout, &mut s).unwrap();
    split_indices(&vec![2, 12, 22], &layout, &mut s).unwrap();
    assert_eq!(s.positions, vec![0, 1, 2]);
    assert_eq!(s.normals, vec![10, 11, 12]);
    assert!(s.texcoords.is_empty());
    assert_eq!(s.colors, vec![20, 21, 22]);
    assert_eq!(split_indices(&vec![0, 1, 2, 3], &layout, &mut s), Err(MeshError::TruncatedPrimitive));
}

#[test]
fn corners_pick_attribute_slots() {
    let s = IndexStreams { positions: vec![0, 1], normals: vec![1, 5], texcoords: vec![], colors: vec![] };
    let cs = resolve_corners(&s, 2, 2, 0, 3).unwrap();
    assert_eq!(
        cs,
        vec![
            CornerAttributes { position: 0, normal: Some(1), texcoord: None, color: Some(0) },
            CornerAttributes { position: 1, normal: None, texcoord: None, color: Some(0) },
        ]
    );
    assert_eq!(resolve_corners(&s, 1, 2, 0, 0), Err(MeshError::PositionOutOfRange(1)));
    let short = IndexStreams { positions: vec![0, 0], normals: vec![0], texcoords: vec![], colors: vec![] };
    assert_eq!(resolve_corners(&short, 1, 1, 0, 0), Err(MeshError::MissingAttributeIndex(1)));
}
