use skybox_net::block::{full_cube, FaceDirection};

#[test]
fn full_cube_lists_all_six_directions() {
    let faces = full_cube();
    assert_eq!(
        faces,
        vec![
            FaceDirection::Bottom,
            FaceDirection::Top,
            FaceDirection::North,
            FaceDirection::South,
            FaceDirection::West,
            FaceDirection::East,
        ]
    );
}

#[test]
fn layer_indices_follow_the_strip_order() {
    assert_eq!(FaceDirection::East.layer_index(), 0);
    assert_eq!(FaceDirection::West.layer_index(), 1);
    assert_eq!(FaceDirection::Top.layer_index(), 2);
    assert_eq!(FaceDirection::Bottom.layer_index(), 3);
    assert_eq!(FaceDirection::South.layer_index(), 4);
    assert_eq!(FaceDirection::North.layer_index(), 5);
}

#[test]
fn each_layer_is_used_exactly_once() {
    let faces = full_cube();
    let mut seen = [false; 6];
    for f in faces {
        let i = f.layer_index() as usize;
        assert!(!seen[i]);
        seen[i] = true;
    }
    assert!(seen.iter().all(|s| *s));
}
