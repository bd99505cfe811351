use pathtrace::scene::{has_background_material, materials_in_range};

#[test]
fn all_indices_in_range_pass() {
    // The demo scene: five materials, one plane and three spheres.
    let ids = vec![1, 2, 3, 4];
    assert!(materials_in_range(5, &ids));
    assert!(has_background_material(5));
}

#[test]
fn an_out_of_range_index_fails() {
    let ids = vec![1, 5, 2];
    assert!(!materials_in_range(5, &ids));
    let ids2 = vec![0, 0, 7];
    assert!(!materials_in_range(7, &ids2));
}

#[test]
fn no_primitives_is_a_valid_scene() {
    let ids: Vec<usize> = Vec::new();
    assert!(materials_in_range(1, &ids));
    assert!(has_background_material(1));
}

#[test]
fn an_empty_material_table_has_no_background() {
    assert!(!has_background_material(0));
    let ids = vec![0];
    assert!(!materials_in_range(0, &ids));
}
