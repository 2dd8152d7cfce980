use aios_core::mesh::{
    merge_indices, obj_face_lines, triangles, unit_cylinder_indices, UNIT_CYLINDER_INDEX_COUNT,
    UNIT_CYLINDER_VERTEX_COUNT,
};

#[test]
fn the_unit_cylinder_indices_name_existing_vertices() {
    let v = unit_cylinder_indices();
    assert_eq!(v.len(), UNIT_CYLINDER_INDEX_COUNT);
    assert!(v.iter().all(|&i| i < UNIT_CYLINDER_VERTEX_COUNT));
    // first barrel step, first top-cap triangle, last bottom-cap triangle
    assert_eq!(&v[0..6], &[1, 37, 0, 1, 38, 37]);
    assert_eq!(&v[216..219], &[74, 75, 76]);
    assert_eq!(&v[417..420], &[110, 145, 144]);
}

#[test]
fn merging_shifts_the_second_mesh_past_the_first() {
    let mut own = vec![0, 1, 2];
    merge_indices(&mut own, 3, &vec![0, 2, 1]);
    assert_eq!(own, vec![0, 1, 2, 3, 5, 4]);
}

#[test]
fn index_lists_group_into_triangles() {
    assert_eq!(triangles(&vec![0, 1]), None);
    assert_eq!(triangles(&vec![0, 1, 2, 2, 3, 0]), Some(vec![(0, 1, 2), (2, 3, 0)]));
}

#[test]
fn obj_faces_count_vertices_from_one() {
    assert_eq!(obj_face_lines(&vec![0, 1, 2, 9, 10, 11], false), "f 1 2 3\nf 10 11 12\n");
    assert_eq!(obj_face_lines(&vec![0, 1, 2], true), "f 3 2 1\n");
    assert_eq!(obj_face_lines(&vec![], false), "");
}
