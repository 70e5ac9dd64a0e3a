use radiance_cascades::mesh::{
    attribute_action, tangent_inputs_are_usable, triangle_count, Attribute, AttributeAction,
    LoadError, MeshLayout, MissingBindings, MissingPosition,
};

#[test]
fn load_errors_have_messages() {
    assert_eq!(LoadError::ReadError.message(), "read error");
    assert_eq!(LoadError::ParseError.message(), "parse error");
}

#[test]
fn a_plain_mesh_has_no_optional_buffers() {
    assert_eq!(
        MeshLayout::loaded(0, 0, 36, false, false),
        Some(MeshLayout {
            has_normals: false,
            has_texture_coordinates: false,
            has_tangents: false,
            has_bitangents: false,
            generates_tangents: false,
            num_indices: 36,
        })
    );
}

#[test]
fn tangents_need_a_loader_or_both_inputs() {
    let with_loader = MeshLayout::loaded(0, 0, 3, true, false).unwrap();
    assert!(with_loader.has_tangents && with_loader.has_bitangents && !with_loader.generates_tangents);
    let generated = MeshLayout::loaded(9, 6, 3, false, true).unwrap();
    assert!(generated.has_tangents && generated.has_bitangents && generated.generates_tangents);
    assert!(generated.has_normals && generated.has_texture_coordinates);
    let no_normals = MeshLayout::loaded(0, 6, 3, false, true).unwrap();
    assert!(!no_normals.has_tangents && !no_normals.generates_tangents);
    let no_coordinates = MeshLayout::loaded(9, 0, 3, false, true).unwrap();
    assert!(!no_coordinates.has_bitangents && !no_coordinates.generates_tangents);
    let not_asked = MeshLayout::loaded(9, 6, 3, false, false).unwrap();
    assert!(!not_asked.has_tangents);
    let both = MeshLayout::loaded(0, 0, 3, true, true).unwrap();
    assert!(both.has_tangents && !both.generates_tangents);
}

#[test]
fn too_many_indices_give_no_layout() {
    assert!(MeshLayout::loaded(3, 2, 0x7fff_ffff, false, false).is_some());
    assert_eq!(MeshLayout::loaded(3, 2, 0x8000_0000, false, false), None);
    assert_eq!(MeshLayout::raw(true, true, 0x8000_0000), None);
}

#[test]
fn raw_meshes_have_what_was_handed_over() {
    assert_eq!(
        MeshLayout::raw(true, false, 6),
        Some(MeshLayout {
            has_normals: true,
            has_texture_coordinates: false,
            has_tangents: false,
            has_bitangents: false,
            generates_tangents: false,
            num_indices: 6,
        })
    );
}

#[test]
fn tangent_inputs_are_checked() {
    // Three vertices: nine position and normal numbers, six coordinates.
    assert!(tangent_inputs_are_usable(&vec![0, 1, 2], 9, 9, 6));
    assert!(tangent_inputs_are_usable(&vec![], 0, 0, 0));
    assert!(!tangent_inputs_are_usable(&vec![0, 1, 3], 12, 12, 8));
    assert!(tangent_inputs_are_usable(&vec![0, 1, 3, 2], 12, 12, 8));
    assert!(!tangent_inputs_are_usable(&vec![0, 1, 2], 8, 9, 6));
    assert!(!tangent_inputs_are_usable(&vec![0, 1, 2], 9, 8, 6));
    assert!(!tangent_inputs_are_usable(&vec![0, 1, 2], 9, 9, 5));
    assert!(!tangent_inputs_are_usable(&vec![0, u32::MAX, 2], 9, 9, 6));
    assert_eq!(triangle_count(0), 0);
    assert_eq!(triangle_count(5), 1);
    assert_eq!(triangle_count(36), 12);
}

#[test]
fn attributes_are_bound_where_everything_is_there() {
    assert_eq!(
        attribute_action(Attribute::Position, true, Some(0), true),
        Ok(AttributeAction::Bind { location: 0, components: 3 })
    );
    assert_eq!(
        attribute_action(Attribute::TextureCoordinate, true, Some(4), true),
        Ok(AttributeAction::Bind { location: 4, components: 2 })
    );
    assert_eq!(
        attribute_action(Attribute::Normal, true, Some(1), true),
        Ok(AttributeAction::Bind { location: 1, components: 3 })
    );
    assert_eq!(
        attribute_action(Attribute::Tangent, true, Some(2), true),
        Ok(AttributeAction::Bind { location: 2, components: 3 })
    );
    assert_eq!(
        attribute_action(Attribute::Bitangent, true, Some(3), true),
        Ok(AttributeAction::Bind { location: 3, components: 3 })
    );
}

#[test]
fn missing_optional_inputs_are_skipped() {
    assert_eq!(attribute_action(Attribute::Tangent, true, None, true), Ok(AttributeAction::Skip));
    assert_eq!(attribute_action(Attribute::Tangent, true, Some(2), false), Ok(AttributeAction::Skip));
    assert_eq!(attribute_action(Attribute::Normal, false, Some(2), true), Ok(AttributeAction::Skip));
    assert_eq!(attribute_action(Attribute::Position, false, None, true), Ok(AttributeAction::Skip));
}

#[test]
fn a_missing_position_is_an_error() {
    assert_eq!(attribute_action(Attribute::Position, true, None, true), Err(MissingPosition));
    assert_eq!(attribute_action(Attribute::Position, true, None, false), Err(MissingPosition));
}

#[test]
fn missing_bindings_are_noted_once() {
    let mut record = MissingBindings::new();
    assert!(record.note(&String::from("v_tangent")));
    assert!(!record.note(&String::from("v_tangent")));
    assert!(record.note(&String::from("v_bitangent")));
    assert!(!record.note(&String::from("v_tangent")));
    assert!(!record.note(&String::from("v_bitangent")));
    assert!(record.note(&String::new()));
    assert!(!record.note(&String::new()));
}
