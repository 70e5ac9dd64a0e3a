use radiance_cascades::material::{
    flag_name, uniform_writes, MaterialBindings, MaterialPresence, MaterialProperty,
};

fn no_bindings() -> MaterialBindings {
    MaterialBindings {
        ambient: None,
        emissive: None,
        diffuse: None,
        specular: None,
        shininess: None,
        dissolve: None,
        optical_density: None,
        ambient_texture: None,
        diffuse_texture: None,
        specular_texture: None,
        normal_texture: None,
        shininess_texture: None,
        dissolve_texture: None,
        illumination_model: None,
    }
}

fn presence(all: bool) -> MaterialPresence {
    MaterialPresence {
        ambient: all,
        emissive: all,
        diffuse: all,
        specular: all,
        shininess: all,
        dissolve: all,
        optical_density: all,
        ambient_texture: all,
        diffuse_texture: all,
        specular_texture: all,
        normal_texture: all,
        shininess_texture: all,
        dissolve_texture: all,
        illumination_model: all,
    }
}

#[test]
fn flag_names_carry_the_prefix() {
    assert_eq!(flag_name(&String::from("diffuse")), "has_diffuse");
    assert_eq!(flag_name(&String::new()), "has_");
}

#[test]
fn nothing_named_nothing_written() {
    assert!(uniform_writes(&no_bindings(), &presence(true)).is_empty());
}

#[test]
fn scene_bindings_are_written_in_order() {
    let bindings = MaterialBindings {
        emissive: Some(String::from("emissive")),
        diffuse: Some(String::from("diffuse")),
        specular: Some(String::from("specular")),
        dissolve: Some(String::from("opacity")),
        diffuse_texture: Some((String::from("diffuse_tex"), 0)),
        specular_texture: Some((String::from("specular_tex"), 1)),
        normal_texture: Some((String::from("normal_map"), 2)),
        dissolve_texture: Some((String::from("opacity_tex"), 3)),
        ..no_bindings()
    };
    let mut has = presence(false);
    has.diffuse = true;
    has.normal_texture = true;
    let writes = uniform_writes(&bindings, &has);
    let summary: Vec<(MaterialProperty, &str, &str, bool, Option<u32>)> = writes
        .iter()
        .map(|w| (w.property, w.name.as_str(), w.flag_name.as_str(), w.present, w.texture_unit))
        .collect();
    assert_eq!(
        summary,
        vec![
            (MaterialProperty::Emissive, "emissive", "has_emissive", false, None),
            (MaterialProperty::Diffuse, "diffuse", "has_diffuse", true, None),
            (MaterialProperty::Specular, "specular", "has_specular", false, None),
            (MaterialProperty::Dissolve, "opacity", "has_opacity", false, None),
            (MaterialProperty::DiffuseTexture, "diffuse_tex", "has_diffuse_tex", false, Some(0)),
            (MaterialProperty::SpecularTexture, "specular_tex", "has_specular_tex", false, Some(1)),
            (MaterialProperty::NormalTexture, "normal_map", "has_normal_map", true, Some(2)),
            (MaterialProperty::DissolveTexture, "opacity_tex", "has_opacity_tex", false, Some(3)),
        ]
    );
}

#[test]
fn every_property_has_its_place() {
    let name = |s: &str| Some(String::from(s));
    let tex = |s: &str, unit: u32| Some((String::from(s), unit));
    let bindings = MaterialBindings {
        ambient: name("a"),
        emissive: name("b"),
        diffuse: name("c"),
        specular: name("d"),
        shininess: name("e"),
        dissolve: name("f"),
        optical_density: name("g"),
        ambient_texture: tex("h", 10),
        diffuse_texture: tex("i", 11),
        specular_texture: tex("j", 12),
        normal_texture: tex("k", 13),
        shininess_texture: tex("l", 14),
        dissolve_texture: tex("m", 15),
        illumination_model: name("n"),
    };
    let writes = uniform_writes(&bindings, &presence(true));
    let properties: Vec<MaterialProperty> = writes.iter().map(|w| w.property).collect();
    assert_eq!(
        properties,
        vec![
            MaterialProperty::Ambient,
            MaterialProperty::Emissive,
            MaterialProperty::Diffuse,
            MaterialProperty::Specular,
            MaterialProperty::Shininess,
            MaterialProperty::Dissolve,
            MaterialProperty::OpticalDensity,
            MaterialProperty::AmbientTexture,
            MaterialProperty::DiffuseTexture,
            MaterialProperty::SpecularTexture,
            MaterialProperty::NormalTexture,
            MaterialProperty::ShininessTexture,
            MaterialProperty::DissolveTexture,
            MaterialProperty::IlluminationModel,
        ]
    );
    let names: String = writes.iter().map(|w| w.name.as_str()).collect();
    assert_eq!(names, "abcdefghijklmn");
    let units: Vec<Option<u32>> = writes.iter().map(|w| w.texture_unit).collect();
    assert_eq!(units[..7], [None; 7]);
    assert_eq!(units[7..13], [Some(10), Some(11), Some(12), Some(13), Some(14), Some(15)]);
    assert_eq!(units[13], None);
    assert!(writes.iter().all(|w| w.present));
    assert!(writes.iter().all(|w| w.flag_name == format!("has_{}", w.name)));
}
