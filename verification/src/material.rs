use vstd::prelude::*;
use vstd::string::StringExecFns;

verus! {

/// The names under which a shader program expects the properties of a
/// material. A property without a name is not handed to the program. A
/// texture comes with the texture unit that it is bound to.
pub struct MaterialBindings {
    pub ambient: Option<String>,
    pub emissive: Option<String>,
    pub diffuse: Option<String>,
    pub specular: Option<String>,
    pub shininess: Option<String>,
    pub dissolve: Option<String>,
    pub optical_density: Option<String>,
    pub ambient_texture: Option<(String, u32)>,
    pub diffuse_texture: Option<(String, u32)>,
    pub specular_texture: Option<(String, u32)>,
    pub normal_texture: Option<(String, u32)>,
    pub shininess_texture: Option<(String, u32)>,
    pub dissolve_texture: Option<(String, u32)>,
    pub illumination_model: Option<String>,
}

/// Which properties a material defines.
#[derive(Debug, Clone, Copy, PartialEq, Eq, Structural)]
pub struct MaterialPresence {
    pub ambient: bool,
    pub emissive: bool,
    pub diffuse: bool,
    pub specular: bool,
    pub shininess: bool,
    pub dissolve: bool,
    pub optical_density: bool,
    pub ambient_texture: bool,
    pub diffuse_texture: bool,
    pub specular_texture: bool,
    pub normal_texture: bool,
    pub shininess_texture: bool,
    pub dissolve_texture: bool,
    pub illumination_model: bool,
}

/// A property of a material.
#[derive(Debug, Clone, Copy, PartialEq, Eq, Structural)]
pub enum MaterialProperty {
    Ambient,
    Emissive,
    Diffuse,
    Specular,
    Shininess,
    Dissolve,
    OpticalDensity,
    AmbientTexture,
    DiffuseTexture,
    SpecularTexture,
    NormalTexture,
    ShininessTexture,
    DissolveTexture,
    IlluminationModel,
}

/// One property handed to a shader program: the value goes to the uniform
/// `name`, and whether the material defines it goes to the uniform
/// `flag_name`. For a texture, `texture_unit` is the unit on which it is
/// bound and whose number is the value of the uniform `name`.
#[derive(Debug)]
pub struct UniformWrite {
    pub property: MaterialProperty,
    pub name: String,
    pub flag_name: String,
    pub present: bool,
    pub texture_unit: Option<u32>,
}

/// A uniform write as a mathematical value.
pub struct WriteView {
    pub property: MaterialProperty,
    pub name: Seq<char>,
    pub flag_name: Seq<char>,
    pub present: bool,
    pub texture_unit: Option<u32>,
}

impl View for UniformWrite {
    type V = WriteView;

    open spec fn view(&self) -> WriteView {
        WriteView {
            property: self.property,
            name: self.name@,
            flag_name: self.flag_name@,
            present: self.present,
            texture_unit: self.texture_unit,
        }
    }
}

/// The prefix that turns the name of a uniform into the name of its flag.
pub open spec fn flag_prefix() -> Seq<char> {
    "has_"@
}

/// The writes for a property with a plain value: one if it has a name.
pub open spec fn value_writes(property: MaterialProperty, binding: Option<String>, present: bool) -> Seq<
    WriteView,
> {
    match binding {
        Some(name) => seq![
            WriteView {
                property,
                name: name@,
                flag_name: flag_prefix() + name@,
                present,
                texture_unit: None,
            },
        ],
        None => seq![],
    }
}

/// The writes for a texture: one if it has a name.
pub open spec fn texture_writes(
    property: MaterialProperty,
    binding: Option<(String, u32)>,
    present: bool,
) -> Seq<WriteView> {
    match binding {
        Some((name, unit)) => seq![
            WriteView {
                property,
                name: name@,
                flag_name: flag_prefix() + name@,
                present,
                texture_unit: Some(unit),
            },
        ],
        None => seq![],
    }
}

/// The writes that hand a material to a program, in order: the plain
/// values, then the textures, then the illumination model.
pub open spec fn write_list(b: MaterialBindings, p: MaterialPresence) -> Seq<WriteView> {
    value_writes(MaterialProperty::Ambient, b.ambient, p.ambient) + value_writes(
        MaterialProperty::Emissive,
        b.emissive,
        p.emissive,
    ) + value_writes(MaterialProperty::Diffuse, b.diffuse, p.diffuse) + value_writes(
        MaterialProperty::Specular,
        b.specular,
        p.specular,
    ) + value_writes(MaterialProperty::Shininess, b.shininess, p.shininess) + value_writes(
        MaterialProperty::Dissolve,
        b.dissolve,
        p.dissolve,
    ) + value_writes(MaterialProperty::OpticalDensity, b.optical_density, p.optical_density)
        + texture_writes(MaterialProperty::AmbientTexture, b.ambient_texture, p.ambient_texture)
        + texture_writes(MaterialProperty::DiffuseTexture, b.diffuse_texture, p.diffuse_texture)
        + texture_writes(MaterialProperty::SpecularTexture, b.specular_texture, p.specular_texture)
        + texture_writes(MaterialProperty::NormalTexture, b.normal_texture, p.normal_texture)
        + texture_writes(MaterialProperty::ShininessTexture, b.shininess_texture, p.shininess_texture)
        + texture_writes(MaterialProperty::DissolveTexture, b.dissolve_texture, p.dissolve_texture)
        + value_writes(MaterialProperty::IlluminationModel, b.illumination_model, p.illumination_model)
}

/// A list of writes as a mathematical value.
pub open spec fn writes_view(writes: Seq<UniformWrite>) -> Seq<WriteView> {
    writes.map_values(|w: UniformWrite| w@)
}

/// The name of the uniform that says whether the property `name` is
/// defined.
pub fn flag_name(name: &String) -> (flag: String)
    ensures
        flag@ == flag_prefix() + name@,
{
    String::from_str("has_").concat(name.as_str())
}

/// Appends the write for a property with a plain value.
fn push_value(
    writes: &mut Vec<UniformWrite>,
    property: MaterialProperty,
    binding: &Option<String>,
    present: bool,
)
    ensures
        writes_view(final(writes)@) == writes_view(old(writes)@) + value_writes(
            property,
            *binding,
            present,
        ),
{
    if let Some(name) = binding {
        writes.push(
            UniformWrite {
                property,
                name: name.clone(),
                flag_name: flag_name(name),
                present,
                texture_unit: None,
            },
        );
    }
    assert(writes_view(writes@) =~= writes_view(old(writes)@) + value_writes(
        property,
        *binding,
        present,
    ));
}

/// Appends the write for a texture.
fn push_texture(
    writes: &mut Vec<UniformWrite>,
    property: MaterialProperty,
    binding: &Option<(String, u32)>,
    present: bool,
)
    ensures
        writes_view(final(writes)@) == writes_view(old(writes)@) + texture_writes(
            property,
            *binding,
            present,
        ),
{
    if let Some((name, unit)) = binding {
        writes.push(
            UniformWrite {
                property,
                name: name.clone(),
                flag_name: flag_name(name),
                present,
                texture_unit: Some(*unit),
            },
        );
    }
    assert(writes_view(writes@) =~= writes_view(old(writes)@) + texture_writes(
        property,
        *binding,
        present,
    ));
}

/// The writes that hand a material to a program. A property without a
/// name is skipped; a named property that the material lacks is written
/// with its flag cleared, so that the program can fall back.
pub fn uniform_writes(bindings: &MaterialBindings, presence: &MaterialPresence) -> (writes: Vec<
    UniformWrite,
>)
    ensures
        writes_view(writes@) == write_list(*bindings, *presence),
{
    let mut writes: Vec<UniformWrite> = Vec::new();
    assert(writes_view(writes@) =~= Seq::<WriteView>::empty());
    push_value(&mut writes, MaterialProperty::Ambient, &bindings.ambient, presence.ambient);
    push_value(&mut writes, MaterialProperty::Emissive, &bindings.emissive, presence.emissive);
    push_value(&mut writes, MaterialProperty::Diffuse, &bindings.diffuse, presence.diffuse);
    push_value(&mut writes, MaterialProperty::Specular, &bindings.specular, presence.specular);
    push_value(&mut writes, MaterialProperty::Shininess, &bindings.shininess, presence.shininess);
    push_value(&mut writes, MaterialProperty::Dissolve, &bindings.dissolve, presence.dissolve);
    push_value(
        &mut writes,
        MaterialProperty::OpticalDensity,
        &bindings.optical_density,
        presence.optical_density,
    );
    push_texture(
        &mut writes,
        MaterialProperty::AmbientTexture,
        &bindings.ambient_texture,
        presence.ambient_texture,
    );
    push_texture(
        &mut writes,
        MaterialProperty::DiffuseTexture,
        &bindings.diffuse_texture,
        presence.diffuse_texture,
    );
    push_texture(
        &mut writes,
        MaterialProperty::SpecularTexture,
        &bindings.specular_texture,
        presence.specular_texture,
    );
    push_texture(
        &mut writes,
        MaterialProperty::NormalTexture,
        &bindings.normal_texture,
        presence.normal_texture,
    );
    push_texture(
        &mut writes,
        MaterialProperty::ShininessTexture,
        &bindings.shininess_texture,
        presence.shininess_texture,
    );
    push_texture(
        &mut writes,
        MaterialProperty::DissolveTexture,
        &bindings.dissolve_texture,
        presence.dissolve_texture,
    );
    push_value(
        &mut writes,
        MaterialProperty::IlluminationModel,
        &bindings.illumination_model,
        presence.illumination_model,
    );
    assert(writes_view(writes@) =~= write_list(*bindings, *presence));
    writes
}

} // verus!
