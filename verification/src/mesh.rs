use vstd::prelude::*;
use crate::grid::MAX_SIDE;

verus! {

/// Why a buffer of mesh data could not be loaded.
#[derive(Debug, Clone, Copy, PartialEq, Eq, Structural)]
pub enum LoadError {
    /// The data could not be read as text.
    ReadError,
    /// A line of the data does not have the form that its key calls for.
    ParseError,
}

impl LoadError {
    /// The text of `message`, as a sequence of characters.
    pub open spec fn message_text(&self) -> Seq<char> {
        match self {
            LoadError::ReadError => "read error"@,
            LoadError::ParseError => "parse error"@,
        }
    }

    /// A short description of the error.
    pub fn message(&self) -> (s: &'static str)
        ensures
            s@ == self.message_text(),
    {
        match self {
            LoadError::ReadError => "read error",
            LoadError::ParseError => "parse error",
        }
    }
}

/// Which buffers a mesh owns and how many indices it draws.
#[derive(Debug, Clone, Copy, PartialEq, Eq, Structural)]
pub struct MeshLayout {
    pub has_normals: bool,
    pub has_texture_coordinates: bool,
    pub has_tangents: bool,
    pub has_bitangents: bool,
    /// Whether tangents are to be computed from the mesh itself.
    pub generates_tangents: bool,
    pub num_indices: u32,
}

/// The layout of a mesh read from a model file. Normals and texture
/// coordinates exist where the file gave any. Tangents and bitangents
/// exist where a loader supplies them, or where they are asked to be
/// generated and the mesh has the normals and texture coordinates to
/// generate them from.
pub open spec fn loaded_layout(
    normal_count: nat,
    texture_coordinate_count: nat,
    index_count: nat,
    has_tangent_loader: bool,
    generate_tangents: bool,
) -> MeshLayout {
    let can_generate = generate_tangents && normal_count > 0 && texture_coordinate_count > 0;
    MeshLayout {
        has_normals: normal_count > 0,
        has_texture_coordinates: texture_coordinate_count > 0,
        has_tangents: has_tangent_loader || can_generate,
        has_bitangents: has_tangent_loader || can_generate,
        generates_tangents: can_generate,
        num_indices: index_count as u32,
    }
}

impl MeshLayout {
    /// The layout of a mesh read from a model file; `None` where the
    /// indices are too many to be drawn in one call.
    pub fn loaded(
        normal_count: usize,
        texture_coordinate_count: usize,
        index_count: usize,
        has_tangent_loader: bool,
        generate_tangents: bool,
    ) -> (r: Option<MeshLayout>)
        ensures
            r == if index_count <= MAX_SIDE {
                Some(
                    loaded_layout(
                        normal_count as nat,
                        texture_coordinate_count as nat,
                        index_count as nat,
                        has_tangent_loader,
                        generate_tangents,
                    ),
                )
            } else {
                None
            },
    {
        if index_count > MAX_SIDE as usize {
            return None;
        }
        let has_normals = normal_count > 0;
        let has_texture_coordinates = texture_coordinate_count > 0;
        let can_generate = generate_tangents && has_normals && has_texture_coordinates;
        Some(
            MeshLayout {
                has_normals,
                has_texture_coordinates,
                has_tangents: has_tangent_loader || can_generate,
                has_bitangents: has_tangent_loader || can_generate,
                generates_tangents: can_generate,
                num_indices: index_count as u32,
            },
        )
    }

    /// The layout of a mesh given as raw arrays: it has the normals and
    /// texture coordinates that were handed over, and no tangents. `None`
    /// where the indices are too many to be drawn in one call.
    pub fn raw(has_normals: bool, has_texture_coordinates: bool, index_count: usize) -> (r: Option<
        MeshLayout,
    >)
        ensures
            r == if index_count <= MAX_SIDE {
                Some(
                    MeshLayout {
                        has_normals,
                        has_texture_coordinates,
                        has_tangents: false,
                        has_bitangents: false,
                        generates_tangents: false,
                        num_indices: index_count as u32,
                    },
                )
            } else {
                None
            },
    {
        if index_count > MAX_SIDE as usize {
            return None;
        }
        Some(
            MeshLayout {
                has_normals,
                has_texture_coordinates,
                has_tangents: false,
                has_bitangents: false,
                generates_tangents: false,
                num_indices: index_count as u32,
            },
        )
    }
}

/// Whether the vertex index `index` can be used to generate tangents: its
/// position and normal (three numbers each) and its texture coordinate (two
/// numbers) exist, and so does the corner of that number.
pub open spec fn corner_is_usable(
    index: u32,
    index_count: nat,
    position_count: nat,
    normal_count: nat,
    texture_coordinate_count: nat,
) -> bool {
    &&& 3 * index + 2 < position_count
    &&& 3 * index + 2 < normal_count
    &&& 2 * index + 1 < texture_coordinate_count
    &&& index < index_count
}

/// Whether tangents can be generated for a mesh: every index is usable.
pub fn tangent_inputs_are_usable(
    indices: &Vec<u32>,
    position_count: usize,
    normal_count: usize,
    texture_coordinate_count: usize,
) -> (usable: bool)
    ensures
        usable <==> forall|k: int|
            0 <= k < indices.len() ==> corner_is_usable(
                #[trigger] indices[k],
                indices.len() as nat,
                position_count as nat,
                normal_count as nat,
                texture_coordinate_count as nat,
            ),
{
    let mut k: usize = 0;
    while k < indices.len()
        invariant
            k <= indices.len(),
            forall|j: int|
                0 <= j < k ==> corner_is_usable(
                    #[trigger] indices[j],
                    indices.len() as nat,
                    position_count as nat,
                    normal_count as nat,
                    texture_coordinate_count as nat,
                ),
        decreases indices.len() - k,
    {
        let index: u64 = indices[k] as u64;
        let usable = 3 * index + 2 < position_count as u64 && 3 * index + 2 < normal_count as u64 && 2
            * index + 1 < texture_coordinate_count as u64 && index < indices.len() as u64;
        if !usable {
            return false;
        }
        k = k + 1;
    }
    true
}

/// The number of triangles that a list of `index_count` indices describes;
/// one or two indices left over describe none.
pub fn triangle_count(index_count: usize) -> (n: usize)
    ensures
        n == index_count / 3,
{
    index_count / 3
}

/// A vertex attribute of a mesh.
#[derive(Debug, Clone, Copy, PartialEq, Eq, Structural)]
pub enum Attribute {
    Position,
    Normal,
    TextureCoordinate,
    Tangent,
    Bitangent,
}

impl Attribute {
    /// How many numbers one vertex has of this attribute.
    pub open spec fn components_spec(self) -> u8 {
        match self {
            Attribute::TextureCoordinate => 2,
            _ => 3,
        }
    }

    /// How many numbers one vertex has of this attribute.
    #[verifier::when_used_as_spec(components_spec)]
    pub fn components(self) -> (n: u8)
        ensures
            n == self.components_spec(),
    {
        match self {
            Attribute::TextureCoordinate => 2,
            _ => 3,
        }
    }
}

/// What to do about one attribute when a mesh is bound to a program.
#[derive(Debug, Clone, Copy, PartialEq, Eq, Structural)]
pub enum AttributeAction {
    /// Point the program's input at `location` to the attribute's buffer.
    Bind { location: u32, components: u8 },
    /// Leave the attribute out of this draw.
    Skip,
}

/// The program has no input for the vertex position: nothing can be drawn.
#[derive(Debug, Clone, Copy, PartialEq, Eq, Structural)]
pub struct MissingPosition;

/// What to do about `attribute`: it is bound where the caller names it,
/// the program has an input of that name (`location`), and the mesh has
/// the buffer. A position that the program has no input for is an error;
/// any other attribute that cannot be bound is left out.
pub fn attribute_action(
    attribute: Attribute,
    requested: bool,
    location: Option<u32>,
    has_buffer: bool,
) -> (r: Result<AttributeAction, MissingPosition>)
    ensures
        r == match location {
            Some(l) => if requested && has_buffer {
                Ok(AttributeAction::Bind { location: l, components: attribute.components() })
            } else {
                Ok(AttributeAction::Skip)
            },
            None => if attribute == Attribute::Position && requested {
                Err(MissingPosition)
            } else {
                Ok(AttributeAction::Skip)
            },
        },
{
    match location {
        Some(l) => if requested && has_buffer {
            Ok(AttributeAction::Bind { location: l, components: attribute.components() })
        } else {
            Ok(AttributeAction::Skip)
        },
        None => if attribute == Attribute::Position && requested {
            Err(MissingPosition)
        } else {
            Ok(AttributeAction::Skip)
        },
    }
}

/// The names of the inputs that were found missing so far, each once.
pub struct MissingBindings {
    names: Vec<String>,
}

impl MissingBindings {
    /// The names noted so far.
    pub closed spec fn noted(&self) -> Set<Seq<char>> {
        Set::new(|name: Seq<char>| exists|i: int| 0 <= i < self.names.len() && (#[trigger] self.names[i])@ == name)
    }

    /// A record with no name in it.
    pub fn new() -> (record: MissingBindings)
        ensures
            record.noted() == Set::<Seq<char>>::empty(),
    {
        let record = MissingBindings { names: Vec::new() };
        assert(record.noted() =~= Set::<Seq<char>>::empty());
        record
    }

    /// Notes that the input `name` is missing. The result says whether
    /// this is the first time: whether the fact is worth a log line.
    pub fn note(&mut self, name: &String) -> (first: bool)
        ensures
            first == !old(self).noted().contains(name@),
            final(self).noted() == old(self).noted().insert(name@),
    {
        let mut i: usize = 0;
        while i < self.names.len()
            invariant
                i <= self.names.len(),
                self.names == old(self).names,
                forall|j: int| 0 <= j < i ==> (#[trigger] self.names[j])@ != name@,
            decreases self.names.len() - i,
        {
            if self.names[i] == *name {
                assert(self.noted() =~= old(self).noted().insert(name@));
                return false;
            }
            i = i + 1;
        }
        self.names.push(name.clone());
        assert(self.noted() =~= old(self).noted().insert(name@)) by {
            assert forall|n: Seq<char>| self.noted().contains(n) <==> old(self).noted().insert(
                name@,
            ).contains(n) by {
                if old(self).noted().contains(n) {
                    let i = choose|i: int|
                        0 <= i < old(self).names.len() && (#[trigger] old(self).names[i])@ == n;
                    assert(self.names[i]@ == n);
                }
                if n == name@ {
                    assert(self.names[self.names.len() - 1]@ == n);
                }
            }
        }
        true
    }
}

} // verus!
