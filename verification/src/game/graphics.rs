//! The vocabulary the server shares with whatever draws the world: which
//! mesh an entity is drawn with, and in which color.

use vstd::prelude::*;

verus! {

/// Number of mesh kinds in the canonical ordering.
pub const MESH_COUNT: usize = 6;

/// The kind of mesh an entity is drawn with. The order of declaration is the
/// canonical ordering: a mesh kind travels over the wire as its position in
/// this list.
#[derive(Clone, Copy, Debug, PartialEq, Eq, Hash, Structural)]
pub enum MeshType {
    Default,
    Tank,
    Bullet,
    Wall,
    Heal,
    /// No mesh at all, as for an empty inventory slot.
    Nothing,
}

impl Default for MeshType {
    fn default() -> (mesh: Self)
        ensures
            mesh == MeshType::Default,
    {
        MeshType::Default
    }
}

/// A color with each channel quantized to a byte: 0 is none of the channel,
/// 255 all of it.
#[derive(Clone, Copy, Debug, PartialEq, Eq, Structural)]
pub struct Color {
    pub r: u8,
    pub g: u8,
    pub b: u8,
    pub a: u8,
}

impl Color {
    /// A color from its four channels.
    pub fn new(r: u8, g: u8, b: u8, a: u8) -> (color: Self)
        ensures
            color == (Color { r, g, b, a }),
    {
        Color { r, g, b, a }
    }
}

/// Opaque white.
pub fn white() -> (color: Color)
    ensures
        color == (Color { r: 255, g: 255, b: 255, a: 255 }),
{
    Color { r: 255, g: 255, b: 255, a: 255 }
}

/// Opaque black.
pub fn black() -> (color: Color)
    ensures
        color == (Color { r: 0, g: 0, b: 0, a: 255 }),
{
    Color { r: 0, g: 0, b: 0, a: 255 }
}

/// Position of a mesh kind in the canonical ordering.
pub open spec fn spec_mesh_index(mesh_type: MeshType) -> usize {
    match mesh_type {
        MeshType::Default => 0,
        MeshType::Tank => 1,
        MeshType::Bullet => 2,
        MeshType::Wall => 3,
        MeshType::Heal => 4,
        MeshType::Nothing => 5,
    }
}

/// The mesh kind at a position of the canonical ordering, if the position
/// exists.
pub open spec fn spec_mesh_at(index: usize) -> Option<MeshType> {
    match index {
        0 => Some(MeshType::Default),
        1 => Some(MeshType::Tank),
        2 => Some(MeshType::Bullet),
        3 => Some(MeshType::Wall),
        4 => Some(MeshType::Heal),
        5 => Some(MeshType::Nothing),
        _ => None,
    }
}

/// Position of a mesh kind in the canonical ordering.
pub fn mesh_index(mesh_type: MeshType) -> (index: usize)
    ensures
        index == spec_mesh_index(mesh_type),
        index < MESH_COUNT,
        spec_mesh_at(index) == Some(mesh_type),
{
    match mesh_type {
        MeshType::Default => 0,
        MeshType::Tank => 1,
        MeshType::Bullet => 2,
        MeshType::Wall => 3,
        MeshType::Heal => 4,
        MeshType::Nothing => 5,
    }
}

/// The mesh kind at a position of the canonical ordering, if the position
/// exists.
pub fn mesh_at(index: usize) -> (mesh_type: Option<MeshType>)
    ensures
        mesh_type == spec_mesh_at(index),
        mesh_type.is_some() == (index < MESH_COUNT),
        mesh_type.is_some() ==> spec_mesh_index(mesh_type.unwrap()) == index,
{
    match index {
        0 => Some(MeshType::Default),
        1 => Some(MeshType::Tank),
        2 => Some(MeshType::Bullet),
        3 => Some(MeshType::Wall),
        4 => Some(MeshType::Heal),
        5 => Some(MeshType::Nothing),
        _ => None,
    }
}

/// Every mesh kind, in the canonical ordering.
pub fn all_mesh_types() -> (mesh_types: Vec<MeshType>)
    ensures
        mesh_types.len() == MESH_COUNT,
        forall|i: int|
            0 <= i < MESH_COUNT ==> spec_mesh_at(i as usize) == Some(#[trigger] mesh_types[i]),
{
    let mut mesh_types: Vec<MeshType> = Vec::new();
    mesh_types.push(MeshType::Default);
    mesh_types.push(MeshType::Tank);
    mesh_types.push(MeshType::Bullet);
    mesh_types.push(MeshType::Wall);
    mesh_types.push(MeshType::Heal);
    mesh_types.push(MeshType::Nothing);
    mesh_types
}

} // verus!
