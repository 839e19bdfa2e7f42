//! The two decisions that setting up the renderer takes: which render driver
//! to ask for, and how to call a shader stage in a message.

use crate::label::{place_of, Place};
use vstd::prelude::*;
use vstd::string::*;

verus! {

/// Tag of the vertex shader stage.
pub const VERTEX_SHADER: u32 = 0x8B31;

/// Tag of the geometry shader stage.
pub const GEOMETRY_SHADER: u32 = 0x8DD9;

/// Tag of the fragment shader stage.
pub const FRAGMENT_SHADER: u32 = 0x8B30;

/// Whether `names[i]` is the OpenGL render driver.
pub open spec fn is_gl_driver(names: Seq<String>, i: int) -> bool {
    names[i]@ == "opengl"@
}

/// Finds the OpenGL driver among the render drivers' names: the index of the
/// first that is called `opengl`, if there is one.
pub fn find_sdl_gl_driver(names: &Vec<String>) -> (index: Option<u32>)
    requires
        names@.len() <= u32::MAX,
    ensures
        match index {
            Some(i) => i < names@.len() && is_gl_driver(names@, i as int) && forall|j: int|
                0 <= j < i ==> !is_gl_driver(names@, j),
            None => forall|j: int| 0 <= j < names@.len() ==> !is_gl_driver(names@, j),
        },
{
    let mut i: usize = 0;
    while i < names.len()
        invariant
            i <= names.len(),
            names@.len() <= u32::MAX,
            forall|j: int| 0 <= j < i ==> !is_gl_driver(names@, j),
        decreases names.len() - i,
    {
        match place_of(names[i].as_str(), "opengl") {
            Place::Same => {
                return Some(i as u32);
            },
            _ => {
                i += 1;
            },
        }
    }
    None
}

/// The name of a shader stage as it appears in messages.
pub open spec fn stage_name(shader_type: u32) -> Option<Seq<char>> {
    if shader_type == VERTEX_SHADER {
        Some("vertex"@)
    } else if shader_type == GEOMETRY_SHADER {
        Some("geometry"@)
    } else if shader_type == FRAGMENT_SHADER {
        Some("fragment"@)
    } else {
        None
    }
}

/// Names the shader stage that `shader_type` tags. A tag of no known stage
/// has no name.
pub fn shader_type_name(shader_type: u32) -> (name: Option<&'static str>)
    ensures
        name is Some <==> stage_name(shader_type) is Some,
        name matches Some(text) ==> Some(text@) == stage_name(shader_type),
{
    if shader_type == VERTEX_SHADER {
        Some("vertex")
    } else if shader_type == GEOMETRY_SHADER {
        Some("geometry")
    } else if shader_type == FRAGMENT_SHADER {
        Some("fragment")
    } else {
        None
    }
}

} // verus!
