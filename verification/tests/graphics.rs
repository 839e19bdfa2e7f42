use game_loop::graphics::{
    find_sdl_gl_driver, shader_type_name, FRAGMENT_SHADER, GEOMETRY_SHADER, VERTEX_SHADER,
};

fn names(list: &[&str]) -> Vec<String> {
    list.iter().map(|name| name.to_string()).collect()
}

#[test]
fn finds_the_gl_driver() {
    assert_eq!(find_sdl_gl_driver(&names(&["direct3d", "opengl", "software"])), Some(1));
}

#[test]
fn finds_the_first_of_two() {
    assert_eq!(find_sdl_gl_driver(&names(&["opengl", "opengles2", "opengl"])), Some(0));
}

#[test]
fn similar_names_do_not_count() {
    assert_eq!(find_sdl_gl_driver(&names(&["opengles2", "OpenGL", "opengl ", "software"])), None);
}

#[test]
fn no_drivers_no_index() {
    assert_eq!(find_sdl_gl_driver(&Vec::new()), None);
}

#[test]
fn stage_tags_have_their_values() {
    assert_eq!(VERTEX_SHADER, 0x8B31);
    assert_eq!(GEOMETRY_SHADER, 0x8DD9);
    assert_eq!(FRAGMENT_SHADER, 0x8B30);
}

#[test]
fn known_stages_have_names() {
    assert_eq!(shader_type_name(VERTEX_SHADER), Some("vertex"));
    assert_eq!(shader_type_name(GEOMETRY_SHADER), Some("geometry"));
    assert_eq!(shader_type_name(FRAGMENT_SHADER), Some("fragment"));
}

#[test]
fn unknown_tags_have_no_name() {
    assert_eq!(shader_type_name(0), None);
    assert_eq!(shader_type_name(0x8B32), None);
    assert_eq!(shader_type_name(u32::MAX), None);
}

#[test]
fn stage_tags_are_those_of_the_gl_bindings() {
    assert_eq!(VERTEX_SHADER, gl::VERTEX_SHADER);
    assert_eq!(GEOMETRY_SHADER, gl::GEOMETRY_SHADER);
    assert_eq!(FRAGMENT_SHADER, gl::FRAGMENT_SHADER);
}
