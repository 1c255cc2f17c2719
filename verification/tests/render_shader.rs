use pge::render::shader::{
    compiled, empty_log, linked, ressources_names, shader_type, Error, Shader, COMPUTE_SHADER,
    FRAGMENT_SHADER, GEOMETRY_SHADER, TESS_CONTROL_SHADER, TESS_EVALUATION_SHADER, VERTEX_SHADER,
};
use pge::ressources;
use pge::ressources::check_cstring;
use pge::window::{should_close, Action, Key, WindowEvent};

#[test]
fn kind_codes_are_the_drivers() {
    assert_eq!(VERTEX_SHADER, gl::VERTEX_SHADER);
    assert_eq!(TESS_CONTROL_SHADER, gl::TESS_CONTROL_SHADER);
    assert_eq!(TESS_EVALUATION_SHADER, gl::TESS_EVALUATION_SHADER);
    assert_eq!(GEOMETRY_SHADER, gl::GEOMETRY_SHADER);
    assert_eq!(FRAGMENT_SHADER, gl::FRAGMENT_SHADER);
    assert_eq!(COMPUTE_SHADER, gl::COMPUTE_SHADER);
}

#[test]
fn kind_by_extension() {
    assert_eq!(shader_type("tri.vert").unwrap(), gl::VERTEX_SHADER);
    assert_eq!(shader_type("tri.tesc").unwrap(), gl::TESS_CONTROL_SHADER);
    assert_eq!(shader_type("tri.tese").unwrap(), gl::TESS_EVALUATION_SHADER);
    assert_eq!(shader_type("tri.geom").unwrap(), gl::GEOMETRY_SHADER);
    assert_eq!(shader_type("tri.frag").unwrap(), gl::FRAGMENT_SHADER);
    assert_eq!(shader_type("tri.comp").unwrap(), gl::COMPUTE_SHADER);
    assert_eq!(shader_type(".vert").unwrap(), gl::VERTEX_SHADER);
    assert_eq!(shader_type("shaders/\u{e9}t\u{e9}.frag").unwrap(), gl::FRAGMENT_SHADER);
    assert_eq!(shader_type("a.frag.vert").unwrap(), gl::VERTEX_SHADER);
}

#[test]
fn kind_of_other_names_is_unknown() {
    for name in ["", "vert", "tri", "tri.vert ", "tri.VERT", "tri.ver", "tri.png", "tri.vertx"] {
        match shader_type(name) {
            Err(Error::CanNotDetermineShaderTypeForResource { name: n }) => assert_eq!(n, name),
            other => panic!("{name}: {other:?}"),
        }
    }
}

#[test]
fn a_program_may_have_a_shader_of_each_kind() {
    let names = ressources_names("shaders/tri");
    assert_eq!(
        names,
        vec![
            ("shaders/tri.vert".to_string(), gl::VERTEX_SHADER),
            ("shaders/tri.tesc".to_string(), gl::TESS_CONTROL_SHADER),
            ("shaders/tri.tese".to_string(), gl::TESS_EVALUATION_SHADER),
            ("shaders/tri.geom".to_string(), gl::GEOMETRY_SHADER),
            ("shaders/tri.frag".to_string(), gl::FRAGMENT_SHADER),
            ("shaders/tri.comp".to_string(), gl::COMPUTE_SHADER),
        ]
    );
    for (name, kind) in ressources_names("") {
        assert_eq!(shader_type(&name).unwrap(), kind);
    }
}

#[test]
fn content_with_a_zero_byte_is_no_c_string() {
    assert!(check_cstring(b"void main() {}").is_ok());
    assert!(check_cstring(b"").is_ok());
    assert!(matches!(check_cstring(b"\0"), Err(ressources::Error::FileContainsNullByte)));
    assert!(matches!(check_cstring(b"void\0main"), Err(ressources::Error::FileContainsNullByte)));
    assert!(matches!(check_cstring(b"void main\0"), Err(ressources::Error::FileContainsNullByte)));
}

#[test]
fn shader_takes_over_its_source() {
    let shader = Shader::from_res("tri.frag", b"void main() {}".to_vec(), FRAGMENT_SHADER).unwrap();
    assert_eq!(shader.source(), b"void main() {}");
    assert_eq!(shader.shader_type(), gl::FRAGMENT_SHADER);
    match Shader::from_res("tri.frag", b"void\0".to_vec(), FRAGMENT_SHADER) {
        Err(Error::ResourceLoad { name, inner: ressources::Error::FileContainsNullByte }) => {
            assert_eq!(name, "tri.frag")
        }
        other => panic!("{:?}", other.map(|s| s.shader_type())),
    }
}

#[test]
fn log_buffer_is_all_spaces() {
    assert_eq!(empty_log(0), Vec::<u8>::new());
    assert_eq!(empty_log(5), b"     ".to_vec());
    assert_eq!(empty_log(1000), vec![b' '; 1000]);
}

#[test]
fn status_zero_is_a_compile_error() {
    assert!(compiled("tri.vert", 1, "").is_ok());
    assert!(compiled("tri.vert", -1, "ignored").is_ok());
    match compiled("tri.vert", 0, "0:1: syntax error") {
        Err(Error::CompileError { name, message }) => {
            assert_eq!(name, "tri.vert");
            assert_eq!(message, "There was an error in the shader compilation: 0:1: syntax error\n");
        }
        other => panic!("{other:?}"),
    }
}

#[test]
fn status_zero_is_a_link_error() {
    assert!(linked("tri", 1, "").is_ok());
    match linked("tri", 0, "no main") {
        Err(Error::LinkError { name, message }) => {
            assert_eq!(name, "tri");
            assert_eq!(message, "no main");
        }
        other => panic!("{other:?}"),
    }
}

#[test]
fn window_closes_when_escape_is_released() {
    assert!(should_close(WindowEvent::Key(Key::Escape, Action::Release)));
    assert!(!should_close(WindowEvent::Key(Key::Escape, Action::Press)));
    assert!(!should_close(WindowEvent::Key(Key::Escape, Action::Repeat)));
    assert!(!should_close(WindowEvent::Key(Key::Other, Action::Release)));
    assert!(!should_close(WindowEvent::Key(Key::Other, Action::Press)));
    assert!(!should_close(WindowEvent::Other));
}
