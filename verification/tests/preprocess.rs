use glwrap::shader::{
    combine, include_targets, path_base, split_stages, substitute_includes, PreprocessError,
    ShaderProgram, Stage,
};

#[test]
fn inject_no_defines_is_identity() {
    let src = "#version 330 core\nvoid main() {}\n";
    assert_eq!(ShaderProgram::add_defines(src, &[]), src);
    let plain = "no version line\nat all";
    assert_eq!(ShaderProgram::add_defines(plain, &[]), plain);
}

#[test]
fn inject_one_define_after_version_line() {
    let out = ShaderProgram::add_defines("#version 330 core", &["FOO".to_string()]);
    assert_eq!(out, "#version 330 core\n#define FOO");
}

#[test]
fn inject_defines_keep_order_and_rest_of_source() {
    let src = "#version 330 core\nvoid main() {}";
    let out = ShaderProgram::add_defines(src, &["A 1".to_string(), "B".to_string()]);
    assert_eq!(out, "#version 330 core\n#define A 1\n#define B\nvoid main() {}");
}

#[test]
fn inject_without_version_line_changes_nothing() {
    let src = "void main() {}\n";
    let out = ShaderProgram::add_defines(src, &["FOO".to_string()]);
    assert_eq!(out, src);
}

#[test]
fn split_stages_finds_both_stages() {
    let src = "#type vertex\nv1\nv2\n#type fragment\nf1";
    let (vs, fs) = split_stages(src).unwrap();
    assert_eq!(vs, "v1\nv2\n");
    assert_eq!(fs, "f1");
}

#[test]
fn split_stages_round_trip() {
    let vertex = "void main() { a; }\n";
    let fragment = "void main() { b; }\n";
    let (vs, fs) = split_stages(&combine(vertex, fragment)).unwrap();
    assert_eq!(vs, vertex);
    assert_eq!(fs, fragment);
}

#[test]
fn combine_places_markers() {
    assert_eq!(combine("V", "F"), "#type vertex\nV#type fragment\nF");
}

#[test]
fn split_stages_without_vertex_marker() {
    assert_eq!(
        split_stages("void main() {}"),
        Err(PreprocessError::MissingStage(Stage::Vertex))
    );
}

#[test]
fn split_stages_without_fragment_marker() {
    assert_eq!(
        split_stages("#type vertex\nv"),
        Err(PreprocessError::MissingStage(Stage::Fragment))
    );
}

#[test]
fn split_stages_in_either_order() {
    let src = "#type fragment\nf\n#type vertex\nv";
    assert_eq!(split_stages(src), Ok(("v".to_string(), "f\n".to_string())));
}

#[test]
fn include_targets_in_line_order() {
    let src = "#include a.glsl\nmain\n#include b.glsl";
    assert_eq!(include_targets(src).unwrap(), vec!["a.glsl".to_string(), "b.glsl".to_string()]);
}

#[test]
fn include_target_is_second_space_field() {
    let src = "x\n#include sub.glsl trailing words\ny";
    assert_eq!(include_targets(src).unwrap(), vec!["sub.glsl".to_string()]);
}

#[test]
fn include_without_target_is_malformed() {
    assert_eq!(include_targets("a\n#include\nb"), Err(PreprocessError::MalformedInclude));
}

#[test]
fn no_includes_no_targets() {
    assert_eq!(include_targets("plain\nsource").unwrap(), Vec::<String>::new());
}

#[test]
fn substitute_replaces_include_line_verbatim() {
    let out = substitute_includes("#include sub.glsl", &vec!["X".to_string()]);
    assert_eq!(out, "X");
}

#[test]
fn substitute_keeps_surrounding_lines() {
    let src = "l1\n#include a\nl2";
    let out = substitute_includes(src, &vec!["A-CONTENT\nMORE".to_string()]);
    assert_eq!(out, "l1\nA-CONTENT\nMORE\nl2");
}

#[test]
fn substitution_is_one_level_deep() {
    let out = substitute_includes("#include sub.glsl", &vec!["#include inner.glsl".to_string()]);
    assert_eq!(out, "#include inner.glsl");
    assert_eq!(
        include_targets(&out).unwrap(),
        vec!["inner.glsl".to_string()]
    );
}

#[test]
fn path_base_takes_everything_before_last_slash() {
    assert_eq!(path_base("shaders/deep/main.glsl"), "shaders/deep");
    assert_eq!(path_base("a/b/"), "a/b");
}

#[test]
fn path_base_of_bare_name_is_empty() {
    assert_eq!(path_base("main.glsl"), "");
    assert_eq!(path_base(""), "");
}
