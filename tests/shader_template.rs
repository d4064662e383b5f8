use maru::shader_template::parse_shader_template;

#[test]
fn splits_at_the_two_markers() {
    let parts = parse_shader_template("head\n@void effect() {}\n@tail", None);
    assert_eq!(parts, vec!["head\n", "void effect() {}\n", "tail"]);
}

#[test]
fn effect_replaces_the_middle() {
    let parts = parse_shader_template("head\n@default\n@tail", Some("custom\n"));
    assert_eq!(parts, vec!["head\n", "custom\n", "tail"]);
}

#[test]
fn empty_parts_are_kept() {
    assert_eq!(parse_shader_template("@@", None), vec!["", "", ""]);
    assert_eq!(parse_shader_template("@x@", None), vec!["", "x", ""]);
    assert_eq!(parse_shader_template("a@@b", Some("")), vec!["a", "", "b"]);
}

#[test]
fn multibyte_characters_around_markers() {
    let parts = parse_shader_template("é@ü€@ß", None);
    assert_eq!(parts, vec!["é", "ü€", "ß"]);
    let parts = parse_shader_template("é@ü€@ß", Some("∑"));
    assert_eq!(parts, vec!["é", "∑", "ß"]);
}
