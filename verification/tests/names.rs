use ros_monitor::name::parse_name;

#[test]
fn default_node_path_has_two_parts() {
    assert_eq!(parse_name("/intrepid/_discovery"), ("intrepid", "_discovery"));
}

#[test]
fn slashes_that_separate_nothing_are_passed_over() {
    assert_eq!(parse_name("a/b"), ("a", "b"));
    assert_eq!(parse_name("//a///b//"), ("a", "b"));
    assert_eq!(parse_name("a/b/c/d"), ("a", "b"));
}

#[test]
fn missing_parts_are_empty() {
    assert_eq!(parse_name(""), ("", ""));
    assert_eq!(parse_name("/"), ("", ""));
    assert_eq!(parse_name("///"), ("", ""));
    assert_eq!(parse_name("solo"), ("solo", ""));
    assert_eq!(parse_name("/solo/"), ("solo", ""));
}

#[test]
fn parts_may_hold_any_other_character() {
    assert_eq!(parse_name("/nœud/espace de noms"), ("nœud", "espace de noms"));
}
