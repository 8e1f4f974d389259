use drydoc::dochide::{dochide_lines, finalize_contents};
use drydoc::person::Person;

#[test]
fn test_un_hidden_lines() {
    assert_eq!("# use std::fs;\n", &dochide_lines("use std::fs;\n"));

    assert_eq!("# use std::fs;\n", &dochide_lines("# use std::fs;\n"));
    assert_eq!("  # use std::fs;\n", &dochide_lines("  # use std::fs;\n"));

    assert_eq!("# #[derive(Debug)]\n", &dochide_lines("#[derive(Debug)]"));
    assert_eq!("# #[derive(Debug)]\n", &dochide_lines("# #[derive(Debug)]"));
}

#[test]
fn lib_test_un_hidden_lines() {
    assert_eq!("# use std::fs;\n", &dochide_lines("use std::fs;\n"));

    assert_eq!("# use std::fs;\n", &dochide_lines("# use std::fs;\n"));
    assert_eq!("  # use std::fs;\n", &dochide_lines("  # use std::fs;\n"));

    assert_eq!("# #[derive(Debug)]\n", &dochide_lines("#[derive(Debug)]"));
    assert_eq!("# #[derive(Debug)]\n", &dochide_lines("# #[derive(Debug)]"));
}

#[test]
fn test_empty_input_gives_no_lines() {
    assert_eq!("", &dochide_lines(""));
}

#[test]
fn test_several_lines() {
    let out = dochide_lines("let a = 1;\n# use x;\nlet b = 2;");
    assert_eq!("# let a = 1;\n# use x;\n# let b = 2;\n", &out);
}

#[test]
fn test_empty_line_gets_marker() {
    assert_eq!("# \n# a\n", &dochide_lines("\na\n"));
}

#[test]
fn test_carriage_return_is_stripped_before_newline() {
    assert_eq!("# a\n", &dochide_lines("a\r\n"));
}

#[test]
fn test_hash_without_space_is_not_hidden() {
    assert_eq!("# #x\n", &dochide_lines("#x\n"));
}

#[test]
fn test_tab_indented_hidden_line_kept() {
    assert_eq!("\t# use x;\n", &dochide_lines("\t# use x;\n"));
}

#[test]
fn test_dochide_idempotent_on_own_output() {
    let once = dochide_lines("let a = 1;\n# hidden line\n  # indented\nlast");
    let twice = dochide_lines(&once);
    assert_eq!(once, twice);
}

#[test]
fn test_finalize_contents_hides_when_asked() {
    assert_eq!("# fn main() {}\n", &finalize_contents("fn main() {}", true));
    assert_eq!("fn main() {}", &finalize_contents("fn main() {}", false));
}

#[test]
fn test_person_placeholder_name() {
    let p = Person::new();
    assert_eq!("{{name|default('Richard')}}", &p.name);
}
