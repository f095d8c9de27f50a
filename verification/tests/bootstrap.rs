use jailpull::{exit_code, jail_relative, EXIT_SENTINEL};

#[test]
fn absolute_command_becomes_relative_in_the_jail() {
    assert_eq!(jail_relative("/bin/sh").as_str(), "bin/sh");
}

#[test]
fn relative_command_is_kept() {
    assert_eq!(jail_relative("bin/sh").as_str(), "bin/sh");
}

#[test]
fn only_one_leading_slash_is_stripped() {
    assert_eq!(jail_relative("//x").as_str(), "/x");
    assert_eq!(jail_relative("/").as_str(), "");
}

#[test]
fn child_exit_code_is_propagated() {
    assert_eq!(exit_code(Some(7)), 7);
    assert_eq!(exit_code(Some(0)), 0);
}

#[test]
fn child_without_exit_code_yields_the_sentinel() {
    assert_eq!(exit_code(None), EXIT_SENTINEL);
    assert_eq!(exit_code(None), -1);
}
