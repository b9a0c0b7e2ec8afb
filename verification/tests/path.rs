use marker::error::LinkError;
use marker::path::{judge_path, route_path, strip_fragment, PathRoute};

#[test]
fn absolute_path_without_the_flag_is_refused() {
    assert_eq!(route_path(true, false), PathRoute::Refused);
    assert_eq!(
        judge_path(route_path(true, false), true),
        Err(LinkError::PathAbsolute)
    );
    assert_eq!(
        judge_path(route_path(true, false), false),
        Err(LinkError::PathAbsolute)
    );
}

#[test]
fn absolute_path_with_the_flag_goes_by_the_file() {
    assert_eq!(route_path(true, true), PathRoute::UnderRoot);
    assert_eq!(judge_path(route_path(true, true), true), Ok(()));
    assert_eq!(
        judge_path(route_path(true, true), false),
        Err(LinkError::PathNonExistant)
    );
}

#[test]
fn relative_path_goes_by_the_file() {
    for allow in [false, true] {
        assert_eq!(route_path(false, allow), PathRoute::BesideFile);
        assert_eq!(judge_path(route_path(false, allow), true), Ok(()));
        assert_eq!(
            judge_path(route_path(false, allow), false),
            Err(LinkError::PathNonExistant)
        );
    }
}

#[test]
fn strip_fragment_cuts_at_the_first_hash() {
    assert_eq!(strip_fragment("foo.md#anchor"), "foo.md");
    assert_eq!(strip_fragment("foo.md"), "foo.md");
    assert_eq!(strip_fragment("#anchor"), "");
    assert_eq!(strip_fragment(""), "");
    assert_eq!(strip_fragment("a#b#c"), "a");
    assert_eq!(strip_fragment("dir/file.md#"), "dir/file.md");
    assert_eq!(strip_fragment("ünï.md#é"), "ünï.md");
}
