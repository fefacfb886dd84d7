use minihttp::config::directory_from_args;

fn args_of(parts: &[&str]) -> Vec<Vec<u8>> {
    parts.iter().map(|p| p.as_bytes().to_vec()).collect()
}

#[test]
fn directory_defaults_to_current() {
    assert_eq!(directory_from_args(&args_of(&["server"])), b".".to_vec());
    assert_eq!(directory_from_args(&Vec::new()), b".".to_vec());
}

#[test]
fn directory_flag_takes_following_argument() {
    let args = args_of(&["server", "--directory", "/srv/files"]);
    assert_eq!(directory_from_args(&args), b"/srv/files".to_vec());
}

#[test]
fn directory_flag_without_follower_is_ignored() {
    let args = args_of(&["server", "--directory"]);
    assert_eq!(directory_from_args(&args), b".".to_vec());
}

#[test]
fn later_directory_flag_overrides_earlier() {
    let args = args_of(&["server", "--directory", "/a", "--directory", "/b"]);
    assert_eq!(directory_from_args(&args), b"/b".to_vec());
}

#[test]
fn unrelated_arguments_are_ignored() {
    let args = args_of(&["server", "--verbose", "--directory", "/srv", "extra"]);
    assert_eq!(directory_from_args(&args), b"/srv".to_vec());
}
