use opendal_remote::path_to_str;

#[test]
fn file_path_gets_leading_slash() {
    assert_eq!(path_to_str("a/b.txt", false), "/a/b.txt");
}

#[test]
fn file_path_keeps_leading_slash() {
    assert_eq!(path_to_str("/a/b.txt", false), "/a/b.txt");
}

#[test]
fn file_path_loses_one_trailing_slash() {
    assert_eq!(path_to_str("/a/b/", false), "/a/b");
    assert_eq!(path_to_str("a//", false), "/a/");
}

#[test]
fn dir_path_gets_trailing_slash() {
    assert_eq!(path_to_str("a/b", true), "/a/b/");
    assert_eq!(path_to_str("/a/b/", true), "/a/b/");
}

#[test]
fn empty_and_root_paths() {
    assert_eq!(path_to_str("", true), "/");
    assert_eq!(path_to_str("", false), "");
    assert_eq!(path_to_str("/", false), "");
    assert_eq!(path_to_str("/", true), "/");
}

#[test]
fn backslashes_become_slashes() {
    assert_eq!(path_to_str("dir\\sub\\file", false), "/dir/sub/file");
    assert_eq!(path_to_str("\\dir", true), "//dir/");
    assert_eq!(path_to_str("a\\", false), "/a/");
    assert_eq!(path_to_str("a\\", true), "/a//");
}

#[test]
fn non_ascii_paths() {
    assert_eq!(path_to_str("données/été", true), "/données/été/");
}

#[test]
fn dir_form_is_file_form_plus_slash() {
    for p in ["", "/", "a", "a/", "a//", "\\", "x\\y", "/q/r\\"] {
        let mut file = path_to_str(p, false);
        file.push('/');
        assert_eq!(path_to_str(p, true), file);
    }
}

#[test]
fn dir_form_is_idempotent() {
    for p in ["", "/", "a", "a/", "\\b\\", "/c//"] {
        let once = path_to_str(p, true);
        assert_eq!(path_to_str(&once, true), once);
    }
}
