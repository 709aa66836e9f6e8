use duster::path::{
    components_of, extension_of, file_name_of, has_component, join_paths, path_is_child_of,
    path_is_hidden, path_is_within, paths_equal,
};

fn parts(path: &str) -> Vec<String> {
    components_of(path).into_iter().map(|c| c.into_iter().collect()).collect()
}

#[test]
fn components_follow_the_separators() {
    assert_eq!(parts("/home/user/file.txt"), vec!["", "home", "user", "file.txt"]);
    assert_eq!(parts("home/user"), vec!["home", "user"]);
    assert_eq!(parts("/"), vec![""]);
    assert_eq!(parts(""), Vec::<String>::new());
}

#[test]
fn empty_and_dot_components_are_dropped() {
    assert_eq!(parts("/home//user/./x/"), vec!["", "home", "user", "x"]);
    assert_eq!(parts("./a/./b"), vec![".", "a", "b"]);
    assert_eq!(parts("."), vec!["."]);
    assert_eq!(parts("/."), vec![""]);
    assert_eq!(parts("a/.."), vec!["a", ".."]);
}

#[test]
fn components_agree_with_the_standard_library() {
    for text in [
        "/home/user/file.txt",
        "//a///b/",
        "./x",
        "x/./y/../z",
        "/",
        ".",
        "..",
        "a/.",
        "/tmp/./foo",
        "",
        "rel/path.tar.gz",
    ] {
        let expected: Vec<String> = std::path::Path::new(text)
            .components()
            .map(|c| match c {
                std::path::Component::RootDir => String::new(),
                other => other.as_os_str().to_string_lossy().to_string(),
            })
            .collect();
        assert_eq!(parts(text), expected, "components of {:?}", text);
    }
}

#[test]
fn file_names_agree_with_the_standard_library() {
    for text in ["/home/u/a.txt", "/", "a/..", "a/.", ".", "..", "x", "/x/.hidden", "a//b/"] {
        let expected =
            std::path::Path::new(text).file_name().map(|n| n.to_string_lossy().to_string());
        assert_eq!(file_name_of(text), expected, "file name of {:?}", text);
    }
}

#[test]
fn extensions_agree_with_the_standard_library() {
    for text in ["/a/b.txt", "/a/.bashrc", "/a/b.tar.gz", "/a/b.", "b", "/a/..", ".a.b", "x.DB"] {
        let expected =
            std::path::Path::new(text).extension().map(|n| n.to_string_lossy().to_string());
        assert_eq!(extension_of(text), expected, "extension of {:?}", text);
    }
}

#[test]
fn containment_agrees_with_the_standard_library() {
    let cases = [
        ("/home/u/x", "/home/u"),
        ("/home/user2", "/home/user"),
        ("/home/u", "/home/u"),
        ("/home/u/", "/home/u"),
        ("/home//u/x", "/home/u/"),
        ("home/u", "/home"),
        ("/tmp/foo", "/tmp"),
        ("/tmpfoo", "/tmp"),
        ("/etc/passwd", "/tmp"),
        ("/a", ""),
        ("a/b", "a"),
    ];
    for (path, base) in cases {
        assert_eq!(
            path_is_within(path, base),
            std::path::Path::new(path).starts_with(base),
            "{:?} within {:?}",
            path,
            base
        );
        assert_eq!(
            paths_equal(path, base),
            std::path::Path::new(path) == std::path::Path::new(base),
            "{:?} equals {:?}",
            path,
            base
        );
        assert_eq!(
            path_is_child_of(path, base),
            std::path::Path::new(path).parent() == Some(std::path::Path::new(base)),
            "{:?} child of {:?}",
            path,
            base
        );
    }
}

#[test]
fn joins_agree_with_the_standard_library() {
    let cases = [
        ("/home/u", ".cache"),
        ("/home/u/", ".cache"),
        ("/home/u", "/abs"),
        ("", "rel"),
        ("/", "x"),
        ("/home/u", "Library/Caches/Homebrew"),
    ];
    for (base, rel) in cases {
        let expected = std::path::Path::new(base).join(rel).to_string_lossy().to_string();
        assert_eq!(join_paths(base, rel), expected, "{:?} joined with {:?}", base, rel);
    }
}

#[test]
fn hidden_names_begin_with_a_dot() {
    assert!(path_is_hidden("/home/u/.profile"));
    assert!(!path_is_hidden("/home/u/profile"));
    assert!(!path_is_hidden("/home/.config/file"));
    assert!(!path_is_hidden("/"));
}

#[test]
fn a_component_is_found_by_its_whole_name() {
    assert!(has_component("/p/node_modules/x/y", "node_modules"));
    assert!(!has_component("/p/node_modules2/x", "node_modules"));
    assert!(has_component("/a/../b", ".."));
    assert!(!has_component("/a/b", ""));
}
