use afc_finder::remote_path::{file_name, join, parent, Host};
use std::path::Path;

/// Every text of up to `longest` of the given characters.
fn texts(alphabet: &[char], longest: usize) -> Vec<String> {
    let mut all = vec![String::new()];
    let mut last = vec![String::new()];
    for _ in 0..longest {
        let mut next = Vec::new();
        for text in &last {
            for c in alphabet {
                let mut longer = text.clone();
                longer.push(*c);
                next.push(longer);
            }
        }
        all.extend(next.iter().cloned());
        last = next;
    }
    all
}

#[test]
fn parents_are_those_of_a_unix_host() {
    for path in texts(&['/', '.', 'a', 'é'], 7) {
        let expected = Path::new(&path).parent().map(|p| p.to_str().unwrap().to_owned());
        assert_eq!(parent(Host::Unix, &path), expected, "{path}");
    }
}

#[test]
fn file_names_are_those_of_a_unix_host() {
    for path in texts(&['/', '.', 'a', 'é'], 7) {
        let expected = Path::new(&path).file_name().map(|p| p.to_str().unwrap().to_owned());
        assert_eq!(file_name(Host::Unix, &path), expected, "{path}");
    }
}

#[test]
fn joins_are_those_of_a_unix_host() {
    let parts = texts(&['/', '.', 'a', 'é'], 4);
    for base in &parts {
        for name in &parts {
            let expected = Path::new(base).join(name).to_str().unwrap().to_owned();
            assert_eq!(join(Host::Unix, base, name), expected, "{base} {name}");
        }
    }
}

#[test]
fn plain_paths() {
    assert_eq!(join(Host::Unix, "/Documents", "Inbox"), "/Documents/Inbox");
    assert_eq!(join(Host::Unix, "/", "DCIM"), "/DCIM");
    assert_eq!(join(Host::Unix, "", "DCIM"), "DCIM");
    assert_eq!(join(Host::Unix, "/Documents", "/etc"), "/etc");
    assert_eq!(join(Host::Unix, "/Documents", ""), "/Documents/");
    assert_eq!(parent(Host::Unix, "/Documents/Inbox"), Some("/Documents".to_string()));
    assert_eq!(parent(Host::Unix, "/Documents"), Some("/".to_string()));
    assert_eq!(parent(Host::Unix, "/"), None);
    assert_eq!(parent(Host::Unix, ""), None);
    assert_eq!(file_name(Host::Unix, "/DCIM/IMG_0001.HEIC"), Some("IMG_0001.HEIC".to_string()));
    assert_eq!(file_name(Host::Unix, "/DCIM/"), Some("DCIM".to_string()));
    assert_eq!(file_name(Host::Unix, "/DCIM/.."), None);
    assert_eq!(file_name(Host::Unix, "/"), None);
}

#[test]
fn way_in_and_out_of_a_directory() {
    for dir in ["", "/", "/Documents", "/a/b c", "a"] {
        for name in ["x", "Photos 2", "é", "..."] {
            let inner = join(Host::Unix, dir, name);
            assert_eq!(parent(Host::Unix, &inner), Some(dir.to_string()));
            assert_eq!(file_name(Host::Unix, &inner), Some(name.to_string()));
        }
    }
    assert_eq!(parent(Host::Unix, &join(Host::Unix, "/a/./", "x")), Some("/a".to_string()));
}

#[test]
fn windows_joins() {
    for (base, name, path) in [
        ("", "foo", "foo"),
        ("foo", "bar", r"foo\bar"),
        ("foo/", "bar", "foo/bar"),
        (r"foo\", "bar", r"foo\bar"),
        ("foo", "", r"foo\"),
        ("foo/", "/bar", "/bar"),
        (r"foo\bar", r"\bar", r"\bar"),
        (r"foo\bar", ".", r"foo\bar\."),
        (r"foo\bar", "..", r"foo\bar\.."),
        ("/", "DCIM", "/DCIM"),
        ("/DCIM", "100APPLE", r"/DCIM\100APPLE"),
        ("/Documents", "a/b", r"/Documents\a/b"),
        ("C:", "foo", "C:foo"),
        ("C:", r"\foo", r"C:\foo"),
        ("C:a", "b", r"C:a\b"),
        (r"C:\a", "b", r"C:\a\b"),
        (r"C:\a", r"\b", r"C:\b"),
        (r"C:\a\b\c", "C:d", "C:d"),
        (r"C:\a", r"\\server\share", r"\\server\share"),
        ("/a", "c:", "c:"),
        ("/a", "é:", r"/a\é:"),
        (r"\\server\share", "bar", r"\\server\share\bar"),
        (r"\\server\share\foo", "/bar", r"\\server\share/bar"),
        ("//server/share/foo", "/bar", "//server/share/bar"),
        (r"\\.\COM1", "x", r"\\.\COM1\x"),
        (r"\\server", "/x", "/x"),
    ] {
        assert_eq!(join(Host::Windows, base, name), path, "{base} {name}");
    }
}

#[test]
fn windows_joins_to_verbatim_paths() {
    for (base, name, path) in [
        (r"\\?\C:", "foo", r"\\?\C:\foo"),
        (r"\\?\C:\bar", "../foo", r"\\?\C:\foo"),
        (r"\\?\C:\bar", "../../foo", r"\\?\C:\foo"),
        (r"\\?\C:\", "../foo", r"\\?\C:\foo"),
        (r"\\?\C:", r"D:\foo/./", r"D:\foo/./"),
        (r"\\?\C:", r"\\?\D:\foo\.\", r"\\?\D:\foo\.\"),
        (r"\\?\A:\x\y", "/foo", r"\\?\A:\foo"),
        (r"\\?\A:", r"..\foo\.", r"\\?\A:\foo"),
        (r"\\?\A:\x\y", r".\foo\.", r"\\?\A:\x\y\foo"),
        (r"\\?\A:\x\y", "", r"\\?\A:\x\y\"),
        (r"\\?\A:\x", "..", r"\\?\A:\"),
        (r"\\?\A:\x", "/", r"\\?\A:\"),
        (r"\\?\A:", ".", r"\\?\A:"),
        (r"\\?\a\\b", "c", r"\\?\a\b\c"),
        (r"\\?\a\b/c\.", "..", r"\\?\a\b/c\."),
        (r"\\?\UNC\server\share\x", "y", r"\\?\UNC\server\share\x\y"),
        (r"\\?\UNC\server\share\x", "/y", r"\\?\UNC\server\share\y"),
        (r"//?/a/b", "c", r"//?/a/b\c"),
    ] {
        assert_eq!(join(Host::Windows, base, name), path, "{base} {name}");
    }
}

#[test]
fn windows_parents_and_file_names() {
    for (path, dir, name) in [
        ("", None, None),
        ("/", None, None),
        (r"\", None, None),
        (r"\foo", Some(r"\"), Some("foo")),
        (r"foo\", Some(""), Some("foo")),
        (r"a\\b", Some("a"), Some("b")),
        (r"a/b\c", Some("a/b"), Some("c")),
        (r"/DCIM\100APPLE", Some("/DCIM"), Some("100APPLE")),
        (r"/a\.\", Some("/"), Some("a")),
        (r"/a\..", Some("/a"), None),
        (".", Some(""), None),
        (r".\a", Some("."), Some("a")),
        ("C:", None, None),
        ("C:.", None, None),
        ("C:a", Some("C:"), Some("a")),
        (r"C:.\a", Some("C:."), Some("a")),
        (r"C:\", None, None),
        (r"C:\a", Some(r"C:\"), Some("a")),
        (r"\\server\share", None, None),
        (r"\\server\share\", None, None),
        (r"\\server\share\test.txt", Some(r"\\server\share\"), Some("test.txt")),
        (r"\\server", Some(r"\"), Some("server")),
        (r"\\.\foo\bar", Some(r"\\.\foo\"), Some("bar")),
        (r"\\?\C:\foo.txt", Some(r"\\?\C:\"), Some("foo.txt")),
        (r"\\?\UNC\server\share\foo", Some(r"\\?\UNC\server\share\"), Some("foo")),
        (r"\\?\bar\foo/baz", Some(r"\\?\bar\"), Some("foo/baz")),
        (r"\\?\bar\a\.", Some(r"\\?\bar\a"), None),
    ] {
        assert_eq!(parent(Host::Windows, path).as_deref(), dir, "{path}");
        assert_eq!(file_name(Host::Windows, path).as_deref(), name, "{path}");
    }
}

#[test]
fn way_in_and_out_of_a_directory_on_windows() {
    for dir in ["", "/", "/Documents", r"/a\b c", "a", "C:", r"C:\x"] {
        for name in ["x", "Photos 2", "é"] {
            let inner = join(Host::Windows, dir, name);
            assert_eq!(parent(Host::Windows, &inner), Some(dir.to_string()), "{inner}");
            assert_eq!(file_name(Host::Windows, &inner), Some(name.to_string()));
        }
    }
}
