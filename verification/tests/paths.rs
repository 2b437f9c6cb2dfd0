use brink::paths::{absolute, bytes_of, copy, join, strip_slashes};
use std::path::Path;

#[test]
fn paths_are_joined_as_the_standard_library_does() {
    for base in ["/", "/a", "/a/", "a", ""] {
        for name in ["b", "b/c", "/b", ""] {
            let want = Path::new(base).join(name);
            let got = join(&base.as_bytes().to_vec(), name.as_bytes());
            assert_eq!(got, want.to_str().unwrap().as_bytes(), "{:?} {:?}", base, name);
        }
    }
}

#[test]
fn absolute_paths_begin_with_a_slash() {
    for path in ["/", "/a", "a", "", "./a"] {
        assert_eq!(absolute(&path.as_bytes().to_vec()), Path::new(path).is_absolute());
    }
}

#[test]
fn leading_slashes_are_stripped() {
    assert_eq!(strip_slashes(b"///a/b/"), b"a/b/".to_vec());
    assert_eq!(strip_slashes(b"a"), b"a".to_vec());
    assert_eq!(strip_slashes(b"//"), Vec::<u8>::new());
}

#[test]
fn copies_are_equal() {
    assert_eq!(copy(&vec![1, 2, 3]), vec![1, 2, 3]);
    assert_eq!(bytes_of("a\u{e9}"), vec![b'a', 0xc3, 0xa9]);
}
