use worktree_prune::bytes;
use worktree_prune::path::{file_stem, overlaps, AbsPath};

fn path(s: &str) -> AbsPath {
    AbsPath::root().join(s.as_bytes())
}

#[test]
fn written_paths_read_back() {
    for s in ["/", "/a", "/a/b c/d\ne", "/.hidden/..x/..."] {
        assert_eq!(path(s).to_bytes(), s.as_bytes());
        assert!(path("/elsewhere").join(s.as_bytes()).same(&path(s)));
    }
    let odd = AbsPath::root().join(b"/a/\xff\xfe");
    assert_eq!(odd.to_bytes(), b"/a/\xff\xfe");
    assert_eq!(odd.display(), "/a/\u{fffd}\u{fffd}");
}

#[test]
fn joining_agrees_with_std() {
    for base in ["/", "/a", "/a/b"] {
        for raw in ["", ".", "./x", "x/./y//z/", "../x", "/abs", "a/..", "//q", "..", "./../."] {
            let mine = path(base).join(raw.as_bytes());
            let theirs = std::path::Path::new(base).join(raw);
            let names: Vec<Vec<u8>> = theirs
                .components()
                .filter(|c| !matches!(c, std::path::Component::RootDir))
                .map(|c| c.as_os_str().to_str().unwrap().as_bytes().to_vec())
                .collect();
            assert_eq!(mine.depth(), names.len());
            for (i, n) in names.iter().enumerate() {
                assert_eq!(mine.name_at(i), n.as_slice());
            }
            assert_eq!(
                mine.file_name(),
                theirs.file_name().map(|n| n.to_str().unwrap().as_bytes().to_vec())
            );
            assert_eq!(mine.parent().is_some(), theirs.parent().is_some());
        }
    }
}

#[test]
fn relations_agree_with_std() {
    let all = ["/", "/a", "/a/b", "/ab", "/a/b/c", "/b", "/a-b", "/a/-", "/a/..", "/a/../b", "/a/Z"];
    for x in all {
        for y in all {
            let (p, q) = (path(x), path(y));
            let (s, t) = (std::path::Path::new(x), std::path::Path::new(y));
            assert_eq!(p.same(&q), s == t);
            assert_eq!(p.starts_with(&q), s.starts_with(t));
            assert_eq!(p.precedes(&q), s < t, "{x} {y}");
            assert_eq!(overlaps(&p, &q), s.starts_with(t) || t.starts_with(s));
            assert_eq!(overlaps(&p, &q), overlaps(&q, &p));
        }
    }
}

#[test]
fn disjoint_paths_have_nothing_in_common() {
    let (a, b) = (path("/x/a"), path("/x/b"));
    assert!(!overlaps(&a, &b));
    for p in ["/x/a/1", "/x/b/1", "/x", "/x/a"] {
        assert!(!(path(p).starts_with(&a) && path(p).starts_with(&b)));
    }
}

#[test]
fn stems_agree_with_std() {
    for name in ["repo.git", "repo", ".git", "a.b.c", "x.", "..foo", "...foo", ".a.b"] {
        let theirs = std::path::Path::new(name).file_stem().unwrap();
        assert_eq!(file_stem(name.as_bytes()), theirs.to_str().unwrap().as_bytes());
    }
}

#[test]
fn byte_strings_are_cut_and_ordered() {
    assert_eq!(bytes::split(b"a//b", b'/'), [b"a".to_vec(), b"".to_vec(), b"b".to_vec()]);
    assert_eq!(bytes::split(b"", b'/'), [b"".to_vec()]);
    assert!(bytes::precedes(b"a", b"ab"));
    assert!(bytes::precedes(b"ab", b"b"));
    assert!(!bytes::precedes(b"b", b"b"));
    assert!(bytes::has_prefix(b"locked now", b"locked"));
    assert!(!bytes::has_prefix(b"lock", b"locked"));
    assert_eq!(bytes::tail(b"abc", 1), b"bc");
    assert_eq!(bytes::head(b"abc", 1), b"a");
    assert!(bytes::same(b"x", b"x") && !bytes::same(b"x", b"y"));
}
