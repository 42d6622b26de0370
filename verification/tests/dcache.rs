use dragon_net::dcache::DCache;
use dragon_net::path::{KPath, PathComponent};

fn path(s: &str) -> KPath {
    let mut comps = Vec::new();
    if s.starts_with('/') {
        comps.push(PathComponent::RootDir);
    }
    for part in s.split('/') {
        if !part.is_empty() {
            comps.push(PathComponent::Normal(part.as_bytes().to_vec()));
        }
    }
    KPath::new(comps)
}

fn never(_: u64) -> bool {
    false
}

#[test]
fn lookup_finds_entry_at_path() {
    let mut c = DCache::new();
    c.put(&path("/usr/lib"), 7, never);
    let (found, at) = c.quick_lookup(&path("/usr/lib"), &path("/"), |id| Some(id)).unwrap();
    assert_eq!((found, at.text()), (7, b"/usr/lib".to_vec()));
}

#[test]
fn lookup_walks_up_to_an_ancestor() {
    let mut c = DCache::default();
    c.put(&path("/usr"), 3, never);
    let (found, at) = c.quick_lookup(&path("/usr/lib/x"), &path("/"), |id| Some(id * 10)).unwrap();
    assert_eq!((found, at.text()), (30, b"/usr".to_vec()));
}

#[test]
fn lookup_stops_before_stop_path() {
    let mut c = DCache::new();
    c.put(&path("/usr"), 3, never);
    assert!(c.quick_lookup(&path("/usr/lib/x"), &path("/usr"), |id| Some(id)).is_none());
    c.put(&path("/"), 1, never);
    assert!(c.quick_lookup(&path("/etc"), &path("/"), |id| Some(id)).is_none());
    let (found, _) = c.quick_lookup(&path("/etc"), &path("/nowhere"), |id| Some(id)).unwrap();
    assert_eq!(found, 1);
}

#[test]
fn lookup_skips_dead_entries() {
    let mut c = DCache::new();
    c.put(&path("/a"), 1, never);
    c.put(&path("/a/b"), 2, never);
    let (found, at) = c.quick_lookup(&path("/a/b/c"), &path("/"), |id| if id == 2 { None } else { Some(id) }).unwrap();
    assert_eq!((found, at.text()), (1, b"/a".to_vec()));
}

#[test]
fn first_entry_for_a_path_stays() {
    let mut c = DCache::new();
    c.put(&path("/a"), 1, never);
    c.put(&path("/a"), 2, never);
    let (found, _) = c.quick_lookup(&path("/a"), &path("/"), |id| Some(id)).unwrap();
    assert_eq!(found, 1);
}

#[test]
fn clean_removes_unused_entries() {
    let mut c = DCache::new();
    for (p, id) in [("/a", 1u64), ("/b", 2), ("/c", 3), ("/d", 4)] {
        c.put(&path(p), id, never);
    }
    assert_eq!(c.clean(|id| id % 2 == 0), 2);
    assert_eq!(c.clean(|id| id % 2 == 0), 0);
    assert_eq!(c.clean(|_| true), 2);
    // The table keeps its entries.
    assert!(c.quick_lookup(&path("/b"), &path("/"), |id| Some(id)).is_some());
}

#[test]
fn put_cleans_once_table_reaches_limit() {
    let mut c = DCache::new_with_max_size(2);
    c.put(&path("/a"), 1, |_| true);
    assert_eq!(c.clean(|_| false), 0);
    c.put(&path("/b"), 2, |_| true);
    // The second put reached the limit and cleaned both entries.
    assert_eq!(c.clean(|_| true), 0);
}

#[test]
fn lookup_uses_the_written_text_of_the_searched_path() {
    let mut c = DCache::new();
    c.put(&path("/a/b"), 5, never);
    let written = KPath::with_texts(
        vec![PathComponent::RootDir, PathComponent::Normal(b"a".to_vec()), PathComponent::Normal(b"b".to_vec())],
        vec![b"/".to_vec(), b"/a".to_vec(), b"/a/b/".to_vec()],
    );
    assert_eq!(written.key(), b"/a/b/".to_vec());
    assert!(c.quick_lookup(&written, &path("/nowhere"), |id| Some(id)).is_none());
    c.put(&path("/a"), 4, never);
    let (found, at) = c.quick_lookup(&written, &path("/nowhere"), |id| Some(id)).unwrap();
    assert_eq!((found, at.key()), (4, b"/a".to_vec()));
    assert_eq!(path("/a/b").key(), b"/a/b".to_vec());
}
