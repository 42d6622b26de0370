use core::cmp::Ordering;
use dragon_net::mount::{MountList, MountPath};
use dragon_net::path::{KPath, PathComponent};

fn path(s: &str) -> KPath {
    let mut comps = Vec::new();
    if s.starts_with('/') {
        comps.push(PathComponent::RootDir);
    }
    for part in s.split('/') {
        match part {
            "" => {}
            "." => comps.push(PathComponent::CurDir),
            ".." => comps.push(PathComponent::ParentDir),
            name => comps.push(PathComponent::Normal(name.as_bytes().to_vec())),
        }
    }
    KPath::new(comps)
}

fn mp(s: &str) -> MountPath {
    MountPath::from_path(path(s))
}

#[test]
fn path_text_and_parent() {
    assert_eq!(path("/a/b").text(), b"/a/b".to_vec());
    assert_eq!(path("/").text(), b"/".to_vec());
    assert_eq!(path("a/../b").text(), b"a/../b".to_vec());
    assert_eq!(path("").text(), b"".to_vec());
    assert_eq!(path("/a/b").parent().unwrap().text(), b"/a".to_vec());
    assert_eq!(path("/a").parent().unwrap().text(), b"/".to_vec());
    assert!(path("/").parent().is_none());
    assert_eq!(path("a").parent().unwrap().component_count(), 0);
    assert!(path("").parent().is_none());
}

#[test]
fn strip_prefix_is_component_wise() {
    let rest = path("/mnt/disk/dir/f").strip_prefix(&path("/mnt/disk")).unwrap();
    assert_eq!(rest.text(), b"dir/f".to_vec());
    assert_eq!(path("/mnt").strip_prefix(&path("/mnt")).unwrap().component_count(), 0);
    assert!(path("/mnt/diskette").strip_prefix(&path("/mnt/disk")).is_none());
    assert!(path("/mnt").strip_prefix(&path("/mnt/disk")).is_none());
    assert_eq!(path("/a/b").strip_prefix(&path("/")).unwrap().text(), b"a/b".to_vec());
}

#[test]
fn path_order_is_by_components() {
    assert_eq!(path("/a/b").compare(&path("/a/c")), -1);
    assert_eq!(path("/a/c").compare(&path("/a/b")), 1);
    assert_eq!(path("/a").compare(&path("/a/b")), -1);
    assert_eq!(path("/a/b").compare(&path("/a/b")), 0);
    assert_eq!(path("/ab").compare(&path("/a/b")), 1);
    assert_eq!(path("/z").compare(&path("a")), -1);
    assert_eq!(path("..").compare(&path("a")), -1);
    assert!(path("/x/y").same_as(&path("/x/y")));
    assert!(!path("/x/y").same_as(&path("/x")));
    assert_eq!(path("/x/y").duplicate().text(), b"/x/y".to_vec());
}

#[test]
fn deeper_mount_points_order_first() {
    assert_eq!(mp("/mnt/disk").cmp(&mp("/mnt")), Ordering::Less);
    assert_eq!(mp("/").cmp(&mp("/proc")), Ordering::Greater);
    assert_eq!(mp("/a").cmp(&mp("/b")), Ordering::Less);
    assert_eq!(mp("/b").cmp(&mp("/a")), Ordering::Greater);
    assert_eq!(mp("/a/b").cmp(&mp("/a/b")), Ordering::Equal);
    assert_eq!(mp("/a").partial_cmp(&mp("/b")), Some(Ordering::Less));
    assert!(mp("/a/b").precedes(&mp("/z")));
    assert_eq!(mp("/a/b").as_path().text(), b"/a/b".to_vec());
}

#[test]
fn lookup_finds_deepest_mount_point() {
    let mut list: MountList<u32> = MountList::init();
    list.insert(mp("/"), 1);
    list.insert(mp("/mnt"), 2);
    list.insert(mp("/mnt/disk"), 3);
    list.insert(mp("/proc"), 4);
    let all_alive = |fs: &u32| Some(*fs);
    let (m, rest, fs) = list.get(&path("/mnt/disk/a/b"), all_alive).unwrap();
    assert_eq!((m.text(), rest.text(), fs), (b"/mnt/disk".to_vec(), b"a/b".to_vec(), 3));
    let (m, rest, fs) = list.get(&path("/mnt/other"), all_alive).unwrap();
    assert_eq!((m.text(), rest.text(), fs), (b"/mnt".to_vec(), b"other".to_vec(), 2));
    let (m, rest, fs) = list.get(&path("/etc/passwd"), all_alive).unwrap();
    assert_eq!((m.text(), rest.text(), fs), (b"/".to_vec(), b"etc/passwd".to_vec(), 1));
    let (m, rest, fs) = list.get(&path("/proc"), all_alive).unwrap();
    assert_eq!((m.text(), rest.component_count(), fs), (b"/proc".to_vec(), 0, 4));
    assert!(list.get(&path("relative/x"), all_alive).is_none());
}

#[test]
fn lookup_skips_file_systems_that_are_gone() {
    let mut list: MountList<u32> = MountList::init();
    list.insert(mp("/"), 1);
    list.insert(mp("/mnt/disk"), 3);
    let (m, _, fs) = list.get(&path("/mnt/disk/f"), |fs: &u32| if *fs == 3 { None } else { Some(*fs) }).unwrap();
    assert_eq!((m.text(), fs), (b"/".to_vec(), 1));
    assert!(list.get(&path("/mnt/disk/f"), |_: &u32| None::<u32>).is_none());
}

#[test]
fn insert_replaces_existing_mount_point() {
    let mut list: MountList<u32> = MountList::init();
    list.insert(mp("/mnt"), 2);
    list.insert(mp("/mnt"), 20);
    let (_, _, fs) = list.get(&path("/mnt/x"), |fs: &u32| Some(*fs)).unwrap();
    assert_eq!(fs, 20);
}
