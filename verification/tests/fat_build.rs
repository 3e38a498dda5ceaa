use bootdisk::fat::{create_fat_filesystem, FatError};
use bootdisk::fileset::FileSet;
use bootdisk::sizes::fat_size;

const LABEL: [u8; 11] = *b"BOOT       ";

fn build_set(pairs: &[(&str, Vec<u8>)]) -> FileSet {
    let mut files = FileSet::new();
    for (path, content) in pairs {
        assert!(files.add(String::from(*path), content.clone()));
    }
    files
}

fn pattern(len: usize, seed: u8) -> Vec<u8> {
    let mut v = Vec::with_capacity(len);
    let mut x = seed;
    for _ in 0..len {
        v.push(x);
        x = x.wrapping_mul(31).wrapping_add(7);
    }
    v
}

fn read_back(img: &[u8], path: &str) -> Vec<u8> {
    let cur = std::io::Cursor::new(img.to_vec());
    let fs = fatfs::FileSystem::new(cur, fatfs::FsOptions::new()).unwrap();
    let mut f = fs.root_dir().open_file(path).unwrap();
    let mut buf = Vec::new();
    std::io::Read::read_to_end(&mut f, &mut buf).unwrap();
    buf
}

fn list_dir(img: &[u8], path: Option<&str>) -> Vec<String> {
    let cur = std::io::Cursor::new(img.to_vec());
    let fs = fatfs::FileSystem::new(cur, fatfs::FsOptions::new()).unwrap();
    let root = fs.root_dir();
    let dir = match path {
        None => root,
        Some(p) => root.open_dir(p).unwrap(),
    };
    let mut names = Vec::new();
    for e in dir.iter() {
        let name = e.unwrap().file_name();
        if name != "." && name != ".." {
            names.push(name);
        }
    }
    names
}

#[test]
fn sizing_formula() {
    let mib: u64 = 1024 * 1024;
    assert_eq!(fat_size(0), 2 * mib);
    assert_eq!(fat_size(500010), 2 * mib);
    assert_eq!(fat_size(mib - 65536), 2 * mib);
    assert_eq!(fat_size(mib - 65536 + 1), 3 * mib);
    assert_eq!(fat_size(10 * mib), 12 * mib);
}

#[test]
fn scenario_kernel_and_nested_file() {
    let kernel = pattern(500000, 3);
    let note = pattern(10, 9);
    let files = build_set(&[("boot/kernel", kernel.clone()), ("a/b/c.txt", note.clone())]);
    let img = create_fat_filesystem(&files, LABEL).unwrap();
    assert_eq!(img.len() as u64, 2 * 1024 * 1024);
    assert_eq!(read_back(&img, "boot/kernel"), kernel);
    assert_eq!(read_back(&img, "a/b/c.txt"), note);
    let root = list_dir(&img, None);
    assert!(root.contains(&String::from("a")));
    assert!(root.contains(&String::from("boot")));
    assert_eq!(list_dir(&img, Some("a")), vec![String::from("b")]);
}

#[test]
fn empty_set_formats_two_mebibytes() {
    let files = FileSet::new();
    let img = create_fat_filesystem(&files, LABEL).unwrap();
    assert_eq!(img.len() as u64, 2 * 1024 * 1024);
    assert_eq!(list_dir(&img, None), Vec::<String>::new());
}

#[test]
fn volume_label_is_kept() {
    let files = build_set(&[("boot/kernel", pattern(64, 1))]);
    let img = create_fat_filesystem(&files, *b"SYSROOT    ").unwrap();
    let cur = std::io::Cursor::new(img);
    let fs = fatfs::FileSystem::new(cur, fatfs::FsOptions::new()).unwrap();
    assert_eq!(fs.volume_label_as_bytes(), b"SYSROOT");
}

#[test]
fn every_file_reads_back_identically() {
    let pairs = [
        ("boot/kernel", pattern(70000, 5)),
        ("init/init", pattern(1234, 11)),
        ("bin/test", pattern(1, 17)),
        ("usr/share/doc/readme.txt", pattern(999, 23)),
        ("usr/share/doc/notes", pattern(0, 29)),
        ("usr/lib/libm.so", pattern(4096, 31)),
    ];
    let files = build_set(&pairs);
    let img = create_fat_filesystem(&files, LABEL).unwrap();
    for (path, content) in &pairs {
        assert_eq!(&read_back(&img, path), content, "{path}");
    }
}

#[test]
fn ancestors_exist_exactly_once_in_any_order() {
    let one = [
        ("a/b/x", pattern(10, 1)),
        ("a/c", pattern(10, 2)),
        ("a/b/y", pattern(10, 3)),
    ];
    let two = [
        ("a/b/y", pattern(10, 3)),
        ("a/b/x", pattern(10, 1)),
        ("a/c", pattern(10, 2)),
    ];
    let img1 = create_fat_filesystem(&build_set(&one), LABEL).unwrap();
    let img2 = create_fat_filesystem(&build_set(&two), LABEL).unwrap();
    for img in [&img1, &img2] {
        let root = list_dir(img, None);
        assert_eq!(root.iter().filter(|n| n.as_str() == "a").count(), 1);
        let a = list_dir(img, Some("a"));
        assert_eq!(a.iter().filter(|n| n.as_str() == "b").count(), 1);
        assert_eq!(a.iter().filter(|n| n.as_str() == "c").count(), 1);
        let b = list_dir(img, Some("a/b"));
        assert_eq!(b.len(), 2);
    }
}

#[test]
fn identical_inputs_build_identical_images() {
    let pairs = [
        ("boot/kernel", pattern(40000, 5)),
        ("a/b/c.txt", pattern(10, 9)),
    ];
    let img1 = create_fat_filesystem(&build_set(&pairs), LABEL).unwrap();
    let img2 = create_fat_filesystem(&build_set(&pairs), LABEL).unwrap();
    assert_eq!(img1, img2);
}

#[test]
fn add_rejects_bad_and_duplicate_paths() {
    let mut files = FileSet::new();
    assert!(files.add(String::from("boot/kernel"), vec![1, 2, 3]));
    assert!(!files.add(String::from("boot/kernel"), vec![4]));
    assert!(!files.add(String::from("BOOT/Kernel"), vec![4]));
    assert!(!files.add(String::from(""), vec![]));
    assert!(!files.add(String::from("/abs"), vec![]));
    assert!(!files.add(String::from("a//b"), vec![]));
    assert!(!files.add(String::from("trailing/"), vec![]));
    assert!(!files.add(String::from("a/./b"), vec![]));
    assert!(!files.add(String::from("a/../b"), vec![]));
    assert!(!files.add(String::from("dot./x"), vec![]));
    assert!(!files.add(String::from("enddot."), vec![]));
    assert!(!files.add(String::from("sp ace"), vec![]));
    assert!(!files.add(String::from("til~de"), vec![]));
    assert!(files.add(String::from("README"), vec![]));
    assert!(files.add(String::from(".hidden"), vec![]));
    assert!(files.add(String::from("usr/x86_64-elf/c.txt"), vec![]));
    assert_eq!(files.entries.len(), 4);
}

#[test]
fn mixed_case_paths_read_back_case_insensitively() {
    let kernel = pattern(5000, 3);
    let conf = pattern(40, 9);
    let files = build_set(&[("Boot/Kernel", kernel.clone()), ("boot/config", conf.clone())]);
    let img = create_fat_filesystem(&files, LABEL).unwrap();
    assert_eq!(read_back(&img, "Boot/Kernel"), kernel);
    assert_eq!(read_back(&img, "BOOT/KERNEL"), kernel);
    assert_eq!(read_back(&img, "boot/config"), conf);
    let root = list_dir(&img, None);
    assert_eq!(root.len(), 1);
    assert_eq!(list_dir(&img, Some("boot")).len(), 2);
}

#[test]
fn leading_dot_names_read_back() {
    let prof = pattern(77, 13);
    let files = build_set(&[(".profile", prof.clone()), ("home/.bashrc", pattern(5, 2))]);
    let img = create_fat_filesystem(&files, LABEL).unwrap();
    assert_eq!(read_back(&img, ".profile"), prof);
    assert_eq!(read_back(&img, "home/.bashrc"), pattern(5, 2));
}

#[test]
fn overfull_root_directory_fails_cleanly() {
    let mut files = FileSet::new();
    for k in 0..600 {
        assert!(files.add(format!("f{k}"), vec![0u8]));
    }
    let r = create_fat_filesystem(&files, LABEL);
    match r {
        Ok(_) => panic!("root directory overflow was not reported"),
        Err(FatError::CreateFile(p) | FatError::CopyData(p)) => assert!(p.starts_with('f')),
        Err(e) => panic!("unexpected stage: {e:?}"),
    }
}
