use umbra::tar::TarArchive;

fn header(name: &[u8], size: usize, typeflag: u8) -> Vec<u8> {
    let mut h = vec![0u8; 512];
    h[..name.len()].copy_from_slice(name);
    let octal = format!("{:011o}", size);
    h[124..135].copy_from_slice(octal.as_bytes());
    h[156] = typeflag;
    h
}

fn file(name: &[u8], contents: &[u8], typeflag: u8) -> Vec<u8> {
    let mut v = header(name, contents.len(), typeflag);
    v.extend_from_slice(contents);
    while v.len() % 512 != 0 {
        v.push(0);
    }
    v
}

fn archive(files: &[Vec<u8>]) -> Vec<u8> {
    let mut v = Vec::new();
    for f in files {
        v.extend_from_slice(f);
    }
    v.extend_from_slice(&[0u8; 1024]);
    v
}

#[test]
fn iterates_regular_files_in_order() {
    let data = archive(&[
        file(b"hello", b"hello world", b'0'),
        file(b"empty", b"", 0),
        file(b"shell", &[7u8; 600], b'0'),
    ]);
    let tar = TarArchive::new(&data);
    let mut it = tar.iter();
    let e = it.next().unwrap();
    assert_eq!(e.name, "hello");
    assert_eq!(e.size, 11);
    assert_eq!(e.data, b"hello world");
    let e = it.next().unwrap();
    assert_eq!(e.name, "empty");
    assert_eq!(e.size, 0);
    assert!(e.data.is_empty());
    let e = it.next().unwrap();
    assert_eq!(e.name, "shell");
    assert_eq!(e.size, 600);
    assert_eq!(e.data.len(), 600);
    assert!(it.next().is_none());
    assert!(it.next().is_none());
}

#[test]
fn skips_directories_and_links() {
    let data = archive(&[file(b"dir/", b"", b'5'), file(b"dir/a", b"abc", b'0')]);
    let tar = TarArchive::new(&data);
    let mut it = tar.iter();
    let e = it.next().unwrap();
    assert_eq!(e.name, "dir/a");
    assert_eq!(e.data, b"abc");
    assert!(it.next().is_none());
}

#[test]
fn empty_and_short_archives_have_no_entries() {
    let empty: [u8; 0] = [];
    assert!(TarArchive::new(&empty).iter().next().is_none());
    let short = [1u8; 100];
    assert!(TarArchive::new(&short).iter().next().is_none());
    let zeros = [0u8; 2048];
    assert!(TarArchive::new(&zeros).iter().next().is_none());
}

#[test]
fn truncated_data_ends_iteration() {
    let mut data = header(b"big", 4096, b'0');
    data.extend_from_slice(&[1u8; 100]);
    let tar = TarArchive::new(&data);
    assert!(tar.iter().next().is_none());
}

#[test]
fn invalid_utf8_name_gets_placeholder() {
    let data = archive(&[file(&[0xFF, 0xFE, b'x'], b"z", b'0')]);
    let tar = TarArchive::new(&data);
    let e = tar.iter().next().unwrap();
    assert_eq!(e.name, "<invalid utf8>");
    assert_eq!(e.data, b"z");
}

#[test]
fn octal_size_with_spaces() {
    let mut h = vec![0u8; 512];
    h[..4].copy_from_slice(b"spcs");
    // Leading spaces are skipped; a space after digits ends the field.
    h[124..136].copy_from_slice(b"   12 777   ");
    h[156] = b'0';
    let mut data = h;
    data.extend_from_slice(&[9u8; 512]);
    let tar = TarArchive::new(&data);
    let e = tar.iter().next().unwrap();
    assert_eq!(e.size, 0o12);
    assert_eq!(e.data, &[9u8; 10]);
}

#[test]
fn find_spawnable_takes_first_nonempty_match() {
    let data = archive(&[
        file(b"init", b"", b'0'),
        file(b"init", b"second", b'0'),
        file(b"other", b"x", b'0'),
    ]);
    let tar = TarArchive::new(&data);
    let e = tar.find_spawnable("init").unwrap();
    assert_eq!(e.data, b"second");
    assert!(tar.find_spawnable("missing").is_none());
    assert_eq!(tar.find_spawnable("other").unwrap().size, 1);
}

#[test]
fn find_spawnable_by_raw_name_bytes() {
    let data = archive(&[file(b"init", b"", b'0'), file(b"init", b"second", b'0'), file(b"\xC3\xA9t\xC3\xA9", b"ete", b'0')]);
    let tar = TarArchive::new(&data);
    assert_eq!(tar.find_spawnable_bytes(b"init").unwrap().data, b"second");
    assert_eq!(tar.find_spawnable_bytes("été".as_bytes()).unwrap().data, b"ete");
    assert!(tar.find_spawnable_bytes(b"missing").is_none());
    // Bytes that are not UTF-8 name nothing.
    assert!(tar.find_spawnable_bytes(b"\xFFinit").is_none());
}
