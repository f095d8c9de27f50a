use jailpull::{decode_layer, entry_is_safe, path_is_safe, EntryKind, FsState, LayerEntry, Node,
    RunError};

fn file_entry(path: &[u8], data: &[u8]) -> LayerEntry {
    LayerEntry {
        path: path.to_vec(),
        data: data.to_vec(),
        mode: 0o644,
        type_byte: b'0',
        link_target: Vec::new(),
    }
}

fn link_entry(type_byte: u8, path: &[u8], target: &[u8]) -> LayerEntry {
    LayerEntry {
        path: path.to_vec(),
        data: Vec::new(),
        mode: 0o777,
        type_byte,
        link_target: target.to_vec(),
    }
}

const SYMLINK: u8 = b'2';
const HARDLINK: u8 = b'1';

#[test]
fn safe_and_unsafe_paths() {
    assert!(path_is_safe(&b"bin/sh".to_vec()));
    assert!(path_is_safe(&b"etc/conf".to_vec()));
    assert!(path_is_safe(&b"a/..b/c".to_vec()));
    assert!(path_is_safe(&b"..hidden".to_vec()));
    assert!(path_is_safe(&b"./bin/sh".to_vec()));
    assert!(!path_is_safe(&b"".to_vec()));
    assert!(!path_is_safe(&b"/etc/passwd".to_vec()));
    assert!(!path_is_safe(&b"..".to_vec()));
    assert!(!path_is_safe(&b"../evil".to_vec()));
    assert!(!path_is_safe(&b"a/../b".to_vec()));
    assert!(!path_is_safe(&b"a/..".to_vec()));
}

#[test]
fn admissible_and_inadmissible_entries() {
    assert!(entry_is_safe(&file_entry(b"bin/a", b"X")));
    // A symbolic link may point anywhere: it is stored verbatim and only
    // resolved at run time inside the jail. An empty target is malformed.
    assert!(entry_is_safe(&link_entry(SYMLINK, b"bin/sh", b"/bin/busybox")));
    assert!(entry_is_safe(&link_entry(SYMLINK, b"usr/bin/vi", b"../../bin/busybox")));
    assert!(!entry_is_safe(&link_entry(SYMLINK, b"bin/sh", b"")));
    // A hard link's target is resolved against the root at extraction
    // time, so it must be confined like an entry path.
    assert!(entry_is_safe(&link_entry(HARDLINK, b"bin/gzip", b"bin/busybox")));
    assert!(!entry_is_safe(&link_entry(HARDLINK, b"bin/gzip", b"../../etc/passwd")));
    assert!(!entry_is_safe(&link_entry(HARDLINK, b"bin/gzip", b"/etc/passwd")));
    // Entry kinds a layer may not carry are rejected, never altered.
    assert!(!entry_is_safe(&LayerEntry {
        path: b"dev/fifo".to_vec(),
        data: Vec::new(),
        mode: 0o644,
        type_byte: b'6',
        link_target: Vec::new(),
    }));
}

#[test]
fn escaping_entry_is_rejected_and_not_written() {
    let mut fs = FsState::new();
    let layer = vec![
        file_entry(b"bin/a", b"X"),
        file_entry(b"../evil", b"boom"),
        file_entry(b"bin/b", b"Y"),
    ];
    assert_eq!(fs.apply_layer(&layer), Err(RunError::Protocol));
    // The entry before the rejected one was written; the rejected one and
    // everything after it were not.
    assert_eq!(fs.get(&b"bin/a".to_vec()).unwrap(), &Node::File { data: b"X".to_vec(), mode: 0o644 });
    assert!(fs.get(&b"../evil".to_vec()).is_none());
    assert!(fs.get(&b"bin/b".to_vec()).is_none());
}

#[test]
fn escaping_hard_link_target_is_rejected() {
    let mut fs = FsState::new();
    let layer = vec![link_entry(HARDLINK, b"bin/gzip", b"../../etc/passwd")];
    assert_eq!(fs.apply_layer(&layer), Err(RunError::Protocol));
    assert!(fs.get(&b"bin/gzip".to_vec()).is_none());
}

#[test]
fn later_layer_overwrites_earlier_file_for_file() {
    let mut fs = FsState::new();
    let layer1 = vec![file_entry(b"bin/a", b"X")];
    let layer2 = vec![file_entry(b"bin/a", b"Y"), file_entry(b"etc/conf", b"Z")];
    fs.apply_layer(&layer1).unwrap();
    fs.apply_layer(&layer2).unwrap();
    assert_eq!(fs.get(&b"bin/a".to_vec()).unwrap(), &Node::File { data: b"Y".to_vec(), mode: 0o644 });
    assert_eq!(fs.get(&b"etc/conf".to_vec()).unwrap(), &Node::File { data: b"Z".to_vec(), mode: 0o644 });
}

#[test]
fn later_write_wins_inside_one_layer() {
    let mut fs = FsState::new();
    let layer = vec![file_entry(b"f", b"first"), file_entry(b"f", b"second")];
    fs.apply_layer(&layer).unwrap();
    assert_eq!(fs.get(&b"f".to_vec()).unwrap(), &Node::File { data: b"second".to_vec(), mode: 0o644 });
}

#[test]
fn a_link_replaces_a_file_and_a_file_replaces_a_link() {
    let mut fs = FsState::new();
    let layer1 = vec![
        file_entry(b"bin/sh", b"old shell"),
        link_entry(SYMLINK, b"bin/vi", b"/bin/busybox"),
    ];
    let layer2 = vec![
        link_entry(SYMLINK, b"bin/sh", b"/bin/busybox"),
        file_entry(b"bin/vi", b"real vi"),
    ];
    fs.apply_layer(&layer1).unwrap();
    fs.apply_layer(&layer2).unwrap();
    assert_eq!(
        fs.get(&b"bin/sh".to_vec()).unwrap(),
        &Node::Symlink { target: b"/bin/busybox".to_vec() }
    );
    assert_eq!(
        fs.get(&b"bin/vi".to_vec()).unwrap(),
        &Node::File { data: b"real vi".to_vec(), mode: 0o644 }
    );
}

#[test]
fn directory_entries_carry_their_permission_bits() {
    let mut fs = FsState::new();
    let layer = vec![
        LayerEntry {
            path: b"bin/".to_vec(),
            data: Vec::new(),
            mode: 0o755,
            type_byte: b'5',
            link_target: Vec::new(),
        },
        file_entry(b"bin/a", b"X"),
    ];
    fs.apply_layer(&layer).unwrap();
    assert_eq!(fs.get(&b"bin/".to_vec()).unwrap(), &Node::Dir { mode: 0o755 });
    assert_eq!(fs.get(&b"bin/a".to_vec()).unwrap(), &Node::File { data: b"X".to_vec(), mode: 0o644 });
}

fn gzip_bytes(tarbytes: &[u8]) -> Vec<u8> {
    let mut enc = flate2::write::GzEncoder::new(Vec::new(), flate2::Compression::default());
    std::io::Write::write_all(&mut enc, tarbytes).unwrap();
    enc.finish().unwrap()
}

fn gzipped_tar(entries: &[(&str, &[u8])]) -> Vec<u8> {
    let mut builder = tar::Builder::new(Vec::new());
    for (path, data) in entries {
        let mut header = tar::Header::new_gnu();
        header.set_size(data.len() as u64);
        header.set_mode(0o644);
        builder.append_data(&mut header, path, *data).unwrap();
    }
    gzip_bytes(&builder.into_inner().unwrap())
}

#[test]
fn layer_blob_round_trips_through_decoding() {
    let blob = gzipped_tar(&[("bin/a", &b"X"[..]), ("etc/conf", &b"ZZ"[..])]);
    let entries = decode_layer(&blob).unwrap();
    assert_eq!(entries.len(), 2);
    assert_eq!(entries[0].path, b"bin/a".to_vec());
    assert_eq!(entries[0].data, b"X".to_vec());
    assert_eq!(entries[0].mode, 0o644);
    assert_eq!(jailpull::entry_kind(entries[0].type_byte), EntryKind::File);
    assert_eq!(entries[1].path, b"etc/conf".to_vec());
    assert_eq!(entries[1].data, b"ZZ".to_vec());

    let mut fs = FsState::new();
    fs.apply_layer(&entries).unwrap();
    assert_eq!(fs.get(&b"bin/a".to_vec()).unwrap(), &Node::File { data: b"X".to_vec(), mode: 0o644 });
}

#[test]
fn symlink_entries_round_trip_through_decoding() {
    let mut builder = tar::Builder::new(Vec::new());
    let mut header = tar::Header::new_gnu();
    header.set_entry_type(tar::EntryType::Symlink);
    header.set_size(0);
    header.set_mode(0o777);
    builder.append_link(&mut header, "bin/sh", "/bin/busybox").unwrap();
    let blob = gzip_bytes(&builder.into_inner().unwrap());

    let entries = decode_layer(&blob).unwrap();
    assert_eq!(entries.len(), 1);
    assert_eq!(jailpull::entry_kind(entries[0].type_byte), EntryKind::Symlink);
    assert_eq!(entries[0].path, b"bin/sh".to_vec());
    assert_eq!(entries[0].link_target, b"/bin/busybox".to_vec());

    let mut fs = FsState::new();
    fs.apply_layer(&entries).unwrap();
    assert_eq!(
        fs.get(&b"bin/sh".to_vec()).unwrap(),
        &Node::Symlink { target: b"/bin/busybox".to_vec() }
    );
}

#[test]
fn hard_link_escaping_the_root_is_rejected_in_decoding() {
    let mut builder = tar::Builder::new(Vec::new());
    let mut header = tar::Header::new_gnu();
    header.set_entry_type(tar::EntryType::Link);
    header.set_size(0);
    header.set_mode(0o644);
    builder.append_link(&mut header, "bin/gzip", "../../etc/passwd").unwrap();
    let blob = gzip_bytes(&builder.into_inner().unwrap());
    assert!(matches!(decode_layer(&blob), Err(RunError::Protocol)));
}

#[test]
fn unsupported_entry_kind_is_rejected_in_decoding() {
    let mut builder = tar::Builder::new(Vec::new());
    let mut header = tar::Header::new_gnu();
    header.set_entry_type(tar::EntryType::Fifo);
    header.set_size(0);
    header.set_mode(0o644);
    builder.append_data(&mut header, "dev/fifo", &b""[..]).unwrap();
    let blob = gzip_bytes(&builder.into_inner().unwrap());
    assert!(matches!(decode_layer(&blob), Err(RunError::Protocol)));
}

#[test]
fn manifest_order_composes_end_to_end() {
    // The scenario of the two-layer manifest: L1 writes /bin/a = "X",
    // L2 writes /bin/a = "Y" and /etc/conf = "Z"; afterwards bin/a holds
    // "Y" and etc/conf holds "Z".
    let l1 = gzipped_tar(&[("bin/a", &b"X"[..])]);
    let l2 = gzipped_tar(&[("bin/a", &b"Y"[..]), ("etc/conf", &b"Z"[..])]);
    let mut fs = FsState::new();
    for blob in [l1, l2] {
        let entries = decode_layer(&blob).unwrap();
        fs.apply_layer(&entries).unwrap();
    }
    assert_eq!(fs.get(&b"bin/a".to_vec()).unwrap(), &Node::File { data: b"Y".to_vec(), mode: 0o644 });
    assert_eq!(fs.get(&b"etc/conf".to_vec()).unwrap(), &Node::File { data: b"Z".to_vec(), mode: 0o644 });
}

#[test]
fn malformed_blob_fails_to_decode() {
    assert!(matches!(decode_layer(&b"not a gzip stream".to_vec()), Err(RunError::Protocol)));
}

fn gzipped_tar_with_raw_name(name: &[u8], data: &[u8]) -> Vec<u8> {
    // The builder itself refuses such names, so the header is written raw.
    let mut header = tar::Header::new_gnu();
    header.as_gnu_mut().unwrap().name[..name.len()].clone_from_slice(name);
    header.set_size(data.len() as u64);
    header.set_mode(0o644);
    header.set_cksum();
    let mut builder = tar::Builder::new(Vec::new());
    builder.append(&header, data).unwrap();
    gzip_bytes(&builder.into_inner().unwrap())
}

#[test]
fn archive_escaping_the_root_is_rejected() {
    let blob = gzipped_tar_with_raw_name(b"../evil", b"boom");
    assert!(matches!(decode_layer(&blob), Err(RunError::Protocol)));
}

#[test]
fn archive_with_absolute_path_is_rejected() {
    let blob = gzipped_tar_with_raw_name(b"/etc/passwd", b"boom");
    assert!(matches!(decode_layer(&blob), Err(RunError::Protocol)));
}
