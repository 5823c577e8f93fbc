use recfstab::error::ErrorCode;
use recfstab::mount::{parse_mounts, MountInfo};
use recfstab::pipeline::{
    assemble_fstab, check_root, mount_entry, normalize_root, root_argument, select_mounts,
    select_swaps, swap_blkid_device, swap_entry,
};
use recfstab::device::{blkid_device, IdType};
use recfstab::swap::{parse_swaps, SwapInfo};

fn mount(target: &str, source: &str, fstype: &str, options: &str) -> MountInfo {
    MountInfo {
        target: target.to_string(),
        source: source.to_string(),
        fstype: fstype.to_string(),
        options: options.to_string(),
    }
}

#[test]
fn end_to_end_single_root_mount() {
    let mounts = parse_mounts("/mnt /dev/sda1 ext4 rw,relatime\n");
    let selected = select_mounts(&mounts, "/mnt");
    assert_eq!(selected.len(), 1);
    let m = &selected[0];
    assert_eq!(blkid_device(&m.source), Some("/dev/sda1"));
    let block = mount_entry(m, "/mnt", IdType::Uuid.blkid_tag(), Some("abcd-1234\n"));
    assert_eq!(block, "# /dev/sda1\nUUID=abcd-1234\t/\text4\tdefaults\t0\t1\n\n");
    let text = assemble_fstab("/mnt", &vec![block]).unwrap();
    assert_eq!(text, "# /dev/sda1\nUUID=abcd-1234\t/\text4\tdefaults\t0\t1\n\n");
}

#[test]
fn no_matching_entries_is_no_filesystems() {
    let mounts = parse_mounts("/ /dev/sda2 ext4 rw\n/proc proc proc rw\n");
    let selected = select_mounts(&mounts, "/tmp/empty_dir");
    assert!(selected.is_empty());
    let swaps = parse_swaps("Filename Type Size Used Priority\n/swapfile file 1 0 -2\n");
    assert!(select_swaps(&swaps, "/tmp/empty_dir").is_empty());
    let err = assemble_fstab("/tmp/empty_dir", &Vec::new()).unwrap_err();
    assert_eq!(err.code, ErrorCode::NoFilesystems);
    assert!(err.to_string().starts_with("E006:"));
}

#[test]
fn missing_root_is_root_not_found() {
    let err = check_root("/nonexistent/path/that/does/not/exist", false, false).unwrap_err();
    assert_eq!(err.code, ErrorCode::RootNotFound);
    assert!(err.to_string().starts_with("E001:"));
}

#[test]
fn regular_file_root_is_not_a_directory() {
    let err = check_root("/etc/passwd", true, false).unwrap_err();
    assert_eq!(err.code, ErrorCode::NotADirectory);
    assert!(err.to_string().starts_with("E002:"));
    assert!(check_root("/mnt", true, true).is_ok());
}

#[test]
fn blank_root_argument_is_root_not_found() {
    assert_eq!(root_argument("").unwrap_err().code, ErrorCode::RootNotFound);
    assert_eq!(root_argument("   ").unwrap_err().code, ErrorCode::RootNotFound);
    assert_eq!(root_argument("  /nonexistent  ").unwrap(), "/nonexistent");
    let err = check_root(root_argument("  /nonexistent  ").unwrap(), false, false).unwrap_err();
    assert!(err.message.contains("/nonexistent"));
    assert!(!err.message.contains("  /nonexistent"));
}

#[test]
fn root_normalisation() {
    assert_eq!(normalize_root("/"), "/");
    assert_eq!(normalize_root("/mnt/"), "/mnt");
    assert_eq!(normalize_root("/mnt//"), "/mnt");
    assert_eq!(normalize_root("/mnt"), "/mnt");
}

#[test]
fn selection_filters_and_dedups_in_order() {
    let mounts = vec![
        mount("/mnt", "/dev/sda2", "btrfs", "rw,subvolid=5,subvol=/"),
        mount("/mnt/proc", "proc", "proc", "rw"),
        mount("/mntextra", "/dev/sdb1", "ext4", "rw"),
        mount("/mnt/boot", "/dev/sda1", "vfat", "rw"),
        mount("/mnt", "/dev/sda3", "ext4", "rw"),
        mount("/mnt/tmp", "tmpfs", "tmpfs", "rw"),
    ];
    let sel = select_mounts(&mounts, "/mnt");
    assert_eq!(sel.len(), 2);
    assert_eq!(sel[0], mounts[0]);
    assert_eq!(sel[1], mounts[3]);
    assert_eq!(select_mounts(&mounts, "/").len(), 3);
}

#[test]
fn pseudo_mount_does_not_claim_a_target() {
    let mounts = vec![
        mount("/mnt/run", "tmpfs", "tmpfs", "rw"),
        mount("/mnt/run", "/dev/sda5", "ext4", "rw"),
    ];
    let sel = select_mounts(&mounts, "/mnt");
    assert_eq!(sel.len(), 1);
    assert_eq!(sel[0].source, "/dev/sda5");
}

#[test]
fn mount_entry_escapes_and_passes() {
    let m = mount("/mnt/my disk", "/dev/sda1[/@data]", "btrfs", "rw,subvolid=256,subvol=/@data");
    let block = mount_entry(&m, "/mnt", "LABEL", None);
    assert_eq!(
        block,
        "# /dev/sda1[/@data]\n/dev/sda1\t/my\\040disk\tbtrfs\tsubvol=/@data\t0\t0\n\n"
    );
    let m = mount("/mnt/home", "server:/home", "nfs", "rw");
    assert_eq!(
        mount_entry(&m, "/mnt", "UUID", Some("ignored")),
        "# server:/home\nserver:/home\t/home\tnfs\tdefaults\t0\t0\n\n"
    );
    let m = mount("/mnt/data", "/dev/sdb1", "xfs", "rw,noatime");
    assert_eq!(
        mount_entry(&m, "/mnt", "PARTUUID", Some("1234-ab")),
        "# /dev/sdb1\nPARTUUID=1234-ab\t/data\txfs\tdefaults\t0\t2\n\n"
    );
}

#[test]
fn swap_entries() {
    let part = SwapInfo {
        filename: "/dev/sda3".to_string(),
        swap_type: "partition".to_string(),
    };
    assert_eq!(swap_blkid_device(&part), Some("/dev/sda3"));
    assert_eq!(
        swap_entry(&part, "/mnt", "UUID", Some("5678\n")),
        "# /dev/sda3\nUUID=5678\tnone\tswap\tdefaults\t0\t0\n\n"
    );
    let file = SwapInfo {
        filename: "/mnt/swap file".to_string(),
        swap_type: "file".to_string(),
    };
    assert_eq!(swap_blkid_device(&file), None);
    assert_eq!(
        swap_entry(&file, "/mnt", "UUID", None),
        "# /mnt/swap file\n/mnt/swap\\040file\t/swap\\040file\tswap\tdefaults\t0\t0\n\n"
    );
    let swaps = vec![part.clone(), file.clone()];
    assert_eq!(select_swaps(&swaps, "/other").len(), 1);
    assert_eq!(select_swaps(&swaps, "/mnt").len(), 2);
}

#[test]
fn assemble_joins_blocks() {
    let blocks = vec!["a\n\n".to_string(), "b\n\n".to_string()];
    assert_eq!(assemble_fstab("/mnt", &blocks).unwrap(), "a\n\nb\n\n");
}

#[test]
fn duplicates_are_judged_by_fstab_mount_point() {
    let mounts = vec![
        mount("/mnt", "/dev/sda2", "ext4", "rw"),
        mount("/mnt/", "/dev/sda3", "xfs", "rw"),
        mount("/mnt/boot", "/dev/sda1", "vfat", "rw"),
    ];
    let sel = select_mounts(&mounts, "/mnt");
    assert_eq!(sel.len(), 2);
    assert_eq!(sel[0].source, "/dev/sda2");
    assert_eq!(sel[1].source, "/dev/sda1");
}
