use recfstab::device::{blkid_device, extract_device_path, get_device_identifier, IdType};

#[test]
fn device_test_extract_device_path() {
    // Simple device path
    assert_eq!(extract_device_path("/dev/sda1"), "/dev/sda1");
    assert_eq!(extract_device_path("/dev/nvme0n1p1"), "/dev/nvme0n1p1");

    // Btrfs subvolume notation
    assert_eq!(extract_device_path("/dev/sda1[/root]"), "/dev/sda1");
    assert_eq!(extract_device_path("/dev/sda1[/home]"), "/dev/sda1");
    assert_eq!(
        extract_device_path("/dev/nvme0n1p3[/@snapshots]"),
        "/dev/nvme0n1p3"
    );

    // Non-device sources
    assert_eq!(extract_device_path("UUID=abc-123"), "UUID=abc-123");
    assert_eq!(extract_device_path("server:/share"), "server:/share");
}

#[test]
fn device_test_get_device_identifier_existing_uuid() {
    // Already has UUID - preserved regardless of id_type
    assert_eq!(
        get_device_identifier("UUID=abc-123-def", "UUID", None),
        "UUID=abc-123-def"
    );
    assert_eq!(
        get_device_identifier("UUID=abc-123-def", "LABEL", None),
        "UUID=abc-123-def"
    );

    // Already has LABEL - preserved
    assert_eq!(
        get_device_identifier("LABEL=myroot", "UUID", None),
        "LABEL=myroot"
    );

    // Already has PARTUUID - preserved
    assert_eq!(
        get_device_identifier("PARTUUID=abc-123-def", "UUID", None),
        "PARTUUID=abc-123-def"
    );

    // Already has PARTLABEL - preserved
    assert_eq!(
        get_device_identifier("PARTLABEL=myroot", "PARTUUID", None),
        "PARTLABEL=myroot"
    );
}

#[test]
fn device_test_get_device_identifier_non_device() {
    // Network mounts - returned as-is
    assert_eq!(
        get_device_identifier("server:/export", "UUID", None),
        "server:/export"
    );
    assert_eq!(
        get_device_identifier("//server/share", "UUID", None),
        "//server/share"
    );
}

#[test]
fn test_extract_device_path_empty_subvol() {
    assert_eq!(extract_device_path("/dev/sda1[]"), "/dev/sda1");
}

#[test]
fn test_extract_device_path_nested_brackets() {
    assert_eq!(extract_device_path("/dev/sda1[/[nested]]"), "/dev/sda1");
}

#[test]
fn test_get_device_identifier_uuid_formats() {
    assert_eq!(
        get_device_identifier("UUID=550e8400-e29b-41d4-a716-446655440000", "UUID", None),
        "UUID=550e8400-e29b-41d4-a716-446655440000"
    );
    assert_eq!(
        get_device_identifier("UUID=ABCD-1234", "UUID", None),
        "UUID=ABCD-1234"
    );
}

#[test]
fn test_get_device_identifier_label_formats() {
    assert_eq!(
        get_device_identifier("LABEL=my-root", "UUID", None),
        "LABEL=my-root"
    );
    assert_eq!(get_device_identifier("LABEL=EFI", "UUID", None), "LABEL=EFI");
    assert_eq!(
        get_device_identifier("LABEL=boot partition", "UUID", None),
        "LABEL=boot partition"
    );
}

#[test]
fn test_get_device_identifier_nonexistent_device_fallback() {
    // The lookup fails for a device that does not exist: no output.
    let source = "/dev/nonexistent_device_xyz123";
    assert_eq!(blkid_device(source), Some("/dev/nonexistent_device_xyz123"));
    let result = get_device_identifier(source, "UUID", None);
    assert_eq!(result, "/dev/nonexistent_device_xyz123");
}

#[test]
fn test_get_device_identifier_btrfs_subvol_fallback() {
    let source = "/dev/nonexistent_xyz[/subvol]";
    assert_eq!(blkid_device(source), Some("/dev/nonexistent_xyz"));
    let result = get_device_identifier(source, "UUID", None);
    assert_eq!(result, "/dev/nonexistent_xyz");
}

#[test]
fn test_id_type_blkid_tag() {
    assert_eq!(IdType::Uuid.blkid_tag(), "UUID");
    assert_eq!(IdType::Label.blkid_tag(), "LABEL");
    assert_eq!(IdType::Partuuid.blkid_tag(), "PARTUUID");
    assert_eq!(IdType::Partlabel.blkid_tag(), "PARTLABEL");
}

#[test]
fn test_id_type_fstab_prefix() {
    assert_eq!(IdType::Uuid.fstab_prefix(), "UUID");
    assert_eq!(IdType::Label.fstab_prefix(), "LABEL");
    assert_eq!(IdType::Partuuid.fstab_prefix(), "PARTUUID");
    assert_eq!(IdType::Partlabel.fstab_prefix(), "PARTLABEL");
}

#[test]
fn id_type_default_is_uuid() {
    assert_eq!(IdType::default(), IdType::Uuid);
}

#[test]
fn lookup_value_becomes_tagged_identifier() {
    assert_eq!(
        get_device_identifier("/dev/sda1", "UUID", Some("abcd-1234\n")),
        "UUID=abcd-1234"
    );
    assert_eq!(
        get_device_identifier("/dev/sda2[/@home]", "LABEL", Some("  home \n")),
        "LABEL=home"
    );
    assert_eq!(
        get_device_identifier("/dev/sda3", "PARTUUID", Some("0a1b-02")),
        "PARTUUID=0a1b-02"
    );
}

#[test]
fn blank_lookup_output_falls_back_to_device() {
    assert_eq!(
        get_device_identifier("/dev/sda1[/@]", "UUID", Some(" \n")),
        "/dev/sda1"
    );
    assert_eq!(get_device_identifier("/dev/sda1", "UUID", Some("")), "/dev/sda1");
}

#[test]
fn lookup_output_is_ignored_for_other_sources() {
    assert_eq!(
        get_device_identifier("server:/export", "UUID", Some("abcd")),
        "server:/export"
    );
    assert_eq!(
        get_device_identifier("UUID=1111", "LABEL", Some("other")),
        "UUID=1111"
    );
    assert_eq!(get_device_identifier("[x]", "UUID", Some("abcd")), "[x]");
    assert_eq!(get_device_identifier("", "UUID", Some("abcd")), "");
}

#[test]
fn blkid_device_only_for_untagged_block_devices() {
    assert_eq!(blkid_device("/dev/sda1"), Some("/dev/sda1"));
    assert_eq!(blkid_device("/dev/sda1[/@home]"), Some("/dev/sda1"));
    assert_eq!(blkid_device("UUID=abc"), None);
    assert_eq!(blkid_device("PARTLABEL=x"), None);
    assert_eq!(blkid_device("tmpfs"), None);
    assert_eq!(blkid_device("[/dev/sda1]"), None);
    assert_eq!(blkid_device(""), None);
}

#[test]
fn extract_device_path_edge_cases() {
    assert_eq!(extract_device_path("[x]"), "");
    assert_eq!(extract_device_path(""), "");
}

#[test]
fn extract_device_path_btrfs_examples() {
    assert_eq!(extract_device_path("/dev/sda1[/@home]"), "/dev/sda1");
    assert_eq!(extract_device_path("/dev/sda1[]"), "/dev/sda1");
    assert_eq!(extract_device_path("[x]"), "");
}

#[test]
fn untagged_device_gets_requested_tag_or_stays() {
    for kind in [IdType::Uuid, IdType::Label, IdType::Partuuid, IdType::Partlabel] {
        let tag = kind.blkid_tag();
        let found = get_device_identifier("/dev/vdb1", tag, Some("v-1"));
        assert_eq!(found, format!("{}=v-1", tag));
        assert_eq!(get_device_identifier("/dev/vdb1", tag, None), "/dev/vdb1");
    }
}

#[test]
fn tagged_source_is_kept_for_every_kind() {
    for kind in [IdType::Uuid, IdType::Label, IdType::Partuuid, IdType::Partlabel] {
        for s in ["UUID=1", "LABEL=root", "PARTUUID=2", "PARTLABEL=esp"] {
            assert_eq!(get_device_identifier(s, kind.blkid_tag(), Some("zzz")), s);
        }
    }
}
