//! The filesystem-table reader: live reads, parsing, and device
//! matching.

use infraplan::chroot::{chroot_mount_plan, chroot_unmount_plan};
use infraplan::fstab::{
    dev_query_fuzzy, get_fstab_entries, get_fstab_entries_by_content, select_mounts_by_device,
    unmount_plan, FstabEntry,
};

fn entry(device: &str, mount_point: &str) -> FstabEntry {
    FstabEntry {
        device: device.to_string(),
        mount_point: mount_point.to_string(),
        file_system_type: "ext4".to_string(),
        options: "defaults".to_string(),
        dump: 0,
        pass: 0,
    }
}

#[test]
fn test_get_fstab_entries() {
    let entries = get_fstab_entries().unwrap();
    assert!(!entries.is_empty(), "Fstab entries should not be empty");
    for entry in entries {
        println!(
            "Device: {}, Mount Point: {}, FS Type: {}, Options: {}, Dump: {}, Pass: {}",
            entry.device, entry.mount_point, entry.file_system_type, entry.options, entry.dump,
            entry.pass
        );
    }

    let entries = get_fstab_entries_by_content(
        r#"
    # /etc/fstab
# Created by anaconda on Sun Jul 23 12:24:21 2023
#
# Accessible filesystems, by reference, are maintained under '/dev/disk/'.
# See man pages fstab(5), findfs(8), mount(8) and/or blkid(8) for more info.
#
# After editing this file, run 'systemctl daemon-reload' to update systemd
# units generated from this file.
#
UUID=84b9c9b5-f23a-4c2c-988d-2b8d51d15672   /           btrfs   subvol=root,compress=zstd:1   0 0
UUID=ae667002-0448-4af0-8e4d-bc6c59c0a317   /boot       ext4    defaults                      1 2
UUID=3C83-2ABC                              /boot/efi   vfat    umask=0077,shortname=winnt    0 2
UUID=84b9c9b5-f23a-4c2c-988d-2b8d51d15672   /home       btrfs   subvol=home,compress=zstd:1   0 0
"#
        .to_string(),
    );
    assert!(!entries.is_empty(), "Fstab entries should not be empty");
    for entry in entries {
        println!(
            "Device: {}, Mount Point: {}, FS Type: {}, Options: {}, Dump: {}, Pass: {}",
            entry.device, entry.mount_point, entry.file_system_type, entry.options, entry.dump,
            entry.pass
        );
    }
}

#[test]
fn parses_exactly_six_column_rows() {
    let text = "/dev/sda1 / ext4 defaults 0 1\n".to_string();
    let entries = get_fstab_entries_by_content(text);
    assert_eq!(entries.len(), 1);
    assert_eq!(entries[0].device, "/dev/sda1");
    assert_eq!(entries[0].mount_point, "/");
    assert_eq!(entries[0].file_system_type, "ext4");
    assert_eq!(entries[0].options, "defaults");
    assert_eq!(entries[0].dump, 0);
    assert_eq!(entries[0].pass, 1);
}

#[test]
fn skips_blank_and_comment_lines() {
    let text = "\n   \n# a comment\n  # indented comment\n/dev/sda1 / ext4 defaults 0 1\n"
        .to_string();
    let entries = get_fstab_entries_by_content(text);
    assert_eq!(entries.len(), 1);
    assert_eq!(entries[0].device, "/dev/sda1");
}

#[test]
fn drops_rows_without_six_columns() {
    let text = "/dev/sda1 / ext4 defaults 0\n/dev/sda2 /boot ext4 defaults 0 2 extra\n"
        .to_string();
    let entries = get_fstab_entries_by_content(text);
    assert_eq!(entries.len(), 0);
}

#[test]
fn unparseable_dump_pass_default_to_minus_one() {
    let text = "/dev/sda1 / ext4 defaults x y\n".to_string();
    let entries = get_fstab_entries_by_content(text);
    assert_eq!(entries.len(), 1);
    assert_eq!(entries[0].dump, -1);
    assert_eq!(entries[0].pass, -1);
}

#[test]
fn whole_disk_query_matches_partitions_by_prefix() {
    let entries = vec![
        entry("/dev/sda1", "/boot"),
        entry("/dev/sda2", "/"),
        entry("/dev/sdb1", "/data"),
    ];
    let canons = vec![
        "/dev/sda1".to_string(),
        "/dev/sda2".to_string(),
        "/dev/sdb1".to_string(),
    ];
    assert!(dev_query_fuzzy("/dev/sda"));
    let sel = select_mounts_by_device(&entries, &canons, "/dev/sda", "/dev/sda");
    let mps: Vec<&str> = sel.iter().map(|e| e.mount_point.as_str()).collect();
    assert_eq!(mps, vec!["/boot", "/"]);
}

#[test]
fn partition_query_matches_exactly() {
    let entries = vec![
        entry("/dev/sda1", "/boot"),
        entry("/dev/sda10", "/var"),
        entry("/dev/sda2", "/"),
    ];
    let canons = vec![
        "/dev/sda1".to_string(),
        "/dev/sda10".to_string(),
        "/dev/sda2".to_string(),
    ];
    assert!(!dev_query_fuzzy("/dev/sda1"));
    let sel = select_mounts_by_device(&entries, &canons, "/dev/sda1", "/dev/sda1");
    let mps: Vec<&str> = sel.iter().map(|e| e.mount_point.as_str()).collect();
    assert_eq!(mps, vec!["/boot"]);
}

#[test]
fn unmount_plan_is_reverse_table_order() {
    let entries = vec![
        entry("/dev/sda3", "/mnt"),
        entry("/dev/sda2", "/mnt/boot"),
        entry("/dev/sda1", "/mnt/boot/efi"),
        entry("/dev/sdb1", "/data"),
    ];
    let plan = unmount_plan(&entries, "/mnt");
    assert_eq!(plan, vec!["/mnt/boot/efi", "/mnt/boot", "/mnt"]);
}

#[test]
fn chroot_binds_in_order_and_releases_in_reverse() {
    let mounts = chroot_mount_plan("/mnt");
    let targets: Vec<&str> = mounts.iter().map(|m| m.target.as_str()).collect();
    assert_eq!(
        targets,
        vec![
            "/mnt/tmp",
            "/mnt/run",
            "/mnt/proc",
            "/mnt/sys",
            "/mnt/dev",
            "/mnt/dev/pts",
            "/mnt/dev/shm",
            "/mnt/sys/firmware/efi",
        ]
    );
    let types: Vec<&str> = mounts.iter().map(|m| m.fstype.as_str()).collect();
    assert_eq!(
        types,
        vec!["tmpfs", "tmpfs", "proc", "sysfs", "devtmpfs", "devpts", "tmpfs", "efivarfs"]
    );
    assert!(mounts.iter().all(|m| m.source.is_none() && !m.legacy_flags));

    let cleanup = chroot_unmount_plan("/mnt");
    let mut reversed: Vec<String> = targets.iter().map(|t| t.to_string()).collect();
    reversed.reverse();
    assert_eq!(cleanup, reversed);
}
