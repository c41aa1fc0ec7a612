//! Driving the deployment machine with scripted events and checking
//! the exact command sequence it requests.

use infraplan::effect::{Action, Event, Step};
use infraplan::plugins::sys_deploy;
use infraplan::plugins::tar;
use infraplan::plugins::{Distro, Globals};

const PARTED_JSON: &str = r#"{"disk":{"path":"/dev/sda","size":"10.7GB","model":"Virtio Block Device","transport":"virtblk","logical-sector-size":512,"physical-sector-size":512,"label":"gpt","uuid":"b1d47f57-77b8-4ce4-8f50-94f1a90e2ac4","max-partitions":128,"partitions":[{"number":1,"start":"1049kB","end":"537MB","size":"536MB","type":"primary","type-uuid":"c12a7328-f81f-11d2-ba4b-00a0c93ec93b","uuid":"u-esp","name":"primary","flags":["boot","esp"]},{"number":2,"start":"537MB","end":"2147MB","size":"1611MB","type":"primary","type-uuid":"0fc63daf-8483-4772-8e79-3d69d8477de4","uuid":"u-boot","name":"primary"},{"number":3,"start":"2147MB","end":"10.7GB","size":"8589MB","type":"primary","type-uuid":"0fc63daf-8483-4772-8e79-3d69d8477de4","uuid":"u-root","name":"primary"}]}}"#;

fn tar_config(distro: Distro) -> sys_deploy::Config {
    sys_deploy::Config::Tar(tar::Config {
        url: "https://example.local/ubuntu.tar.zstd".to_string(),
        compression: Some(tar::Compression::Zstd),
        common: sys_deploy::CommonConfig {
            disk: "/dev/sda".to_string(),
            mount: "/mnt".to_string(),
            distro,
        },
    })
}

fn ran_ok() -> Event {
    Event::Ran { exit_code: 0, stdout: String::new(), stderr: String::new() }
}

fn argv_of(a: &Action) -> Vec<String> {
    match a {
        Action::Run(c) => c.argv.clone(),
        _ => panic!("expected a Run action, got {a:?}"),
    }
}

/// Drive one deployment up to the parted report and return the phase.
fn drive_to_part_print(
    ctx: &sys_deploy::Context,
    config: &sys_deploy::Config,
    applied: &mut bool,
    use_udev: bool,
    use_mdev: bool,
) -> (sys_deploy::Phase, Vec<Vec<String>>) {
    let mut cmds: Vec<Vec<String>> = Vec::new();

    // the disk path is canonicalized first
    let (ph, st) = ctx.step(config, applied, sys_deploy::Phase::Begin, Event::Start);
    match &st {
        Step::Do(Action::Canonicalize(p)) => assert_eq!(p, "/dev/sda"),
        other => panic!("unexpected step {other:?}"),
    }

    // the mount table is read to release the target and the disk
    let (ph, st) = ctx.step(
        config,
        applied,
        ph,
        Event::Canon { path: Some("/dev/sda".to_string()) },
    );
    assert!(matches!(st, Step::Do(Action::ReadMounts)));

    // the target is not mounted, so the table is read once more for
    // mounts of the disk itself
    let (ph, st) = ctx.step(
        config,
        applied,
        ph,
        Event::MountsRead { entries: vec![], canon_devices: vec![] },
    );
    assert!(matches!(st, Step::Do(Action::ReadMounts)));

    // nothing is mounted from the disk either: straight to partitioning
    let (mut ph, st) = ctx.step(
        config,
        applied,
        ph,
        Event::MountsRead { entries: vec![], canon_devices: vec![] },
    );
    match &st {
        Step::Do(a) => cmds.push(argv_of(a)),
        other => panic!("unexpected step {other:?}"),
    }

    // partprobe, then the configured device manager, then the report
    loop {
        let (p2, st) = ctx.step(config, applied, ph, ran_ok());
        ph = p2;
        match &st {
            Step::Do(a) => {
                let argv = argv_of(a);
                let done = argv[0] == "parted" && argv.contains(&"print".to_string());
                cmds.push(argv);
                if done {
                    break;
                }
            },
            other => panic!("unexpected step {other:?}"),
        }
    }

    assert_eq!(cmds[0][0], "parted");
    assert_eq!(
        cmds[0],
        vec![
            "parted", "/dev/sda", "--script", "--fix", "--align", "optimal", "mklabel", "gpt",
            "mkpart", "primary", "fat32", "1MiB", "512MiB", "mkpart", "primary", "ext4", "512MiB",
            "2048MiB", "mkpart", "primary", "ext4", "2048MiB", "100%", "set", "1", "esp", "on",
        ]
        .into_iter()
        .map(String::from)
        .collect::<Vec<_>>()
    );
    assert_eq!(cmds[1], vec!["partprobe".to_string(), "/dev/sda".to_string()]);
    let has_mdev = cmds.iter().any(|c| c[0] == "mdev");
    let has_udev = cmds.iter().any(|c| c[0] == "udevadm");
    assert_eq!(has_mdev, use_mdev);
    assert_eq!(has_udev, use_udev);
    if use_udev {
        assert_eq!(
            cmds[2],
            vec!["udevadm", "trigger", "--type=all", "--settle"]
                .into_iter()
                .map(String::from)
                .collect::<Vec<_>>()
        );
    }
    if use_mdev {
        assert_eq!(cmds[2], vec!["mdev".to_string(), "-s".to_string()]);
    }
    assert_eq!(
        cmds.last().unwrap(),
        &vec!["parted", "/dev/sda", "--script", "print", "-j"]
            .into_iter()
            .map(String::from)
            .collect::<Vec<_>>()
    );
    (ph, cmds)
}

#[test]
fn fresh_ubuntu_tar_install_command_sequence() {
    let ctx = sys_deploy::Context(Globals { distro_hint: Some(Distro::Ubuntu) });
    let config = tar_config(Distro::Ubuntu);
    let mut applied = false;

    let (ph, _) = drive_to_part_print(&ctx, &config, &mut applied, true, false);

    // the parted report names three partitions: format esp, boot, root
    let (ph, st) = ctx.step(
        &config,
        &mut applied,
        ph,
        Event::Ran { exit_code: 0, stdout: PARTED_JSON.to_string(), stderr: String::new() },
    );
    match &st {
        Step::Do(Action::WaitReady(p)) => assert_eq!(p, "/dev/disk/by-partuuid/u-esp"),
        other => panic!("unexpected step {other:?}"),
    }
    let (ph, st) = ctx.step(&config, &mut applied, ph, Event::Ready { interrupted: false });
    assert_eq!(
        argv_of(match &st {
            Step::Do(a) => a,
            other => panic!("unexpected step {other:?}"),
        }),
        vec!["mkfs.vfat", "-F", "32", "-n", "EFI", "/dev/disk/by-partuuid/u-esp"]
            .into_iter()
            .map(String::from)
            .collect::<Vec<_>>()
    );
    let (ph, st) = ctx.step(&config, &mut applied, ph, ran_ok());
    assert!(matches!(&st, Step::Do(Action::WaitReady(_))));
    let (ph, st) = ctx.step(&config, &mut applied, ph, Event::Ready { interrupted: false });
    assert_eq!(
        argv_of(match &st {
            Step::Do(a) => a,
            other => panic!("unexpected step {other:?}"),
        }),
        vec![
            "mkfs.ext4", "-L", "boot", "-O", "^metadata_csum_seed", "-O", "^orphan_file",
            "/dev/disk/by-partuuid/u-boot",
        ]
        .into_iter()
        .map(String::from)
        .collect::<Vec<_>>()
    );
    let (ph, st) = ctx.step(&config, &mut applied, ph, ran_ok());
    assert!(matches!(&st, Step::Do(Action::WaitReady(_))));
    let (ph, st) = ctx.step(&config, &mut applied, ph, Event::Ready { interrupted: false });
    assert_eq!(
        argv_of(match &st {
            Step::Do(a) => a,
            other => panic!("unexpected step {other:?}"),
        }),
        vec!["mkfs.ext4", "-L", "root", "-O", "^orphan_file", "/dev/disk/by-partuuid/u-root"]
            .into_iter()
            .map(String::from)
            .collect::<Vec<_>>()
    );

    // the three mounts nest outer first: root, boot, esp
    let (ph, st) = ctx.step(&config, &mut applied, ph, ran_ok());
    match &st {
        Step::Do(Action::Mount(m)) => {
            assert_eq!(m.source.as_deref(), Some("/dev/disk/by-partuuid/u-root"));
            assert_eq!(m.target, "/mnt");
            assert_eq!(m.fstype, "ext4");
        },
        other => panic!("unexpected step {other:?}"),
    }
    let (ph, st) = ctx.step(&config, &mut applied, ph, Event::Mounted { errno: None });
    match &st {
        Step::Do(Action::Mount(m)) => {
            assert_eq!(m.source.as_deref(), Some("/dev/disk/by-partuuid/u-boot"));
            assert_eq!(m.target, "/mnt/boot");
        },
        other => panic!("unexpected step {other:?}"),
    }
    let (ph, st) = ctx.step(&config, &mut applied, ph, Event::Mounted { errno: None });
    match &st {
        Step::Do(Action::Mount(m)) => {
            assert_eq!(m.source.as_deref(), Some("/dev/disk/by-partuuid/u-esp"));
            assert_eq!(m.target, "/mnt/boot/efi");
            assert_eq!(m.fstype, "vfat");
        },
        other => panic!("unexpected step {other:?}"),
    }

    // then the stream is unpacked with the pinned policy
    let (ph, st) = ctx.step(&config, &mut applied, ph, Event::Mounted { errno: None });
    match &st {
        Step::Do(Action::Extract(e)) => {
            assert_eq!(e.url, "https://example.local/ubuntu.tar.zstd");
            assert_eq!(e.dest, "/mnt");
            assert!(e.remote);
            assert!(e.allow_external_symlinks);
            assert!(!e.ignore_zeros);
            assert!(e.overwrite);
            assert!(e.preserve_mtime);
            assert!(e.preserve_permissions);
            assert!(e.preserve_ownerships);
            assert!(e.unpack_xattrs);
        },
        other => panic!("unexpected step {other:?}"),
    }

    // the fstab derives from a fresh parted report
    let (ph, st) = ctx.step(&config, &mut applied, ph, Event::Extracted { error: None });
    match &st {
        Step::Do(Action::Run(c)) => {
            assert_eq!(c.argv[3], "print");
        },
        other => panic!("unexpected step {other:?}"),
    }
    let (ph, st) = ctx.step(
        &config,
        &mut applied,
        ph,
        Event::Ran { exit_code: 0, stdout: PARTED_JSON.to_string(), stderr: String::new() },
    );
    match &st {
        Step::Do(Action::WriteFile(p, content)) => {
            assert_eq!(p, "/mnt/etc/fstab");
            assert_eq!(
                content,
                "PARTUUID=u-root / ext4 defaults 0 1\nPARTUUID=u-boot /boot ext4 defaults 0 2\nPARTUUID=u-esp /boot/efi vfat defaults 0 2\n"
            );
        },
        other => panic!("unexpected step {other:?}"),
    }

    // on Ubuntu the chroot is prepared and grub regenerated
    let (ph, st) = ctx.step(&config, &mut applied, ph, Event::Wrote { errno: None });
    match &st {
        Step::Do(Action::MountAll(ms)) => {
            assert_eq!(ms.len(), 8);
            assert_eq!(ms[0].target, "/mnt/tmp");
            assert_eq!(ms[7].target, "/mnt/sys/firmware/efi");
        },
        other => panic!("unexpected step {other:?}"),
    }
    let (ph, st) = ctx.step(&config, &mut applied, ph, Event::Mounted { errno: None });
    match &st {
        Step::Do(Action::RunAll(cs)) => {
            assert_eq!(cs.len(), 3);
            assert_eq!(cs[0].argv, vec!["update-initramfs", "-c", "-k", "all"]);
            assert_eq!(cs[0].chroot.as_deref(), Some("/mnt"));
            assert_eq!(cs[1].argv, vec!["grub-install", "--efi-directory=/boot/efi", "--recheck"]);
            assert_eq!(cs[2].argv, vec!["update-grub"]);
        },
        other => panic!("unexpected step {other:?}"),
    }
    let (ph, st) = ctx.step(&config, &mut applied, ph, Event::RanAll { failure: None });
    match &st {
        Step::Do(Action::UnmountEach(ts)) => {
            assert_eq!(ts[0], "/mnt/sys/firmware/efi");
            assert_eq!(ts[7], "/mnt/tmp");
        },
        other => panic!("unexpected step {other:?}"),
    }
    let (_, st) = ctx.step(&config, &mut applied, ph, Event::Acked);
    assert!(matches!(st, Step::Done));
    assert!(applied);

    // a second invocation is a pure no-op
    let (_, st) = ctx.step(&config, &mut applied, sys_deploy::Phase::Begin, Event::Start);
    assert!(matches!(st, Step::Done));
}

#[test]
fn alpine_install_uses_mdev_and_skips_postinst() {
    let ctx = sys_deploy::Context(Globals { distro_hint: Some(Distro::Alpine) });
    let config = tar_config(Distro::Alpine);
    let mut applied = false;

    let (ph, cmds) = drive_to_part_print(&ctx, &config, &mut applied, false, true);
    assert!(cmds.iter().all(|c| c[0] != "udevadm"));
    assert!(cmds.iter().any(|c| c == &vec!["mdev".to_string(), "-s".to_string()]));

    // run the rest of the protocol through to completion
    let (mut ph, st) = ctx.step(
        &config,
        &mut applied,
        ph,
        Event::Ran { exit_code: 0, stdout: PARTED_JSON.to_string(), stderr: String::new() },
    );
    assert!(matches!(&st, Step::Do(Action::WaitReady(_))));
    for _ in 0..3 {
        let (p2, st) = ctx.step(&config, &mut applied, ph, Event::Ready { interrupted: false });
        assert!(matches!(&st, Step::Do(Action::Run(_))));
        ph = p2;
        let (p3, st) = ctx.step(&config, &mut applied, ph, ran_ok());
        assert!(matches!(&st, Step::Do(_)));
        ph = p3;
    }
    // the root mount was requested by the last format; acknowledge the
    // three mounts in turn
    let (p2, st) = ctx.step(&config, &mut applied, ph, Event::Mounted { errno: None });
    assert!(matches!(&st, Step::Do(Action::Mount(_))));
    ph = p2;
    let (p2, st) = ctx.step(&config, &mut applied, ph, Event::Mounted { errno: None });
    assert!(matches!(&st, Step::Do(Action::Mount(_))));
    ph = p2;
    let (p2, st) = ctx.step(&config, &mut applied, ph, Event::Mounted { errno: None });
    assert!(matches!(&st, Step::Do(Action::Extract(_))));
    ph = p2;
    let (p2, st) = ctx.step(&config, &mut applied, ph, Event::Extracted { error: None });
    assert!(matches!(&st, Step::Do(Action::Run(_))));
    ph = p2;
    let (p2, st) = ctx.step(
        &config,
        &mut applied,
        ph,
        Event::Ran { exit_code: 0, stdout: PARTED_JSON.to_string(), stderr: String::new() },
    );
    assert!(matches!(&st, Step::Do(Action::WriteFile(_, _))));
    ph = p2;
    // no chroot preparation follows for a non-Ubuntu target
    let (_, st) = ctx.step(&config, &mut applied, ph, Event::Wrote { errno: None });
    assert!(matches!(st, Step::Done));
    assert!(applied);
}

#[test]
fn wrong_partition_count_is_an_invariant_violation_before_any_mkfs() {
    let ctx = sys_deploy::Context(Globals { distro_hint: Some(Distro::Ubuntu) });
    let config = tar_config(Distro::Ubuntu);
    let mut applied = false;

    let two = r#"{"disk":{"partitions":[{"number":1,"uuid":"a"},{"number":2,"uuid":"b"}]}}"#;
    let (ph, st) = ctx.step(
        &config,
        &mut applied,
        sys_deploy::Phase::PartPrint,
        Event::Ran { exit_code: 0, stdout: two.to_string(), stderr: String::new() },
    );
    match &st {
        Step::Fail(e) => assert!(matches!(e, infraplan::error::Error::Invariant { .. })),
        other => panic!("unexpected step {other:?}"),
    }
    assert!(!applied);

    // the machine is halted: nothing further is ever requested
    let (_, st) = ctx.step(&config, &mut applied, ph, ran_ok());
    assert!(matches!(st, Step::Fail(_)));
}

#[test]
fn interrupted_wait_aborts_with_interrupted() {
    let ctx = sys_deploy::Context(Globals { distro_hint: Some(Distro::Ubuntu) });
    let config = tar_config(Distro::Ubuntu);
    let mut applied = false;
    let (_, st) = ctx.step(
        &config,
        &mut applied,
        sys_deploy::Phase::AwaitDev { uuids: vec!["a".into(), "b".into(), "c".into()], idx: 0 },
        Event::Ready { interrupted: true },
    );
    match &st {
        Step::Fail(e) => assert!(matches!(e, infraplan::error::Error::Interrupted)),
        other => panic!("unexpected step {other:?}"),
    }
}

#[test]
fn failed_extraction_is_an_io_error() {
    let ctx = sys_deploy::Context(Globals { distro_hint: Some(Distro::Ubuntu) });
    let config = tar_config(Distro::Ubuntu);
    let mut applied = false;
    let (_, st) = ctx.step(
        &config,
        &mut applied,
        sys_deploy::Phase::Extracting,
        Event::Extracted { error: Some("connection reset".to_string()) },
    );
    match st {
        Step::Fail(infraplan::error::Error::Io { msg }) => assert_eq!(msg, "connection reset"),
        other => panic!("unexpected step {other:?}"),
    }
    assert!(!applied);
}

#[test]
fn failed_mount_reports_the_errno() {
    let ctx = sys_deploy::Context(Globals { distro_hint: Some(Distro::Ubuntu) });
    let config = tar_config(Distro::Ubuntu);
    let mut applied = false;
    let (_, st) = ctx.step(
        &config,
        &mut applied,
        sys_deploy::Phase::MountEsp,
        Event::Mounted { errno: Some(16) },
    );
    match st {
        Step::Fail(infraplan::error::Error::Syscall { errno }) => assert_eq!(errno, 16),
        other => panic!("unexpected step {other:?}"),
    }
}
