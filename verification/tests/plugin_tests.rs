//! The package manager, reconfigurator and kexec plugins, driven with
//! scripted events.

use infraplan::effect::{Action, Event, RunFailure, Step};
use infraplan::error::Error;
use infraplan::plugins::{apt_repo, kexec, pkgmgr, sysconf, user, Distro, Globals};

fn strs(v: &[&str]) -> Vec<String> {
    v.iter().map(|s| s.to_string()).collect()
}

#[test]
fn fedora_install_and_remove_without_upgrade() {
    let ctx = pkgmgr::Context(Globals { distro_hint: Some(Distro::Fedora) });
    let config = pkgmgr::Config {
        install: Some(strs(&["vim"])),
        remove: Some(strs(&["nano"])),
        update: Some(false),
    };
    let mut applied = false;
    let (ph, st) = ctx.step(&config, &mut applied, pkgmgr::Phase::Begin, Event::Start);
    match &st {
        Step::Do(Action::RunAll(cmds)) => {
            assert_eq!(cmds.len(), 2);
            assert_eq!(cmds[0].argv, strs(&["dnf", "install", "-y", "vim"]));
            assert_eq!(cmds[1].argv, strs(&["dnf", "remove", "-y", "nano"]));
        },
        other => panic!("unexpected step {other:?}"),
    }
    let (_, st) = ctx.step(&config, &mut applied, ph, Event::RanAll { failure: None });
    assert!(matches!(st, Step::Done));
    assert!(applied);

    // at most once per run: a second start is a no-op
    let (_, st) = ctx.step(&config, &mut applied, pkgmgr::Phase::Begin, Event::Start);
    assert!(matches!(st, Step::Done));
}

#[test]
fn ubuntu_plan_updates_then_upgrades_by_default() {
    let ctx = pkgmgr::Context(Globals { distro_hint: Some(Distro::Ubuntu) });
    let config = pkgmgr::Config {
        install: Some(strs(&["vim", "git"])),
        remove: None,
        update: None,
    };
    let cmds = pkgmgr::pkg_plan(Distro::Ubuntu, &config);
    assert_eq!(cmds.len(), 3);
    assert_eq!(cmds[0].argv, strs(&["apt-get", "update"]));
    assert_eq!(cmds[1].argv, strs(&["apt-get", "upgrade", "-y"]));
    assert_eq!(
        cmds[2].argv,
        strs(&[
            "apt-get",
            "install",
            "-y",
            "--no-install-recommends",
            "--no-install-suggests",
            "--allow-downgrades",
            "vim",
            "git",
        ])
    );
    let _ = ctx;
}

#[test]
fn missing_distro_hint_is_a_config_error() {
    let ctx = pkgmgr::Context(Globals { distro_hint: None });
    let config = pkgmgr::Config { install: None, remove: None, update: None };
    let mut applied = false;
    let (_, st) = ctx.step(&config, &mut applied, pkgmgr::Phase::Begin, Event::Start);
    match st {
        Step::Fail(Error::Config { .. }) => {},
        other => panic!("unexpected step {other:?}"),
    }
    assert!(!applied);
}

#[test]
fn failed_package_command_surfaces_its_output() {
    let ctx = pkgmgr::Context(Globals { distro_hint: Some(Distro::Alpine) });
    let config = pkgmgr::Config { install: None, remove: None, update: None };
    let mut applied = false;
    let (ph, st) = ctx.step(&config, &mut applied, pkgmgr::Phase::Begin, Event::Start);
    assert!(matches!(&st, Step::Do(Action::RunAll(_))));
    let (_, st) = ctx.step(
        &config,
        &mut applied,
        ph,
        Event::RanAll {
            failure: Some(RunFailure {
                index: 0,
                exit_code: 4,
                stdout: String::new(),
                stderr: "no network".to_string(),
            }),
        },
    );
    match st {
        Step::Fail(Error::CommandFailed { exit_code, stderr, .. }) => {
            assert_eq!(exit_code, 4);
            assert_eq!(stderr, "no network");
        },
        other => panic!("unexpected step {other:?}"),
    }
    assert!(!applied);
}

#[test]
fn users_with_password_in_chroot() {
    let items = vec![user::ConfigItem {
        name: "ubuntu".to_string(),
        password: Some("pw".to_string()),
        groups: Some(strs(&["sudo"])),
    }];
    let cmds = user::user_cmds(&items, &Some("/mnt".to_string()));
    assert_eq!(cmds.len(), 2);
    assert_eq!(cmds[0].argv, strs(&["useradd", "ubuntu", "-m", "-s", "/bin/bash", "-G", "sudo"]));
    assert_eq!(cmds[0].chroot.as_deref(), Some("/mnt"));
    assert_eq!(cmds[1].argv, strs(&["chpasswd", "--root", "/mnt"]));
    assert_eq!(cmds[1].chroot, None);
    assert_eq!(cmds[1].stdin.as_deref(), Some("ubuntu:pw\n"));
}

#[test]
fn root_user_is_skipped_but_its_password_is_set() {
    let items = vec![
        user::ConfigItem {
            name: "root".to_string(),
            password: Some("secret".to_string()),
            groups: None,
        },
        user::ConfigItem { name: "ops".to_string(), password: None, groups: None },
    ];
    let cmds = user::user_cmds(&items, &None);
    assert_eq!(cmds.len(), 2);
    assert_eq!(cmds[0].argv, strs(&["useradd", "ops", "-m", "-s", "/bin/bash"]));
    assert_eq!(cmds[1].argv, strs(&["chpasswd"]));
    assert_eq!(cmds[1].stdin.as_deref(), Some("root:secret\n"));
}

fn repo_item(overwrite: Option<bool>) -> apt_repo::ConfigItem {
    apt_repo::ConfigItem {
        overwrite,
        name: Some("ubuntu-archive".to_string()),
        base_url: "http://a.u.c/u".to_string(),
        distro: "focal".to_string(),
        components: strs(&["main", "universe"]),
    }
}

fn repo_config(overwrite: Option<bool>) -> sysconf::Config {
    sysconf::Config {
        chroot: None,
        with: vec![sysconf::ConfigItem::AptRepo(vec![repo_item(overwrite)])],
    }
}

#[test]
fn existing_repo_file_is_not_rewritten_without_overwrite() {
    let ctx = sysconf::Context(Globals { distro_hint: None });
    let config = repo_config(None);
    let mut flags: Vec<bool> = Vec::new();
    let (ph, st) = ctx.step(&config, &mut flags, sysconf::Phase::Begin, Event::Start);
    match &st {
        Step::Do(Action::PathExists(p)) => {
            assert_eq!(p, "/etc/apt/sources.list.d/ubuntu-archive.list");
        },
        other => panic!("unexpected step {other:?}"),
    }
    // the file exists and overwrite is absent: no write happens
    let (_, st) = ctx.step(&config, &mut flags, ph, Event::Exists { yes: true });
    assert!(matches!(st, Step::Done));
    assert_eq!(flags, vec![true]);
}

#[test]
fn overwrite_true_rewrites_the_repo_file() {
    let ctx = sysconf::Context(Globals { distro_hint: None });
    let config = repo_config(Some(true));
    let mut flags: Vec<bool> = Vec::new();
    let (ph, st) = ctx.step(&config, &mut flags, sysconf::Phase::Begin, Event::Start);
    assert!(matches!(&st, Step::Do(Action::PathExists(_))));
    let (ph, st) = ctx.step(&config, &mut flags, ph, Event::Exists { yes: true });
    match &st {
        Step::Do(Action::WriteFile(p, content)) => {
            assert_eq!(p, "/etc/apt/sources.list.d/ubuntu-archive.list");
            assert_eq!(content, "deb http://a.u.c/u focal main universe\n");
        },
        other => panic!("unexpected step {other:?}"),
    }
    let (_, st) = ctx.step(&config, &mut flags, ph, Event::Wrote { errno: None });
    assert!(matches!(st, Step::Done));
    assert_eq!(flags, vec![true]);
}

#[test]
fn missing_repo_file_is_always_written() {
    let ctx = sysconf::Context(Globals { distro_hint: None });
    let config = repo_config(None);
    let mut flags: Vec<bool> = Vec::new();
    let (ph, st) = ctx.step(&config, &mut flags, sysconf::Phase::Begin, Event::Start);
    assert!(matches!(&st, Step::Do(Action::PathExists(_))));
    let (_, st) = ctx.step(&config, &mut flags, ph, Event::Exists { yes: false });
    assert!(matches!(&st, Step::Do(Action::WriteFile(_, _))));
}

#[test]
fn unnamed_repo_goes_to_sources_list_under_the_chroot() {
    let path = apt_repo::repo_path(&Some("/mnt".to_string()), &None);
    assert_eq!(path, "/mnt/etc/apt/sources.list");
}

#[test]
fn netplan_item_flips_its_flag_without_effects() {
    let ctx = sysconf::Context(Globals { distro_hint: None });
    let config = sysconf::Config {
        chroot: None,
        with: vec![sysconf::ConfigItem::Netplan(vec![])],
    };
    let mut flags: Vec<bool> = Vec::new();
    let (_, st) = ctx.step(&config, &mut flags, sysconf::Phase::Begin, Event::Start);
    assert!(matches!(st, Step::Done));
    assert_eq!(flags, vec![true]);
}

#[test]
fn kexec_with_kernel_but_no_initramfs_fails_before_any_effect() {
    let ctx = kexec::Context(Globals { distro_hint: None });
    let config = kexec::Config {
        linux: Some("/mnt/boot/vmlinuz".to_string()),
        initrd: None,
        root: "/mnt".to_string(),
        append: None,
    };
    let mut loaded = false;
    let (_, st) = ctx.step(&config, &mut loaded, kexec::Phase::Begin, Event::Start);
    match st {
        Step::Fail(Error::Invariant { msg }) => assert_eq!(msg, "No initramfs specified"),
        other => panic!("unexpected step {other:?}"),
    }
    // the flag still flips: kexec is not retried within one run
    assert!(loaded);
    let (_, st) = ctx.step(&config, &mut loaded, kexec::Phase::Begin, Event::Start);
    assert!(matches!(st, Step::Done));
}

fn drive_kexec_to_cmdline(fstab: &str, grub: &str) -> String {
    let ctx = kexec::Context(Globals { distro_hint: None });
    let config = kexec::Config {
        linux: Some("/mnt/boot/vmlinuz".to_string()),
        initrd: Some("/mnt/boot/initrd.img".to_string()),
        root: "/mnt".to_string(),
        append: None,
    };
    let mut loaded = false;
    let (ph, st) = ctx.step(&config, &mut loaded, kexec::Phase::Begin, Event::Start);
    match &st {
        Step::Do(Action::PathExists(p)) => assert_eq!(p, "/mnt/boot/vmlinuz"),
        other => panic!("unexpected step {other:?}"),
    }
    let (ph, st) = ctx.step(&config, &mut loaded, ph, Event::Exists { yes: true });
    match &st {
        Step::Do(Action::PathExists(p)) => assert_eq!(p, "/mnt/boot/initrd.img"),
        other => panic!("unexpected step {other:?}"),
    }
    let (ph, st) = ctx.step(&config, &mut loaded, ph, Event::Exists { yes: true });
    match &st {
        Step::Do(Action::ReadFile(p)) => assert_eq!(p, "/mnt/etc/default/grub"),
        other => panic!("unexpected step {other:?}"),
    }
    let (ph, st) = ctx.step(
        &config,
        &mut loaded,
        ph,
        Event::FileRead { content: Some(grub.to_string()) },
    );
    match &st {
        Step::Do(Action::ReadFile(p)) => assert_eq!(p, "/mnt/etc/fstab"),
        other => panic!("unexpected step {other:?}"),
    }
    let (_, st) = ctx.step(
        &config,
        &mut loaded,
        ph,
        Event::FileRead { content: Some(fstab.to_string()) },
    );
    match st {
        Step::Do(Action::KexecLoad(kernel, initrd, cmdline)) => {
            assert_eq!(kernel, "/mnt/boot/vmlinuz");
            assert_eq!(initrd, "/mnt/boot/initrd.img");
            cmdline
        },
        other => panic!("unexpected step {other:?}"),
    }
}

#[test]
fn kexec_cmdline_composition() {
    let cmdline = drive_kexec_to_cmdline(
        "PARTUUID=abc / ext4 defaults 0 1\n",
        "GRUB_CMDLINE_LINUX=\"quiet\"\nGRUB_CMDLINE_LINUX_DEFAULT=\"splash\"\n",
    );
    assert_eq!(cmdline, "root=PARTUUID=abc ro quiet splash");
}

#[test]
fn kexec_cmdline_with_rootflags() {
    let cmdline = drive_kexec_to_cmdline(
        "PARTUUID=abc / ext4 subvol=root,compress=zstd:1 0 1\n",
        "GRUB_CMDLINE_LINUX=\"quiet\"\nGRUB_CMDLINE_LINUX_DEFAULT=\"splash\"\n",
    );
    assert!(cmdline.starts_with("root=PARTUUID=abc rootflags=subvol=root,compress=zstd:1 ro"));
    assert_eq!(cmdline, "root=PARTUUID=abc rootflags=subvol=root,compress=zstd:1 ro quiet splash");
}

#[test]
fn kexec_missing_root_entry_is_an_invariant_violation() {
    let ctx = kexec::Context(Globals { distro_hint: None });
    let config = kexec::Config {
        linux: Some("/mnt/boot/vmlinuz".to_string()),
        initrd: Some("/mnt/boot/initrd.img".to_string()),
        root: "/mnt".to_string(),
        append: Some("quiet".to_string()),
    };
    let mut loaded = false;
    let (ph, st) = ctx.step(&config, &mut loaded, kexec::Phase::Begin, Event::Start);
    assert!(matches!(&st, Step::Do(Action::PathExists(_))));
    let (ph, st) = ctx.step(&config, &mut loaded, ph, Event::Exists { yes: true });
    assert!(matches!(&st, Step::Do(Action::PathExists(_))));
    // an explicit append skips the grub defaults and goes to the fstab
    let (ph, st) = ctx.step(&config, &mut loaded, ph, Event::Exists { yes: true });
    match &st {
        Step::Do(Action::ReadFile(p)) => assert_eq!(p, "/mnt/etc/fstab"),
        other => panic!("unexpected step {other:?}"),
    }
    let (_, st) = ctx.step(
        &config,
        &mut loaded,
        ph,
        Event::FileRead { content: Some("# nothing here\n".to_string()) },
    );
    match st {
        Step::Fail(Error::Invariant { msg }) => assert_eq!(msg, "No root filesystem found"),
        other => panic!("unexpected step {other:?}"),
    }
}

#[test]
fn kexec_load_failure_reports_the_errno() {
    let ctx = kexec::Context(Globals { distro_hint: None });
    let config = kexec::Config {
        linux: None,
        initrd: None,
        root: "/mnt".to_string(),
        append: Some("quiet".to_string()),
    };
    let mut loaded = false;
    let (_, st) = ctx.step(&config, &mut loaded, kexec::Phase::Loading, Event::KexecLoaded {
        errno: Some(1),
    });
    match st {
        Step::Fail(Error::Syscall { errno }) => assert_eq!(errno, 1),
        other => panic!("unexpected step {other:?}"),
    }
}
