//! Paths, parsing helpers, kernel discovery, the rechunker, the merge
//! rule, and the engine's idempotence.

use infraplan::chunk::Rechunker;
use infraplan::effect::{Action, Event};
use infraplan::envfile::env_lookup;
use infraplan::parted::parted_partition_uuids;
use infraplan::pathutil::{dirname, join_path, normalize};
use infraplan::plugins::kexec::find_kernel_in;
use infraplan::plugins::{
    merge_globals, pkgmgr, Config, Distro, Engine, EnginePhase, EngineStep, Globals, PluginConfig,
    RecipeConfig,
};
use infraplan::strutil::{parse_i32_or, tokenize, trim_str};

fn strs(v: &[&str]) -> Vec<String> {
    v.iter().map(|s| s.to_string()).collect()
}

#[test]
fn join_path_behaves_like_path_push() {
    assert_eq!(join_path("/mnt", "boot"), "/mnt/boot");
    assert_eq!(join_path("/mnt/", "boot"), "/mnt/boot");
    assert_eq!(join_path("/mnt", "/abs"), "/abs");
    assert_eq!(join_path("", "etc/fstab"), "etc/fstab");
}

#[test]
fn dirname_and_normalize() {
    assert_eq!(dirname("/dev/disk/by-partuuid/x"), "/dev/disk/by-partuuid");
    assert_eq!(dirname("/dev"), "/");
    assert_eq!(dirname("plain"), "");
    assert_eq!(normalize("/dev/disk/by-partuuid/../../sda1"), "/dev/sda1");
    assert_eq!(normalize("/a/./b//c"), "/a/b/c");
}

#[test]
fn decimal_parse_with_fallback() {
    assert_eq!(parse_i32_or("0", -1), 0);
    assert_eq!(parse_i32_or("42", -1), 42);
    assert_eq!(parse_i32_or("-7", -1), -7);
    assert_eq!(parse_i32_or("+9", -1), 9);
    assert_eq!(parse_i32_or("2147483647", -1), 2147483647);
    assert_eq!(parse_i32_or("-2147483648", -1), -2147483648);
    assert_eq!(parse_i32_or("2147483648", -1), -1);
    assert_eq!(parse_i32_or("", -1), -1);
    assert_eq!(parse_i32_or("1x", -1), -1);
}

#[test]
fn tokenize_and_trim() {
    let words = tokenize("  a\tbb  ccc ");
    assert_eq!(words, strs(&["a", "bb", "ccc"]));
    assert_eq!(trim_str("  hello \t"), "hello");
}

#[test]
fn env_lookup_reads_grub_defaults() {
    let content = "# comment\nGRUB_CMDLINE_LINUX=\"quiet splash\"\nGRUB_TIMEOUT=5\n";
    assert_eq!(env_lookup(content, "GRUB_CMDLINE_LINUX"), "quiet splash");
    assert_eq!(env_lookup(content, "GRUB_TIMEOUT"), "5");
    assert_eq!(env_lookup(content, "MISSING"), "");
}

#[test]
fn parted_report_yields_partition_uuids_in_order() {
    let out = r#"{"disk":{"uuid":"disk-uuid","max-partitions":128,"partitions":[{"number":1,"type-uuid":"t1","uuid":"a"},{"number":2,"type-uuid":"t2","uuid":"b"},{"number":3,"uuid":"c"}]}}"#;
    let uuids = parted_partition_uuids(out).unwrap();
    assert_eq!(uuids, strs(&["a", "b", "c"]));
}

#[test]
fn test_deserialize_parted_outputs() {
    let output = r#"{"disk":{"path":"/dev/vdb","size":"10.7GB","model":"Virtio Block Device","transport":"virtblk","logical-sector-size":512,"physical-sector-size":512,"label":"gpt","uuid":"b1d47f57-77b8-4ce4-8f50-94f1a90e2ac4","max-partitions":128,"partitions":[{"number":1,"start":"1049kB","end":"537MB","size":"536MB","type":"primary","type-uuid":"c12a7328-f81f-11d2-ba4b-00a0c93ec93b","uuid":"7ad09dd4-bad0-4006-9af7-1981d0bc3c04","name":"primary","flags":["boot","esp"]},{"number":2,"start":"537MB","end":"2147MB","size":"1611MB","type":"primary","type-uuid":"0fc63daf-8483-4772-8e79-3d69d8477de4","uuid":"9ab37551-6643-4e99-bf30-ecfbcff3a08c","name":"primary"},{"number":3,"start":"2147MB","end":"10.7GB","size":"8589MB","type":"primary","type-uuid":"0fc63daf-8483-4772-8e79-3d69d8477de4","uuid":"dd539350-c688-4ed2-9bc8-621e89eb6bb0","name":"primary"}]}}"#;

    let uuids = parted_partition_uuids(output).expect("Failed to read the parted report");
    println!("{uuids:#?}");
    assert_eq!(
        uuids,
        strs(&[
            "7ad09dd4-bad0-4006-9af7-1981d0bc3c04",
            "9ab37551-6643-4e99-bf30-ecfbcff3a08c",
            "dd539350-c688-4ed2-9bc8-621e89eb6bb0",
        ])
    );
}

#[test]
fn parted_report_without_partitions_is_rejected() {
    assert!(parted_partition_uuids(r#"{"disk":{"uuid":"x"}}"#).is_none());
}

#[test]
fn kernel_discovery_prefers_the_literal_pair() {
    let names = strs(&["initrd.img", "vmlinuz", "vmlinuz-6.1.0"]);
    let (k, s) = find_kernel_in(&names).unwrap();
    assert_eq!(k, "vmlinuz");
    assert_eq!(s, "initrd.img");
}

#[test]
fn kernel_discovery_picks_the_greatest_versioned_pair() {
    let names = strs(&[
        "config-6.1.0",
        "vmlinuz-5.15.0",
        "initrd-5.15.0.img",
        "vmlinuz-6.1.0",
        "initramfs-6.1.0.img",
        "vmlinuz-9.9.9",
    ]);
    let (k, s) = find_kernel_in(&names).unwrap();
    assert_eq!(k, "vmlinuz-6.1.0");
    assert_eq!(s, "initramfs-6.1.0.img");
}

#[test]
fn kernel_discovery_fails_without_a_sibling() {
    let names = strs(&["vmlinuz-6.1.0", "config-6.1.0"]);
    assert!(find_kernel_in(&names).is_none());
}

#[test]
fn rechunker_hands_out_exact_reads_from_single_byte_chunks() {
    let payload: Vec<u8> = (0..=255u8).cycle().take(2000).collect();
    let mut r = Rechunker::new();
    let mut out: Vec<u8> = Vec::new();
    let mut fed = 0usize;
    while out.len() < payload.len() {
        // the source trickles in one byte at a time
        while r.len() < 512 && fed < payload.len() {
            r.feed(vec![payload[fed]]);
            fed += 1;
        }
        // the reader asks for 512 bytes and gets exactly what is there
        let chunk = r.take(512);
        assert!(chunk.len() <= 512);
        out.extend_from_slice(&chunk);
    }
    assert_eq!(out, payload);
    assert_eq!(r.len(), 0);
}

#[test]
fn merge_prefers_the_override() {
    let g = Some(Globals { distro_hint: Some(Distro::Ubuntu) });
    let o = Some(Globals { distro_hint: Some(Distro::Alpine) });
    assert_eq!(merge_globals(&g, &o).distro_hint, Some(Distro::Alpine));
    let o_empty = Some(Globals { distro_hint: None });
    assert_eq!(merge_globals(&g, &o_empty).distro_hint, Some(Distro::Ubuntu));
    assert_eq!(merge_globals(&None, &o).distro_hint, Some(Distro::Alpine));
    assert_eq!(merge_globals(&None, &None).distro_hint, None);
}

fn one_pkg_config() -> Config {
    Config {
        state_path: None,
        global: Some(Globals { distro_hint: Some(Distro::Fedora) }),
        recipe: vec![RecipeConfig {
            id: "install_packages".to_string(),
            name: None,
            overrides: None,
            config: PluginConfig::PackageManager(pkgmgr::Config {
                install: Some(strs(&["vim"])),
                remove: None,
                update: Some(false),
            }),
        }],
    }
}

#[test]
fn into_state_freezes_ids_names_and_effective_globals() {
    let state = one_pkg_config().into_state();
    assert_eq!(state.recipes, strs(&["install_packages"]));
    assert_eq!(state.states.len(), 1);
    assert_eq!(state.states[0].id, "install_packages");
    assert_eq!(state.states[0].display_name, "install_packages");
    assert_eq!(state.states[0].global.distro_hint, Some(Distro::Fedora));
}

#[test]
fn second_engine_run_is_a_pure_no_op() {
    let state = one_pkg_config().into_state();
    let mut engine = Engine::new(state);

    // first run: the plan is requested, then acknowledged
    let (ph, st) = engine.step(EnginePhase::Idle, Event::Start);
    match &st {
        EngineStep::Do(Action::RunAll(cmds)) => {
            assert_eq!(cmds.len(), 1);
            assert_eq!(cmds[0].argv, strs(&["dnf", "install", "-y", "vim"]));
        },
        other => panic!("unexpected step {other:?}"),
    }
    let (_, st) = engine.step(ph, Event::RanAll { failure: None });
    assert!(matches!(st, EngineStep::Finished));

    // second run over the same state: no effect is ever requested
    engine.pos = 0;
    let (_, st) = engine.step(EnginePhase::Idle, Event::Start);
    assert!(matches!(st, EngineStep::Finished));
}

#[test]
fn engine_aborts_the_pipeline_at_the_first_failure() {
    let mut config = one_pkg_config();
    config.recipe.push(RecipeConfig {
        id: "second".to_string(),
        name: None,
        overrides: None,
        config: PluginConfig::PackageManager(pkgmgr::Config {
            install: None,
            remove: None,
            update: None,
        }),
    });
    let mut engine = Engine::new(config.into_state());
    let (ph, st) = engine.step(EnginePhase::Idle, Event::Start);
    assert!(matches!(&st, EngineStep::Do(_)));
    let (_, st) = engine.step(
        ph,
        Event::RanAll {
            failure: Some(infraplan::effect::RunFailure {
                index: 0,
                exit_code: 1,
                stdout: String::new(),
                stderr: String::new(),
            }),
        },
    );
    assert!(matches!(st, EngineStep::Failed(_)));
}
