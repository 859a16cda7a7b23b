use apexsu::app_profile::{
    build_app_profile, group_count_fits, package_name_fits, profile_reading, profile_request, AppProfile, JavaProfile, ProfileReading,
};
use apexsu::capabilities::{cap_bits_to_list, cap_list_to_bits};
use apexsu::fixed_str::{fixed_to_string, str_to_fixed};
use apexsu::kernel_bridge::{
    cached_info, driver_fd_candidate, find_driver_fd, get_feature_reply, get_version, is_driver_link,
    is_kernel_umount_enabled, is_lkm_mode, is_manager, is_su_enabled, legacy_is_lkm_mode,
    legacy_is_manager, remember_info, set_kernel_umount_enabled, set_su_enabled, InfoCache,
    FdEntry, KernelInfo, ModeQuery, KSU_FEATURE_KERNEL_UMOUNT, KSU_FEATURE_SU_COMPAT,
};

#[test]
fn caps_to_bits_ignores_invalid() {
    assert_eq!(cap_list_to_bits(&vec![0, 1, 40]), 0b11 | (1u64 << 40));
    assert_eq!(cap_list_to_bits(&vec![-1, 41, 63, 5, 5]), 1 << 5);
    assert_eq!(cap_list_to_bits(&vec![]), 0);
}

#[test]
fn bits_to_caps_lists_valid_bits() {
    assert_eq!(cap_bits_to_list(0b1011), vec![0, 1, 3]);
    assert_eq!(cap_bits_to_list(u64::MAX), (0..=40).collect::<Vec<i32>>());
    assert_eq!(cap_bits_to_list(1u64 << 41), Vec::<i32>::new());
}

#[test]
fn caps_round_trip() {
    let caps = vec![21, 3, 3, 40, 99, -2, 0];
    assert_eq!(cap_bits_to_list(cap_list_to_bits(&caps)), vec![0, 3, 21, 40]);
    let bits = 0xffff_0000_0000_00ffu64;
    assert_eq!(cap_list_to_bits(&cap_bits_to_list(bits)), bits & 0x1ff_ffff_ffff);
}

#[test]
fn fixed_string_round_trip() {
    let mut buf = [0xaau8; 8];
    str_to_fixed(&mut buf, "abc");
    assert_eq!(buf, [b'a', b'b', b'c', 0, 0xaa, 0xaa, 0xaa, 0xaa]);
    assert_eq!(fixed_to_string(&buf), "abc");
}

#[test]
fn fixed_string_truncates() {
    let mut buf = [0u8; 4];
    str_to_fixed(&mut buf, "abcdef");
    assert_eq!(buf, [b'a', b'b', b'c', 0]);
    assert_eq!(fixed_to_string(&buf), "abc");
    let full = [b'x'; 3];
    assert_eq!(fixed_to_string(&full), "xxx");
    let mut tiny = [7u8; 1];
    str_to_fixed(&mut tiny, "zz");
    assert_eq!(tiny, [0]);
}

#[test]
fn fixed_string_lossy() {
    let mut buf = [0u8; 3];
    // "é" is two bytes; only the first fits.
    str_to_fixed(&mut buf, "aé");
    assert_eq!(buf, [b'a', 0xc3, 0]);
    assert_eq!(fixed_to_string(&buf), "a\u{fffd}");
}

#[test]
fn info_cache_remembers() {
    let mut cache = InfoCache::new();
    assert_eq!(cached_info(&cache), None);
    remember_info(&mut cache, &KernelInfo { version: 0, flags: 3, features: 0 });
    assert_eq!(cached_info(&cache), None);
    remember_info(&mut cache, &KernelInfo { version: 12001, flags: 3, features: 9 });
    assert_eq!(
        cached_info(&cache),
        Some(KernelInfo { version: 12001, flags: 3, features: 0 })
    );
}

#[test]
fn mode_queries() {
    let info = KernelInfo { version: 5, flags: 0b10, features: 0 };
    assert_eq!(is_lkm_mode(&info), ModeQuery::Answer(false));
    assert_eq!(is_manager(&info), ModeQuery::Answer(true));
    let none = KernelInfo { version: 0, flags: 0b11, features: 0 };
    assert_eq!(is_lkm_mode(&none), ModeQuery::AskLegacy);
    assert_eq!(is_manager(&none), ModeQuery::AskLegacy);
    assert!(legacy_is_lkm_mode(1));
    assert!(!legacy_is_lkm_mode(2));
    assert!(legacy_is_manager(3));
    assert!(!legacy_is_manager(-1));
    assert_eq!(get_version(&info), Some(5));
    assert_eq!(get_version(&none), None);
}

#[test]
fn feature_switches() {
    assert_eq!(get_feature_reply(-1, 1, 1), None);
    assert_eq!(get_feature_reply(0, 1, 2), Some((1, true)));
    assert!(is_su_enabled(Some((1, true))));
    assert!(!is_su_enabled(Some((1, false))));
    assert!(!is_su_enabled(Some((0, true))));
    assert!(!is_kernel_umount_enabled(None));
    assert!(is_kernel_umount_enabled(Some((7, true))));
    let s = set_su_enabled(true);
    assert_eq!((s.feature_id, s.value), (KSU_FEATURE_SU_COMPAT, 1));
    let k = set_kernel_umount_enabled(false);
    assert_eq!((k.feature_id, k.value), (KSU_FEATURE_KERNEL_UMOUNT, 0));
}

#[test]
fn driver_scan_decisions() {
    assert_eq!(driver_fd_candidate("17"), Some(17));
    assert_eq!(driver_fd_candidate("+4"), Some(4));
    assert_eq!(driver_fd_candidate("-3"), None);
    assert_eq!(driver_fd_candidate("-0"), Some(0));
    assert_eq!(driver_fd_candidate("."), None);
    assert_eq!(driver_fd_candidate(""), None);
    assert_eq!(driver_fd_candidate("2147483648"), None);
    assert_eq!(driver_fd_candidate("2147483647"), Some(i32::MAX));
    assert!(is_driver_link("anon_inode:[ksu_driver]"));
    assert!(!is_driver_link("anon_inode:[eventfd]"));
    assert!(!is_driver_link("[ksu_drive"));
}

fn root_profile_object() -> JavaProfile {
    JavaProfile {
        name: Some("com.example.app".into()),
        current_uid: 10123,
        allow_su: true,
        umount_modules: false,
        root_use_default: false,
        root_template: Some("tmpl".into()),
        uid: 0,
        gid: 0,
        groups: vec![3003, 1004],
        capabilities: vec![21, 1, 100],
        context: "u:r:su:s0".into(),
        namespace: 2,
        non_root_use_default: false,
    }
}

#[test]
fn profile_write_then_read_root() {
    let j = root_profile_object();
    let p = build_app_profile(&j).unwrap();
    assert_eq!(p.version, 2);
    assert_eq!(p.rp_config.profile.groups_count, 2);
    assert_eq!(p.rp_config.profile.capabilities.effective, (1 << 21) | (1 << 1));
    match profile_reading(&p, false) {
        ProfileReading::Root {
            name,
            current_uid,
            use_default,
            template,
            uid,
            gid,
            groups,
            capabilities,
            context,
            namespace,
        } => {
            assert_eq!(name, "com.example.app");
            assert_eq!(current_uid, 10123);
            assert!(!use_default);
            assert_eq!(template, Some("tmpl".to_string()));
            assert_eq!((uid, gid), (0, 0));
            assert_eq!(groups, vec![3003, 1004]);
            assert_eq!(capabilities, vec![1, 21]);
            assert_eq!(context, "u:r:su:s0");
            assert_eq!(namespace, 2);
        }
        other => panic!("unexpected reading: {other:?}"),
    }
}

#[test]
fn profile_write_then_read_non_root() {
    let mut j = root_profile_object();
    j.allow_su = false;
    j.umount_modules = true;
    j.non_root_use_default = true;
    j.groups = (0..40).collect();
    let p = build_app_profile(&j).unwrap();
    match profile_reading(&p, false) {
        ProfileReading::NonRoot { name, current_uid, use_default, umount_modules } => {
            assert_eq!(name, "com.example.app");
            assert_eq!(current_uid, 10123);
            assert!(use_default);
            assert!(umount_modules);
        }
        other => panic!("unexpected reading: {other:?}"),
    }
    match profile_reading(&p, true) {
        ProfileReading::Default { name, current_uid } => {
            assert_eq!((name.as_str(), current_uid), ("com.example.app", 10123));
        }
        other => panic!("unexpected reading: {other:?}"),
    }
}

#[test]
fn profile_refusals() {
    let mut j = root_profile_object();
    j.name = None;
    assert!(build_app_profile(&j).is_none());
    let mut j = root_profile_object();
    j.name = Some("p".repeat(256));
    assert!(build_app_profile(&j).is_none());
    j.name = Some("p".repeat(255));
    assert!(build_app_profile(&j).is_some());
    let mut j = root_profile_object();
    j.groups = (0..33).collect();
    assert!(build_app_profile(&j).is_none());
    j.groups = (0..32).collect();
    assert!(build_app_profile(&j).is_some());
}

#[test]
fn profile_empty_template_and_clamped_groups() {
    let mut j = root_profile_object();
    j.root_template = Some(String::new());
    let mut p: AppProfile = build_app_profile(&j).unwrap();
    p.rp_config.profile.groups_count = 100;
    match profile_reading(&p, false) {
        ProfileReading::Root { template, groups, .. } => {
            assert_eq!(template, None);
            assert_eq!(groups.len(), 32);
            assert_eq!(&groups[..2], &[3003, 1004]);
        }
        other => panic!("unexpected reading: {other:?}"),
    }
    p.rp_config.profile.groups_count = -5;
    match profile_reading(&p, false) {
        ProfileReading::Root { groups, .. } => assert!(groups.is_empty()),
        other => panic!("unexpected reading: {other:?}"),
    }
}

#[test]
fn profile_request_fields() {
    let p = profile_request("com.x", 10001).unwrap();
    assert_eq!(p.version, 2);
    assert_eq!(p.current_uid, 10001);
    assert_eq!(fixed_to_string(&p.key), "com.x");
    assert!(!p.allow_su);
    assert!(profile_request(&"x".repeat(256), 1).is_none());
}

fn fd_entry(name: &str, target: Option<&str>) -> FdEntry {
    FdEntry { name: name.to_string(), target: target.map(|t| t.to_string()) }
}

#[test]
fn driver_scan_picks_first_driver_link() {
    let entries = vec![
        fd_entry(".", None),
        fd_entry("0", Some("/dev/null")),
        fd_entry("-7", Some("anon_inode:[ksu_driver]")),
        fd_entry("5", None),
        fd_entry("9", Some("anon_inode:[ksu_driver]")),
        fd_entry("12", Some("anon_inode:[ksu_driver]")),
    ];
    assert_eq!(find_driver_fd(&entries), 9);
    assert_eq!(find_driver_fd(&entries[..4].to_vec()), -1);
    assert_eq!(find_driver_fd(&Vec::new()), -1);
}

#[test]
fn profile_limits() {
    assert!(package_name_fits(&"p".repeat(255)));
    assert!(!package_name_fits(&"p".repeat(256)));
    assert!(!package_name_fits(&"\u{e9}".repeat(128)));
    assert!(package_name_fits(""));
    assert!(group_count_fits(0));
    assert!(group_count_fits(32));
    assert!(!group_count_fits(33));
    assert!(!group_count_fits(-1));
}
