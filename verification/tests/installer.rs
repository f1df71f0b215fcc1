use nearweave::installer;
use nearweave::installer::{
    Elevation, HelperAction, HelperRun, LegacyFacts, LegacySearch, MigrationState, RuleFacts,
};

#[test]
fn only_supported_legacy_versions_are_accepted() {
    assert!(installer::legacy_version_is_supported("0.1.0"));
    assert!(installer::legacy_version_is_supported("0.3.1"));
    assert!(!installer::legacy_version_is_supported("0.0.9"));
    assert!(!installer::legacy_version_is_supported("0.3.2"));
    assert!(!installer::legacy_version_is_supported("0.3.1.1"));
    assert!(!installer::legacy_version_is_supported("invalid"));
}

#[test]
fn command_path_handles_quoted_and_plain_uninstall_commands() {
    assert_eq!(
        installer::command_path(r#""C:\Program Files\NearWeave\uninstall.exe" /S"#),
        Some(r"C:\Program Files\NearWeave\uninstall.exe".to_string())
    );
    assert_eq!(
        installer::command_path(r"C:\NearWeave\uninstall.exe /S"),
        Some(r"C:\NearWeave\uninstall.exe".to_string())
    );
}

#[test]
fn legacy_names_are_reconstructed_without_loss() {
    assert_eq!(installer::legacy_string(&[34013, 26725]).chars().count(), 2);
    assert_eq!(installer::current_and_legacy_rule_names().len(), 6);
}

#[test]
fn versions_are_read_field_by_field() {
    assert_eq!(installer::parse_version("1.22.333"), Some((1, 22, 333)));
    assert_eq!(installer::parse_version("+1.02.4294967295"), Some((1, 2, u32::MAX)));
    assert_eq!(installer::parse_version("1.2.4294967296"), None);
    assert_eq!(installer::parse_version("1.2"), None);
    assert_eq!(installer::parse_version("1..3"), None);
    assert_eq!(installer::parse_version("1.-2.3"), None);
    assert_eq!(installer::parse_version(" 1.2.3"), None);
    assert_eq!(installer::parse_version(""), None);
    assert!(installer::legacy_version_is_supported("0.2.99"));
    assert!(!installer::legacy_version_is_supported("1.1.0"));
}

#[test]
fn commands_without_a_program_have_no_path() {
    assert_eq!(installer::command_path("   "), None);
    assert_eq!(installer::command_path("\"C:\\open"), None);
    assert_eq!(installer::command_path("\"\" /S"), Some(String::new()));
    assert_eq!(installer::command_path("  a\tb"), Some("a".to_string()));
}

#[test]
fn names_are_spelled_out() {
    assert_eq!(installer::legacy_product_name(), "蓝桥");
    assert_eq!(installer::legacy_binary_name(), "bluetooth-share.exe");
    let names = installer::current_and_legacy_rule_names();
    assert_eq!(names[0], "NearWeave LAN Discovery (UDP 37991)");
    assert_eq!(names[2], "蓝桥 局域网发现 (UDP 37991)");
    assert_eq!(names[5], "Bluebridge LAN Transfer (Dynamic TCP)");
    assert_eq!(installer::rollback_names(), names[..2].to_vec());
}

#[test]
fn wide_buffers_end_at_the_first_zero() {
    let units: Vec<u16> = "ab\u{1f600}".encode_utf16().chain([0, 99]).collect();
    assert_eq!(installer::string_from_wide_nul(&units), "ab\u{1f600}");
    assert_eq!(installer::string_from_wide_nul(&[104, 105]), "hi");
    assert_eq!(installer::string_from_wide_nul(&[0xd800, 97, 0xdc00]), "\u{fffd}a\u{fffd}");
    assert_eq!(installer::string_from_wide_nul(&[]), "");
}

#[test]
fn installed_program_lies_below_the_application_data() {
    assert_eq!(
        installer::expected_installed_program(Some(r"C:\Users\a\AppData\Local".into())),
        Ok(r"C:\Users\a\AppData\Local\NearWeave\nearweave.exe".to_string())
    );
    assert_eq!(
        installer::expected_installed_program(None),
        Err("缺少 Windows 环境变量 LOCALAPPDATA".to_string())
    );
    assert_eq!(installer::join_path("C:", "x"), "C:x");
    assert_eq!(installer::join_path(r"C:\", "x"), r"C:\x");
    assert_eq!(installer::trim_separators(r"C:\a\/"), r"C:\a");
    assert_eq!(
        installer::required_environment_path("APPDATA", None),
        Err("缺少 Windows 环境变量 APPDATA".to_string())
    );
}

#[test]
fn paths_are_compared_without_case() {
    assert_eq!(installer::paths_equal(Ok(r"C:\A".into()), Ok(r"c:\a".into())), Ok(true));
    assert_eq!(installer::paths_equal(Ok("Ä".into()), Ok("ä".into())), Ok(false));
    assert_eq!(installer::paths_equal(Err("l".into()), Err("r".into())), Err("l".to_string()));
    assert_eq!(installer::paths_equal(Ok("a".into()), Err("r".into())), Err("r".to_string()));
    assert_eq!(installer::registry_error("x"), "Windows 注册表操作失败：x");
}

fn facts(protocol: i32, ports: &str) -> RuleFacts {
    RuleFacts {
        application: Some(r"c:\P\nearweave.exe".into()),
        protocol: Some(protocol),
        local_ports: Some(ports.into()),
        remote_addresses: Some("localsubnet".into()),
        inbound: Some(true),
        profiles: Some(0x7fff_ffff),
        edge_traversal: Some(false),
        allows: Some(true),
        enabled: Some(true),
    }
}

#[test]
fn firewall_is_configured_only_with_both_rules() {
    let program = Ok(r"C:\p\NearWeave.exe".to_string());
    let good = Ok((Some(facts(17, "37991")), Some(facts(6, "*"))));
    assert!(installer::lan_firewall_is_configured(&program, &good));
    let missing = Ok((Some(facts(17, "37991")), None));
    assert!(!installer::lan_firewall_is_configured(&program, &missing));
    let mut open = facts(6, "*");
    open.edge_traversal = Some(true);
    let bad = Ok((Some(facts(17, "37991")), Some(open)));
    assert!(!installer::lan_firewall_is_configured(&program, &bad));
    assert!(!installer::lan_firewall_is_configured(&Err("x".into()), &good));
    assert!(!installer::lan_firewall_is_configured(&program, &Err("x".into())));
    let swapped = Ok((Some(facts(6, "*")), Some(facts(17, "37991"))));
    assert!(!installer::lan_firewall_is_configured(&program, &swapped));
}

#[test]
fn rules_are_made_only_for_the_installed_program() {
    let path = |p: &str| Ok(p.to_string());
    let plan = installer::configure_firewall(true, path("a"), path("A"), true).expect("plan");
    assert_eq!(plan.remove.len(), 6);
    assert_eq!(plan.add.len(), 2);
    assert_eq!(plan.add[0].local_ports, "37991");
    assert_eq!(
        installer::configure_firewall(true, path("a"), path("b"), true).expect_err("other"),
        "只能为已安装的 NearWeave 主程序配置防火墙"
    );
    assert!(installer::configure_firewall(true, path("a"), path("a"), false).is_err());
    let plan = installer::configure_firewall(false, path("a"), path("b"), false).expect("plan");
    assert!(plan.add.is_empty());
    assert_eq!(installer::needs_elevation(true, path("a"), path("b"), false), Ok(false));
    assert_eq!(installer::needs_elevation(false, path("a"), path("a"), true), Ok(true));
    assert!(installer::needs_elevation(false, path("a"), path("b"), true).is_err());
}

#[test]
fn elevation_has_to_leave_the_rules_behind() {
    assert_eq!(installer::check_elevation(Elevation::Exited(0), true), Ok(()));
    let fault = |outcome: Elevation| installer::check_elevation(outcome, false).expect_err("fault");
    assert_eq!(fault(Elevation::NotStarted), "Windows 管理员授权已取消或无法启动");
    assert_eq!(fault(Elevation::NoHandle), "无法等待 Windows 防火墙授权进程");
    assert_eq!(fault(Elevation::WaitFailed), "等待 Windows 防火墙授权结果失败");
    assert_eq!(fault(Elevation::Exited(1)), "未能写入 NearWeave 局域网防火墙规则");
    assert_eq!(fault(Elevation::Exited(0)), "Windows 未保留 NearWeave 局域网防火墙规则");
}

fn run(arguments: &[&str]) -> HelperRun {
    let owned: Vec<String> = arguments.iter().map(|a| a.to_string()).collect();
    installer::run_installer_helper_from_args(&owned)
}

#[test]
fn helper_takes_fixed_actions_only() {
    const SWITCH: &str = "--nearweave-installer-helper";
    assert!(matches!(run(&[]), HelperRun::Application));
    assert!(matches!(run(&["firewall-add"]), HelperRun::Application));
    assert!(matches!(run(&[SWITCH, "firewall-add"]), HelperRun::Helper(HelperAction::FirewallAdd)));
    assert!(matches!(
        run(&[SWITCH, "firewall-remove"]),
        HelperRun::Helper(HelperAction::FirewallRemove)
    ));
    assert!(matches!(
        run(&[SWITCH, "firewall-present"]),
        HelperRun::Helper(HelperAction::FirewallPresent)
    ));
    let refused = |arguments: &[&str]| match run(arguments) {
        HelperRun::Refused(reason) => reason,
        _ => panic!("refusal expected"),
    };
    assert_eq!(refused(&[SWITCH]), "安装辅助参数无效");
    assert_eq!(refused(&[SWITCH, "firewall-add", "x"]), "安装辅助参数无效");
    assert_eq!(refused(&[SWITCH, "migrate-pre", "s.json"]), "安装辅助参数过多");
    assert_eq!(refused(&[SWITCH, "migrate-post", "s.json"]), "安装辅助参数过多");
    assert!(matches!(run(&[SWITCH, "migrate-pre"]), HelperRun::Helper(HelperAction::MigratePre)));
    assert!(matches!(run(&[SWITCH, "migrate-post"]), HelperRun::Helper(HelperAction::MigratePost)));
    assert_eq!(
        installer::migration_state_file(Some(r"C:\Data".into())),
        Ok(r"C:\Data\nearweave-migration.json".into())
    );
    assert_eq!(
        installer::migration_state_file(None),
        Err("缺少 Windows 环境变量 LOCALAPPDATA".into())
    );
    assert_eq!(installer::exit_code(&Ok(())), 0);
    assert_eq!(installer::exit_code(&Err("x".into())), 1);
    assert!(installer::rules_present(true).is_ok());
    assert!(installer::rules_present(false).is_err());
}

fn legacy() -> LegacyFacts {
    LegacyFacts {
        candidates: 1,
        program_exists: true,
        uninstaller_exists: true,
        publisher: Ok("railgun20001".into()),
        version: Ok("0.2.0".into()),
        location: Ok(r"C:\L".into()),
        command: Ok("\"C:\\L\\uninstall.exe\" /S".into()),
        uninstaller: Ok(r"C:\L\UNINSTALL.exe".into()),
        running: Ok(false),
        autostart: Some(r"c:\l\p.exe".into()),
        expected_install: r"c:\l".into(),
        expected_program: r"C:\L\p.exe".into(),
        expected_uninstaller: r"C:\L\uninstall.exe".into(),
    }
}

#[test]
fn an_older_product_is_followed_only_if_all_is_in_order() {
    assert_eq!(
        installer::plan_migration(legacy()),
        Ok(MigrationState { found: true, restore_autostart: true })
    );
    let fault = |change: &dyn Fn(&mut LegacyFacts)| {
        let mut facts = legacy();
        change(&mut facts);
        installer::plan_migration(facts).expect_err("fault")
    };
    assert!(fault(&|f| f.candidates = 2).contains("多个旧版"));
    assert!(fault(&|f| f.candidates = 0).contains("没有有效卸载项"));
    assert!(fault(&|f| f.publisher = Ok("other".into())).contains("发布者不匹配"));
    assert!(fault(&|f| f.publisher = Err("e".into())).contains("注册表操作失败：e"));
    assert!(fault(&|f| f.version = Ok("0.3.2".into())).contains("版本不在"));
    assert!(fault(&|f| f.location = Ok("D:".into())).contains("安装路径异常"));
    assert!(fault(&|f| f.command = Ok(" ".into())).contains("命令无效"));
    assert!(fault(&|f| f.uninstaller = Ok("x".into())).contains("卸载程序路径异常"));
    assert!(fault(&|f| f.uninstaller_exists = false).contains("不完整"));
    assert!(fault(&|f| f.running = Ok(true)).contains("仍在运行"));
    let mut absent = legacy();
    absent.candidates = 0;
    absent.program_exists = false;
    assert_eq!(
        installer::plan_migration(absent),
        Ok(MigrationState { found: false, restore_autostart: false })
    );
    assert_eq!(installer::find_legacy(1, false), Ok(LegacySearch::Found));
}

#[test]
fn the_end_of_an_older_product_is_checked() {
    assert_eq!(installer::check_uninstalled(Ok(Some(0))), Ok(()));
    assert_eq!(
        installer::check_uninstalled(Ok(None)),
        Err("旧版卸载程序返回错误码 -1，已中止安装".to_string())
    );
    assert_eq!(
        installer::check_uninstalled(Ok(Some(1603))),
        Err("旧版卸载程序返回错误码 1603，已中止安装".to_string())
    );
    assert!(installer::check_uninstalled(Err("x".into())).is_err());
    assert!(installer::check_gone(false, false).is_ok());
    assert!(installer::check_gone(true, false).is_err());
    assert!(installer::is_legacy_process("A.EXE", "a.exe", Some("p".into()), "P"));
    assert!(!installer::is_legacy_process("a.exe", "a.exe", None, "p"));
    let state = MigrationState { found: true, restore_autostart: true };
    assert_eq!(
        installer::autostart_entry(state, Ok("C:\\n".into()), Ok("c:\\N".into()), true),
        Ok(Some("\"C:\\n\"".to_string()))
    );
    assert!(installer::autostart_entry(state, Ok("a".into()), Ok("b".into()), true).is_err());
    let off = MigrationState { found: true, restore_autostart: false };
    assert_eq!(installer::autostart_entry(off, Err("x".into()), Err("y".into()), false), Ok(None));
}

#[test]
fn a_text_coded_to_units_reads_back() {
    let text = "路径 a\u{1f600}\u{ffff}";
    let mut units = installer::wide_null(text);
    assert_eq!(units, text.encode_utf16().chain([0]).collect::<Vec<u16>>());
    units.extend([97, 0, 98]);
    assert_eq!(installer::string_from_wide_nul(&units), text);
    assert_eq!(installer::wide_null(""), vec![0]);
}

#[test]
fn rules_that_are_made_are_accepted() {
    let program = r"C:\Data\NearWeave\nearweave.exe";
    let plan = installer::configure_firewall(true, Ok(program.into()), Ok(program.into()), true)
        .expect("plan");
    assert_eq!(plan.add.len(), 2);
    assert_eq!((plan.add[0].protocol, plan.add[0].local_ports), (17, "37991"));
    assert_eq!((plan.add[1].protocol, plan.add[1].local_ports), (6, "*"));
    let udp = installer::rule_to_make(&plan.add[0], program);
    let tcp = installer::rule_to_make(&plan.add[1], program);
    assert_eq!(udp.remote_addresses.as_deref(), Some("LocalSubnet"));
    assert_eq!(udp.edge_traversal, Some(false));
    assert!(installer::lan_firewall_is_configured(
        &Ok(program.into()),
        &Ok((Some(udp), Some(tcp)))
    ));
}

#[test]
fn the_installed_program_is_started_to_make_the_rules() {
    let program = r"C:\Data\NearWeave\nearweave.exe";
    let need = installer::needs_elevation(false, Ok(program.into()), Ok(program.into()), true);
    assert_eq!(need, Ok(true));
    let request = installer::elevation_request(program);
    assert_eq!((request.verb, request.program.as_str()), ("runas", program));
    assert_eq!(request.arguments.join(" "), "--nearweave-installer-helper firewall-add");
    assert!(matches!(
        installer::run_installer_helper_from_args(&request.arguments),
        HelperRun::Helper(HelperAction::FirewallAdd)
    ));
    assert!(installer::check_elevation(Elevation::Exited(0), true).is_ok());
    assert!(installer::check_elevation(Elevation::Exited(0), false).is_err());
}

#[test]
fn an_uninstallation_is_waited_for_so_often() {
    assert!(installer::next_check(0, true, false));
    assert!(installer::next_check(19, false, true));
    assert!(!installer::next_check(20, true, true));
    assert!(!installer::next_check(0, false, false));
}
