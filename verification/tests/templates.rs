use clipdate::platform::{get_arch, get_archive_ext, get_exe_suffix, get_os, Platform};
use clipdate::template::expand_template;
use clipdate::tool::{find_tool, get_own_repo, own_tool, select_tools, ToolDef};

fn linux() -> Platform {
    Platform {
        os: "linux".to_string(),
        arch: "x86_64".to_string(),
        target: "x86_64-unknown-linux-gnu".to_string(),
        windows: false,
    }
}

fn windows() -> Platform {
    Platform {
        os: "windows".to_string(),
        arch: "aarch64".to_string(),
        target: "aarch64-pc-windows-msvc".to_string(),
        windows: true,
    }
}

fn tool(name: &str) -> ToolDef {
    ToolDef {
        name: name.to_string(),
        exe_name: "koyeb{EXE}".to_string(),
        version_args: vec!["version".to_string()],
        version_regex: "(\\d+\\.\\d+\\.\\d+)".to_string(),
        repo: "koyeb/koyeb-cli".to_string(),
        asset_template: "koyeb-cli_{VERSION}_{OS}_{ARCH}.{EXT}".to_string(),
        archive_entry_template: Some("koyeb{EXE}".to_string()),
    }
}

#[test]
fn test_expand_template() {
    for platform in [linux(), windows()] {
        let expanded = expand_template("test_{VERSION}_{OS}_{ARCH}_{EXE}_{EXT}", "1.2.3", &platform);
        assert!(expanded.contains("1.2.3"));
        assert!(!expanded.contains("{VERSION}"));
        assert!(!expanded.contains("{OS}"));
        assert!(!expanded.contains("{ARCH}"));
        assert!(!expanded.contains("{EXE}"));
        assert!(!expanded.contains("{EXT}"));
        if platform.windows {
            assert!(expanded.contains("zip"));
            assert!(expanded.contains(".exe"));
        } else {
            assert!(expanded.contains("tar.gz"));
        }
    }
}

#[test]
fn every_variable_has_its_value() {
    let t = "{VERSION} {OS} {ARCH} {TARGET} {EXE} {EXT}";
    assert_eq!(
        expand_template(t, "1.2.3", &linux()),
        "1.2.3 linux amd64 x86_64-unknown-linux-gnu  tar.gz"
    );
    assert_eq!(
        expand_template(t, "1.2.3", &windows()),
        "1.2.3 windows arm64 aarch64-pc-windows-msvc .exe zip"
    );
}

#[test]
fn a_variable_may_stand_more_than_once_or_not_at_all() {
    assert_eq!(expand_template("{VERSION}/{VERSION}", "2.0.0", &linux()), "2.0.0/2.0.0");
    assert_eq!(expand_template("plain", "2.0.0", &linux()), "plain");
    assert_eq!(expand_template("{version} {OTHER} {", "2.0.0", &linux()), "{version} {OTHER} {");
    assert_eq!(expand_template("", "2.0.0", &linux()), "");
}

#[test]
fn unknown_braces_do_not_hide_a_variable() {
    for template in ["{x}{VERSION}{", "}{OS}}{EXE}{ARCH", "{y}", "{}{EXT}{VERSION }"] {
        for platform in [linux(), windows()] {
            let once = expand_template(template, "1.2}3", &platform);
            for marker in ["{VERSION}", "{OS}", "{ARCH}", "{TARGET}", "{EXE}", "{EXT}"] {
                assert!(!once.contains(marker), "{}", once);
            }
            assert_eq!(expand_template(&once, "1.2}3", &platform), once);
        }
    }
    assert_eq!(expand_template("{x}{VERSION}{", "1.0.0", &linux()), "{x}1.0.0{");
}

#[test]
fn values_are_expanded_in_turn() {
    // A version that names a variable is expanded by the variables after it.
    assert_eq!(expand_template("{VERSION}", "{OS}", &linux()), "linux");
    // The removal of an empty suffix can leave another variable behind.
    assert_eq!(expand_template("{O{EXE}S}", "1.0.0", &linux()), "{OS}");
}

#[test]
fn names_of_the_machine() {
    assert_eq!(get_os("macos"), "darwin");
    assert_eq!(get_os("linux"), "linux");
    assert_eq!(get_arch("x86_64"), "amd64");
    assert_eq!(get_arch("aarch64"), "arm64");
    assert_eq!(get_arch("riscv64"), "riscv64");
    assert_eq!(get_exe_suffix(true), ".exe");
    assert_eq!(get_exe_suffix(false), "");
    assert_eq!(get_archive_ext(true), "zip");
    assert_eq!(get_archive_ext(false), "tar.gz");
}

#[test]
fn files_and_urls_of_a_tool() {
    let t = tool("koyeb");
    assert_eq!(t.asset_name("5.3.1", &linux()), "koyeb-cli_5.3.1_linux_amd64.tar.gz");
    assert_eq!(t.asset_name("5.3.1", &windows()), "koyeb-cli_5.3.1_windows_arm64.zip");
    assert_eq!(t.archive_entry("5.3.1", &windows()), Some("koyeb.exe".to_string()));
    assert_eq!(
        t.download_url("5.3.1", &linux()),
        "https://github.com/koyeb/koyeb-cli/releases/download/v5.3.1/koyeb-cli_5.3.1_linux_amd64.tar.gz"
    );
    assert_eq!(t.exe_file(&linux()), "koyeb");
    assert_eq!(t.exe_file(&windows()), "koyeb.exe");
    let raw = ToolDef { archive_entry_template: None, ..t };
    assert_eq!(raw.archive_entry("5.3.1", &linux()), None);
}

#[test]
fn the_updater_as_a_tool() {
    assert_eq!(get_own_repo(None), "Noob-Lol/clipdate");
    assert_eq!(get_own_repo(Some("a/b")), "a/b");
    let own = own_tool("a/b", true);
    assert_eq!(own.name, "clipdate");
    assert_eq!(own.exe_name, "clipdate.exe");
    assert!(own.version_args.is_empty());
    assert_eq!(own.version_regex, "");
    assert_eq!(own.repo, "a/b");
    assert_eq!(own.archive_entry_template, Some("clipdate.exe".to_string()));
    assert_eq!(own.asset_name("1.0.0", &windows()), "clipdate_1.0.0_windows_arm64.zip");
    let own = own_tool("a/b", false);
    assert_eq!(own.exe_name, "clipdate");
    assert_eq!(own.asset_name("1.0.0", &linux()), "clipdate_1.0.0_linux_amd64.tar.gz");
}

#[test]
fn tools_are_selected_by_name() {
    let tools = vec![tool("alpha"), tool("Beta"), tool("beta")];
    assert_eq!(find_tool(&tools, "BETA"), Some(1));
    assert_eq!(find_tool(&tools, "gamma"), None);
    assert_eq!(select_tools(&tools, &vec![]).unwrap(), vec![0, 1, 2]);
    let names = vec!["beta".to_string(), "ALPHA".to_string(), "beta".to_string()];
    assert_eq!(select_tools(&tools, &names).unwrap(), vec![1, 0, 1]);
    assert_eq!(select_tools(&vec![], &vec![]).unwrap(), Vec::<usize>::new());
}

#[test]
fn an_unknown_tool_is_reported() {
    let tools = vec![tool("alpha"), tool("Beta")];
    let names = vec!["alpha".to_string(), "nope".to_string(), "worse".to_string()];
    let e = select_tools(&tools, &names).unwrap_err();
    assert_eq!(e.name, "nope");
    assert_eq!(e.available, "alpha, Beta");
    assert_eq!(e.message(), "unknown tool 'nope'. Available: alpha, Beta");
    let e = select_tools(&vec![], &names).unwrap_err();
    assert_eq!(e.message(), "unknown tool 'alpha'. Available: ");
}
