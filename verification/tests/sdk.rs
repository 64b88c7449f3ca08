use std::path::Path;

use winres::files::FileIndex;
use winres::registry::{DiscoveryError, InstalledRoots, KitsRoot, INSTALLED_ROOTS_KEY};
use winres::resolve::{get_sdk, select_tool, ResolutionError};
use winres::sdk::{self, Arch, Sdk, SdkArch, System, Tool};
use winres::textmap::TextMap;

const ROOT: &str = "C:\\Program Files (x86)\\Windows Kits\\10\\";

fn joined(parts: &[&str]) -> String {
    let mut path = Path::new(parts[0]).to_path_buf();
    for part in &parts[1..] {
        path = path.join(part);
    }
    path.to_str().unwrap().to_string()
}

fn registry_output(versions: &[&str]) -> String {
    let mut text = String::from("\r\n");
    text.push_str(INSTALLED_ROOTS_KEY);
    text.push_str("\r\n    KitsRoot10    REG_SZ    ");
    text.push_str(ROOT);
    text.push_str("\r\n\r\n");
    for version in versions {
        text.push_str(INSTALLED_ROOTS_KEY);
        text.push('\\');
        text.push_str(version);
        text.push_str("\r\n");
    }
    text
}

/// A host on which every probed path exists and every include root holds
/// `um` and `shared`.
fn full_host(versions: &[&str]) -> (InstalledRoots, FileIndex) {
    let roots = InstalledRoots::new(&registry_output(versions)).expect("roots");
    let mut fs = FileIndex::new();
    for path in roots.probe_paths("rc.exe") {
        fs.add_path(&path);
    }
    for dir in roots.probe_dirs() {
        fs.add_listing(&dir, vec!["um".to_string(), "shared".to_string()]);
    }
    (roots, fs)
}

fn tool_of_version(version: &str) -> Tool {
    Tool {
        sdk_version: version.to_string(),
        installed_root: ROOT.to_string(),
        arch: Arch::X64,
        path: format!("{}/rc.exe", version),
        include_dirs: TextMap::new(),
        lib_dirs: TextMap::new(),
        bin_dir: version.to_string(),
    }
}

#[test]
fn test_get_installed_roots() {
    let roots = InstalledRoots::new(&registry_output(&["10.0.14393.0", "10.0.17763.0"]))
        .expect("get_installed_roots");
    println!("{:?}", roots);
}

#[test]
fn test_system() {
    let (roots, fs) = full_host(&["10.0.14393.0", "10.0.17763.0"]);
    let system = System::new(roots, &fs).expect("system::new");
    println!("{:?}", system);
}

#[test]
fn lib_test_get_sdk() {
    let (roots, fs) = full_host(&["10.0.14393.0", "10.0.17763.0"]);
    let system = System::new(roots, &fs).expect("system::new");
    let tool = get_sdk(&system, "x86_64", None, &fs).expect("get_sdk");
    println!("{:?}", tool);
}

#[test]
fn sdk_test_get_sdk() {
    let (roots, fs) = full_host(&["10.0.14393.0", "10.0.17763.0"]);
    let sdks = sdk::get_sdk(&roots, "x86_64", &fs);
    assert!(!sdks.is_empty());
    println!("{:?}", sdks);
    assert!(sdks.get(0).is_some());
}

#[test]
fn reads_kits_and_versions_from_the_registry() {
    let text = "\r\nHKEY_LOCAL_MACHINE\\SOFTWARE\\Microsoft\\Windows Kits\\Installed Roots\r\n    KitsRoot10    REG_SZ    C:\\Program Files (x86)\\Windows Kits\\10\\\r\n    KitsRoot81\tREG_SZ\tC:\\Kits\\8.1\\\r\n\r\nHKEY_LOCAL_MACHINE\\SOFTWARE\\Microsoft\\Windows Kits\\Installed Roots\\10.0.14393.0\r\nHKEY_LOCAL_MACHINE\\SOFTWARE\\Microsoft\\Windows Kits\\Installed Roots\\10.0.17763.0\r\n";
    let roots = InstalledRoots::new(text).unwrap();
    assert_eq!(
        roots.kits_roots,
        vec![
            (
                KitsRoot::new("KitsRoot10"),
                "C:\\Program Files (x86)\\Windows Kits\\10\\".to_string()
            ),
            (KitsRoot::new("KitsRoot81"), "C:\\Kits\\8.1\\".to_string()),
        ]
    );
    assert_eq!(roots.kits_roots[0].0.as_str(), "KitsRoot10");
    assert_eq!(roots.sdk_versions, vec!["10.0.14393.0", "10.0.17763.0"]);
}

#[test]
fn no_kit_is_a_discovery_failure() {
    assert_eq!(InstalledRoots::new(""), Err(DiscoveryError::NoRootsFound));
    assert_eq!(
        InstalledRoots::new("ERROR: The system was unable to find the specified registry key or value.\r\n"),
        Err(DiscoveryError::NoRootsFound)
    );
    // versions alone are no kit
    let only_versions = format!("{}\\10.0.17763.0\r\n", INSTALLED_ROOTS_KEY);
    assert_eq!(InstalledRoots::new(&only_versions), Err(DiscoveryError::NoRootsFound));
}

#[test]
fn a_record_without_kits_lists_no_sdks() {
    let roots = InstalledRoots { kits_roots: vec![], sdk_versions: vec!["10.0.1".to_string()] };
    assert_eq!(System::new(roots, &FileIndex::new()), Err(DiscoveryError::NoRootsFound));
}

#[test]
fn lines_that_say_nothing_are_passed_over() {
    let text = format!(
        "garbage\n  KitsRoot10 without the marker\nKitsRoot81 REG_SZ D:\\Kits\n{key}\n{key}\\\n{key}\\8.1\nKitsRootX REG_SZ\n",
        key = INSTALLED_ROOTS_KEY
    );
    let roots = InstalledRoots::new(&text).unwrap();
    assert_eq!(
        roots.kits_roots,
        vec![
            (KitsRoot::new("KitsRoot81"), "D:\\Kits".to_string()),
            (KitsRoot::new("KitsRootX"), String::new()),
        ]
    );
    assert_eq!(roots.sdk_versions, vec!["8.1"]);
}

#[test]
fn a_kit_line_without_marker_alone_finds_no_root() {
    assert_eq!(
        InstalledRoots::new("KitsRoot10    C:\\Kits\\10\\\r\n"),
        Err(DiscoveryError::NoRootsFound)
    );
}

#[test]
fn the_directories_of_an_sdk_are_joined_paths() {
    let (roots, fs) = full_host(&["10.0.17763.0"]);
    let system = System::new(roots, &fs).unwrap();
    let sdk = &system.sdks[0];
    assert_eq!(sdk.bin_root_dir(), joined(&[ROOT, "bin", "10.0.17763.0"]));
    assert_eq!(sdk.lib_root_dir(), joined(&[ROOT, "Lib", "10.0.17763.0"]));
    assert_eq!(sdk.include_root_dir(), joined(&[ROOT, "Include", "10.0.17763.0"]));
    assert_ne!(sdk.bin_root_dir(), ROOT);
}

#[test]
fn an_sdk_has_a_toolset_for_each_architecture() {
    let (roots, fs) = full_host(&["10.0.17763.0"]);
    let system = System::new(roots, &fs).unwrap();
    assert_eq!(system.sdks.len(), 1);
    let sdk = &system.sdks[0];
    assert_eq!(sdk.version, "10.0.17763.0");
    assert_eq!(sdk.installed_root, ROOT);
    for arch in [Arch::Arm, Arch::Arm64, Arch::X64, Arch::X86] {
        let toolset = sdk.sdk_arch(&arch).expect("toolset");
        assert_eq!(
            toolset.bin_dir,
            joined(&[ROOT, "bin", "10.0.17763.0", arch.dirname()])
        );
        assert_eq!(toolset.include_dirs.len(), 2);
        assert_eq!(
            toolset.include_dirs.get("um"),
            Some(joined(&[ROOT, "Include", "10.0.17763.0", "um"]).as_str())
        );
        assert_eq!(
            toolset.include_dirs.get("shared"),
            Some(joined(&[ROOT, "Include", "10.0.17763.0", "shared"]).as_str())
        );
        assert_eq!(toolset.lib_dirs.len(), 0);
    }
}

#[test]
fn only_versions_found_on_disk_become_sdks() {
    let roots = InstalledRoots::new(&registry_output(&["10.0.1", "10.0.2", "10.0.3"])).unwrap();
    let mut fs = FileIndex::new();
    fs.add_path(&joined(&[ROOT, "bin", "10.0.2"]));
    fs.add_listing(&joined(&[ROOT, "Include", "10.0.2"]), vec![]);
    let system = System::new(roots.clone(), &fs).unwrap();
    assert_eq!(system.installed_roots, roots);
    assert_eq!(system.sdks.len(), 1);
    assert_eq!(system.sdks[0].version, "10.0.2");
    assert!(Sdk::is_present("10.0.2", ROOT, &fs));
    assert!(!Sdk::is_present("10.0.1", ROOT, &fs));
}

#[test]
fn an_unreadable_include_root_fails_the_listing() {
    let roots = InstalledRoots::new(&registry_output(&["10.0.2"])).unwrap();
    let mut fs = FileIndex::new();
    fs.add_path(&joined(&[ROOT, "bin", "10.0.2"]));
    assert_eq!(
        System::new(roots, &fs),
        Err(DiscoveryError::UnreadableDirectory {
            path: joined(&[ROOT, "Include", "10.0.2"])
        })
    );
    assert_eq!(
        Sdk::new("10.0.2".to_string(), ROOT.to_string(), &fs),
        Err(DiscoveryError::UnreadableDirectory {
            path: joined(&[ROOT, "Include", "10.0.2"])
        })
    );
}

#[test]
fn discovery_errors_have_words() {
    assert_eq!(DiscoveryError::NoRootsFound.message(), "no installed root found");
    assert_eq!(
        DiscoveryError::UnreadableDirectory { path: "C:\\x".to_string() }.message(),
        "cannot read the directory C:\\x"
    );
}

#[test]
fn a_tool_is_found_where_its_file_exists() {
    let roots = InstalledRoots::new(&registry_output(&["10.0.2"])).unwrap();
    let mut fs = FileIndex::new();
    fs.add_path(&joined(&[ROOT, "bin", "10.0.2"]));
    fs.add_path(&joined(&[ROOT, "bin", "10.0.2", "x64", "rc.exe"]));
    fs.add_listing(&joined(&[ROOT, "Include", "10.0.2"]), vec!["um".to_string()]);
    let system = System::new(roots, &fs).unwrap();
    let sdk = &system.sdks[0];
    assert!(sdk.has_tool(&Arch::X64, "rc.exe", &fs));
    assert!(!sdk.has_tool(&Arch::X86, "rc.exe", &fs));
    assert!(!sdk.has_tool(&Arch::X64, "mt.exe", &fs));
    assert_eq!(sdk.tool("rc.exe", Arch::X86, &fs), None);
    let tool = sdk.tool("rc.exe", Arch::X64, &fs).unwrap();
    assert_eq!(tool.sdk_version, "10.0.2");
    assert_eq!(tool.installed_root, ROOT);
    assert_eq!(tool.arch, Arch::X64);
    assert_eq!(tool.bin_dir, joined(&[ROOT, "bin", "10.0.2", "x64"]));
    assert_eq!(tool.path, joined(&[ROOT, "bin", "10.0.2", "x64", "rc.exe"]));
    assert_eq!(
        tool.include_dirs.get("um"),
        Some(joined(&[ROOT, "Include", "10.0.2", "um"]).as_str())
    );
}

#[test]
fn a_new_toolset_knows_no_directories() {
    let toolset = SdkArch::new("C:\\bin".to_string());
    assert_eq!(toolset.bin_dir, "C:\\bin");
    assert_eq!(toolset.include_dirs.len(), 0);
    assert_eq!(toolset.lib_dirs.len(), 0);
}

#[test]
fn architectures_have_directory_names() {
    assert_eq!(Arch::Arm.dirname(), "arm");
    assert_eq!(Arch::Arm64.dirname(), "arm64");
    assert_eq!(Arch::X64.dirname(), "x64");
    assert_eq!(Arch::X86.dirname(), "x86");
    assert_eq!(Arch::Arm64.to_string(), "arm64");
}

#[test]
fn the_target_decides_the_architecture() {
    assert_eq!(Arch::arch_for_cfg_target("x86_64"), Some(Arch::X64));
    assert_eq!(Arch::arch_for_cfg_target("x86"), Some(Arch::X86));
    assert_eq!(Arch::arch_for_cfg_target("aarch64"), None);
    assert_eq!(Arch::arch_for_cfg_target(""), None);
}

#[test]
fn the_greatest_version_is_chosen_whatever_the_order() {
    let orders: [[&str; 3]; 6] = [
        ["10.0.9", "10.0.10", "10.0.2"],
        ["10.0.9", "10.0.2", "10.0.10"],
        ["10.0.10", "10.0.9", "10.0.2"],
        ["10.0.10", "10.0.2", "10.0.9"],
        ["10.0.2", "10.0.9", "10.0.10"],
        ["10.0.2", "10.0.10", "10.0.9"],
    ];
    for order in orders {
        let tools: Vec<Tool> = order.iter().map(|v| tool_of_version(v)).collect();
        let choice = select_tool(&tools, None).unwrap();
        assert_eq!(tools[choice].sdk_version, "10.0.10");
        let (roots, fs) = full_host(&order);
        let system = System::new(roots, &fs).unwrap();
        let tool = get_sdk(&system, "x86_64", None, &fs).unwrap();
        assert_eq!(tool.sdk_version, "10.0.10");
    }
}

#[test]
fn a_preferred_version_wins_over_the_greatest() {
    let (roots, fs) = full_host(&["10.0.1", "10.0.5", "10.0.3"]);
    let system = System::new(roots, &fs).unwrap();
    let tool = get_sdk(&system, "x86_64", Some("10.0.3"), &fs).unwrap();
    assert_eq!(tool.sdk_version, "10.0.3");
    assert_eq!(tool.arch, Arch::X64);
    assert_eq!(tool.path, joined(&[ROOT, "bin", "10.0.3", "x64", "rc.exe"]));
    let tools: Vec<Tool> = ["10.0.1", "10.0.5", "10.0.3"].iter().map(|v| tool_of_version(v)).collect();
    assert_eq!(select_tool(&tools, Some("10.0.3")), Some(2));
}

#[test]
fn a_preferred_version_that_is_missing_falls_back_to_the_greatest() {
    let (roots, fs) = full_host(&["10.0.1", "10.0.5", "10.0.3"]);
    let system = System::new(roots, &fs).unwrap();
    let tool = get_sdk(&system, "x86", Some("10.0.4"), &fs).unwrap();
    assert_eq!(tool.sdk_version, "10.0.5");
    assert_eq!(tool.arch, Arch::X86);
    // the preference is a version string, not a number
    let tool = get_sdk(&system, "x86", Some("10.0.03"), &fs).unwrap();
    assert_eq!(tool.sdk_version, "10.0.5");
}

#[test]
fn of_equal_versions_the_last_is_chosen_and_of_preferred_the_first() {
    let mut tools: Vec<Tool> = ["10.0.5", "10.0.1", "10.0.5"].iter().map(|v| tool_of_version(v)).collect();
    tools[0].installed_root = "first".to_string();
    tools[2].installed_root = "last".to_string();
    assert_eq!(select_tool(&tools, None), Some(2));
    assert_eq!(select_tool(&tools, Some("10.0.5")), Some(0));
    assert_eq!(select_tool(&Vec::new(), None), None);
    assert_eq!(select_tool(&Vec::new(), Some("10.0.5")), None);
}

#[test]
fn no_tool_names_the_architecture_and_the_roots() {
    let roots = InstalledRoots::new(&registry_output(&["10.0.2"])).unwrap();
    let mut fs = FileIndex::new();
    fs.add_path(&joined(&[ROOT, "bin", "10.0.2"]));
    fs.add_listing(&joined(&[ROOT, "Include", "10.0.2"]), vec![]);
    let system = System::new(roots, &fs).unwrap();
    let error = get_sdk(&system, "x86_64", None, &fs).unwrap_err();
    assert_eq!(
        error,
        ResolutionError::ToolNotFound {
            arch: Arch::X64,
            searched_roots: vec![ROOT.to_string()]
        }
    );
    assert_eq!(
        error.message(),
        format!("no rc.exe tool found for arch x64 in [\"{}\"]", ROOT)
    );
    let two = ResolutionError::ToolNotFound {
        arch: Arch::Arm64,
        searched_roots: vec!["a".to_string(), "b".to_string()],
    };
    assert_eq!(two.message(), "no rc.exe tool found for arch arm64 in [\"a\", \"b\"]");
    let none = ResolutionError::ToolNotFound { arch: Arch::X86, searched_roots: vec![] };
    assert_eq!(none.message(), "no rc.exe tool found for arch x86 in []");
}

#[test]
fn an_unknown_target_is_unsupported() {
    let (roots, fs) = full_host(&["10.0.2"]);
    let system = System::new(roots, &fs).unwrap();
    let error = get_sdk(&system, "riscv64", None, &fs).unwrap_err();
    assert_eq!(error, ResolutionError::UnsupportedArch);
    assert_eq!(error.message(), "unsupported target arch");
}

#[test]
fn probes_name_every_path_that_is_asked_for() {
    let roots = InstalledRoots::new(&registry_output(&["10.0.2"])).unwrap();
    let mut expected = Vec::new();
    for arch in ["arm", "arm64", "x64", "x86"] {
        expected.push(joined(&[ROOT, "bin", arch, "rc.exe"]));
    }
    expected.push(joined(&[ROOT, "bin", "10.0.2"]));
    for arch in ["arm", "arm64", "x64", "x86"] {
        expected.push(joined(&[ROOT, "bin", "10.0.2", arch, "rc.exe"]));
    }
    assert_eq!(roots.probe_paths("rc.exe"), expected);
    assert_eq!(roots.probe_dirs(), vec![joined(&[ROOT, "Include", "10.0.2"])]);
}

#[test]
fn compiler_directories_are_listed_root_first() {
    let roots = InstalledRoots::new(&registry_output(&["10.0.1", "10.0.2"])).unwrap();
    let mut fs = FileIndex::new();
    fs.add_path(&joined(&[ROOT, "bin", "x64", "rc.exe"]));
    fs.add_path(&joined(&[ROOT, "bin", "10.0.2", "x64", "rc.exe"]));
    fs.add_path(&joined(&[ROOT, "bin", "10.0.1", "x86", "rc.exe"]));
    assert_eq!(
        sdk::get_sdk(&roots, "x86_64", &fs),
        vec![joined(&[ROOT, "bin", "x64"]), joined(&[ROOT, "bin", "10.0.2", "x64"])]
    );
    assert_eq!(
        sdk::get_sdk(&roots, "x86", &fs),
        vec![joined(&[ROOT, "bin", "10.0.1", "x86"])]
    );
    assert_eq!(
        sdk::get_sdk(&roots, "aarch64", &fs),
        vec![joined(&[ROOT, "bin", "10.0.1", "x86"])]
    );
}

#[test]
fn the_file_index_answers_from_what_was_recorded() {
    let mut fs = FileIndex::new();
    assert!(!fs.has_path("a"));
    assert_eq!(fs.read_dir("d"), None);
    fs.add_path("a");
    fs.add_listing("d", vec!["x".to_string()]);
    fs.add_listing("d", vec!["y".to_string()]);
    assert!(fs.has_path("a"));
    assert!(!fs.has_path("b"));
    assert_eq!(fs.read_dir("d"), Some(&vec!["x".to_string()]));
    assert_eq!(fs.read_dir("a"), None);
}

#[test]
fn a_text_map_keeps_the_order_of_first_insertion() {
    let mut map = TextMap::new();
    map.insert("b", "1");
    map.insert("a", "2");
    map.insert("b", "3");
    assert_eq!(map.len(), 2);
    assert_eq!(map.entry(0), Some(("b", "3")));
    assert_eq!(map.entry(1), Some(("a", "2")));
    assert_eq!(map.entry(2), None);
    assert_eq!(map.get("a"), Some("2"));
    assert_eq!(map.get("c"), None);
    assert_eq!(map.find("a"), Some(1));
    assert_eq!(map.clone(), map);
}

#[test]
fn what_is_probed_decides_what_is_found() {
    let roots = InstalledRoots::new(&registry_output(&["10.0.1", "10.0.2"])).unwrap();
    // a disk with more on it than is asked for
    let mut disk = FileIndex::new();
    disk.add_path("C:\\Windows");
    disk.add_path(&joined(&[ROOT, "bin", "10.0.2"]));
    disk.add_path(&joined(&[ROOT, "bin", "10.0.2", "x64", "rc.exe"]));
    disk.add_path(&joined(&[ROOT, "bin", "10.0.2", "x64", "mt.exe"]));
    disk.add_path(&joined(&[ROOT, "bin", "10.0.7"]));
    disk.add_listing("C:\\Windows", vec!["System32".to_string()]);
    disk.add_listing(&joined(&[ROOT, "Include", "10.0.2"]), vec!["um".to_string()]);
    // the record of what was asked for
    let mut record = FileIndex::new();
    for path in roots.probe_paths("rc.exe") {
        if disk.has_path(&path) {
            record.add_path(&path);
        }
    }
    for dir in roots.probe_dirs() {
        if let Some(names) = disk.read_dir(&dir) {
            record.add_listing(&dir, names.clone());
        }
    }
    let from_disk = System::new(roots.clone(), &disk).unwrap();
    let from_record = System::new(roots, &record).unwrap();
    assert_eq!(from_disk, from_record);
    assert_eq!(from_disk.sdks.len(), 1);
    assert_eq!(
        get_sdk(&from_disk, "x86_64", None, &disk),
        get_sdk(&from_record, "x86_64", None, &record)
    );
    assert_eq!(get_sdk(&from_record, "x86_64", None, &record).unwrap().sdk_version, "10.0.2");
}
