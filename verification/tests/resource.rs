use std::path::Path;

use winres::compile::{Action, Command, CompileError, Event, Stage, Toolkit};
use winres::metadata::{apply_metadata, parse_cargo_toml, Item, MetadataStatus};
use winres::resource::Package;
use winres::sdk::{Arch, Tool};
use winres::textmap::TextMap;
use winres::{VersionInfo, WindowsResource};

fn joined(base: &str, part: &str) -> String {
    Path::new(base).join(part).to_str().unwrap().to_string()
}

fn tool() -> Tool {
    let mut include_dirs = TextMap::new();
    include_dirs.insert("um", "C:\\Kits\\Include\\um");
    include_dirs.insert("shared", "C:\\Kits\\Include\\shared");
    Tool {
        sdk_version: "10.0.17763.0".to_string(),
        installed_root: "C:\\Kits".to_string(),
        arch: Arch::X64,
        path: "C:\\Kits\\bin\\x64\\rc.exe".to_string(),
        include_dirs,
        lib_dirs: TextMap::new(),
        bin_dir: "C:\\Kits\\bin\\x64".to_string(),
    }
}

fn package(name: &str, version: &str, description: &str, parts: [&str; 3]) -> Package {
    Package {
        name: name.to_string(),
        version: version.to_string(),
        description: description.to_string(),
        version_major: parts[0].to_string(),
        version_minor: parts[1].to_string(),
        version_patch: parts[2].to_string(),
    }
}

/// A resource whose string properties are all empty.
fn bare() -> WindowsResource {
    WindowsResource::new(&package("", "", "", ["0", "0", "0"]), "", None, tool())
}

const NUMBERS: &str = "FILEOS 0x40004\nFILETYPE 0x1\nFILESUBTYPE 0x0\nFILEFLAGSMASK 0x3f\nFILEFLAGS 0x0\n";

#[test]
fn renders_the_scenario_with_one_string_property() {
    let mut res = bare();
    res.set("InternalName", "TEST.EXE")
        .set_version_info(VersionInfo::FILEVERSION, 0x0001000000000000)
        .set_version_info(VersionInfo::PRODUCTVERSION, 0x0001000000000000);
    let text = res.render();
    let expected = format!(
        "#pragma code_page(65001)\n1 VERSIONINFO\nFILEVERSION 1, 0, 0, 0\nPRODUCTVERSION 1, 0, 0, 0\n{}{{\nBLOCK \"StringFileInfo\"\n{{\nBLOCK \"000004b0\"\n{{\nVALUE \"InternalName\", \"TEST.EXE\"\n}}\n}}\nBLOCK \"VarFileInfo\" {{\nVALUE \"Translation\", 0x0, 0x04b0\n}}\n}}\n",
        NUMBERS
    );
    assert_eq!(text, expected);
    assert_eq!(text.matches("VALUE \"InternalName\", \"TEST.EXE\"").count(), 1);
    assert_eq!(text.lines().filter(|line| line.starts_with("VALUE \"") && !line.contains("Translation")).count(), 1);
    assert!(text.contains("FILEVERSION 1, 0, 0, 0\n"));
    assert!(!text.contains(" 24"));
    assert!(!text.contains("ICON"));
}

#[test]
fn a_package_seeds_the_properties_and_the_version() {
    let res = WindowsResource::new(
        &package("demo", "1.2.3", "A \"demo\"", ["1", "2", "3"]),
        "",
        Some("out"),
        tool(),
    );
    let text = res.render();
    let expected = format!(
        "#pragma code_page(65001)\n1 VERSIONINFO\nFILEVERSION 1, 2, 3, 0\nPRODUCTVERSION 1, 2, 3, 0\n{}{{\nBLOCK \"StringFileInfo\"\n{{\nBLOCK \"000004b0\"\n{{\nVALUE \"FileVersion\", \"1.2.3\"\nVALUE \"ProductVersion\", \"1.2.3\"\nVALUE \"ProductName\", \"demo\"\nVALUE \"FileDescription\", \"A \"\"demo\"\"\"\n}}\n}}\nBLOCK \"VarFileInfo\" {{\nVALUE \"Translation\", 0x0, 0x04b0\n}}\n}}\n",
        NUMBERS
    );
    assert_eq!(text, expected);
    assert_eq!(res.tool_path(), "C:\\Kits\\bin\\x64\\rc.exe");
    assert_eq!(res.include_dirs(), vec!["C:\\Kits\\Include\\um", "C:\\Kits\\Include\\shared"]);
}

#[test]
fn version_parts_that_are_no_numerals_count_as_zero() {
    let res = WindowsResource::new(&package("", "", "", ["x", "", "7-rc"]), "", None, tool());
    assert!(res.render().contains("FILEVERSION 0, 0, 0, 0\nPRODUCTVERSION 0, 0, 0, 0\n"));
    let res = WindowsResource::new(&package("", "", "", ["+4", "65535", "65536"]), "", None, tool());
    assert!(res.render().contains("FILEVERSION 4, 65535, 0, 0\n"));
    let res = WindowsResource::new(&package("", "", "", ["0", "65536", "1"]), "", None, tool());
    assert!(res.render().contains("FILEVERSION 1, 0, 1, 0\n"));
}

#[test]
fn the_package_manifest_overrides_the_seeded_properties() {
    let manifest = "[package]\nname = \"demo\"\n\n[package.metadata.winres]\nOriginalFilename = \"testing.exe\"\nFileDescription = \"⛄❤☕\"\nLegalCopyright = \"Copyright © 2016\"\nBuild = 7\n";
    let res = WindowsResource::new(
        &package("demo", "1.0.0", "described", ["1", "0", "0"]),
        manifest,
        None,
        tool(),
    );
    let text = res.render();
    assert!(text.contains(
        "{\nVALUE \"FileVersion\", \"1.0.0\"\nVALUE \"ProductVersion\", \"1.0.0\"\nVALUE \"ProductName\", \"demo\"\nVALUE \"FileDescription\", \"⛄❤☕\"\nVALUE \"LegalCopyright\", \"Copyright © 2016\"\nVALUE \"OriginalFilename\", \"testing.exe\"\n}\n"
    ));
    assert!(!text.contains("described"));
    assert!(!text.contains("Build"));
}

#[test]
fn reads_the_winres_table_of_a_manifest() {
    let mut props = TextMap::new();
    props.insert("ProductName", "seeded");
    let report = parse_cargo_toml(
        &mut props,
        "[package.metadata.winres]\nProductName = \"named\"\nComments = \"hello\"\nFlag = true\nList = [\"a\"]\n[package.metadata.winres.Nested]\nx = \"y\"\n",
    );
    assert_eq!(report.status, MetadataStatus::Applied);
    assert_eq!(report.skipped, vec!["Flag", "List", "Nested"]);
    assert_eq!(props.len(), 2);
    assert_eq!(props.get("ProductName"), Some("named"));
    assert_eq!(props.get("Comments"), Some("hello"));
    assert_eq!(props.entry(0), Some(("ProductName", "named")));
}

#[test]
fn says_what_a_manifest_lacks() {
    let cases = [
        ("this is = not toml = at all", MetadataStatus::ParseError),
        ("", MetadataStatus::NoPackage),
        ("[dependencies]\ntoml = \"0.5\"\n", MetadataStatus::NoPackage),
        ("package = 3\n", MetadataStatus::NoMetadata),
        ("[package]\nname = \"x\"\n", MetadataStatus::NoMetadata),
        ("[package.metadata]\nother = 1\n", MetadataStatus::NoWinres),
        ("[package.metadata]\nwinres = \"text\"\n", MetadataStatus::NotATable),
        ("[package.metadata.winres]\n", MetadataStatus::Applied),
    ];
    for (text, status) in cases {
        let mut props = TextMap::new();
        props.insert("ProductName", "seeded");
        let report = parse_cargo_toml(&mut props, text);
        assert_eq!(report.status, status, "{:?}", text);
        assert!(report.skipped.is_empty());
        assert_eq!(props.len(), 1);
        assert_eq!(props.get("ProductName"), Some("seeded"));
    }
}

#[test]
fn applies_a_document_that_is_given_as_a_value() {
    let winres = Item::Table(vec![
        ("A".to_string(), Item::Text("1".to_string())),
        ("B".to_string(), Item::Other),
        ("C".to_string(), Item::Table(vec![])),
        ("D".to_string(), Item::Text("".to_string())),
    ]);
    let document = Item::Table(vec![(
        "package".to_string(),
        Item::Table(vec![
            ("name".to_string(), Item::Text("x".to_string())),
            ("metadata".to_string(), Item::Table(vec![("winres".to_string(), winres)])),
        ]),
    )]);
    let mut props = TextMap::new();
    props.insert("D", "kept?");
    let report = apply_metadata(&mut props, Some(&document));
    assert_eq!(report.status, MetadataStatus::Applied);
    assert_eq!(report.skipped, vec!["B", "C"]);
    assert_eq!(props.len(), 2);
    assert_eq!(props.entry(0), Some(("D", "")));
    assert_eq!(props.entry(1), Some(("A", "1")));
    assert_eq!(document.get("package").unwrap().get("name"), Some(&Item::Text("x".to_string())));
    assert_eq!(document.get("missing"), None);
    assert_eq!(Item::Other.get("package"), None);

    let mut untouched = TextMap::new();
    let report = apply_metadata(&mut untouched, None);
    assert_eq!(report.status, MetadataStatus::ParseError);
    assert_eq!(untouched.len(), 0);
    let report = apply_metadata(&mut untouched, Some(&Item::Text("x".to_string())));
    assert_eq!(report.status, MetadataStatus::NoPackage);
}

#[test]
fn an_empty_property_has_no_value_line() {
    let mut res = bare();
    res.set("CompanyName", "ACME").set("Comments", "").set("InternalName", "x");
    let text = res.render();
    assert!(text.contains("{\nVALUE \"CompanyName\", \"ACME\"\nVALUE \"InternalName\", \"x\"\n}\n"));
    assert!(!text.contains("Comments"));
    // emptying a property takes its line out again
    res.set("CompanyName", "");
    let text = res.render();
    assert!(text.contains("{\nVALUE \"InternalName\", \"x\"\n}\n"));
    assert!(!text.contains("CompanyName"));
}

#[test]
fn setting_a_property_again_keeps_its_place() {
    let mut res = bare();
    res.set("B", "1").set("A", "2").set("B", "3");
    assert!(res.render().contains("{\nVALUE \"B\", \"3\"\nVALUE \"A\", \"2\"\n}\n"));
}

#[test]
fn names_and_values_are_escaped() {
    let mut res = bare();
    res.set("Na\"me", "C:\\dir\n'x'\t");
    assert!(res.render().contains("VALUE \"Na\"\"me\", \"C:\\\\dir\\n\\'x\\'\\t\"\n"));
}

#[test]
fn the_language_tags_the_string_table() {
    let mut res = bare();
    res.set_language(0x0409);
    let text = res.render();
    assert!(text.contains("BLOCK \"040904b0\"\n"));
    assert!(text.contains("VALUE \"Translation\", 0x409, 0x04b0\n"));
    res.set_language(0xC07);
    let text = res.render();
    assert!(text.contains("BLOCK \"0c0704b0\"\n"));
    assert!(text.contains("VALUE \"Translation\", 0xc07, 0x04b0\n"));
}

#[test]
fn versions_are_four_words_and_other_fields_hexadecimal() {
    let mut res = bare();
    res.set_version_info(VersionInfo::FILEVERSION, 0x0001_0002_0003_0004)
        .set_version_info(VersionInfo::PRODUCTVERSION, u64::MAX)
        .set_version_info(VersionInfo::FILEOS, 0x40004)
        .set_version_info(VersionInfo::FILETYPE, 2)
        .set_version_info(VersionInfo::FILESUBTYPE, 255)
        .set_version_info(VersionInfo::FILEFLAGSMASK, 0x3F)
        .set_version_info(VersionInfo::FILEFLAGS, 0x28);
    assert!(res.render().starts_with(
        "#pragma code_page(65001)\n1 VERSIONINFO\nFILEVERSION 1, 2, 3, 4\nPRODUCTVERSION 65535, 65535, 65535, 65535\nFILEOS 0x40004\nFILETYPE 0x2\nFILESUBTYPE 0xff\nFILEFLAGSMASK 0x3f\nFILEFLAGS 0x28\n{\n"
    ));
}

#[test]
fn the_icon_has_the_id_one_unless_another_is_set() {
    let mut res = bare();
    res.set_icon("test.ico");
    assert!(res.render().ends_with("}\n}\n1 ICON \"test.ico\"\n"));
    res.set_icon_with_id("C:\\icons\\app.ico", "2");
    assert!(res.render().ends_with("}\n}\n2 ICON \"C:\\\\icons\\\\app.ico\"\n"));
    // the id stays when only the file changes
    res.set_icon("other.ico");
    assert!(res.render().ends_with("}\n}\n2 ICON \"other.ico\"\n"));
}

#[test]
fn an_inline_manifest_is_rendered_line_by_line() {
    let mut res = bare();
    res.set_manifest("\n<assembly xmlns=\"urn:x\">\r\n    <trustInfo level='a'/>  \r\n\n</assembly>\r");
    let text = res.render();
    assert!(text.ends_with(
        "}\n}\n1 24\n{\n\"\"\n\"<assembly xmlns=\"\"urn:x\"\">\"\n\"<trustInfo level=\\'a\\'/>\"\n\"\"\n\"</assembly>\"\n}\n"
    ));
}

#[test]
fn a_manifest_file_is_referenced() {
    let mut res = bare();
    res.set_version_info(VersionInfo::FILETYPE, 2).set_manifest_file("app \"x\".manifest");
    assert!(res.render().ends_with("}\n}\n2 24 \"app \"\"x\"\".manifest\"\n"));
}

#[test]
fn the_manifest_set_last_is_the_only_one() {
    let mut res = bare();
    res.set_manifest_file("file.manifest").set_manifest("inline");
    let text = res.render();
    assert!(text.ends_with("}\n}\n1 24\n{\n\"inline\"\n}\n"));
    assert!(!text.contains("file.manifest"));
    assert_eq!(text.matches(" 24").count(), 1);

    res.set_manifest_file("file.manifest");
    let text = res.render();
    assert!(text.ends_with("}\n}\n1 24 \"file.manifest\"\n"));
    assert!(!text.contains("inline"));
    assert_eq!(text.matches(" 24").count(), 1);
}

#[test]
fn an_empty_manifest_is_an_empty_block() {
    let mut res = bare();
    res.set_manifest("");
    assert!(res.render().ends_with("}\n}\n1 24\n{\n}\n"));
}

fn exited(stage: Stage, success: bool, stdout: &str, stderr: &str) -> Event {
    Event::Exited { stage, success, stdout: stdout.to_string(), stderr: stderr.to_string() }
}

#[test]
fn the_sdk_compiler_runs_once() {
    let mut res = bare();
    res.set_output_directory("out");
    let script = joined("out", "resource.rc");
    let first = res.compile(Toolkit::Msvc, "C:\\project", &Event::Start);
    assert_eq!(first, Action::Write { path: script.clone(), text: res.render() });
    let second = res.compile(Toolkit::Msvc, "C:\\project", &Event::Written);
    assert_eq!(
        second,
        Action::Run {
            stage: Stage::ResourceCompiler,
            command: Command {
                program: "C:\\Kits\\bin\\x64\\rc.exe".to_string(),
                args: vec![
                    "/IC:\\project".to_string(),
                    "/IC:\\Kits\\Include\\um".to_string(),
                    "/IC:\\Kits\\Include\\shared".to_string(),
                    format!("/fo{}", joined("out", "resource.lib")),
                    script,
                ],
                current_dir: None,
                capture: true,
            },
        }
    );
    let third = res.compile(
        Toolkit::Msvc,
        "C:\\project",
        &exited(Stage::ResourceCompiler, true, "fine", "warn"),
    );
    assert_eq!(
        third,
        Action::Finish {
            lines: vec![
                "RC Output:\nfine\n------".to_string(),
                "RC Error:\nwarn\n------".to_string(),
                "cargo:rustc-link-search=native=out".to_string(),
                "cargo:rustc-link-lib=dylib=resource".to_string(),
            ],
        }
    );
}

#[test]
fn a_failing_sdk_compiler_still_shows_what_it_wrote() {
    let res = bare();
    let action = res.compile(
        Toolkit::Msvc,
        "dir",
        &exited(Stage::ResourceCompiler, false, "", "error RC2135"),
    );
    assert_eq!(
        action,
        Action::Fail {
            lines: vec![
                "RC Output:\n\n------".to_string(),
                "RC Error:\nerror RC2135\n------".to_string(),
            ],
            error: CompileError::SubprocessFailed { stage: Stage::ResourceCompiler },
        }
    );
}

#[test]
fn the_gnu_tools_compile_and_then_archive() {
    let mut res = bare();
    res.set_output_directory("out").set_resource_file("given.rc");
    let object = joined("out", "resource.o");
    let first = res.compile(Toolkit::Gnu, "project", &Event::Start);
    assert_eq!(
        first,
        Action::Run {
            stage: Stage::ResourceCompiler,
            command: Command {
                program: "windres.exe".to_string(),
                args: vec!["-Iproject".to_string(), "given.rc".to_string(), object.clone()],
                current_dir: Some("C:\\Kits\\bin\\x64".to_string()),
                capture: false,
            },
        }
    );
    let second = res.compile(Toolkit::Gnu, "project", &exited(Stage::ResourceCompiler, true, "", ""));
    assert_eq!(
        second,
        Action::Run {
            stage: Stage::Archiver,
            command: Command {
                program: "ar.exe".to_string(),
                args: vec!["rsc".to_string(), joined("out", "libresource.a"), object],
                current_dir: Some("C:\\Kits\\bin\\x64".to_string()),
                capture: false,
            },
        }
    );
    let third = res.compile(Toolkit::Gnu, "project", &exited(Stage::Archiver, true, "", ""));
    assert_eq!(
        third,
        Action::Finish {
            lines: vec![
                "cargo:rustc-link-search=native=out".to_string(),
                "cargo:rustc-link-lib=static=resource".to_string(),
            ],
        }
    );
}

#[test]
fn the_paths_of_the_gnu_tools_can_be_set() {
    let mut res = bare();
    res.set_windres_path("/usr/bin/x86_64-w64-mingw32-windres")
        .set_ar_path("/usr/bin/x86_64-w64-mingw32-ar")
        .set_tool(Tool { bin_dir: "/usr/bin".to_string(), ..tool() });
    match res.compile(Toolkit::Gnu, "project", &Event::Written) {
        Action::Run { stage: Stage::ResourceCompiler, command } => {
            assert_eq!(command.program, "/usr/bin/x86_64-w64-mingw32-windres");
            assert_eq!(command.current_dir, Some("/usr/bin".to_string()));
            assert_eq!(command.args[1], joined(".", "resource.rc"));
        }
        other => panic!("{:?}", other),
    }
    match res.compile(Toolkit::Gnu, "project", &exited(Stage::ResourceCompiler, true, "", "")) {
        Action::Run { stage: Stage::Archiver, command } => {
            assert_eq!(command.program, "/usr/bin/x86_64-w64-mingw32-ar");
        }
        other => panic!("{:?}", other),
    }
}

#[test]
fn either_gnu_tool_can_fail() {
    let res = bare();
    for stage in [Stage::ResourceCompiler, Stage::Archiver] {
        assert_eq!(
            res.compile(Toolkit::Gnu, "project", &exited(stage, false, "", "")),
            Action::Fail { lines: vec![], error: CompileError::SubprocessFailed { stage } }
        );
    }
    assert_eq!(
        CompileError::SubprocessFailed { stage: Stage::ResourceCompiler }.message(),
        "Could not compile resource file"
    );
    assert_eq!(
        CompileError::SubprocessFailed { stage: Stage::Archiver }.message(),
        "Could not create static library for resource file"
    );
}

#[test]
fn without_tools_nothing_is_done() {
    let res = bare();
    for event in [Event::Start, Event::Written, exited(Stage::ResourceCompiler, true, "", "")] {
        assert_eq!(
            res.compile(Toolkit::Unsupported, "project", &event),
            Action::Fail { lines: vec![], error: CompileError::UnsupportedToolchain }
        );
        assert_eq!(
            res.compile_with_toolkit(Toolkit::Unsupported, "project", "in.rc", "out", &event),
            Action::Fail { lines: vec![], error: CompileError::UnsupportedToolchain }
        );
    }
    assert_eq!(
        CompileError::UnsupportedToolchain.message(),
        "Can only compile resource file when target_env is \"gnu\" or \"msvc\""
    );
}

#[test]
fn the_target_environment_decides_the_tools() {
    assert_eq!(Toolkit::for_target_env("gnu"), Toolkit::Gnu);
    assert_eq!(Toolkit::for_target_env("msvc"), Toolkit::Msvc);
    assert_eq!(Toolkit::for_target_env(""), Toolkit::Unsupported);
    assert_eq!(Toolkit::for_target_env("musl"), Toolkit::Unsupported);
}

#[test]
fn a_given_script_is_compiled_as_it_is() {
    let mut res = bare();
    res.set_resource_file("C:\\given.rc").set_output_directory("C:\\out");
    match res.compile(Toolkit::Msvc, "project", &Event::Start) {
        Action::Run { stage: Stage::ResourceCompiler, command } => {
            assert_eq!(command.args.last().unwrap(), "C:\\given.rc");
        }
        other => panic!("{:?}", other),
    }
    match res.compile_with_toolkit(Toolkit::Msvc, "project", "a.rc", "b", &Event::Start) {
        Action::Run { command, .. } => {
            assert_eq!(command.args[0], "/Iproject");
            assert_eq!(command.args[3], format!("/fo{}", joined("b", "resource.lib")));
            assert_eq!(command.args[4], "a.rc");
        }
        other => panic!("{:?}", other),
    }
}

#[test]
fn manifest_lines_are_trimmed_as_std_trims() {
    for manifest in [
        "",
        "one",
        "  one  \n\ttwo\t\r\n\u{a0}three\u{3000}\n\n",
        "\r",
        "a\r\r\nb\u{2028}\n \u{85} \n",
        "<a b=\"c\">\r\n  <d e='f'/>\\\r\n</a>",
    ] {
        let mut res = bare();
        res.set_manifest(manifest);
        let mut expected = String::from("1 24\n{\n");
        for line in manifest.lines() {
            expected.push('"');
            expected.push_str(&winres::escape_string(line.trim()));
            expected.push_str("\"\n");
        }
        expected.push_str("}\n");
        let text = res.render();
        assert!(text.ends_with(&format!("}}\n}}\n{}", expected)), "{:?}", manifest);
    }
}
