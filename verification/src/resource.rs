//! A Windows resource as it is configured: the values that a build gives,
//! the setters, and the rendering of the resource script.

use vstd::prelude::*;
use vstd::string::StringExecFns;
use crate::descriptor::{
    manifest_line, manifest_lines, value_line, value_lines, version_entry, version_line,
    version_lines, Descriptor, VersionInfo,
};
use crate::escape::{push_escaped, push_escaped_range};
use crate::metadata::{parse_cargo_toml, toml_document, with_metadata, Item};
use crate::number::{parse_decimal, parse_u64, push_decimal, push_hex, push_hex4};
use crate::sdk::{Tool, ToolView};
use crate::text::{chars_of, lines, pieces, split_lines, trim_range, within};
use crate::textmap::{put, Entries, TextMap};
use crate::version::{pack_version, packed, version_words};

verus! {

/// What the build system says of the package that is built.
#[derive(Debug, PartialEq, Eq)]
pub struct Package {
    /// The name of the package.
    pub name: String,
    /// The version of the package, in full.
    pub version: String,
    /// The description of the package.
    pub description: String,
    /// The first part of the version, as a decimal numeral.
    pub version_major: String,
    /// The second part of the version, as a decimal numeral.
    pub version_minor: String,
    /// The third part of the version, as a decimal numeral.
    pub version_patch: String,
}

/// What a `Package` holds, as mathematical values.
pub struct PackageView {
    pub name: Seq<char>,
    pub version: Seq<char>,
    pub description: Seq<char>,
    pub version_major: Seq<char>,
    pub version_minor: Seq<char>,
    pub version_patch: Seq<char>,
}

impl View for Package {
    type V = PackageView;

    open spec fn view(&self) -> PackageView {
        PackageView {
            name: self.name@,
            version: self.version@,
            description: self.description@,
            version_major: self.version_major@,
            version_minor: self.version_minor@,
            version_patch: self.version_patch@,
        }
    }
}

/// The number that a part of a version denotes; 0 where it is no numeral.
pub open spec fn version_part(text: Seq<char>) -> u64 {
    match parse_decimal(text) {
        Some(n) => n,
        None => 0,
    }
}

impl PackageView {
    /// The string properties that a package starts with.
    pub open spec fn properties(self) -> Entries {
        put(
            put(
                put(put(Entries::empty(), "FileVersion"@, self.version), "ProductVersion"@, self.version),
                "ProductName"@,
                self.name,
            ),
            "FileDescription"@,
            self.description,
        )
    }

    /// The packed version of the package: its three parts, and 0 as the
    /// fourth word.
    pub open spec fn packed_version(self) -> u64 {
        packed(
            version_part(self.version_major),
            version_part(self.version_minor),
            version_part(self.version_patch),
            0,
        )
    }
}

/// The numeric fields that a resource starts with: both versions as given,
/// Windows NT Win32 as the system, an application as the file type, no
/// subtype, `0x3F` as the mask of the flags, and no flag.
pub open spec fn initial_version_info(version: u64) -> Map<VersionInfo, u64> {
    Map::<VersionInfo, u64>::empty().insert(VersionInfo::FILEVERSION, version).insert(
        VersionInfo::PRODUCTVERSION,
        version,
    ).insert(VersionInfo::FILEOS, 0x00040004).insert(VersionInfo::FILETYPE, 1).insert(
        VersionInfo::FILESUBTYPE,
        0,
    ).insert(VersionInfo::FILEFLAGSMASK, 0x3F).insert(VersionInfo::FILEFLAGS, 0)
}

impl Descriptor {
    /// The description that a package starts with: its name, version and
    /// description as string properties, overridden by the strings that the
    /// package manifest holds in `package.metadata.winres`; the version in
    /// both version fields; the neutral language; no icon, no manifest and
    /// no resource script; the output directory as given, or `.`.
    pub open spec fn initial(
        package: PackageView,
        document: Option<Item>,
        out_dir: Option<Seq<char>>,
        tool: ToolView,
    ) -> Descriptor {
        Descriptor {
            tool: tool,
            properties: with_metadata(package.properties(), document),
            version_info: initial_version_info(package.packed_version()),
            rc_file: None,
            icon_id: None,
            icon: None,
            language: 0,
            manifest: None,
            manifest_file: None,
            output_directory: match out_dir {
                Some(dir) => dir,
                None => "."@,
            },
            windres_path: None,
            ar_path: None,
        }
    }
}

/// The numeric fields that are set, one slot for each.
#[derive(Debug)]
struct VersionTable {
    file_version: Option<u64>,
    product_version: Option<u64>,
    file_os: Option<u64>,
    file_type: Option<u64>,
    file_subtype: Option<u64>,
    file_flags_mask: Option<u64>,
    file_flags: Option<u64>,
}

impl VersionTable {
    spec fn slot(&self, field: VersionInfo) -> Option<u64> {
        match field {
            VersionInfo::FILEVERSION => self.file_version,
            VersionInfo::PRODUCTVERSION => self.product_version,
            VersionInfo::FILEOS => self.file_os,
            VersionInfo::FILETYPE => self.file_type,
            VersionInfo::FILESUBTYPE => self.file_subtype,
            VersionInfo::FILEFLAGSMASK => self.file_flags_mask,
            VersionInfo::FILEFLAGS => self.file_flags,
        }
    }

    spec fn model(&self) -> Map<VersionInfo, u64> {
        Map::new(|field: VersionInfo| self.slot(field) is Some, |field: VersionInfo| self.slot(field).unwrap())
    }

    fn new() -> (table: VersionTable)
        ensures
            table.model() == Map::<VersionInfo, u64>::empty(),
    {
        let table = VersionTable {
            file_version: None,
            product_version: None,
            file_os: None,
            file_type: None,
            file_subtype: None,
            file_flags_mask: None,
            file_flags: None,
        };
        assert(table.model() =~= Map::<VersionInfo, u64>::empty());
        table
    }

    fn get(&self, field: VersionInfo) -> (value: Option<u64>)
        ensures
            value is Some == self.model().contains_key(field),
            value is Some ==> value.unwrap() == self.model()[field],
    {
        match field {
            VersionInfo::FILEVERSION => self.file_version,
            VersionInfo::PRODUCTVERSION => self.product_version,
            VersionInfo::FILEOS => self.file_os,
            VersionInfo::FILETYPE => self.file_type,
            VersionInfo::FILESUBTYPE => self.file_subtype,
            VersionInfo::FILEFLAGSMASK => self.file_flags_mask,
            VersionInfo::FILEFLAGS => self.file_flags,
        }
    }

    fn insert(&mut self, field: VersionInfo, value: u64)
        ensures
            final(self).model() == old(self).model().insert(field, value),
    {
        match field {
            VersionInfo::FILEVERSION => {
                self.file_version = Some(value);
            },
            VersionInfo::PRODUCTVERSION => {
                self.product_version = Some(value);
            },
            VersionInfo::FILEOS => {
                self.file_os = Some(value);
            },
            VersionInfo::FILETYPE => {
                self.file_type = Some(value);
            },
            VersionInfo::FILESUBTYPE => {
                self.file_subtype = Some(value);
            },
            VersionInfo::FILEFLAGSMASK => {
                self.file_flags_mask = Some(value);
            },
            VersionInfo::FILEFLAGS => {
                self.file_flags = Some(value);
            },
        }
        assert(self.model() =~= old(self).model().insert(field, value));
    }
}

/// The manifest of a resource: none, a text, or a file. It is never both.
#[derive(Debug)]
enum Manifest {
    Absent,
    Inline(String),
    File(String),
}

/// The view of an optional text.
pub open spec fn optional_text(text: Option<String>) -> Option<Seq<char>> {
    match text {
        Some(s) => Some(s@),
        None => None,
    }
}

/// A Windows resource: the version information, the icon and the manifest of
/// an executable, and where and with which tools it is compiled.
#[derive(Debug)]
pub struct WindowsResource {
    tool: Tool,
    properties: TextMap,
    version_info: VersionTable,
    rc_file: Option<String>,
    icon_id: Option<String>,
    icon: Option<String>,
    language: u16,
    manifest: Manifest,
    output_directory: String,
    windres_path: Option<String>,
    ar_path: Option<String>,
}

impl View for WindowsResource {
    type V = Descriptor;

    closed spec fn view(&self) -> Descriptor {
        Descriptor {
            tool: self.tool@,
            properties: self.properties@,
            version_info: self.version_info.model(),
            rc_file: optional_text(self.rc_file),
            icon_id: optional_text(self.icon_id),
            icon: optional_text(self.icon),
            language: self.language,
            manifest: match self.manifest {
                Manifest::Inline(text) => Some(text@),
                _ => None,
            },
            manifest_file: match self.manifest {
                Manifest::File(path) => Some(path@),
                _ => None,
            },
            output_directory: self.output_directory@,
            windres_path: optional_text(self.windres_path),
            ar_path: optional_text(self.ar_path),
        }
    }
}

fn push_version_entry(out: &mut String, table: &VersionTable, field: VersionInfo)
    ensures
        final(out)@ == old(out)@ + version_entry(table.model(), field),
{
    match table.get(field) {
        Some(value) => {
            out.append(field.as_str());
            out.append(" ");
            match field {
                VersionInfo::FILEVERSION | VersionInfo::PRODUCTVERSION => {
                    let w = version_words(value);
                    push_decimal(out, w.0 as u64);
                    out.append(", ");
                    push_decimal(out, w.1 as u64);
                    out.append(", ");
                    push_decimal(out, w.2 as u64);
                    out.append(", ");
                    push_decimal(out, w.3 as u64);
                },
                _ => {
                    push_hex(out, value);
                },
            }
            out.append("\n");
            assert(out@ =~= old(out)@ + version_line(field, value));
        },
        None => {
            assert(out@ =~= old(out)@ + Seq::<char>::empty());
        },
    }
}

fn push_version_lines(out: &mut String, table: &VersionTable)
    ensures
        final(out)@ == old(out)@ + version_lines(table.model()),
{
    let ghost info = table.model();
    let ghost start = out@;
    push_version_entry(out, table, VersionInfo::FILEVERSION);
    let ghost mut done = version_entry(info, VersionInfo::FILEVERSION);
    push_version_entry(out, table, VersionInfo::PRODUCTVERSION);
    proof {
        let more = done + version_entry(info, VersionInfo::PRODUCTVERSION);
        assert(out@ =~= start + more);
        done = more;
    }
    push_version_entry(out, table, VersionInfo::FILEOS);
    proof {
        let more = done + version_entry(info, VersionInfo::FILEOS);
        assert(out@ =~= start + more);
        done = more;
    }
    push_version_entry(out, table, VersionInfo::FILETYPE);
    proof {
        let more = done + version_entry(info, VersionInfo::FILETYPE);
        assert(out@ =~= start + more);
        done = more;
    }
    push_version_entry(out, table, VersionInfo::FILESUBTYPE);
    proof {
        let more = done + version_entry(info, VersionInfo::FILESUBTYPE);
        assert(out@ =~= start + more);
        done = more;
    }
    push_version_entry(out, table, VersionInfo::FILEFLAGSMASK);
    proof {
        let more = done + version_entry(info, VersionInfo::FILEFLAGSMASK);
        assert(out@ =~= start + more);
        done = more;
    }
    push_version_entry(out, table, VersionInfo::FILEFLAGS);
    proof {
        let more = done + version_entry(info, VersionInfo::FILEFLAGS);
        assert(out@ =~= start + more);
        done = more;
    }
}

fn push_value_lines(out: &mut String, properties: &TextMap)
    ensures
        final(out)@ == old(out)@ + value_lines(properties@),
{
    let n = properties.len();
    let mut i: usize = 0;
    proof {
        assert(properties@.take(0) =~= Entries::empty());
        assert(out@ + value_lines(properties@.take(0)) =~= out@);
    }
    while i < n
        invariant
            i <= n == properties@.len(),
            out@ == old(out)@ + value_lines(properties@.take(i as int)),
        decreases n - i,
    {
        let ghost before = out@;
        let name = properties.key(i);
        let value = properties.value(i);
        if !value.is_empty() {
            out.append("VALUE \"");
            push_escaped(out, name);
            out.append("\", \"");
            push_escaped(out, value);
            out.append("\"\n");
        }
        proof {
            let next = properties@.take(i + 1);
            assert(next.drop_last() =~= properties@.take(i as int));
            assert(next.last() == properties@[i as int]);
            assert(out@ =~= before + value_line(name@, value@));
            assert(out@ =~= old(out)@ + value_lines(next));
        }
        i += 1;
    }
    proof {
        assert(properties@.take(n as int) =~= properties@);
    }
}

fn push_manifest_lines(out: &mut String, manifest: &str)
    ensures
        final(out)@ == old(out)@ + manifest_lines(lines(manifest@)),
{
    let text = chars_of(manifest);
    let bounds = split_lines(&text);
    let ghost list = lines(manifest@);
    let mut i: usize = 0;
    proof {
        assert(list.take(0) =~= Seq::<Seq<char>>::empty());
        assert(out@ + manifest_lines(list.take(0)) =~= out@);
    }
    while i < bounds.len()
        invariant
            i <= bounds@.len(),
            text@ == manifest@,
            list == lines(manifest@),
            within(bounds@, text@.len()),
            pieces(text@, bounds@) == list,
            out@ == old(out)@ + manifest_lines(list.take(i as int)),
        decreases bounds@.len() - i,
    {
        let ghost before = out@;
        let (from, to) = bounds[i];
        proof {
            assert(bounds@[i as int].0 <= bounds@[i as int].1 <= text@.len());
            assert(list[i as int] == text@.subrange(from as int, to as int));
        }
        let (start, end) = trim_range(&text, from, to);
        out.append("\"");
        push_escaped_range(out, &text, start, end);
        out.append("\"\n");
        proof {
            let next = list.take(i + 1);
            assert(next.drop_last() =~= list.take(i as int));
            assert(next.last() == list[i as int]);
            assert(out@ =~= before + manifest_line(list[i as int]));
            assert(out@ =~= old(out)@ + manifest_lines(next));
        }
        i += 1;
    }
    proof {
        assert(list.take(bounds@.len() as int) =~= list);
    }
}

fn parse_part(text: &str) -> (n: u64)
    ensures
        n == version_part(text@),
{
    match parse_u64(text) {
        Some(n) => n,
        None => 0,
    }
}

impl WindowsResource {
    /// The resource of a package, with the values that the build system
    /// gives.
    ///
    /// | String property   | Value                  |
    /// |-------------------|------------------------|
    /// | `FileVersion`     | the package's version  |
    /// | `ProductVersion`  | the package's version  |
    /// | `ProductName`     | the package's name     |
    /// | `FileDescription` | its description        |
    ///
    /// The strings of the table `package.metadata.winres` in `cargo_toml`,
    /// the text of the package manifest, come on top of these. A text that is
    /// no TOML document, or has no such table, changes nothing.
    ///
    /// | Numeric field    | Value                          |
    /// |------------------|--------------------------------|
    /// | `FILEVERSION`    | the package's version, packed  |
    /// | `PRODUCTVERSION` | the package's version, packed  |
    /// | `FILEOS`         | `0x40004`                      |
    /// | `FILETYPE`       | `1`                            |
    /// | `FILESUBTYPE`    | `0`                            |
    /// | `FILEFLAGSMASK`  | `0x3F`                         |
    /// | `FILEFLAGS`      | `0`                            |
    ///
    /// The language is neutral, and there is no icon and no manifest. What
    /// is produced goes to `out_dir`, or to `.` where none is given.
    pub fn new(package: &Package, cargo_toml: &str, out_dir: Option<&str>, tool: Tool) -> (resource:
        WindowsResource)
        ensures
            resource@ == Descriptor::initial(
                package@,
                toml_document(cargo_toml@),
                match out_dir {
                    Some(dir) => Some(dir@),
                    None => None,
                },
                tool@,
            ),
    {
        let mut properties = TextMap::new();
        properties.insert("FileVersion", package.version.as_str());
        properties.insert("ProductVersion", package.version.as_str());
        properties.insert("ProductName", package.name.as_str());
        properties.insert("FileDescription", package.description.as_str());
        let _ = parse_cargo_toml(&mut properties, cargo_toml);
        let version = pack_version(
            parse_part(package.version_major.as_str()),
            parse_part(package.version_minor.as_str()),
            parse_part(package.version_patch.as_str()),
            0,
        );
        let mut version_info = VersionTable::new();
        version_info.insert(VersionInfo::FILEVERSION, version);
        version_info.insert(VersionInfo::PRODUCTVERSION, version);
        version_info.insert(VersionInfo::FILEOS, 0x00040004);
        version_info.insert(VersionInfo::FILETYPE, 1);
        version_info.insert(VersionInfo::FILESUBTYPE, 0);
        version_info.insert(VersionInfo::FILEFLAGSMASK, 0x3F);
        version_info.insert(VersionInfo::FILEFLAGS, 0);
        let output_directory = match out_dir {
            Some(dir) => dir.to_owned(),
            None => ".".to_owned(),
        };
        WindowsResource {
            tool,
            properties,
            version_info,
            rc_file: None,
            icon_id: None,
            icon: None,
            language: 0,
            manifest: Manifest::Absent,
            output_directory,
            windres_path: None,
            ar_path: None,
        }
    }

    /// Sets a string property of the version information, such as
    /// `FileVersion`, `FileDescription`, `ProductName`, `OriginalFilename`,
    /// `LegalCopyright`, `CompanyName`, `Comments` or `InternalName`. Any
    /// name is accepted. A property with an empty value is left out of the
    /// resource script.
    pub fn set(&mut self, name: &str, value: &str) -> (ret: &mut Self)
        ensures
            ret@ == old(self)@.set(name@, value@),
            *final(self) == *final(ret),
    {
        self.properties.insert(name, value);
        self
    }

    /// Sets the resource compiler to use.
    pub fn set_tool(&mut self, tool: Tool) -> (ret: &mut Self)
        ensures
            ret@ == old(self)@.set_tool(tool@),
            *final(self) == *final(ret),
    {
        self.tool = tool;
        self
    }

    /// Sets the user-interface language of the file, as a Windows language
    /// identifier: `0x0000` is neutral, `0x0409` English (US), `0x0407`
    /// German.
    pub fn set_language(&mut self, language: u16) -> (ret: &mut Self)
        ensures
            ret@ == old(self)@.set_language(language),
            *final(self) == *final(ret),
    {
        self.language = language;
        self
    }

    /// Sets the icon file. The resource id stays as it was.
    pub fn set_icon(&mut self, path: &str) -> (ret: &mut Self)
        ensures
            ret@ == old(self)@.set_icon(path@),
            *final(self) == *final(ret),
    {
        self.icon = Some(path.to_owned());
        self
    }

    /// Sets the icon file and its resource id.
    pub fn set_icon_with_id(&mut self, path: &str, icon_id: &str) -> (ret: &mut Self)
        ensures
            ret@ == old(self)@.set_icon_with_id(path@, icon_id@),
            *final(self) == *final(ret),
    {
        self.icon = Some(path.to_owned());
        self.icon_id = Some(icon_id.to_owned());
        self
    }

    /// Sets a numeric field of the version information.
    pub fn set_version_info(&mut self, field: VersionInfo, value: u64) -> (ret: &mut Self)
        ensures
            ret@ == old(self)@.set_version_info(field, value),
            *final(self) == *final(ret),
    {
        self.version_info.insert(field, value);
        self
    }

    /// Sets the text of the manifest to embed. A manifest file that was set
    /// is forgotten.
    pub fn set_manifest(&mut self, manifest: &str) -> (ret: &mut Self)
        ensures
            ret@ == old(self)@.set_manifest(manifest@),
            *final(self) == *final(ret),
    {
        self.manifest = Manifest::Inline(manifest.to_owned());
        self
    }

    /// Sets the file that holds the manifest to embed. A manifest text that
    /// was set is forgotten.
    pub fn set_manifest_file(&mut self, file: &str) -> (ret: &mut Self)
        ensures
            ret@ == old(self)@.set_manifest_file(file@),
            *final(self) == *final(ret),
    {
        self.manifest = Manifest::File(file.to_owned());
        self
    }

    /// Sets the path of the `windres` executable.
    pub fn set_windres_path(&mut self, path: &str) -> (ret: &mut Self)
        ensures
            ret@ == old(self)@.set_windres_path(path@),
            *final(self) == *final(ret),
    {
        self.windres_path = Some(path.to_owned());
        self
    }

    /// Sets the path of the `ar` executable.
    pub fn set_ar_path(&mut self, path: &str) -> (ret: &mut Self)
        ensures
            ret@ == old(self)@.set_ar_path(path@),
            *final(self) == *final(ret),
    {
        self.ar_path = Some(path.to_owned());
        self
    }

    /// Sets the path of a resource script that exists already. It is
    /// compiled in place of the rendered script, and is neither read nor
    /// changed here.
    pub fn set_resource_file(&mut self, path: &str) -> (ret: &mut Self)
        ensures
            ret@ == old(self)@.set_resource_file(path@),
            *final(self) == *final(ret),
    {
        self.rc_file = Some(path.to_owned());
        self
    }

    /// Sets the directory that receives what is produced.
    pub fn set_output_directory(&mut self, path: &str) -> (ret: &mut Self)
        ensures
            ret@ == old(self)@.set_output_directory(path@),
            *final(self) == *final(ret),
    {
        self.output_directory = path.to_owned();
        self
    }

    /// The path of the resource compiler.
    pub fn tool_path(&self) -> (path: &str)
        ensures
            path@ == self@.tool.path,
    {
        self.tool.path.as_str()
    }

    /// The directory that holds the resource compiler.
    pub(crate) fn tool_bin_dir(&self) -> (dir: &str)
        ensures
            dir@ == self@.tool.bin_dir,
    {
        self.tool.bin_dir.as_str()
    }

    /// The include directories of the resource compiler's SDK, by name.
    pub(crate) fn tool_include_dirs(&self) -> (dirs: &TextMap)
        ensures
            dirs@ == self@.tool.include_dirs,
    {
        &self.tool.include_dirs
    }

    /// The path of `windres`, if one was set.
    pub(crate) fn windres(&self) -> (path: Option<&str>)
        ensures
            match path {
                Some(text) => self@.windres_path == Some(text@),
                None => self@.windres_path is None,
            },
    {
        match &self.windres_path {
            Some(path) => Some(path.as_str()),
            None => None,
        }
    }

    /// The path of `ar`, if one was set.
    pub(crate) fn ar(&self) -> (path: Option<&str>)
        ensures
            match path {
                Some(text) => self@.ar_path == Some(text@),
                None => self@.ar_path is None,
            },
    {
        match &self.ar_path {
            Some(path) => Some(path.as_str()),
            None => None,
        }
    }

    /// The resource script that was set, if one was.
    pub(crate) fn resource_file(&self) -> (path: Option<&str>)
        ensures
            match path {
                Some(text) => self@.rc_file == Some(text@),
                None => self@.rc_file is None,
            },
    {
        match &self.rc_file {
            Some(path) => Some(path.as_str()),
            None => None,
        }
    }

    /// The directory that receives what is produced.
    pub(crate) fn output_dir(&self) -> (dir: &str)
        ensures
            dir@ == self@.output_directory,
    {
        self.output_directory.as_str()
    }

    fn push_string_table(&self, out: &mut String)
        ensures
            final(out)@ == old(out)@ + self@.string_table(),
    {
        out.append("{\nBLOCK \"StringFileInfo\"\n");
        out.append("{\nBLOCK \"");
        push_hex4(out, self.language);
        out.append("04b0\"\n{\n");
        push_value_lines(out, &self.properties);
        out.append("}\n}\n");
        assert(out@ =~= old(out)@ + self@.string_table());
    }

    fn push_translation(&self, out: &mut String)
        ensures
            final(out)@ == old(out)@ + self@.translation(),
    {
        out.append("BLOCK \"VarFileInfo\" {\n");
        out.append("VALUE \"Translation\", ");
        push_hex(out, self.language as u64);
        out.append(", 0x04b0\n");
        out.append("}\n}\n");
        assert(out@ =~= old(out)@ + self@.translation());
    }

    fn push_icon_line(&self, out: &mut String)
        ensures
            final(out)@ == old(out)@ + self@.icon_line(),
    {
        match &self.icon {
            Some(path) => {
                match &self.icon_id {
                    Some(id) => {
                        push_escaped(out, id.as_str());
                    },
                    None => {
                        push_escaped(out, "1");
                    },
                }
                out.append(" ICON \"");
                push_escaped(out, path.as_str());
                out.append("\"\n");
                assert(out@ =~= old(out)@ + self@.icon_line());
            },
            None => {
                assert(out@ =~= old(out)@ + self@.icon_line());
            },
        }
    }

    fn push_manifest_block(&self, out: &mut String)
        ensures
            final(out)@ == old(out)@ + self@.manifest_block(),
    {
        match self.version_info.get(VersionInfo::FILETYPE) {
            Some(file_type) => {
                match &self.manifest {
                    Manifest::Inline(text) => {
                        push_decimal(out, file_type);
                        out.append(" 24\n");
                        out.append("{\n");
                        push_manifest_lines(out, text.as_str());
                        out.append("}\n");
                        assert(out@ =~= old(out)@ + self@.manifest_block());
                    },
                    Manifest::File(path) => {
                        push_decimal(out, file_type);
                        out.append(" 24 \"");
                        push_escaped(out, path.as_str());
                        out.append("\"\n");
                        assert(out@ =~= old(out)@ + self@.manifest_block());
                    },
                    Manifest::Absent => {
                        assert(out@ =~= old(out)@ + self@.manifest_block());
                    },
                }
            },
            None => {
                assert(out@ =~= old(out)@ + self@.manifest_block());
            },
        }
    }

    /// Renders the resource script: the version-info block with its string
    /// table, the icon, and the manifest.
    pub fn render(&self) -> (script: String)
        ensures
            script@ == self@.resource_text(),
    {
        let mut out = String::new();
        out.append("#pragma code_page(65001)\n");
        out.append("1 VERSIONINFO\n");
        assert(out@ =~= Descriptor::head());
        push_version_lines(&mut out, &self.version_info);
        self.push_string_table(&mut out);
        self.push_translation(&mut out);
        self.push_icon_line(&mut out);
        self.push_manifest_block(&mut out);
        out
    }
}

/// No resource has a manifest text and a manifest file at once, so its
/// resource script holds at most one manifest: the quoted lines of the text,
/// or else the reference to the file.
pub proof fn lemma_one_manifest(resource: WindowsResource)
    ensures
        !(resource@.manifest is Some && resource@.manifest_file is Some),
{
}

} // verus!
