//! What a resource holds, as mathematical values, and the resource script
//! that is rendered from it.

use vstd::prelude::*;
use crate::escape::escape;
use crate::number::{decimal, hex, hex4};
use crate::sdk::ToolView;
use crate::text::{lines, trim};
use crate::textmap::{lemma_position_is_first, position, put, Entries};
use crate::version::words;

verus! {

/// The numeric fields of a version-info block.
#[derive(PartialEq, Eq, Structural, Hash, Debug, Clone, Copy)]
pub enum VersionInfo {
    /// The file's version: four 16-bit words,
    /// `MAJOR << 48 | MINOR << 32 | PATCH << 16 | RELEASE`.
    FILEVERSION,
    /// The product's version, in the same four words.
    PRODUCTVERSION,
    /// The operating system the file is made for; `0x40004` for Windows NT
    /// Win32.
    FILEOS,
    /// The kind of file: 1 for an application, 2 for a library.
    FILETYPE,
    /// The kind of driver; for drivers only.
    FILESUBTYPE,
    /// The bits of `FILEFLAGS` that count.
    FILEFLAGSMASK,
    /// Flags of the file, as far as `FILEFLAGSMASK` admits them.
    FILEFLAGS,
}

impl VersionInfo {
    /// The name under which the field stands in a resource script.
    pub open spec fn name(self) -> Seq<char> {
        match self {
            VersionInfo::FILEVERSION => "FILEVERSION"@,
            VersionInfo::PRODUCTVERSION => "PRODUCTVERSION"@,
            VersionInfo::FILEOS => "FILEOS"@,
            VersionInfo::FILETYPE => "FILETYPE"@,
            VersionInfo::FILESUBTYPE => "FILESUBTYPE"@,
            VersionInfo::FILEFLAGSMASK => "FILEFLAGSMASK"@,
            VersionInfo::FILEFLAGS => "FILEFLAGS"@,
        }
    }

    /// Whether the field's value is written as four 16-bit words.
    pub open spec fn is_version(self) -> bool {
        self == VersionInfo::FILEVERSION || self == VersionInfo::PRODUCTVERSION
    }

    /// The name under which the field stands in a resource script.
    pub fn as_str(&self) -> (name: &'static str)
        ensures
            name@ == self.name(),
    {
        match self {
            VersionInfo::FILEVERSION => "FILEVERSION",
            VersionInfo::PRODUCTVERSION => "PRODUCTVERSION",
            VersionInfo::FILEOS => "FILEOS",
            VersionInfo::FILETYPE => "FILETYPE",
            VersionInfo::FILESUBTYPE => "FILESUBTYPE",
            VersionInfo::FILEFLAGSMASK => "FILEFLAGSMASK",
            VersionInfo::FILEFLAGS => "FILEFLAGS",
        }
    }
}

/// The line of a version-info block for one field: the two versions as four
/// decimal words, every other field as one hexadecimal number.
pub open spec fn version_line(field: VersionInfo, value: u64) -> Seq<char> {
    if field.is_version() {
        let w = words(value);
        field.name() + " "@ + decimal(w.0 as nat) + ", "@ + decimal(w.1 as nat) + ", "@ + decimal(
            w.2 as nat,
        ) + ", "@ + decimal(w.3 as nat) + "\n"@
    } else {
        field.name() + " "@ + hex(value as nat) + "\n"@
    }
}

/// The line for `field`, if the block has a value for it.
pub open spec fn version_entry(info: Map<VersionInfo, u64>, field: VersionInfo) -> Seq<char> {
    if info.contains_key(field) {
        version_line(field, info[field])
    } else {
        Seq::empty()
    }
}

/// The lines of a version-info block, in the fixed order of the fields.
pub open spec fn version_lines(info: Map<VersionInfo, u64>) -> Seq<char> {
    version_entry(info, VersionInfo::FILEVERSION) + version_entry(info, VersionInfo::PRODUCTVERSION)
        + version_entry(info, VersionInfo::FILEOS) + version_entry(info, VersionInfo::FILETYPE)
        + version_entry(info, VersionInfo::FILESUBTYPE) + version_entry(
        info,
        VersionInfo::FILEFLAGSMASK,
    ) + version_entry(info, VersionInfo::FILEFLAGS)
}

/// The `VALUE` line of one string property; nothing for an empty value.
pub open spec fn value_line(name: Seq<char>, value: Seq<char>) -> Seq<char> {
    if value.len() == 0 {
        Seq::empty()
    } else {
        "VALUE \""@ + escape(name) + "\", \""@ + escape(value) + "\"\n"@
    }
}

/// The `VALUE` lines of the string properties, in their order.
pub open spec fn value_lines(properties: Entries) -> Seq<char>
    decreases properties.len(),
{
    if properties.len() == 0 {
        Seq::empty()
    } else {
        value_lines(properties.drop_last()) + value_line(
            properties.last().0,
            properties.last().1,
        )
    }
}

/// One line of an inline manifest: trimmed, escaped and quoted.
pub open spec fn manifest_line(line: Seq<char>) -> Seq<char> {
    "\""@ + escape(trim(line)) + "\"\n"@
}

/// The quoted lines of an inline manifest.
pub open spec fn manifest_lines(list: Seq<Seq<char>>) -> Seq<char>
    decreases list.len(),
{
    if list.len() == 0 {
        Seq::empty()
    } else {
        manifest_lines(list.drop_last()) + manifest_line(list.last())
    }
}

/// What a `WindowsResource` holds, as mathematical values.
pub struct Descriptor {
    /// The resource compiler that was chosen.
    pub tool: ToolView,
    /// The string properties, in the order in which their names first came.
    pub properties: Entries,
    /// The numeric fields of the version-info block.
    pub version_info: Map<VersionInfo, u64>,
    /// A resource script to compile in place of the rendered one.
    pub rc_file: Option<Seq<char>>,
    /// The resource id of the icon.
    pub icon_id: Option<Seq<char>>,
    /// The path of the icon file.
    pub icon: Option<Seq<char>>,
    /// The language of the resource.
    pub language: u16,
    /// The text of an inline manifest.
    pub manifest: Option<Seq<char>>,
    /// The path of a manifest file.
    pub manifest_file: Option<Seq<char>>,
    /// The directory that receives what is produced.
    pub output_directory: Seq<char>,
    /// The path of `windres`, where it is not the default.
    pub windres_path: Option<Seq<char>>,
    /// The path of `ar`, where it is not the default.
    pub ar_path: Option<Seq<char>>,
}

impl Descriptor {
    /// With the string property `name` set to `value`.
    pub open spec fn set(self, name: Seq<char>, value: Seq<char>) -> Descriptor {
        Descriptor { properties: put(self.properties, name, value), ..self }
    }

    /// With another tool.
    pub open spec fn set_tool(self, tool: ToolView) -> Descriptor {
        Descriptor { tool: tool, ..self }
    }

    /// With another language.
    pub open spec fn set_language(self, language: u16) -> Descriptor {
        Descriptor { language: language, ..self }
    }

    /// With an icon, under the resource id it had.
    pub open spec fn set_icon(self, path: Seq<char>) -> Descriptor {
        Descriptor { icon: Some(path), ..self }
    }

    /// With an icon under the resource id `icon_id`.
    pub open spec fn set_icon_with_id(self, path: Seq<char>, icon_id: Seq<char>) -> Descriptor {
        Descriptor { icon: Some(path), icon_id: Some(icon_id), ..self }
    }

    /// With the numeric field `field` set to `value`.
    pub open spec fn set_version_info(self, field: VersionInfo, value: u64) -> Descriptor {
        Descriptor { version_info: self.version_info.insert(field, value), ..self }
    }

    /// With an inline manifest, and no manifest file.
    pub open spec fn set_manifest(self, manifest: Seq<char>) -> Descriptor {
        Descriptor { manifest: Some(manifest), manifest_file: None, ..self }
    }

    /// With a manifest file, and no inline manifest.
    pub open spec fn set_manifest_file(self, file: Seq<char>) -> Descriptor {
        Descriptor { manifest: None, manifest_file: Some(file), ..self }
    }

    /// With a path for `windres`.
    pub open spec fn set_windres_path(self, path: Seq<char>) -> Descriptor {
        Descriptor { windres_path: Some(path), ..self }
    }

    /// With a path for `ar`.
    pub open spec fn set_ar_path(self, path: Seq<char>) -> Descriptor {
        Descriptor { ar_path: Some(path), ..self }
    }

    /// With a resource script to compile in place of the rendered one.
    pub open spec fn set_resource_file(self, path: Seq<char>) -> Descriptor {
        Descriptor { rc_file: Some(path), ..self }
    }

    /// With another output directory.
    pub open spec fn set_output_directory(self, path: Seq<char>) -> Descriptor {
        Descriptor { output_directory: path, ..self }
    }

    /// The directive that has the script read as UTF-8, and the head of the
    /// version-info block.
    pub open spec fn head() -> Seq<char> {
        "#pragma code_page(65001)\n"@ + "1 VERSIONINFO\n"@
    }

    /// The block of string properties, keyed by language and code page.
    pub open spec fn string_table(self) -> Seq<char> {
        "{\nBLOCK \"StringFileInfo\"\n"@ + "{\nBLOCK \""@ + hex4(self.language) + "04b0\"\n{\n"@
            + value_lines(self.properties) + "}\n}\n"@
    }

    /// The block that names the language and code page of the string table.
    pub open spec fn translation(self) -> Seq<char> {
        "BLOCK \"VarFileInfo\" {\n"@ + "VALUE \"Translation\", "@ + hex(self.language as nat)
            + ", 0x04b0\n"@ + "}\n}\n"@
    }

    /// The resource id of the icon: `1` unless one was set.
    pub open spec fn icon_name(self) -> Seq<char> {
        match self.icon_id {
            Some(id) => id,
            None => "1"@,
        }
    }

    /// The line that binds the icon file to its resource id, if an icon is
    /// set.
    pub open spec fn icon_line(self) -> Seq<char> {
        match self.icon {
            Some(path) => escape(self.icon_name()) + " ICON \""@ + escape(path) + "\"\n"@,
            None => Seq::empty(),
        }
    }

    /// The manifest resource, of type 24 and with the file type as its id:
    /// the quoted lines of the inline manifest, or else a reference to the
    /// manifest file. Nothing without a file type, and nothing without a
    /// manifest.
    pub open spec fn manifest_block(self) -> Seq<char> {
        if self.version_info.contains_key(VersionInfo::FILETYPE) {
            let id = decimal(self.version_info[VersionInfo::FILETYPE] as nat);
            match self.manifest {
                Some(text) => id + " 24\n"@ + "{\n"@ + manifest_lines(lines(text)) + "}\n"@,
                None => match self.manifest_file {
                    Some(file) => id + " 24 \""@ + escape(file) + "\"\n"@,
                    None => Seq::empty(),
                },
            }
        } else {
            Seq::empty()
        }
    }

    /// The resource script.
    pub open spec fn resource_text(self) -> Seq<char> {
        Descriptor::head() + version_lines(self.version_info) + self.string_table()
            + self.translation() + self.icon_line() + self.manifest_block()
    }
}

/// The `VALUE` lines of two lists of properties, one behind the other, are
/// the lines of the first followed by the lines of the second.
pub proof fn lemma_value_lines_concat(a: Entries, b: Entries)
    ensures
        value_lines(a + b) == value_lines(a) + value_lines(b),
    decreases b.len(),
{
    if b.len() == 0 {
        assert(a + b =~= a);
        assert(value_lines(a) + value_lines(b) =~= value_lines(a));
    } else {
        assert((a + b).drop_last() =~= a + b.drop_last());
        assert((a + b).last() == b.last());
        lemma_value_lines_concat(a, b.drop_last());
        assert(value_lines(a + b) =~= value_lines(a) + value_lines(b));
    }
}

/// A string property with an empty value has no `VALUE` line: the lines are
/// those of the properties without it.
pub proof fn lemma_empty_value_omitted(properties: Entries, i: int)
    requires
        0 <= i < properties.len(),
        properties[i].1.len() == 0,
    ensures
        value_lines(properties) == value_lines(properties.remove(i)),
{
    let front = properties.take(i);
    let one = seq![properties[i]];
    let back = properties.skip(i + 1);
    assert(properties =~= (front + one) + back);
    assert(properties.remove(i) =~= front + back);
    lemma_value_lines_concat(front + one, back);
    lemma_value_lines_concat(front, one);
    lemma_value_lines_concat(front, back);
    assert(one.drop_last() =~= Entries::empty());
    assert(value_lines(Entries::empty()) =~= Seq::<char>::empty());
    assert(value_line(one.last().0, one.last().1) =~= Seq::<char>::empty());
    assert(value_lines(one) =~= Seq::<char>::empty());
    assert(value_lines(front) + value_lines(one) =~= value_lines(front));
}

/// Setting a string property to the empty text takes its `VALUE` line out of
/// the resource script, and adds none: the lines are those of the other
/// properties.
pub proof fn lemma_set_empty(descriptor: Descriptor, name: Seq<char>)
    ensures
        value_lines(descriptor.set(name, Seq::empty()).properties) == value_lines(
            match position(descriptor.properties, name) {
                Some(i) => descriptor.properties.remove(i),
                None => descriptor.properties,
            },
        ),
{
    let before = descriptor.properties;
    let after = put(before, name, Seq::empty());
    lemma_position_is_first(before, name);
    match position(before, name) {
        Some(i) => {
            lemma_empty_value_omitted(after, i);
            assert(after.remove(i) =~= before.remove(i));
        },
        None => {
            lemma_empty_value_omitted(after, before.len() as int);
            assert(after.remove(before.len() as int) =~= before);
        },
    }
}

/// Setting a manifest text after a manifest file leaves the text alone, and
/// setting a file after a text leaves the file alone.
pub proof fn lemma_manifest_replaces(descriptor: Descriptor, text: Seq<char>, file: Seq<char>)
    ensures
        descriptor.set_manifest_file(file).set_manifest(text).manifest == Some(text),
        descriptor.set_manifest_file(file).set_manifest(text).manifest_file is None,
        descriptor.set_manifest(text).set_manifest_file(file).manifest_file == Some(file),
        descriptor.set_manifest(text).set_manifest_file(file).manifest is None,
{
}

} // verus!
