//! The Windows SDKs installed on a host: where they are, which versions and
//! architectures they hold, and the tools found in them.

use vstd::prelude::*;
use crate::files::{FileIndex, FileIndexView};
use crate::text::texts;
use crate::path::{join, path_join};
use crate::registry::{DiscoveryFault, InstalledRootsView};
pub use crate::registry::{DiscoveryError, InstalledRoots, KitsRoot, INSTALLED_ROOTS_KEY};
use crate::textmap::{put, Entries, TextMap};

verus! {

/// A processor architecture that an SDK holds tools for.
#[derive(PartialEq, Eq, Structural, Debug, Copy, Clone, Hash)]
pub enum Arch {
    Arm,
    Arm64,
    X64,
    X86,
}

impl Arch {
    /// The architecture of the SDK tools for a Rust target architecture:
    /// `X64` for `x86_64`, `X86` for `x86`, none for any other.
    pub open spec fn for_target(target_arch: Seq<char>) -> Option<Arch> {
        if target_arch == "x86_64"@ {
            Some(Arch::X64)
        } else if target_arch == "x86"@ {
            Some(Arch::X86)
        } else {
            None
        }
    }

    /// The architecture of the SDK tools that serve the target architecture
    /// the build is made for.
    pub fn arch_for_cfg_target(target_arch: &str) -> (arch: Option<Arch>)
        ensures
            arch == Arch::for_target(target_arch@),
    {
        let target = target_arch.to_owned();
        if target == "x86_64".to_owned() {
            Some(Arch::X64)
        } else if target == "x86".to_owned() {
            Some(Arch::X86)
        } else {
            None
        }
    }

    /// The name of the directory that holds this architecture's tools.
    pub open spec fn dir(self) -> Seq<char> {
        match self {
            Arch::Arm => "arm"@,
            Arch::Arm64 => "arm64"@,
            Arch::X64 => "x64"@,
            Arch::X86 => "x86"@,
        }
    }

    /// The architecture in words: the name of its directory.
    pub fn to_string(&self) -> (text: String)
        ensures
            text@ == self.dir(),
    {
        self.dirname().to_owned()
    }

    /// The name of the directory that holds this architecture's tools.
    pub fn dirname(&self) -> (name: &'static str)
        ensures
            name@ == self.dir(),
    {
        match self {
            Arch::Arm => "arm",
            Arch::Arm64 => "arm64",
            Arch::X64 => "x64",
            Arch::X86 => "x86",
        }
    }
}

/// What a `Tool` holds, as mathematical values.
pub struct ToolView {
    pub sdk_version: Seq<char>,
    pub installed_root: Seq<char>,
    pub arch: Arch,
    pub path: Seq<char>,
    pub include_dirs: Entries,
    pub lib_dirs: Entries,
    pub bin_dir: Seq<char>,
}

/// A tool of an SDK, resolved to the file that runs it, with what the SDK
/// offers to a run of it.
#[derive(Debug, PartialEq)]
pub struct Tool {
    /// The version of the SDK that the tool belongs to.
    pub sdk_version: String,
    /// The directory under which that SDK is installed.
    pub installed_root: String,
    /// The architecture that the tool runs on.
    pub arch: Arch,
    /// The path of the executable.
    pub path: String,
    /// The SDK's include directories, by name.
    pub include_dirs: TextMap,
    /// The SDK's library directories, by name.
    pub lib_dirs: TextMap,
    /// The directory that holds the executable.
    pub bin_dir: String,
}

impl View for Tool {
    type V = ToolView;

    open spec fn view(&self) -> ToolView {
        ToolView {
            sdk_version: self.sdk_version@,
            installed_root: self.installed_root@,
            arch: self.arch,
            path: self.path@,
            include_dirs: self.include_dirs@,
            lib_dirs: self.lib_dirs@,
            bin_dir: self.bin_dir@,
        }
    }
}

impl Clone for Tool {
    fn clone(&self) -> (copy: Tool)
        ensures
            copy@ == self@,
    {
        Tool {
            sdk_version: self.sdk_version.clone(),
            installed_root: self.installed_root.clone(),
            arch: self.arch,
            path: self.path.clone(),
            include_dirs: self.include_dirs.clone(),
            lib_dirs: self.lib_dirs.clone(),
            bin_dir: self.bin_dir.clone(),
        }
    }
}

/// A tool by name, for one architecture.
pub struct ToolRef {
    pub arch: Arch,
    pub name: String,
}

/// What an `SdkArch` holds, as mathematical values.
pub struct SdkArchView {
    pub bin_dir: Seq<char>,
    pub include_dirs: Entries,
    pub lib_dirs: Entries,
}

/// The part of an SDK that serves one architecture: the directory of its
/// tools, and the SDK's include and library directories by name.
#[derive(Debug, PartialEq)]
pub struct SdkArch {
    pub bin_dir: String,
    pub include_dirs: TextMap,
    pub lib_dirs: TextMap,
}

impl View for SdkArch {
    type V = SdkArchView;

    open spec fn view(&self) -> SdkArchView {
        SdkArchView {
            bin_dir: self.bin_dir@,
            include_dirs: self.include_dirs@,
            lib_dirs: self.lib_dirs@,
        }
    }
}

impl Clone for SdkArch {
    fn clone(&self) -> (copy: SdkArch)
        ensures
            copy@ == self@,
    {
        SdkArch {
            bin_dir: self.bin_dir.clone(),
            include_dirs: self.include_dirs.clone(),
            lib_dirs: self.lib_dirs.clone(),
        }
    }
}

impl SdkArch {
    /// A toolset in `bin_dir` that knows no include or library directory
    /// yet.
    pub fn new(bin_dir: String) -> (toolset: SdkArch)
        ensures
            toolset@ == (SdkArchView {
                bin_dir: bin_dir@,
                include_dirs: Entries::empty(),
                lib_dirs: Entries::empty(),
            }),
    {
        SdkArch { bin_dir: bin_dir, include_dirs: TextMap::new(), lib_dirs: TextMap::new() }
    }
}

/// The toolsets of an SDK, by architecture.
#[derive(Debug, PartialEq)]
pub struct ArchMap {
    arm: Option<SdkArch>,
    arm64: Option<SdkArch>,
    x64: Option<SdkArch>,
    x86: Option<SdkArch>,
}

impl ArchMap {
    spec fn slot(&self, arch: Arch) -> Option<SdkArch> {
        match arch {
            Arch::Arm => self.arm,
            Arch::Arm64 => self.arm64,
            Arch::X64 => self.x64,
            Arch::X86 => self.x86,
        }
    }
}

impl View for ArchMap {
    type V = Map<Arch, SdkArchView>;

    closed spec fn view(&self) -> Map<Arch, SdkArchView> {
        Map::new(|arch: Arch| self.slot(arch) is Some, |arch: Arch| self.slot(arch).unwrap()@)
    }
}

impl Clone for ArchMap {
    fn clone(&self) -> (copy: ArchMap)
        ensures
            copy@ == self@,
    {
        let copy = ArchMap {
            arm: match &self.arm {
                Some(toolset) => Some(toolset.clone()),
                None => None,
            },
            arm64: match &self.arm64 {
                Some(toolset) => Some(toolset.clone()),
                None => None,
            },
            x64: match &self.x64 {
                Some(toolset) => Some(toolset.clone()),
                None => None,
            },
            x86: match &self.x86 {
                Some(toolset) => Some(toolset.clone()),
                None => None,
            },
        };
        assert(copy@ =~= self@);
        copy
    }
}

impl ArchMap {
    /// A map without toolsets.
    pub fn new() -> (map: ArchMap)
        ensures
            map@ == Map::<Arch, SdkArchView>::empty(),
    {
        let map = ArchMap { arm: None, arm64: None, x64: None, x86: None };
        assert(map@ =~= Map::<Arch, SdkArchView>::empty());
        map
    }

    /// The toolset for `arch`.
    pub fn get(&self, arch: Arch) -> (toolset: Option<&SdkArch>)
        ensures
            toolset is Some == self@.contains_key(arch),
            toolset is Some ==> toolset.unwrap()@ == self@[arch],
    {
        match arch {
            Arch::Arm => self.arm.as_ref(),
            Arch::Arm64 => self.arm64.as_ref(),
            Arch::X64 => self.x64.as_ref(),
            Arch::X86 => self.x86.as_ref(),
        }
    }

    /// Puts `toolset` under `arch`, in place of what was there.
    pub fn insert(&mut self, arch: Arch, toolset: SdkArch)
        ensures
            final(self)@ == old(self)@.insert(arch, toolset@),
    {
        match arch {
            Arch::Arm => {
                self.arm = Some(toolset);
            },
            Arch::Arm64 => {
                self.arm64 = Some(toolset);
            },
            Arch::X64 => {
                self.x64 = Some(toolset);
            },
            Arch::X86 => {
                self.x86 = Some(toolset);
            },
        }
        assert(self@ =~= old(self)@.insert(arch, toolset@));
    }
}

/// The directory of the tools of the SDK `version` under `root`.
pub open spec fn bin_root(root: Seq<char>, version: Seq<char>) -> Seq<char> {
    path_join(path_join(root, "bin"@), version)
}

/// The directory of the libraries of the SDK `version` under `root`.
pub open spec fn lib_root(root: Seq<char>, version: Seq<char>) -> Seq<char> {
    path_join(path_join(root, "Lib"@), version)
}

/// The directory of the headers of the SDK `version` under `root`.
pub open spec fn include_root(root: Seq<char>, version: Seq<char>) -> Seq<char> {
    path_join(path_join(root, "Include"@), version)
}

/// The entries of the directory `dir`, each name with its path. Of two
/// entries with one name the later one counts.
pub open spec fn named_dirs(dir: Seq<char>, names: Seq<Seq<char>>) -> Entries
    decreases names.len(),
{
    if names.len() == 0 {
        Entries::empty()
    } else {
        put(named_dirs(dir, names.drop_last()), names.last(), path_join(dir, names.last()))
    }
}

/// The toolset of one architecture in the SDK `version` under `root`.
pub open spec fn toolset(
    root: Seq<char>,
    version: Seq<char>,
    arch: Arch,
    include_dirs: Entries,
) -> SdkArchView {
    SdkArchView {
        bin_dir: path_join(bin_root(root, version), arch.dir()),
        include_dirs: include_dirs,
        lib_dirs: Entries::empty(),
    }
}

/// What an `Sdk` holds, as mathematical values.
pub struct SdkView {
    pub version: Seq<char>,
    pub installed_root: Seq<char>,
    pub sdk_archs: Map<Arch, SdkArchView>,
}

/// The SDK `version` under `root` as it is found on disk: a toolset for each
/// of the four architectures, all with the include directories that the
/// SDK's include root lists. An include root that cannot be read is an
/// error.
pub open spec fn sdk_model(version: Seq<char>, root: Seq<char>, fs: FileIndexView) -> Result<
    SdkView,
    DiscoveryFault,
> {
    let dir = include_root(root, version);
    match fs.read_dir(dir) {
        None => Err(DiscoveryFault::UnreadableDirectory { path: dir }),
        Some(names) => {
            let include_dirs = named_dirs(dir, names);
            Ok(
                SdkView {
                    version: version,
                    installed_root: root,
                    sdk_archs: Map::<Arch, SdkArchView>::empty().insert(
                        Arch::Arm,
                        toolset(root, version, Arch::Arm, include_dirs),
                    ).insert(Arch::Arm64, toolset(root, version, Arch::Arm64, include_dirs)).insert(
                        Arch::X86,
                        toolset(root, version, Arch::X86, include_dirs),
                    ).insert(Arch::X64, toolset(root, version, Arch::X64, include_dirs)),
                },
            )
        },
    }
}

impl SdkView {
    /// The tool `name` for `arch`: in the directory of that architecture's
    /// tools, if the file is there.
    pub open spec fn tool(self, name: Seq<char>, arch: Arch, fs: FileIndexView) -> Option<ToolView> {
        if self.sdk_archs.contains_key(arch) {
            let found = self.sdk_archs[arch];
            let path = path_join(found.bin_dir, name);
            if fs.has_path(path) {
                Some(
                    ToolView {
                        sdk_version: self.version,
                        installed_root: self.installed_root,
                        arch: arch,
                        path: path,
                        include_dirs: found.include_dirs,
                        lib_dirs: found.lib_dirs,
                        bin_dir: found.bin_dir,
                    },
                )
            } else {
                None
            }
        } else {
            None
        }
    }
}

/// One version of the Windows SDK, installed under one root.
#[derive(Debug, PartialEq)]
pub struct Sdk {
    pub version: String,
    pub installed_root: String,
    pub sdk_archs: ArchMap,
}

impl View for Sdk {
    type V = SdkView;

    open spec fn view(&self) -> SdkView {
        SdkView {
            version: self.version@,
            installed_root: self.installed_root@,
            sdk_archs: self.sdk_archs@,
        }
    }
}

impl Clone for Sdk {
    fn clone(&self) -> (copy: Sdk)
        ensures
            copy@ == self@,
    {
        Sdk {
            version: self.version.clone(),
            installed_root: self.installed_root.clone(),
            sdk_archs: self.sdk_archs.clone(),
        }
    }
}

impl Sdk {
    /// The SDK `version` under `installed_root`, with a toolset for each
    /// architecture. Fails where the SDK's include root cannot be read.
    pub fn new(version: String, installed_root: String, fs: &FileIndex) -> (result: Result<
        Sdk,
        DiscoveryError,
    >)
        ensures
            match result {
                Ok(sdk) => sdk_model(version@, installed_root@, fs@) == Ok::<SdkView, DiscoveryFault>(
                    sdk@,
                ),
                Err(error) => sdk_model(version@, installed_root@, fs@) == Err::<
                    SdkView,
                    DiscoveryFault,
                >(error@),
            },
    {
        let mut sdk = Sdk {
            version: version,
            installed_root: installed_root,
            sdk_archs: ArchMap::new(),
        };
        match sdk.load_archs(fs) {
            Ok(()) => Ok(sdk),
            Err(error) => Err(error),
        }
    }

    /// The tool `name` for `arch`, if its file exists.
    pub fn tool(&self, name: &str, arch: Arch, fs: &FileIndex) -> (tool: Option<Tool>)
        ensures
            match tool {
                Some(found) => self@.tool(name@, arch, fs@) == Some(found@),
                None => self@.tool(name@, arch, fs@) is None,
            },
    {
        match self.sdk_archs.get(arch) {
            Some(sdk_arch) => {
                let path = join(sdk_arch.bin_dir.as_str(), name);
                if fs.has_path(path.as_str()) {
                    Some(
                        Tool {
                            sdk_version: self.version.clone(),
                            installed_root: self.installed_root.clone(),
                            arch: arch,
                            path: path,
                            include_dirs: sdk_arch.include_dirs.clone(),
                            lib_dirs: sdk_arch.lib_dirs.clone(),
                            bin_dir: sdk_arch.bin_dir.clone(),
                        },
                    )
                } else {
                    None
                }
            },
            None => None,
        }
    }

    /// Whether the SDK `version` is installed under `installed_root`: whether
    /// the directory of its tools exists.
    pub fn is_present(version: &str, installed_root: &str, fs: &FileIndex) -> (present: bool)
        ensures
            present == fs@.has_path(bin_root(installed_root@, version@)),
    {
        let bin = join(installed_root, "bin");
        let dir = join(bin.as_str(), version);
        fs.has_path(dir.as_str())
    }

    /// The directory of this SDK's tools.
    pub fn bin_root_dir(&self) -> (dir: String)
        ensures
            dir@ == bin_root(self@.installed_root, self@.version),
    {
        let bin = join(self.installed_root.as_str(), "bin");
        join(bin.as_str(), self.version.as_str())
    }

    /// The directory of this SDK's libraries.
    pub fn lib_root_dir(&self) -> (dir: String)
        ensures
            dir@ == lib_root(self@.installed_root, self@.version),
    {
        let lib = join(self.installed_root.as_str(), "Lib");
        join(lib.as_str(), self.version.as_str())
    }

    /// The directory of this SDK's headers.
    pub fn include_root_dir(&self) -> (dir: String)
        ensures
            dir@ == include_root(self@.installed_root, self@.version),
    {
        let headers = join(self.installed_root.as_str(), "Include");
        join(headers.as_str(), self.version.as_str())
    }

    /// The include directories of this SDK: the entries of its include root,
    /// each under its name.
    fn load_include_dirs(&self, fs: &FileIndex) -> (result: Result<TextMap, DiscoveryError>)
        ensures
            match result {
                Ok(dirs) => fs@.read_dir(include_root(self@.installed_root, self@.version))
                    matches Some(names) && dirs@ == named_dirs(
                    include_root(self@.installed_root, self@.version),
                    names,
                ),
                Err(error) => fs@.read_dir(include_root(self@.installed_root, self@.version))
                    is None && error@ == (DiscoveryFault::UnreadableDirectory {
                    path: include_root(self@.installed_root, self@.version),
                }),
            },
    {
        let dir = self.include_root_dir();
        match fs.read_dir(dir.as_str()) {
            None => Err(DiscoveryError::UnreadableDirectory { path: dir }),
            Some(names) => {
                let mut dirs = TextMap::new();
                let mut i: usize = 0;
                proof {
                    assert(texts(names@).take(0) =~= Seq::<Seq<char>>::empty());
                }
                while i < names.len()
                    invariant
                        i <= names@.len(),
                        dirs@ == named_dirs(dir@, texts(names@).take(i as int)),
                    decreases names@.len() - i,
                {
                    let path = join(dir.as_str(), names[i].as_str());
                    dirs.insert(names[i].as_str(), path.as_str());
                    proof {
                        let next = texts(names@).take(i + 1);
                        assert(next.drop_last() =~= texts(names@).take(i as int));
                        assert(next.last() == names@[i as int]@);
                    }
                    i += 1;
                }
                proof {
                    assert(texts(names@).take(names@.len() as int) =~= texts(names@));
                }
                Ok(dirs)
            },
        }
    }

    /// The toolset of this SDK for `arch`.
    pub fn sdk_arch(&self, arch: &Arch) -> (found: Option<&SdkArch>)
        ensures
            found is Some == self@.sdk_archs.contains_key(*arch),
            found is Some ==> found.unwrap()@ == self@.sdk_archs[*arch],
    {
        self.sdk_archs.get(*arch)
    }

    /// Whether this SDK has the tool `tool` for `arch`.
    pub fn has_tool(&self, arch: &Arch, tool: &str, fs: &FileIndex) -> (found: bool)
        ensures
            found == self@.tool(tool@, *arch, fs@) is Some,
    {
        match self.sdk_arch(arch) {
            Some(sdk_arch) => {
                let path = join(sdk_arch.bin_dir.as_str(), tool);
                fs.has_path(path.as_str())
            },
            None => false,
        }
    }

    /// Loads the toolsets of the four architectures.
    fn load_archs(&mut self, fs: &FileIndex) -> (result: Result<(), DiscoveryError>)
        requires
            old(self)@.sdk_archs == Map::<Arch, SdkArchView>::empty(),
        ensures
            match result {
                Ok(_) => sdk_model(old(self)@.version, old(self)@.installed_root, fs@) == Ok::<
                    SdkView,
                    DiscoveryFault,
                >(final(self)@),
                Err(error) => sdk_model(old(self)@.version, old(self)@.installed_root, fs@) == Err::<
                    SdkView,
                    DiscoveryFault,
                >(error@),
            },
    {
        match self.load_arch(Arch::Arm, fs) {
            Ok(()) => {},
            Err(error) => {
                return Err(error);
            },
        }
        match self.load_arch(Arch::Arm64, fs) {
            Ok(()) => {},
            Err(error) => {
                return Err(error);
            },
        }
        match self.load_arch(Arch::X86, fs) {
            Ok(()) => {},
            Err(error) => {
                return Err(error);
            },
        }
        match self.load_arch(Arch::X64, fs) {
            Ok(()) => {},
            Err(error) => {
                return Err(error);
            },
        }
        Ok(())
    }

    /// Loads the toolset of one architecture.
    fn load_arch(&mut self, arch: Arch, fs: &FileIndex) -> (result: Result<(), DiscoveryError>)
        ensures
            final(self)@.version == old(self)@.version,
            final(self)@.installed_root == old(self)@.installed_root,
            match result {
                Ok(_) => fs@.read_dir(include_root(old(self)@.installed_root, old(self)@.version))
                    matches Some(names) && final(self)@.sdk_archs == old(self)@.sdk_archs.insert(
                    arch,
                    toolset(
                        old(self)@.installed_root,
                        old(self)@.version,
                        arch,
                        named_dirs(include_root(old(self)@.installed_root, old(self)@.version), names),
                    ),
                ),
                Err(error) => fs@.read_dir(include_root(old(self)@.installed_root, old(self)@.version))
                    is None && error@ == (DiscoveryFault::UnreadableDirectory {
                    path: include_root(old(self)@.installed_root, old(self)@.version),
                }) && final(self)@.sdk_archs == old(self)@.sdk_archs,
            },
    {
        let root = self.bin_root_dir();
        let bin_dir = join(root.as_str(), arch.dirname());
        let mut sdk_arch = SdkArch::new(bin_dir);
        match self.load_include_dirs(fs) {
            Ok(dirs) => {
                sdk_arch.include_dirs = dirs;
                self.sdk_archs.insert(arch, sdk_arch);
                Ok(())
            },
            Err(error) => Err(error),
        }
    }
}

/// The views of a list of SDKs.
pub open spec fn sdk_views(list: Seq<Sdk>) -> Seq<SdkView> {
    Seq::new(list.len(), |i: int| list[i]@)
}

/// `done` in front of what `rest` adds, or the error of `rest`.
pub open spec fn prepend<T>(done: Seq<T>, rest: Result<Seq<T>, DiscoveryFault>) -> Result<
    Seq<T>,
    DiscoveryFault,
> {
    match rest {
        Ok(more) => Ok(done + more),
        Err(fault) => Err(fault),
    }
}

/// The SDKs under one root: one for each of `versions` whose tools directory
/// exists, in the order of the versions. The first SDK that cannot be loaded
/// makes the whole an error.
pub open spec fn sdks_of_root(root: Seq<char>, versions: Seq<Seq<char>>, fs: FileIndexView) -> Result<
    Seq<SdkView>,
    DiscoveryFault,
>
    decreases versions.len(),
{
    if versions.len() == 0 {
        Ok(Seq::empty())
    } else if fs.has_path(bin_root(root, versions[0])) {
        match sdk_model(versions[0], root, fs) {
            Ok(sdk) => prepend(seq![sdk], sdks_of_root(root, versions.drop_first(), fs)),
            Err(fault) => Err(fault),
        }
    } else {
        sdks_of_root(root, versions.drop_first(), fs)
    }
}

/// The SDKs of a host: those of each root, root by root.
pub open spec fn installed_sdks(
    roots: Seq<(Seq<char>, Seq<char>)>,
    versions: Seq<Seq<char>>,
    fs: FileIndexView,
) -> Result<Seq<SdkView>, DiscoveryFault>
    decreases roots.len(),
{
    if roots.len() == 0 {
        Ok(Seq::empty())
    } else {
        match sdks_of_root(roots[0].1, versions, fs) {
            Ok(found) => prepend(found, installed_sdks(roots.drop_first(), versions, fs)),
            Err(fault) => Err(fault),
        }
    }
}

/// The SDKs of a host whose registry records the given kits and versions.
/// A host without kits has none to list, which is an error.
pub open spec fn discovered(
    roots: Seq<(Seq<char>, Seq<char>)>,
    versions: Seq<Seq<char>>,
    fs: FileIndexView,
) -> Result<Seq<SdkView>, DiscoveryFault> {
    if roots.len() == 0 {
        Err(DiscoveryFault::NoRootsFound)
    } else {
        installed_sdks(roots, versions, fs)
    }
}

/// What a `System` holds, as mathematical values.
pub struct SystemView {
    pub installed_roots: InstalledRootsView,
    pub sdks: Seq<SdkView>,
}

/// The SDKs of a host: what the registry records, and what of it is found
/// on disk.
#[derive(Debug, PartialEq)]
pub struct System {
    pub installed_roots: InstalledRoots,
    pub sdks: Vec<Sdk>,
}

impl View for System {
    type V = SystemView;

    open spec fn view(&self) -> SystemView {
        SystemView { installed_roots: self.installed_roots@, sdks: sdk_views(self.sdks@) }
    }
}

impl System {
    /// The SDKs of the host whose registry records `installed_roots`: for
    /// each root and each recorded version, in this order, the SDK of that
    /// version under that root, if the directory of its tools exists. A
    /// record without roots is an error, and so is an SDK that cannot be
    /// loaded.
    pub fn new(installed_roots: InstalledRoots, fs: &FileIndex) -> (result: Result<
        System,
        DiscoveryError,
    >)
        ensures
            match result {
                Ok(system) => {
                    &&& system@.installed_roots == installed_roots@
                    &&& system@.installed_roots.kits_roots.len() > 0
                    &&& discovered(installed_roots@.kits_roots, installed_roots@.sdk_versions, fs@)
                        == Ok::<Seq<SdkView>, DiscoveryFault>(system@.sdks)
                },
                Err(error) => discovered(
                    installed_roots@.kits_roots,
                    installed_roots@.sdk_versions,
                    fs@,
                ) == Err::<Seq<SdkView>, DiscoveryFault>(error@),
            },
    {
        if installed_roots.kits_roots.len() == 0 {
            return Err(DiscoveryError::NoRootsFound);
        }
        let mut system = System { installed_roots: installed_roots, sdks: Vec::new() };
        match system.load_sdks(fs) {
            Ok(()) => Ok(system),
            Err(error) => Err(error),
        }
    }

    /// Loads the SDKs that are found on disk.
    fn load_sdks(&mut self, fs: &FileIndex) -> (result: Result<(), DiscoveryError>)
        requires
            old(self).sdks@.len() == 0,
        ensures
            final(self).installed_roots == old(self).installed_roots,
            match result {
                Ok(_) => installed_sdks(
                    old(self)@.installed_roots.kits_roots,
                    old(self)@.installed_roots.sdk_versions,
                    fs@,
                ) == Ok::<Seq<SdkView>, DiscoveryFault>(final(self)@.sdks),
                Err(error) => installed_sdks(
                    old(self)@.installed_roots.kits_roots,
                    old(self)@.installed_roots.sdk_versions,
                    fs@,
                ) == Err::<Seq<SdkView>, DiscoveryFault>(error@),
            },
    {
        let ghost roots = self@.installed_roots.kits_roots;
        let ghost versions = self@.installed_roots.sdk_versions;
        let mut i: usize = 0;
        proof {
            assert(roots.skip(0) =~= roots);
            assert(sdk_views(self.sdks@) =~= Seq::<SdkView>::empty());
            match installed_sdks(roots, versions, fs@) {
                Ok(all) => {
                    assert(Seq::<SdkView>::empty() + all =~= all);
                },
                Err(_) => {},
            }
        }
        while i < self.installed_roots.kits_roots.len()
            invariant
                i <= self.installed_roots.kits_roots@.len(),
                self.installed_roots == old(self).installed_roots,
                roots == self@.installed_roots.kits_roots,
                versions == self@.installed_roots.sdk_versions,
                installed_sdks(roots, versions, fs@) == prepend(
                    sdk_views(self.sdks@),
                    installed_sdks(roots.skip(i as int), versions, fs@),
                ),
            decreases self.installed_roots.kits_roots@.len() - i,
        {
            let ghost root = roots[i as int].1;
            let ghost outer = sdk_views(self.sdks@);
            let ghost mut found = Seq::<SdkView>::empty();
            let mut j: usize = 0;
            proof {
                assert(roots.skip(i as int)[0] == roots[i as int]);
                assert(roots.skip(i as int).drop_first() =~= roots.skip(i + 1));
                assert(versions.skip(0) =~= versions);
                assert(outer + found =~= outer);
                match sdks_of_root(root, versions, fs@) {
                    Ok(all) => {
                        assert(found + all =~= all);
                    },
                    Err(_) => {},
                }
            }
            while j < self.installed_roots.sdk_versions.len()
                invariant
                    i < self.installed_roots.kits_roots@.len(),
                    j <= self.installed_roots.sdk_versions@.len(),
                    self.installed_roots == old(self).installed_roots,
                    roots == self@.installed_roots.kits_roots,
                    versions == self@.installed_roots.sdk_versions,
                    root == roots[i as int].1,
                    sdk_views(self.sdks@) == outer + found,
                    sdks_of_root(root, versions, fs@) == prepend(
                        found,
                        sdks_of_root(root, versions.skip(j as int), fs@),
                    ),
                    installed_sdks(roots, versions, fs@) == prepend(
                        outer,
                        installed_sdks(roots.skip(i as int), versions, fs@),
                    ),
                    roots.skip(i as int)[0] == roots[i as int],
                decreases self.installed_roots.sdk_versions@.len() - j,
            {
                let root_path = &self.installed_roots.kits_roots[i].1;
                let sdk_version = &self.installed_roots.sdk_versions[j];
                proof {
                    assert(versions.skip(j as int)[0] == versions[j as int]);
                    assert(versions.skip(j as int).drop_first() =~= versions.skip(j + 1));
                    assert(versions[j as int] == sdk_version@);
                    assert(root == root_path@);
                }
                if Sdk::is_present(sdk_version.as_str(), root_path.as_str(), fs) {
                    match Sdk::new(sdk_version.clone(), root_path.clone(), fs) {
                        Ok(sdk) => {
                            let ghost before = self.sdks@;
                            self.sdks.push(sdk);
                            proof {
                                assert(sdk_views(self.sdks@) =~= sdk_views(before).push(sdk@));
                                let rest = sdks_of_root(root, versions.skip(j + 1), fs@);
                                match rest {
                                    Ok(more) => {
                                        assert(found + (seq![sdk@] + more) =~= found.push(sdk@)
                                            + more);
                                    },
                                    Err(_) => {},
                                }
                                found = found.push(sdk@);
                                assert(sdk_views(self.sdks@) =~= outer + found);
                            }
                        },
                        Err(error) => {
                            return Err(error);
                        },
                    }
                }
                j += 1;
            }
            proof {
                assert(versions.skip(versions.len() as int) =~= Seq::<Seq<char>>::empty());
                assert(found + Seq::<SdkView>::empty() =~= found);
                assert(sdks_of_root(root, versions, fs@) == Ok::<Seq<SdkView>, DiscoveryFault>(found));
                match installed_sdks(roots.skip(i + 1), versions, fs@) {
                    Ok(more) => {
                        assert(outer + (found + more) =~= (outer + found) + more);
                    },
                    Err(_) => {},
                }
            }
            i += 1;
        }
        proof {
            assert(roots.skip(roots.len() as int) =~= Seq::<(Seq<char>, Seq<char>)>::empty());
            assert(sdk_views(self.sdks@) + Seq::<SdkView>::empty() =~= sdk_views(self.sdks@));
        }
        Ok(())
    }
}

/// The directory of the tools for `arch` under `dir`, if it holds `rc.exe`.
pub open spec fn rc_dir(dir: Seq<char>, arch: Arch, fs: FileIndexView) -> Seq<Seq<char>> {
    let bin = path_join(dir, arch.dir());
    if fs.has_path(path_join(bin, "rc.exe"@)) {
        seq![bin]
    } else {
        Seq::empty()
    }
}

/// The directories with `rc.exe` of the SDKs `versions` under `root`.
pub open spec fn versioned_rc_dirs(
    root: Seq<char>,
    versions: Seq<Seq<char>>,
    arch: Arch,
    fs: FileIndexView,
) -> Seq<Seq<char>>
    decreases versions.len(),
{
    if versions.len() == 0 {
        Seq::empty()
    } else {
        versioned_rc_dirs(root, versions.drop_last(), arch, fs) + rc_dir(
            bin_root(root, versions.last()),
            arch,
            fs,
        )
    }
}

/// The directories with `rc.exe` under the given roots: for each root, the
/// one right under its `bin`, then those of the SDKs by version.
pub open spec fn rc_dirs(
    roots: Seq<(Seq<char>, Seq<char>)>,
    versions: Seq<Seq<char>>,
    arch: Arch,
    fs: FileIndexView,
) -> Seq<Seq<char>>
    decreases roots.len(),
{
    if roots.len() == 0 {
        Seq::empty()
    } else {
        rc_dirs(roots.drop_last(), versions, arch, fs) + rc_dir(
            path_join(roots.last().1, "bin"@),
            arch,
            fs,
        ) + versioned_rc_dirs(roots.last().1, versions, arch, fs)
    }
}

/// The architecture whose tools run on the host of a build for
/// `target_arch`: `X64` for `x86_64`, `X86` for every other.
pub open spec fn host_arch(target_arch: Seq<char>) -> Arch {
    if target_arch == "x86_64"@ {
        Arch::X64
    } else {
        Arch::X86
    }
}

/// Appends the directory of the tools for `arch` under `dir`, if it holds
/// `rc.exe`.
fn push_rc_dir(kits: &mut Vec<String>, dir: &str, arch: Arch, fs: &FileIndex)
    ensures
        texts(final(kits)@) == texts(old(kits)@) + rc_dir(dir@, arch, fs@),
{
    let bin = join(dir, arch.dirname());
    let rc = join(bin.as_str(), "rc.exe");
    if fs.has_path(rc.as_str()) {
        kits.push(bin);
        assert(texts(kits@) =~= texts(old(kits)@) + rc_dir(dir@, arch, fs@));
    } else {
        assert(texts(kits@) =~= texts(old(kits)@) + rc_dir(dir@, arch, fs@));
    }
}

/// The directories that hold an `rc.exe` for the host of the build: for each
/// installed kit, the one right under its `bin`, then those of its SDKs.
pub fn get_sdk(roots: &InstalledRoots, target_arch: &str, fs: &FileIndex) -> (kits: Vec<String>)
    ensures
        texts(kits@) == rc_dirs(
            roots@.kits_roots,
            roots@.sdk_versions,
            host_arch(target_arch@),
            fs@,
        ),
{
    let arch = if target_arch.to_owned() == "x86_64".to_owned() {
        Arch::X64
    } else {
        Arch::X86
    };
    let ghost all_roots = roots@.kits_roots;
    let ghost versions = roots@.sdk_versions;
    let mut kits: Vec<String> = Vec::new();
    let mut i: usize = 0;
    proof {
        assert(all_roots.take(0) =~= Seq::<(Seq<char>, Seq<char>)>::empty());
        assert(texts(kits@) =~= rc_dirs(all_roots.take(0), versions, arch, fs@));
    }
    while i < roots.kits_roots.len()
        invariant
            i <= roots.kits_roots@.len(),
            all_roots == roots@.kits_roots,
            versions == roots@.sdk_versions,
            texts(kits@) == rc_dirs(all_roots.take(i as int), versions, arch, fs@),
        decreases roots.kits_roots@.len() - i,
    {
        let root_path = &roots.kits_roots[i].1;
        let ghost done = texts(kits@);
        let bin = join(root_path.as_str(), "bin");
        push_rc_dir(&mut kits, bin.as_str(), arch, fs);
        let ghost base = texts(kits@);
        let mut j: usize = 0;
        proof {
            assert(versions.take(0) =~= Seq::<Seq<char>>::empty());
            assert(base + versioned_rc_dirs(root_path@, versions.take(0), arch, fs@) =~= base);
        }
        while j < roots.sdk_versions.len()
            invariant
                j <= roots.sdk_versions@.len(),
                versions == roots@.sdk_versions,
                bin@ == path_join(root_path@, "bin"@),
                texts(kits@) == base + versioned_rc_dirs(
                    root_path@,
                    versions.take(j as int),
                    arch,
                    fs@,
                ),
            decreases roots.sdk_versions@.len() - j,
        {
            let sdk_path = join(bin.as_str(), roots.sdk_versions[j].as_str());
            push_rc_dir(&mut kits, sdk_path.as_str(), arch, fs);
            proof {
                let next = versions.take(j + 1);
                assert(next.drop_last() =~= versions.take(j as int));
                assert(next.last() == roots.sdk_versions@[j as int]@);
                assert(texts(kits@) =~= base + versioned_rc_dirs(root_path@, next, arch, fs@));
            }
            j += 1;
        }
        proof {
            assert(versions.take(roots.sdk_versions@.len() as int) =~= versions);
            let next = all_roots.take(i + 1);
            assert(next.drop_last() =~= all_roots.take(i as int));
            assert(next.last() == all_roots[i as int]);
            assert(all_roots[i as int].1 == root_path@);
        }
        i += 1;
    }
    proof {
        assert(all_roots.take(roots.kits_roots@.len() as int) =~= all_roots);
    }
    kits
}

} // verus!
