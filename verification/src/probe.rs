//! What to look for on disk before the SDKs of a host are listed.

use vstd::prelude::*;
use crate::text::texts;
use crate::files::FileIndexView;
use crate::path::{join, path_join};
use crate::registry::{DiscoveryFault, InstalledRoots};
use crate::resolve::candidates;
use crate::sdk::{
    bin_root, discovered, include_root, installed_sdks, sdk_model, sdks_of_root, Arch, SdkView,
};

verus! {

/// The path of the tool `tool` under `dir`, for each architecture.
pub open spec fn tool_paths(dir: Seq<char>, tool: Seq<char>) -> Seq<Seq<char>> {
    seq![
        path_join(path_join(dir, Arch::Arm.dir()), tool),
        path_join(path_join(dir, Arch::Arm64.dir()), tool),
        path_join(path_join(dir, Arch::X64.dir()), tool),
        path_join(path_join(dir, Arch::X86.dir()), tool),
    ]
}

/// The paths to look for under one root, for the SDKs `versions`: the
/// directory of each SDK's tools, followed by the tool's path for each
/// architecture.
pub open spec fn version_paths(root: Seq<char>, versions: Seq<Seq<char>>, tool: Seq<char>) -> Seq<
    Seq<char>,
>
    decreases versions.len(),
{
    if versions.len() == 0 {
        Seq::empty()
    } else {
        version_paths(root, versions.drop_last(), tool) + seq![bin_root(root, versions.last())]
            + tool_paths(bin_root(root, versions.last()), tool)
    }
}

/// The paths to look for on a host: for each root, the tool right under its
/// `bin`, then what its SDKs call for.
pub open spec fn probe_paths(
    roots: Seq<(Seq<char>, Seq<char>)>,
    versions: Seq<Seq<char>>,
    tool: Seq<char>,
) -> Seq<Seq<char>>
    decreases roots.len(),
{
    if roots.len() == 0 {
        Seq::empty()
    } else {
        probe_paths(roots.drop_last(), versions, tool) + tool_paths(
            path_join(roots.last().1, "bin"@),
            tool,
        ) + version_paths(roots.last().1, versions, tool)
    }
}

/// The include roots of the SDKs `versions` under `root`.
pub open spec fn version_dirs(root: Seq<char>, versions: Seq<Seq<char>>) -> Seq<Seq<char>>
    decreases versions.len(),
{
    if versions.len() == 0 {
        Seq::empty()
    } else {
        version_dirs(root, versions.drop_last()).push(include_root(root, versions.last()))
    }
}

/// The directories to read on a host: the include root of every SDK that
/// may be installed.
pub open spec fn probe_dirs(roots: Seq<(Seq<char>, Seq<char>)>, versions: Seq<Seq<char>>) -> Seq<
    Seq<char>,
>
    decreases roots.len(),
{
    if roots.len() == 0 {
        Seq::empty()
    } else {
        probe_dirs(roots.drop_last(), versions) + version_dirs(roots.last().1, versions)
    }
}

/// The paths to look for hold the directory of the tools of every SDK that
/// may be installed, and the tool's path there for every architecture.
pub proof fn lemma_probe_paths_cover(
    roots: Seq<(Seq<char>, Seq<char>)>,
    versions: Seq<Seq<char>>,
    tool: Seq<char>,
    i: int,
    j: int,
    arch: Arch,
)
    requires
        0 <= i < roots.len(),
        0 <= j < versions.len(),
    ensures
        probe_paths(roots, versions, tool).contains(bin_root(roots[i].1, versions[j])),
        probe_paths(roots, versions, tool).contains(
            path_join(path_join(bin_root(roots[i].1, versions[j]), arch.dir()), tool),
        ),
        probe_paths(roots, versions, tool).contains(
            path_join(path_join(path_join(roots[i].1, "bin"@), arch.dir()), tool),
        ),
    decreases roots.len(),
{
    let all = probe_paths(roots, versions, tool);
    let front = probe_paths(roots.drop_last(), versions, tool);
    let direct = tool_paths(path_join(roots.last().1, "bin"@), tool);
    let deep = version_paths(roots.last().1, versions, tool);
    if i < roots.len() - 1 {
        lemma_probe_paths_cover(roots.drop_last(), versions, tool, i, j, arch);
        assert(roots.drop_last()[i] == roots[i]);
        assert forall|path: Seq<char>| front.contains(path) implies all.contains(path) by {
            let k = choose|k: int| 0 <= k < front.len() && front[k] == path;
            assert(all[k] == path);
        }
    } else {
        lemma_version_paths_cover(roots[i].1, versions, tool, j, arch);
        let wanted = path_join(path_join(path_join(roots[i].1, "bin"@), arch.dir()), tool);
        let n = match arch {
            Arch::Arm => 0int,
            Arch::Arm64 => 1int,
            Arch::X64 => 2int,
            Arch::X86 => 3int,
        };
        assert(direct[n] == wanted);
        assert(all[front.len() + n] == wanted);
        assert forall|path: Seq<char>| deep.contains(path) implies all.contains(path) by {
            let k = choose|k: int| 0 <= k < deep.len() && deep[k] == path;
            assert(all[front.len() + direct.len() + k] == path);
        }
    }
}

/// The paths to look for under a root hold the directory of the tools of
/// each of its SDKs, and the tool's path there for every architecture.
pub proof fn lemma_version_paths_cover(
    root: Seq<char>,
    versions: Seq<Seq<char>>,
    tool: Seq<char>,
    j: int,
    arch: Arch,
)
    requires
        0 <= j < versions.len(),
    ensures
        version_paths(root, versions, tool).contains(bin_root(root, versions[j])),
        version_paths(root, versions, tool).contains(
            path_join(path_join(bin_root(root, versions[j]), arch.dir()), tool),
        ),
    decreases versions.len(),
{
    let all = version_paths(root, versions, tool);
    let front = version_paths(root, versions.drop_last(), tool);
    let bin = bin_root(root, versions.last());
    let deep = tool_paths(bin, tool);
    if j < versions.len() - 1 {
        lemma_version_paths_cover(root, versions.drop_last(), tool, j, arch);
        assert(versions.drop_last()[j] == versions[j]);
        assert forall|path: Seq<char>| front.contains(path) implies all.contains(path) by {
            let k = choose|k: int| 0 <= k < front.len() && front[k] == path;
            assert(all[k] == path);
        }
    } else {
        let n = match arch {
            Arch::Arm => 0int,
            Arch::Arm64 => 1int,
            Arch::X64 => 2int,
            Arch::X86 => 3int,
        };
        assert(all[front.len() as int] == bin);
        assert(deep[n] == path_join(path_join(bin, arch.dir()), tool));
        assert(all[front.len() + 1 + n] == deep[n]);
    }
}

/// The directories to read hold the include root of every SDK that may be
/// installed.
pub proof fn lemma_probe_dirs_cover(
    roots: Seq<(Seq<char>, Seq<char>)>,
    versions: Seq<Seq<char>>,
    i: int,
    j: int,
)
    requires
        0 <= i < roots.len(),
        0 <= j < versions.len(),
    ensures
        probe_dirs(roots, versions).contains(include_root(roots[i].1, versions[j])),
    decreases roots.len(),
{
    let all = probe_dirs(roots, versions);
    let front = probe_dirs(roots.drop_last(), versions);
    let last = version_dirs(roots.last().1, versions);
    if i < roots.len() - 1 {
        lemma_probe_dirs_cover(roots.drop_last(), versions, i, j);
        assert(roots.drop_last()[i] == roots[i]);
        let k = choose|k: int|
            0 <= k < front.len() && front[k] == include_root(roots[i].1, versions[j]);
        assert(all[k] == front[k]);
    } else {
        lemma_version_dirs_cover(roots[i].1, versions, j);
        let k = choose|k: int|
            0 <= k < last.len() && last[k] == include_root(roots[i].1, versions[j]);
        assert(all[front.len() + k] == last[k]);
    }
}

/// The directories to read under a root hold the include root of each of
/// its SDKs.
pub proof fn lemma_version_dirs_cover(root: Seq<char>, versions: Seq<Seq<char>>, j: int)
    requires
        0 <= j < versions.len(),
    ensures
        version_dirs(root, versions).contains(include_root(root, versions[j])),
    decreases versions.len(),
{
    let all = version_dirs(root, versions);
    if j < versions.len() - 1 {
        lemma_version_dirs_cover(root, versions.drop_last(), j);
        assert(versions.drop_last()[j] == versions[j]);
        let front = version_dirs(root, versions.drop_last());
        let k = choose|k: int| 0 <= k < front.len() && front[k] == include_root(root, versions[j]);
        assert(all[k] == front[k]);
    } else {
        assert(all[all.len() - 1] == include_root(root, versions[j]));
    }
}

/// Whether two records of the disk say the same of everything that is
/// looked for: of the paths, whether they exist, and of the directories, what
/// they hold.
pub open spec fn agree_on_probes(
    roots: Seq<(Seq<char>, Seq<char>)>,
    versions: Seq<Seq<char>>,
    tool: Seq<char>,
    a: FileIndexView,
    b: FileIndexView,
) -> bool {
    &&& forall|path: Seq<char>| #[trigger]
        probe_paths(roots, versions, tool).contains(path) ==> a.has_path(path) == b.has_path(path)
    &&& forall|dir: Seq<char>| #[trigger]
        probe_dirs(roots, versions).contains(dir) ==> a.read_dir(dir) == b.read_dir(dir)
}

/// Whether `sdk` is the SDK of one of the versions under one of the roots,
/// as the disk record `fs` shows it.
pub open spec fn sdk_of_host(
    sdk: SdkView,
    roots: Seq<(Seq<char>, Seq<char>)>,
    versions: Seq<Seq<char>>,
    fs: FileIndexView,
) -> bool {
    exists|i: int, j: int|
        0 <= i < roots.len() && 0 <= j < versions.len() && #[trigger] sdk_model(
            versions[j],
            roots[i].1,
            fs,
        ) == Ok::<SdkView, DiscoveryFault>(sdk)
}

/// Two disk records that say the same of the tools directory and of the
/// include root of every version list the same SDKs under a root.
proof fn lemma_root_agrees(root: Seq<char>, versions: Seq<Seq<char>>, a: FileIndexView, b: FileIndexView)
    requires
        forall|j: int|
            0 <= j < versions.len() ==> a.has_path(bin_root(root, #[trigger] versions[j]))
                == b.has_path(bin_root(root, versions[j])),
        forall|j: int|
            0 <= j < versions.len() ==> a.read_dir(include_root(root, #[trigger] versions[j]))
                == b.read_dir(include_root(root, versions[j])),
    ensures
        sdks_of_root(root, versions, a) == sdks_of_root(root, versions, b),
    decreases versions.len(),
{
    if versions.len() > 0 {
        let rest = versions.drop_first();
        assert forall|j: int| 0 <= j < rest.len() implies a.has_path(
            bin_root(root, #[trigger] rest[j]),
        ) == b.has_path(bin_root(root, rest[j])) by {
            assert(rest[j] == versions[j + 1]);
        }
        assert forall|j: int| 0 <= j < rest.len() implies a.read_dir(
            include_root(root, #[trigger] rest[j]),
        ) == b.read_dir(include_root(root, rest[j])) by {
            assert(rest[j] == versions[j + 1]);
        }
        lemma_root_agrees(root, rest, a, b);
        assert(versions[0] == versions[0]);
    }
}

/// Every SDK that is listed under a root is the SDK of one of the versions.
proof fn lemma_root_origin(root: Seq<char>, versions: Seq<Seq<char>>, fs: FileIndexView)
    ensures
        sdks_of_root(root, versions, fs) matches Ok(list) ==> forall|k: int|
            0 <= k < list.len() ==> exists|j: int|
                0 <= j < versions.len() && #[trigger] sdk_model(versions[j], root, fs) == Ok::<
                    SdkView,
                    DiscoveryFault,
                >(#[trigger] list[k]),
    decreases versions.len(),
{
    if versions.len() > 0 {
        let rest = versions.drop_first();
        lemma_root_origin(root, rest, fs);
        match sdks_of_root(root, versions, fs) {
            Ok(list) => {
                let tail = sdks_of_root(root, rest, fs)->Ok_0;
                assert forall|k: int| 0 <= k < list.len() implies exists|j: int|
                    0 <= j < versions.len() && #[trigger] sdk_model(versions[j], root, fs) == Ok::<
                        SdkView,
                        DiscoveryFault,
                    >(#[trigger] list[k]) by {
                    let shift = list.len() - tail.len();
                    if k < shift {
                        assert(sdk_model(versions[0], root, fs) == Ok::<SdkView, DiscoveryFault>(
                            list[k],
                        ));
                    } else {
                        assert(list[k] == tail[k - shift]);
                        let j = choose|j: int|
                            0 <= j < rest.len() && #[trigger] sdk_model(rest[j], root, fs) == Ok::<
                                SdkView,
                                DiscoveryFault,
                            >(tail[k - shift]);
                        assert(rest[j] == versions[j + 1]);
                        assert(sdk_model(versions[j + 1], root, fs) == Ok::<SdkView, DiscoveryFault>(
                            list[k],
                        ));
                    }
                }
            },
            Err(_) => {},
        }
    }
}

/// Every SDK that is listed on a host is the SDK of one of the versions
/// under one of the roots.
pub proof fn lemma_sdks_origin(
    roots: Seq<(Seq<char>, Seq<char>)>,
    versions: Seq<Seq<char>>,
    fs: FileIndexView,
)
    ensures
        installed_sdks(roots, versions, fs) matches Ok(list) ==> forall|k: int|
            0 <= k < list.len() ==> sdk_of_host(#[trigger] list[k], roots, versions, fs),
    decreases roots.len(),
{
    if roots.len() > 0 {
        let rest = roots.drop_first();
        lemma_sdks_origin(rest, versions, fs);
        lemma_root_origin(roots[0].1, versions, fs);
        match installed_sdks(roots, versions, fs) {
            Ok(list) => {
                let head = sdks_of_root(roots[0].1, versions, fs)->Ok_0;
                let tail = installed_sdks(rest, versions, fs)->Ok_0;
                assert(list =~= head + tail);
                assert forall|k: int| 0 <= k < list.len() implies sdk_of_host(
                    #[trigger] list[k],
                    roots,
                    versions,
                    fs,
                ) by {
                    if k < head.len() {
                        assert(list[k] == head[k]);
                        let j = choose|j: int|
                            0 <= j < versions.len() && #[trigger] sdk_model(
                                versions[j],
                                roots[0].1,
                                fs,
                            ) == Ok::<SdkView, DiscoveryFault>(head[k]);
                        assert(sdk_model(versions[j], roots[0].1, fs) == Ok::<
                            SdkView,
                            DiscoveryFault,
                        >(list[k]));
                    } else {
                        assert(list[k] == tail[k - head.len()]);
                        assert(sdk_of_host(tail[k - head.len()], rest, versions, fs));
                        let (i, j) = choose|i: int, j: int|
                            0 <= i < rest.len() && 0 <= j < versions.len() && #[trigger] sdk_model(
                                versions[j],
                                rest[i].1,
                                fs,
                            ) == Ok::<SdkView, DiscoveryFault>(tail[k - head.len()]);
                        assert(rest[i] == roots[i + 1]);
                        assert(sdk_model(versions[j], roots[i + 1].1, fs) == Ok::<
                            SdkView,
                            DiscoveryFault,
                        >(list[k]));
                    }
                }
            },
            Err(_) => {},
        }
    }
}

/// Two disk records that say the same of the tools directory and of the
/// include root of every version under every root list the same SDKs.
proof fn lemma_host_agrees(
    roots: Seq<(Seq<char>, Seq<char>)>,
    versions: Seq<Seq<char>>,
    a: FileIndexView,
    b: FileIndexView,
)
    requires
        forall|i: int, j: int|
            0 <= i < roots.len() && 0 <= j < versions.len() ==> a.has_path(
                #[trigger] bin_root(roots[i].1, versions[j]),
            ) == b.has_path(bin_root(roots[i].1, versions[j])),
        forall|i: int, j: int|
            0 <= i < roots.len() && 0 <= j < versions.len() ==> a.read_dir(
                #[trigger] include_root(roots[i].1, versions[j]),
            ) == b.read_dir(include_root(roots[i].1, versions[j])),
    ensures
        installed_sdks(roots, versions, a) == installed_sdks(roots, versions, b),
    decreases roots.len(),
{
    if roots.len() > 0 {
        let rest = roots.drop_first();
        assert forall|i: int, j: int|
            0 <= i < rest.len() && 0 <= j < versions.len() implies a.has_path(
            #[trigger] bin_root(rest[i].1, versions[j]),
        ) == b.has_path(bin_root(rest[i].1, versions[j])) by {
            assert(rest[i] == roots[i + 1]);
            assert(a.has_path(bin_root(roots[i + 1].1, versions[j])) == b.has_path(
                bin_root(roots[i + 1].1, versions[j]),
            ));
        }
        assert forall|i: int, j: int|
            0 <= i < rest.len() && 0 <= j < versions.len() implies a.read_dir(
            #[trigger] include_root(rest[i].1, versions[j]),
        ) == b.read_dir(include_root(rest[i].1, versions[j])) by {
            assert(rest[i] == roots[i + 1]);
            assert(a.read_dir(include_root(roots[i + 1].1, versions[j])) == b.read_dir(
                include_root(roots[i + 1].1, versions[j]),
            ));
        }
        lemma_host_agrees(rest, versions, a, b);
        assert forall|j: int| 0 <= j < versions.len() implies a.has_path(
            bin_root(roots[0].1, #[trigger] versions[j]),
        ) == b.has_path(bin_root(roots[0].1, versions[j])) by {
            assert(a.has_path(bin_root(roots[0].1, versions[j])) == b.has_path(
                bin_root(roots[0].1, versions[j]),
            ));
        }
        assert forall|j: int| 0 <= j < versions.len() implies a.read_dir(
            include_root(roots[0].1, #[trigger] versions[j]),
        ) == b.read_dir(include_root(roots[0].1, versions[j])) by {
            assert(a.read_dir(include_root(roots[0].1, versions[j])) == b.read_dir(
                include_root(roots[0].1, versions[j]),
            ));
        }
        lemma_root_agrees(roots[0].1, versions, a, b);
    }
}

/// Two disk records that say the same of a tool's path in every SDK of a
/// list give the same tools.
proof fn lemma_candidates_agree(
    sdks: Seq<SdkView>,
    tool: Seq<char>,
    arch: Arch,
    a: FileIndexView,
    b: FileIndexView,
)
    requires
        forall|k: int|
            0 <= k < sdks.len() ==> (#[trigger] sdks[k]).tool(tool, arch, a) == sdks[k].tool(
                tool,
                arch,
                b,
            ),
    ensures
        candidates(sdks, tool, arch, a) == candidates(sdks, tool, arch, b),
    decreases sdks.len(),
{
    if sdks.len() > 0 {
        let front = sdks.drop_last();
        assert forall|k: int| 0 <= k < front.len() implies (#[trigger] front[k]).tool(
            tool,
            arch,
            a,
        ) == front[k].tool(tool, arch, b) by {
            assert(front[k] == sdks[k]);
        }
        lemma_candidates_agree(front, tool, arch, a, b);
        assert(sdks.last() == sdks[sdks.len() - 1]);
    }
}

/// What is looked for decides what is found: two records of the disk that
/// say the same of the probed paths and directories list the same SDKs, and
/// the same tools in them. So a record that answers for the probes alone
/// serves as well as the disk itself.
pub proof fn lemma_probes_decide(
    roots: Seq<(Seq<char>, Seq<char>)>,
    versions: Seq<Seq<char>>,
    tool: Seq<char>,
    arch: Arch,
    a: FileIndexView,
    b: FileIndexView,
)
    requires
        agree_on_probes(roots, versions, tool, a, b),
    ensures
        discovered(roots, versions, a) == discovered(roots, versions, b),
        discovered(roots, versions, a) matches Ok(sdks) ==> candidates(sdks, tool, arch, a)
            == candidates(sdks, tool, arch, b),
{
    assert forall|i: int, j: int|
        0 <= i < roots.len() && 0 <= j < versions.len() implies a.has_path(
        #[trigger] bin_root(roots[i].1, versions[j]),
    ) == b.has_path(bin_root(roots[i].1, versions[j])) by {
        lemma_probe_paths_cover(roots, versions, tool, i, j, arch);
    }
    assert forall|i: int, j: int|
        0 <= i < roots.len() && 0 <= j < versions.len() implies a.read_dir(
        #[trigger] include_root(roots[i].1, versions[j]),
    ) == b.read_dir(include_root(roots[i].1, versions[j])) by {
        lemma_probe_dirs_cover(roots, versions, i, j);
    }
    lemma_host_agrees(roots, versions, a, b);
    if roots.len() > 0 {
        match installed_sdks(roots, versions, a) {
            Ok(sdks) => {
                lemma_sdks_origin(roots, versions, a);
                assert forall|k: int| 0 <= k < sdks.len() implies (#[trigger] sdks[k]).tool(
                    tool,
                    arch,
                    a,
                ) == sdks[k].tool(tool, arch, b) by {
                    assert(sdk_of_host(sdks[k], roots, versions, a));
                    let (i, j) = choose|i: int, j: int|
                        0 <= i < roots.len() && 0 <= j < versions.len() && #[trigger] sdk_model(
                            versions[j],
                            roots[i].1,
                            a,
                        ) == Ok::<SdkView, DiscoveryFault>(sdks[k]);
                    lemma_probe_paths_cover(roots, versions, tool, i, j, arch);
                    assert(sdks[k].sdk_archs.contains_key(arch));
                    assert(sdks[k].sdk_archs[arch].bin_dir == path_join(
                        bin_root(roots[i].1, versions[j]),
                        arch.dir(),
                    ));
                }
                lemma_candidates_agree(sdks, tool, arch, a, b);
            },
            Err(_) => {},
        }
    }
}

/// Appends the path of `tool` under `dir` for each architecture.
fn push_tool_paths(paths: &mut Vec<String>, dir: &str, tool: &str)
    ensures
        texts(final(paths)@) == texts(old(paths)@) + tool_paths(dir@, tool@),
{
    let arm = join(dir, Arch::Arm.dirname());
    paths.push(join(arm.as_str(), tool));
    let arm64 = join(dir, Arch::Arm64.dirname());
    paths.push(join(arm64.as_str(), tool));
    let x64 = join(dir, Arch::X64.dirname());
    paths.push(join(x64.as_str(), tool));
    let x86 = join(dir, Arch::X86.dirname());
    paths.push(join(x86.as_str(), tool));
    assert(texts(paths@) =~= texts(old(paths)@) + tool_paths(dir@, tool@));
}

impl InstalledRoots {
    /// The paths to look for before the SDKs are listed and `tool` is
    /// searched in them. Those that exist belong into the `FileIndex`.
    pub fn probe_paths(&self, tool: &str) -> (paths: Vec<String>)
        ensures
            texts(paths@) == probe_paths(self@.kits_roots, self@.sdk_versions, tool@),
    {
        let ghost roots = self@.kits_roots;
        let ghost versions = self@.sdk_versions;
        let mut paths: Vec<String> = Vec::new();
        let mut i: usize = 0;
        proof {
            assert(roots.take(0) =~= Seq::<(Seq<char>, Seq<char>)>::empty());
            assert(texts(paths@) =~= probe_paths(roots.take(0), versions, tool@));
        }
        while i < self.kits_roots.len()
            invariant
                i <= self.kits_roots@.len(),
                roots == self@.kits_roots,
                versions == self@.sdk_versions,
                texts(paths@) == probe_paths(roots.take(i as int), versions, tool@),
            decreases self.kits_roots@.len() - i,
        {
            let root = &self.kits_roots[i].1;
            let bin = join(root.as_str(), "bin");
            push_tool_paths(&mut paths, bin.as_str(), tool);
            let ghost base = texts(paths@);
            let mut j: usize = 0;
            proof {
                assert(versions.take(0) =~= Seq::<Seq<char>>::empty());
                assert(base + version_paths(root@, versions.take(0), tool@) =~= base);
            }
            while j < self.sdk_versions.len()
                invariant
                    j <= self.sdk_versions@.len(),
                    versions == self@.sdk_versions,
                    bin@ == path_join(root@, "bin"@),
                    texts(paths@) == base + version_paths(root@, versions.take(j as int), tool@),
                decreases self.sdk_versions@.len() - j,
            {
                let ghost before = texts(paths@);
                let dir = join(bin.as_str(), self.sdk_versions[j].as_str());
                paths.push(dir.clone());
                proof {
                    assert(texts(paths@) =~= before + seq![dir@]);
                }
                push_tool_paths(&mut paths, dir.as_str(), tool);
                proof {
                    let next = versions.take(j + 1);
                    assert(next.drop_last() =~= versions.take(j as int));
                    assert(next.last() == self.sdk_versions@[j as int]@);
                    assert(texts(paths@) =~= base + version_paths(root@, next, tool@));
                }
                j += 1;
            }
            proof {
                assert(versions.take(self.sdk_versions@.len() as int) =~= versions);
                let next = roots.take(i + 1);
                assert(next.drop_last() =~= roots.take(i as int));
                assert(next.last() == roots[i as int]);
                assert(roots[i as int].1 == root@);
            }
            i += 1;
        }
        proof {
            assert(roots.take(self.kits_roots@.len() as int) =~= roots);
        }
        paths
    }

    /// The directories to read before the SDKs are listed. The names of
    /// their entries belong into the `FileIndex`.
    pub fn probe_dirs(&self) -> (dirs: Vec<String>)
        ensures
            texts(dirs@) == probe_dirs(self@.kits_roots, self@.sdk_versions),
    {
        let ghost roots = self@.kits_roots;
        let ghost versions = self@.sdk_versions;
        let mut dirs: Vec<String> = Vec::new();
        let mut i: usize = 0;
        proof {
            assert(roots.take(0) =~= Seq::<(Seq<char>, Seq<char>)>::empty());
            assert(texts(dirs@) =~= probe_dirs(roots.take(0), versions));
        }
        while i < self.kits_roots.len()
            invariant
                i <= self.kits_roots@.len(),
                roots == self@.kits_roots,
                versions == self@.sdk_versions,
                texts(dirs@) == probe_dirs(roots.take(i as int), versions),
            decreases self.kits_roots@.len() - i,
        {
            let root = &self.kits_roots[i].1;
            let headers = join(root.as_str(), "Include");
            let ghost base = texts(dirs@);
            let mut j: usize = 0;
            proof {
                assert(versions.take(0) =~= Seq::<Seq<char>>::empty());
                assert(base + version_dirs(root@, versions.take(0)) =~= base);
            }
            while j < self.sdk_versions.len()
                invariant
                    j <= self.sdk_versions@.len(),
                    versions == self@.sdk_versions,
                    headers@ == path_join(root@, "Include"@),
                    texts(dirs@) == base + version_dirs(root@, versions.take(j as int)),
                decreases self.sdk_versions@.len() - j,
            {
                let ghost before = texts(dirs@);
                let dir = join(headers.as_str(), self.sdk_versions[j].as_str());
                dirs.push(dir);
                proof {
                    let next = versions.take(j + 1);
                    assert(next.drop_last() =~= versions.take(j as int));
                    assert(next.last() == self.sdk_versions@[j as int]@);
                    assert(texts(dirs@) =~= before.push(include_root(root@, next.last())));
                    assert(texts(dirs@) =~= base + version_dirs(root@, next));
                }
                j += 1;
            }
            proof {
                assert(versions.take(self.sdk_versions@.len() as int) =~= versions);
                let next = roots.take(i + 1);
                assert(next.drop_last() =~= roots.take(i as int));
                assert(next.last() == roots[i as int]);
                assert(roots[i as int].1 == root@);
            }
            i += 1;
        }
        proof {
            assert(roots.take(self.kits_roots@.len() as int) =~= roots);
        }
        dirs
    }
}

} // verus!
