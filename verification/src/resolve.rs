//! The choice of one resource compiler among those that are installed.

use vstd::prelude::*;
use vstd::string::StringExecFns;
use crate::files::{FileIndex, FileIndexView};
use crate::text::texts;
use crate::sdk::{Arch, SdkView, System, SystemView, Tool, ToolView};
use crate::version::{
    compare_versions, lemma_key_order_equal, lemma_key_order_flip, lemma_key_order_same,
    lemma_key_order_transitive, version_key, version_order, Order,
};

verus! {

/// The views of a list of tools.
pub open spec fn tool_views(list: Seq<Tool>) -> Seq<ToolView> {
    Seq::new(list.len(), |i: int| list[i]@)
}

/// The tools named `name` for `arch` in a list of SDKs: one for each SDK
/// that has the tool, in the order of the SDKs.
pub open spec fn candidates(
    sdks: Seq<SdkView>,
    name: Seq<char>,
    arch: Arch,
    fs: FileIndexView,
) -> Seq<ToolView>
    decreases sdks.len(),
{
    if sdks.len() == 0 {
        Seq::empty()
    } else {
        let before = candidates(sdks.drop_last(), name, arch, fs);
        match sdks.last().tool(name, arch, fs) {
            Some(tool) => before.push(tool),
            None => before,
        }
    }
}

/// The index of the tool with the greatest version; of several such, the
/// last. 0 for an empty list.
pub open spec fn newest(tools: Seq<ToolView>) -> int
    decreases tools.len(),
{
    if tools.len() <= 1 {
        0
    } else {
        let best = newest(tools.drop_last());
        if version_order(tools.last().sdk_version, tools[best].sdk_version) != Order::Less {
            tools.len() - 1
        } else {
            best
        }
    }
}

/// The index of the first tool whose version string is `version`.
pub open spec fn first_of_version(tools: Seq<ToolView>, version: Seq<char>) -> Option<int>
    decreases tools.len(),
{
    if tools.len() == 0 {
        None
    } else if tools[0].sdk_version == version {
        Some(0)
    } else {
        match first_of_version(tools.drop_first(), version) {
            Some(i) => Some(i + 1),
            None => None,
        }
    }
}

/// The index of the tool to use: the first whose version string is the
/// preferred one, if a version is preferred and a tool has it; else the one
/// with the greatest version. `None` only where there is no tool.
pub open spec fn selected(tools: Seq<ToolView>, preferred: Option<Seq<char>>) -> Option<int> {
    if tools.len() == 0 {
        None
    } else {
        match preferred {
            Some(version) => match first_of_version(tools, version) {
                Some(i) => Some(i),
                None => Some(newest(tools)),
            },
            None => Some(newest(tools)),
        }
    }
}

/// Where the first `n` tools have other versions and the `n`-th, if there is
/// one, has `version`, the first tool of that version is the `n`-th, or none
/// at the end.
pub proof fn lemma_first_of_version(tools: Seq<ToolView>, version: Seq<char>, n: int)
    requires
        0 <= n <= tools.len(),
        forall|k: int| 0 <= k < n ==> (#[trigger] tools[k]).sdk_version != version,
        n == tools.len() || tools[n].sdk_version == version,
    ensures
        first_of_version(tools, version) == (if n < tools.len() {
            Some(n)
        } else {
            None
        }),
    decreases n,
{
    if n > 0 {
        let rest = tools.drop_first();
        assert forall|k: int| 0 <= k < n - 1 implies (#[trigger] rest[k]).sdk_version != version by {
            assert(rest[k] == tools[k + 1]);
        }
        lemma_first_of_version(rest, version, n - 1);
    }
}

/// The newest tool is one of the tools.
pub proof fn lemma_newest_in_range(tools: Seq<ToolView>)
    requires
        tools.len() > 0,
    ensures
        0 <= newest(tools) < tools.len(),
    decreases tools.len(),
{
    if tools.len() > 1 {
        lemma_newest_in_range(tools.drop_last());
    }
}

/// No tool has a greater version than the newest.
pub proof fn lemma_newest_is_greatest(tools: Seq<ToolView>, i: int)
    requires
        0 <= i < tools.len(),
    ensures
        version_order(tools[newest(tools)].sdk_version, tools[i].sdk_version) != Order::Less,
    decreases tools.len(),
{
    lemma_newest_in_range(tools);
    if tools.len() <= 1 {
        lemma_key_order_same(version_key(tools[0].sdk_version));
    } else {
        let front = tools.drop_last();
        let best = newest(front);
        lemma_newest_in_range(front);
        let last_key = version_key(tools.last().sdk_version);
        let best_key = version_key(tools[best].sdk_version);
        assert(front[best] == tools[best]);
        if i < tools.len() - 1 {
            lemma_newest_is_greatest(front, i);
            assert(front[i] == tools[i]);
            if newest(tools) == tools.len() - 1 {
                lemma_key_order_transitive(last_key, best_key, version_key(tools[i].sdk_version));
            }
        } else {
            if newest(tools) == tools.len() - 1 {
                lemma_key_order_same(last_key);
            } else {
                lemma_key_order_flip(last_key, best_key);
            }
        }
    }
}

/// Without a preferred version, the choice does not depend on the order of
/// the tools: two lists that hold the same tools give choices whose versions
/// denote the same numbers, and no tool of either list has a greater
/// version.
pub proof fn lemma_choice_ignores_order(a: Seq<ToolView>, b: Seq<ToolView>)
    requires
        forall|i: int| 0 <= i < a.len() ==> b.contains(#[trigger] a[i]),
        forall|j: int| 0 <= j < b.len() ==> a.contains(#[trigger] b[j]),
    ensures
        selected(a, None) is Some <==> selected(b, None) is Some,
        selected(a, None) is Some <==> a.len() > 0,
        (selected(a, None), selected(b, None)) matches (Some(i), Some(j)) ==> {
            &&& 0 <= i < a.len()
            &&& 0 <= j < b.len()
            &&& version_key(a[i].sdk_version) == version_key(b[j].sdk_version)
            &&& forall|k: int|
                0 <= k < a.len() ==> version_order(b[j].sdk_version, (#[trigger] a[k]).sdk_version)
                    != Order::Less
        },
{
    if a.len() == 0 {
        if b.len() > 0 {
            assert(a.contains(b[0]));
        }
    } else {
        assert(b.contains(a[0]));
        lemma_newest_in_range(a);
        lemma_newest_in_range(b);
        let x = a[newest(a)];
        let y = b[newest(b)];
        assert(b.contains(x));
        let j = choose|j: int| 0 <= j < b.len() && b[j] == x;
        lemma_newest_is_greatest(b, j);
        assert(a.contains(y));
        let i = choose|i: int| 0 <= i < a.len() && a[i] == y;
        lemma_newest_is_greatest(a, i);
        lemma_key_order_flip(version_key(x.sdk_version), version_key(y.sdk_version));
        lemma_key_order_equal(version_key(x.sdk_version), version_key(y.sdk_version));
        assert forall|k: int| 0 <= k < a.len() implies version_order(
            y.sdk_version,
            (#[trigger] a[k]).sdk_version,
        ) != Order::Less by {
            lemma_newest_is_greatest(a, k);
        }
    }
}

/// A preferred version that a tool has wins over a greater version: the
/// choice is the first tool with that version string.
pub proof fn lemma_preference_wins(tools: Seq<ToolView>, version: Seq<char>, i: int)
    requires
        0 <= i < tools.len(),
        tools[i].sdk_version == version,
    ensures
        selected(tools, Some(version)) == first_of_version(tools, version),
        first_of_version(tools, version) matches Some(chosen) && 0 <= chosen <= i
            && tools[chosen].sdk_version == version,
    decreases tools.len(),
{
    if tools[0].sdk_version != version {
        let rest = tools.drop_first();
        assert(rest[i - 1] == tools[i]);
        lemma_preference_wins(rest, version, i - 1);
        let chosen = first_of_version(rest, version).unwrap();
        assert(rest[chosen] == tools[chosen + 1]);
    }
}

/// The index of the tool to use: the first with the preferred version, or
/// else the one with the greatest version, the last of them where several
/// have it.
pub fn select_tool(tools: &Vec<Tool>, preferred: Option<&str>) -> (choice: Option<usize>)
    ensures
        match choice {
            Some(i) => i < tools@.len() && selected(
                tool_views(tools@),
                match preferred {
                    Some(version) => Some(version@),
                    None => None,
                },
            ) == Some(i as int),
            None => tools@.len() == 0,
        },
{
    let ghost views = tool_views(tools@);
    if tools.len() == 0 {
        return None;
    }
    if let Some(version) = preferred {
        let wanted = version.to_owned();
        let mut i: usize = 0;
        while i < tools.len()
            invariant
                i <= tools@.len(),
                views == tool_views(tools@),
                wanted@ == version@,
                preferred == Some(version),
                forall|k: int| 0 <= k < i ==> (#[trigger] views[k]).sdk_version != version@,
            decreases tools@.len() - i,
        {
            if tools[i].sdk_version == wanted {
                proof {
                    lemma_first_of_version(views, version@, i as int);
                }
                return Some(i);
            }
            i += 1;
        }
        proof {
            lemma_first_of_version(views, version@, i as int);
        }
    }
    let mut best: usize = 0;
    let mut i: usize = 1;
    proof {
        assert(views.take(1).len() == 1);
    }
    while i < tools.len()
        invariant
            1 <= i <= tools@.len(),
            best < i,
            views == tool_views(tools@),
            best == newest(views.take(i as int)),
        decreases tools@.len() - i,
    {
        proof {
            let next = views.take(i + 1);
            assert(next.drop_last() =~= views.take(i as int));
            assert(next.last() == views[i as int]);
            assert(next[best as int] == views[best as int]);
        }
        let order = compare_versions(tools[i].sdk_version.as_str(), tools[best].sdk_version.as_str());
        if order != Order::Less {
            best = i;
        }
        i += 1;
    }
    proof {
        assert(views.take(tools@.len() as int) =~= views);
    }
    Some(best)
}

/// Why no tool was chosen.
#[derive(Debug, PartialEq)]
pub enum ResolutionError {
    /// The target architecture is none that an SDK serves.
    UnsupportedArch,
    /// No SDK has the tool for the architecture.
    ToolNotFound { arch: Arch, searched_roots: Vec<String> },
}

/// What a `ResolutionError` holds, as mathematical values.
pub enum ResolutionFault {
    UnsupportedArch,
    ToolNotFound { arch: Arch, searched_roots: Seq<Seq<char>> },
}

impl View for ResolutionError {
    type V = ResolutionFault;

    open spec fn view(&self) -> ResolutionFault {
        match self {
            ResolutionError::UnsupportedArch => ResolutionFault::UnsupportedArch,
            ResolutionError::ToolNotFound { arch, searched_roots } => ResolutionFault::ToolNotFound {
                arch: *arch,
                searched_roots: texts(searched_roots@),
            },
        }
    }
}

/// The texts of a list, each in double quotes, with `, ` between them.
pub open spec fn quoted_list(list: Seq<Seq<char>>) -> Seq<char>
    decreases list.len(),
{
    if list.len() == 0 {
        Seq::empty()
    } else if list.len() == 1 {
        "\""@ + list[0] + "\""@
    } else {
        quoted_list(list.drop_last()) + ", "@ + "\""@ + list.last() + "\""@
    }
}

impl ResolutionFault {
    /// The error in words. Where no tool was found, the words name the
    /// architecture and every root that was searched.
    pub open spec fn message(self) -> Seq<char> {
        match self {
            ResolutionFault::UnsupportedArch => "unsupported target arch"@,
            ResolutionFault::ToolNotFound { arch, searched_roots } => {
                "no rc.exe tool found for arch "@ + arch.dir() + " in ["@ + quoted_list(
                    searched_roots,
                ) + "]"@
            },
        }
    }
}

impl ResolutionError {
    /// The error in words.
    pub fn message(&self) -> (text: String)
        ensures
            text@ == self@.message(),
    {
        match self {
            ResolutionError::UnsupportedArch => "unsupported target arch".to_owned(),
            ResolutionError::ToolNotFound { arch, searched_roots } => {
                let mut text = String::new();
                text.append("no rc.exe tool found for arch ");
                text.append(arch.dirname());
                text.append(" in [");
                let ghost head = text@;
                let ghost list = texts(searched_roots@);
                let mut i: usize = 0;
                proof {
                    assert(list.take(0) =~= Seq::<Seq<char>>::empty());
                    assert(head + quoted_list(list.take(0)) =~= head);
                }
                while i < searched_roots.len()
                    invariant
                        i <= searched_roots@.len(),
                        list == texts(searched_roots@),
                        text@ == head + quoted_list(list.take(i as int)),
                    decreases searched_roots@.len() - i,
                {
                    let ghost before = text@;
                    if i > 0 {
                        text.append(", ");
                    }
                    text.append("\"");
                    text.append(searched_roots[i].as_str());
                    text.append("\"");
                    proof {
                        let next = list.take(i + 1);
                        assert(next.drop_last() =~= list.take(i as int));
                        assert(next.last() == searched_roots@[i as int]@);
                        if i == 0 {
                            assert(next[0] == next.last());
                            assert(quoted_list(list.take(0)) =~= Seq::<char>::empty());
                            assert(text@ =~= head + quoted_list(next));
                        } else {
                            assert(text@ =~= head + quoted_list(next));
                        }
                    }
                    i += 1;
                }
                proof {
                    assert(list.take(searched_roots@.len() as int) =~= list);
                }
                text.append("]");
                proof {
                    assert(text@ =~= self@.message());
                }
                text
            },
        }
    }
}

/// The paths of the kits of a host.
pub open spec fn root_paths(roots: Seq<(Seq<char>, Seq<char>)>) -> Seq<Seq<char>> {
    Seq::new(roots.len(), |i: int| roots[i].1)
}

impl SystemView {
    /// The resource compiler for a build: `rc.exe` for the architecture of
    /// the target, from the SDK of the preferred version if there is one
    /// that has it, else from the SDK with the greatest version that has it.
    pub open spec fn resolve(
        self,
        target_arch: Seq<char>,
        preferred: Option<Seq<char>>,
        fs: FileIndexView,
    ) -> Result<ToolView, ResolutionFault> {
        match Arch::for_target(target_arch) {
            None => Err(ResolutionFault::UnsupportedArch),
            Some(arch) => {
                let tools = candidates(self.sdks, "rc.exe"@, arch, fs);
                match selected(tools, preferred) {
                    Some(i) => Ok(tools[i]),
                    None => Err(
                        ResolutionFault::ToolNotFound {
                            arch: arch,
                            searched_roots: root_paths(self.installed_roots.kits_roots),
                        },
                    ),
                }
            },
        }
    }
}

impl System {
    /// The tools named `name` for `arch` that the SDKs of the host have.
    pub fn tools(&self, name: &str, arch: Arch, fs: &FileIndex) -> (tools: Vec<Tool>)
        ensures
            tool_views(tools@) == candidates(self@.sdks, name@, arch, fs@),
    {
        let mut tools: Vec<Tool> = Vec::new();
        let ghost sdks = self@.sdks;
        let mut i: usize = 0;
        proof {
            assert(sdks.take(0) =~= Seq::<SdkView>::empty());
            assert(tool_views(tools@) =~= candidates(sdks.take(0), name@, arch, fs@));
        }
        while i < self.sdks.len()
            invariant
                i <= self.sdks@.len(),
                sdks == self@.sdks,
                tool_views(tools@) == candidates(sdks.take(i as int), name@, arch, fs@),
            decreases self.sdks@.len() - i,
        {
            let ghost before = tools@;
            proof {
                let next = sdks.take(i + 1);
                assert(next.drop_last() =~= sdks.take(i as int));
                assert(next.last() == self.sdks@[i as int]@);
            }
            match self.sdks[i].tool(name, arch, fs) {
                Some(tool) => {
                    tools.push(tool);
                    proof {
                        assert(tool_views(tools@) =~= tool_views(before).push(tool@));
                    }
                },
                None => {},
            }
            i += 1;
        }
        proof {
            assert(sdks.take(self.sdks@.len() as int) =~= sdks);
        }
        tools
    }

    /// The paths of the kits that were searched.
    fn searched_roots(&self) -> (paths: Vec<String>)
        ensures
            texts(paths@) == root_paths(self@.installed_roots.kits_roots),
    {
        let mut paths: Vec<String> = Vec::new();
        let mut i: usize = 0;
        while i < self.installed_roots.kits_roots.len()
            invariant
                i <= self.installed_roots.kits_roots@.len(),
                texts(paths@) == root_paths(self@.installed_roots.kits_roots).take(i as int),
            decreases self.installed_roots.kits_roots@.len() - i,
        {
            let ghost before = paths@;
            paths.push(self.installed_roots.kits_roots[i].1.clone());
            proof {
                assert(texts(paths@) =~= texts(before).push(
                    self.installed_roots.kits_roots@[i as int].1@,
                ));
                assert(texts(paths@) =~= root_paths(self@.installed_roots.kits_roots).take(i + 1));
            }
            i += 1;
        }
        proof {
            assert(root_paths(self@.installed_roots.kits_roots).take(
                self.installed_roots.kits_roots@.len() as int,
            ) =~= root_paths(self@.installed_roots.kits_roots));
        }
        paths
    }
}

/// Finds the resource compiler `rc.exe` of a Windows SDK for a build with
/// the target architecture `target_arch`. Where `preferred_version` names
/// the version of an SDK that has the tool, that SDK's tool is taken: this
/// pins the SDK. Else the tool of the SDK with the greatest version is
/// taken.
pub fn get_sdk(
    system: &System,
    target_arch: &str,
    preferred_version: Option<&str>,
    fs: &FileIndex,
) -> (result: Result<Tool, ResolutionError>)
    ensures
        match result {
            Ok(tool) => system@.resolve(
                target_arch@,
                match preferred_version {
                    Some(version) => Some(version@),
                    None => None,
                },
                fs@,
            ) == Ok::<ToolView, ResolutionFault>(tool@),
            Err(error) => system@.resolve(
                target_arch@,
                match preferred_version {
                    Some(version) => Some(version@),
                    None => None,
                },
                fs@,
            ) == Err::<ToolView, ResolutionFault>(error@),
        },
{
    let arch = match Arch::arch_for_cfg_target(target_arch) {
        Some(arch) => arch,
        None => {
            return Err(ResolutionError::UnsupportedArch);
        },
    };
    let tools = system.tools("rc.exe", arch, fs);
    match select_tool(&tools, preferred_version) {
        Some(i) => Ok(tools[i].clone()),
        None => Err(
            ResolutionError::ToolNotFound { arch: arch, searched_roots: system.searched_roots() },
        ),
    }
}

} // verus!
