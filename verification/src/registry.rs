//! The record that the host's registry keeps of the installed Windows Kits.

use vstd::prelude::*;
use vstd::string::StringExecFns;
use crate::text::{
    chars_of, find, first_word, lines, pieces, range_find, range_starts_with, skip_spaces,
    split_lines, starts_with, string_of, texts, trim, trim_range, trim_start, within, word_bound,
};

verus! {

/// The registry key under which the installed Windows Kits are recorded.
pub const INSTALLED_ROOTS_KEY: &'static str =
    r"HKEY_LOCAL_MACHINE\SOFTWARE\Microsoft\Windows Kits\Installed Roots";

/// The name of a registry value that holds the path of an installed kit,
/// such as `KitsRoot10`.
#[derive(PartialEq, Eq, Debug, Hash)]
pub struct KitsRoot(String);

impl View for KitsRoot {
    type V = Seq<char>;

    closed spec fn view(&self) -> Seq<char> {
        self.0@
    }
}

impl KitsRoot {
    /// A kit identifier with the given name.
    pub fn new(name: &str) -> (root: KitsRoot)
        ensures
            root@ == name@,
    {
        KitsRoot(name.to_owned())
    }

    /// The name of the registry value.
    pub fn as_str(&self) -> (name: &str)
        ensures
            name@ == self@,
    {
        self.0.as_str()
    }
}

impl Clone for KitsRoot {
    fn clone(&self) -> (copy: KitsRoot)
        ensures
            copy@ == self@,
    {
        KitsRoot(self.0.clone())
    }
}

/// Why the installed SDKs could not be listed.
#[derive(Debug, PartialEq, Eq)]
pub enum DiscoveryError {
    /// The registry records no installed kit.
    NoRootsFound,
    /// A directory of an SDK could not be read.
    UnreadableDirectory { path: String },
}

/// What a `DiscoveryError` holds, as mathematical values.
pub enum DiscoveryFault {
    NoRootsFound,
    UnreadableDirectory { path: Seq<char> },
}

impl View for DiscoveryError {
    type V = DiscoveryFault;

    open spec fn view(&self) -> DiscoveryFault {
        match self {
            DiscoveryError::NoRootsFound => DiscoveryFault::NoRootsFound,
            DiscoveryError::UnreadableDirectory { path } => DiscoveryFault::UnreadableDirectory {
                path: path@,
            },
        }
    }
}

impl DiscoveryFault {
    /// The error in words.
    pub open spec fn message(self) -> Seq<char> {
        match self {
            DiscoveryFault::NoRootsFound => "no installed root found"@,
            DiscoveryFault::UnreadableDirectory { path } => "cannot read the directory "@ + path,
        }
    }
}

impl DiscoveryError {
    /// The error in words.
    pub fn message(&self) -> (text: String)
        ensures
            text@ == self@.message(),
    {
        match self {
            DiscoveryError::NoRootsFound => "no installed root found".to_owned(),
            DiscoveryError::UnreadableDirectory { path } => {
                let mut text = "cannot read the directory ".to_owned();
                text.append(path.as_str());
                text
            },
        }
    }
}

/// What a line of the registry's answer says of an installed kit: the name
/// of the value, which is the line's first word, and the path, which is what
/// follows the type marker `REG_SZ` and the white space behind it. `None`
/// for a line that does not begin with `KitsRoot`, and for one without the
/// marker.
pub open spec fn root_entry(line: Seq<char>) -> Option<(Seq<char>, Seq<char>)> {
    if starts_with(line, "KitsRoot"@) {
        match find(line, "REG_SZ"@) {
            Some(at) => Some((first_word(line), trim_start(line.skip(at + "REG_SZ"@.len())))),
            None => None,
        }
    } else {
        None
    }
}

/// What a line of the registry's answer says of an SDK version: the line
/// names a subkey of the key of the installed kits, and the version is the
/// name of the subkey, behind the key and the separator. `None` for any other
/// line, and for the line of the key itself.
pub open spec fn version_entry(line: Seq<char>) -> Option<Seq<char>> {
    let key = INSTALLED_ROOTS_KEY@;
    if !starts_with(line, "KitsRoot"@) && starts_with(line, key) && line.len() > key.len() + 1 {
        Some(line.skip(key.len() as int + 1))
    } else {
        None
    }
}

/// The kits that the lines name, in order. Each line counts without the
/// white space around it.
pub open spec fn roots_of(list: Seq<Seq<char>>) -> Seq<(Seq<char>, Seq<char>)>
    decreases list.len(),
{
    if list.len() == 0 {
        Seq::empty()
    } else {
        let before = roots_of(list.drop_last());
        match root_entry(trim(list.last())) {
            Some(root) => before.push(root),
            None => before,
        }
    }
}

/// The SDK versions that the lines name, in order.
pub open spec fn versions_of(list: Seq<Seq<char>>) -> Seq<Seq<char>>
    decreases list.len(),
{
    if list.len() == 0 {
        Seq::empty()
    } else {
        let before = versions_of(list.drop_last());
        match version_entry(trim(list.last())) {
            Some(version) => before.push(version),
            None => before,
        }
    }
}

/// The views of a list of kits.
pub open spec fn root_views(list: Seq<(KitsRoot, String)>) -> Seq<(Seq<char>, Seq<char>)> {
    Seq::new(list.len(), |i: int| (list[i].0@, list[i].1@))
}

/// What an `InstalledRoots` holds, as mathematical values.
pub struct InstalledRootsView {
    pub kits_roots: Seq<(Seq<char>, Seq<char>)>,
    pub sdk_versions: Seq<Seq<char>>,
}

/// The installed Windows Kits, as the registry records them: the kits with
/// their paths, and the versions of the SDKs.
#[derive(Debug, PartialEq)]
pub struct InstalledRoots {
    /// The kits, each with the directory it is installed under.
    pub kits_roots: Vec<(KitsRoot, String)>,
    /// The versions of the SDKs that are recorded.
    pub sdk_versions: Vec<String>,
}

impl View for InstalledRoots {
    type V = InstalledRootsView;

    open spec fn view(&self) -> InstalledRootsView {
        InstalledRootsView {
            kits_roots: root_views(self.kits_roots@),
            sdk_versions: texts(self.sdk_versions@),
        }
    }
}

impl Clone for InstalledRoots {
    fn clone(&self) -> (copy: InstalledRoots)
        ensures
            copy@ == self@,
    {
        let mut kits_roots: Vec<(KitsRoot, String)> = Vec::new();
        let mut i: usize = 0;
        while i < self.kits_roots.len()
            invariant
                i <= self.kits_roots@.len(),
                root_views(kits_roots@) == root_views(self.kits_roots@).take(i as int),
            decreases self.kits_roots@.len() - i,
        {
            let ghost before = kits_roots@;
            kits_roots.push((self.kits_roots[i].0.clone(), self.kits_roots[i].1.clone()));
            assert(root_views(kits_roots@) =~= root_views(before).push(
                root_views(self.kits_roots@)[i as int],
            ));
            assert(root_views(kits_roots@) =~= root_views(self.kits_roots@).take(i + 1));
            i += 1;
        }
        assert(root_views(kits_roots@) =~= root_views(self.kits_roots@));
        let mut sdk_versions: Vec<String> = Vec::new();
        let mut j: usize = 0;
        while j < self.sdk_versions.len()
            invariant
                j <= self.sdk_versions@.len(),
                texts(sdk_versions@) == texts(self.sdk_versions@).take(j as int),
            decreases self.sdk_versions@.len() - j,
        {
            let ghost before = sdk_versions@;
            sdk_versions.push(self.sdk_versions[j].clone());
            assert(texts(sdk_versions@) =~= texts(before).push(self.sdk_versions@[j as int]@));
            assert(texts(sdk_versions@) =~= texts(self.sdk_versions@).take(j + 1));
            j += 1;
        }
        assert(texts(sdk_versions@) =~= texts(self.sdk_versions@));
        InstalledRoots { kits_roots, sdk_versions }
    }
}

impl InstalledRoots {
    /// Reads the registry's answer to a query for the key of the installed
    /// kits. A line that begins with `KitsRoot` names a kit and its path; a
    /// line that names a subkey of the key names an SDK version; every other
    /// line, and a kit's line without the marker `REG_SZ`, is passed over.
    /// An answer that names no kit is an error.
    pub fn new(registry_output: &str) -> (result: Result<InstalledRoots, DiscoveryError>)
        ensures
            match result {
                Ok(roots) => {
                    &&& roots@.kits_roots == roots_of(lines(registry_output@))
                    &&& roots@.sdk_versions == versions_of(lines(registry_output@))
                    &&& roots@.kits_roots.len() > 0
                },
                Err(error) => {
                    &&& error@ == DiscoveryFault::NoRootsFound
                    &&& roots_of(lines(registry_output@)).len() == 0
                },
            },
    {
        let text = chars_of(registry_output);
        let bounds = split_lines(&text);
        let prefix = chars_of("KitsRoot");
        let marker = chars_of("REG_SZ");
        let key = chars_of(INSTALLED_ROOTS_KEY);
        let ghost list = lines(registry_output@);
        let mut roots: Vec<(KitsRoot, String)> = Vec::new();
        let mut versions: Vec<String> = Vec::new();
        let mut i: usize = 0;
        proof {
            assert(list.take(0) =~= Seq::<Seq<char>>::empty());
            assert(root_views(roots@) =~= roots_of(list.take(0)));
            assert(texts(versions@) =~= versions_of(list.take(0)));
        }
        while i < bounds.len()
            invariant
                i <= bounds@.len(),
                text@ == registry_output@,
                list == lines(registry_output@),
                within(bounds@, text@.len()),
                pieces(text@, bounds@) == list,
                prefix@ == "KitsRoot"@,
                marker@ == "REG_SZ"@,
                key@ == INSTALLED_ROOTS_KEY@,
                root_views(roots@) == roots_of(list.take(i as int)),
                texts(versions@) == versions_of(list.take(i as int)),
            decreases bounds@.len() - i,
        {
            let (from, to) = bounds[i];
            proof {
                assert(bounds@[i as int].0 <= bounds@[i as int].1 <= text@.len());
                assert(list[i as int] == text@.subrange(from as int, to as int));
            }
            let (a, b) = trim_range(&text, from, to);
            let ghost line = text@.subrange(a as int, b as int);
            let ghost next = list.take(i + 1);
            let ghost old_roots = roots@;
            let ghost old_versions = versions@;
            proof {
                assert(next.drop_last() =~= list.take(i as int));
                assert(next.last() == list[i as int]);
                assert(line == trim(next.last()));
            }
            if range_starts_with(&text, a, b, &prefix) {
                match range_find(&text, a, b, &marker) {
                    Some(at) => {
                        let end = word_bound(&text, a, b);
                        let name = string_of(&text, a, end);
                        let after = a + at + marker.len();
                        let start = skip_spaces(&text, after, b);
                        let path = string_of(&text, start, b);
                        proof {
                            assert(line.skip(at + marker@.len()) =~= text@.subrange(
                                after as int,
                                b as int,
                            ));
                        }
                        roots.push((KitsRoot(name), path));
                        proof {
                            assert(root_views(roots@) =~= root_views(old_roots).push(
                                (name@, path@),
                            ));
                        }
                    },
                    None => {},
                }
            } else if range_starts_with(&text, a, b, &key) {
                if b - a > key.len() && b - a - key.len() > 1 {
                    let version = string_of(&text, a + key.len() + 1, b);
                    proof {
                        assert(line.skip(key@.len() as int + 1) =~= text@.subrange(
                            a + key@.len() + 1,
                            b as int,
                        ));
                    }
                    versions.push(version);
                    proof {
                        assert(texts(versions@) =~= texts(old_versions).push(version@));
                    }
                }
            }
            proof {
                assert(root_views(roots@) == roots_of(next));
                assert(texts(versions@) == versions_of(next));
            }
            i += 1;
        }
        proof {
            assert(list.take(bounds@.len() as int) =~= list);
        }
        if roots.len() > 0 {
            Ok(InstalledRoots { kits_roots: roots, sdk_versions: versions })
        } else {
            Err(DiscoveryError::NoRootsFound)
        }
    }
}

} // verus!
