//! The decisions of the command-line client: package identifiers, the triple
//! of the running host, which target of a package manifest to publish, which
//! version to install, and the record of installed packages.
use vstd::prelude::*;

use crate::model::Triple;
use crate::text::{
    lemma_lex_asymmetric, lemma_lex_irreflexive, lemma_lex_total, lemma_lex_transitive, lex_lt,
    text_eq, text_lt,
};

verus! {

broadcast use vstd::seq_lib::group_to_multiset_ensures;

/// A package named on the command line, optionally with a version:
/// `NAME` or `NAME@VERSION`.
#[derive(Debug, Clone)]
pub struct Identifier {
    pub name: String,
    pub version: Option<String>,
}

/// Why a package identifier is refused.
#[derive(Debug, Clone, Copy, PartialEq, Eq, Structural)]
pub enum IdentifierError {
    /// More than one `@` separator.
    TooManyComponents,
}

/// Whether `s` holds the character `c`.
pub open spec fn holds(s: Seq<char>, c: char) -> bool {
    exists|i: int| 0 <= i < s.len() && s[i] == c
}

impl Identifier {
    /// Parses `NAME` or `NAME@VERSION`; a second `@` is refused.
    pub fn parse(s: &str) -> (r: Result<Identifier, IdentifierError>)
        ensures
            match r {
                Ok(id) => match id.version {
                    None => id.name@ == s@ && !holds(s@, '@'),
                    Some(v) => s@ == id.name@ + seq!['@'] + v@ && !holds(id.name@, '@') && !holds(
                        v@,
                        '@',
                    ),
                },
                Err(_) => exists|i: int, j: int|
                    0 <= i < j < s@.len() && s@[i] == '@' && s@[j] == '@',
            },
    {
        let n = s.unicode_len();
        let mut first: Option<usize> = None;
        let mut i: usize = 0;
        while i < n
            invariant
                n == s@.len(),
                i <= n,
                match first {
                    None => forall|k: int| 0 <= k < i ==> s@[k] != '@',
                    Some(p) => p < i && s@[p as int] == '@' && forall|k: int|
                        0 <= k < i && k != p ==> s@[k] != '@',
                },
            decreases n - i,
        {
            if s.get_char(i) == '@' {
                if let Some(p) = first {
                    return Err(IdentifierError::TooManyComponents);
                }
                first = Some(i);
            }
            i = i + 1;
        }
        match first {
            None => {
                Ok(Identifier { name: String::from_str(s), version: None })
            },
            Some(p) => {
                let name = s.substring_char(0, p);
                let version = s.substring_char(p + 1, n);
                assert(s@ =~= name@ + seq!['@'] + version@);
                proof {
                    if holds(name@, '@') {
                        let k = choose|k: int| 0 <= k < name@.len() && name@[k] == '@';
                        assert(s@[k] == '@');
                    }
                    if holds(version@, '@') {
                        let k = choose|k: int| 0 <= k < version@.len() && version@[k] == '@';
                        assert(s@[p + 1 + k] == '@');
                    }
                }
                Ok(
                    Identifier {
                        name: String::from_str(name),
                        version: Some(String::from_str(version)),
                    },
                )
            },
        }
    }

    /// The version to install, given the identifier's own and the one given
    /// by flag; `None` when both are given.
    pub fn requested_version(&self, flag: Option<String>) -> (r: Option<Option<String>>)
        ensures
            match (self.version, flag) {
                (Some(_), Some(_)) => r is None,
                (Some(v), None) => r == Some(Some(v)),
                (None, f) => r == Some(f),
            },
    {
        match (&self.version, flag) {
            (Some(_), Some(_)) => None,
            (Some(v), None) => Some(Some(v.clone())),
            (None, f) => Some(f),
        }
    }
}

/// The triple of a host, from the architecture and operating system names
/// that Rust reports for it.
pub open spec fn spec_host_triple(arch: Seq<char>, os: Seq<char>) -> Option<Triple> {
    if arch == "x86_64"@ && os == "linux"@ {
        Some(Triple::X86_64Linux)
    } else if arch == "aarch64"@ && os == "linux"@ {
        Some(Triple::Aarch64Linux)
    } else if arch == "x86_64"@ && os == "macos"@ {
        Some(Triple::X86_64Darwin)
    } else if arch == "aarch64"@ && os == "macos"@ {
        Some(Triple::Aarch64Darwin)
    } else if arch == "x86_64"@ && os == "windows"@ {
        Some(Triple::X86_64Windows)
    } else if arch == "aarch64"@ && os == "windows"@ {
        Some(Triple::Aarch64Windows)
    } else {
        None
    }
}

/// The triple of a host; `None` for an unsupported one.
pub fn host_triple(arch: &str, os: &str) -> (r: Option<Triple>)
    ensures
        r == spec_host_triple(arch@, os@),
{
    let x86 = text_eq(arch, "x86_64");
    let arm = text_eq(arch, "aarch64");
    if text_eq(os, "linux") {
        if x86 {
            Some(Triple::X86_64Linux)
        } else if arm {
            Some(Triple::Aarch64Linux)
        } else {
            None
        }
    } else if text_eq(os, "macos") {
        if x86 {
            Some(Triple::X86_64Darwin)
        } else if arm {
            Some(Triple::Aarch64Darwin)
        } else {
            None
        }
    } else if text_eq(os, "windows") {
        if x86 {
            Some(Triple::X86_64Windows)
        } else if arm {
            Some(Triple::Aarch64Windows)
        } else {
            None
        }
    } else {
        None
    }
}

/// The position of a latest string of `versions` by lexicographic order;
/// `None` when there is none.
pub fn latest_version(versions: &Vec<String>) -> (r: Option<usize>)
    ensures
        match r {
            None => versions@.len() == 0,
            Some(i) => i < versions@.len() && forall|j: int|
                0 <= j < versions@.len() ==> !lex_lt(versions@[i as int]@, (#[trigger] versions@[j])@),
        },
{
    let n = versions.len();
    if n == 0 {
        return None;
    }
    let mut best: usize = 0;
    let mut i: usize = 1;
    proof {
        lemma_lex_irreflexive(versions@[0]@);
    }
    while i < n
        invariant
            n == versions@.len(),
            1 <= i <= n,
            best < i,
            forall|j: int| 0 <= j < i ==> !lex_lt(versions@[best as int]@, (#[trigger] versions@[j])@),
        decreases n - i,
    {
        if text_lt(versions[best].as_str(), versions[i].as_str()) {
            let ghost old_best = best;
            proof {
                assert forall|j: int| 0 <= j < i + 1 implies !lex_lt(
                    versions@[i as int]@,
                    (#[trigger] versions@[j])@,
                ) by {
                    let b = versions@[old_best as int]@;
                    let c = versions@[i as int]@;
                    let w = versions@[j]@;
                    if j == i {
                        lemma_lex_irreflexive(c);
                    } else if w == b {
                        lemma_lex_asymmetric(b, c);
                    } else {
                        lemma_lex_total(b, w);
                        lemma_lex_transitive(w, b, c);
                        lemma_lex_asymmetric(w, c);
                    }
                }
            }
            best = i;
        }
        i = i + 1;
    }
    Some(best)
}

/// A binary of a package, for one triple.
#[derive(Debug, Clone)]
pub struct Target {
    /// The platform that the binary is for.
    pub triple: Triple,
    /// Where the binary is.
    pub path: String,
}

/// A package description: its name and version.
#[derive(Debug, Clone)]
pub struct Package {
    pub name: String,
    pub version: String,
}

/// What is needed to publish a package: its description and its binaries.
#[derive(Debug, Clone)]
pub struct PackageManifest {
    pub package: Package,
    pub targets: Vec<Target>,
}

/// Why no target of a package manifest could be chosen.
#[derive(Debug, Clone, Copy, PartialEq, Eq, Structural)]
pub enum TargetError {
    /// The manifest defines no target.
    NoTargets,
    /// Several targets are defined and none was selected.
    NoneSelected,
    /// The selected triple has no target in the manifest.
    NotDefined,
}

impl PackageManifest {
    /// The target to publish: the only one when there is one; otherwise the
    /// first one for the selected triple.
    pub fn select_target(&self, triple: Option<Triple>) -> (r: Result<&Target, TargetError>)
        ensures
            self.targets@.len() == 0 ==> r == Err::<&Target, TargetError>(TargetError::NoTargets),
            self.targets@.len() == 1 ==> r == Ok::<&Target, TargetError>(&self.targets@[0]),
            self.targets@.len() > 1 && triple is None ==> r == Err::<&Target, TargetError>(
                TargetError::NoneSelected,
            ),
            self.targets@.len() > 1 && triple is Some ==> match r {
                Ok(t) => exists|i: int|
                    0 <= i < self.targets@.len() && *t == self.targets@[i] && t.triple
                        == triple.unwrap() && forall|j: int|
                        0 <= j < i ==> (#[trigger] self.targets@[j]).triple != triple.unwrap(),
                Err(e) => e == TargetError::NotDefined && forall|j: int|
                    0 <= j < self.targets@.len() ==> (#[trigger] self.targets@[j]).triple
                        != triple.unwrap(),
            },
    {
        let n = self.targets.len();
        if n == 0 {
            return Err(TargetError::NoTargets);
        }
        if n == 1 {
            return Ok(&self.targets[0]);
        }
        let wanted = match triple {
            None => return Err(TargetError::NoneSelected),
            Some(t) => t,
        };
        let mut i: usize = 0;
        while i < n
            invariant
                n == self.targets@.len(),
                n > 1,
                triple == Some(wanted),
                i <= n,
                forall|j: int| 0 <= j < i ==> (#[trigger] self.targets@[j]).triple != wanted,
            decreases n - i,
        {
            if self.targets[i].triple == wanted {
                return Ok(&self.targets[i]);
            }
            i = i + 1;
        }
        Err(TargetError::NotDefined)
    }
}

/// Whether an uninstall of `name` means the registry client itself.
pub fn names_self(name: &str) -> (r: bool)
    ensures
        r == (name@ == "self"@ || name@ == "armory"@),
{
    text_eq(name, "self") || text_eq(name, "armory")
}

/// An installed package.
#[derive(Debug, Clone)]
pub struct PackageRecord {
    pub name: String,
    pub version: String,
}

/// Whether the records stand in order of name, equal names in any order.
pub open spec fn sorted_by_name(s: Seq<PackageRecord>) -> bool {
    forall|i: int, j: int|
        0 <= i < j < s.len() ==> !lex_lt((#[trigger] s[j]).name@, (#[trigger] s[i]).name@)
}

/// Whether `r` is `s` reordered: `r[k]` is `s[from[k]]`, each position of
/// `s` used once, and records of equal names kept in their order in `s`.
pub open spec fn stable_from(s: Seq<PackageRecord>, r: Seq<PackageRecord>, from: Seq<int>) -> bool {
    &&& from.len() == r.len()
    &&& forall|k: int| 0 <= k < r.len() ==> 0 <= #[trigger] from[k] < s.len() && r[k] == s[from[k]]
    &&& forall|a: int, b: int| 0 <= a < b < r.len() ==> #[trigger] from[a] != #[trigger] from[b]
    &&& forall|a: int, b: int|
        0 <= a < b < r.len() && (#[trigger] r[a]).name@ == (#[trigger] r[b]).name@ ==> from[a]
            < from[b]
}

/// The record of installed packages.
#[derive(Debug, Clone)]
pub struct Manifest {
    packages: Vec<PackageRecord>,
}

impl View for Manifest {
    type V = Seq<PackageRecord>;

    closed spec fn view(&self) -> Seq<PackageRecord> {
        self.packages@
    }
}

impl Manifest {
    /// An empty record.
    pub fn new() -> (r: Manifest)
        ensures
            r@ == Seq::<PackageRecord>::empty(),
    {
        Manifest { packages: Vec::new() }
    }

    /// A record holding the given packages, in the given order.
    pub fn from_packages(packages: Vec<PackageRecord>) -> (r: Manifest)
        ensures
            r@ == packages@,
    {
        Manifest { packages }
    }

    /// The installed packages.
    pub fn packages(&self) -> (r: &[PackageRecord])
        ensures
            r@ == self@,
    {
        self.packages.as_slice()
    }

    /// Records an installed package.
    pub fn add_package(&mut self, name: String, version: String)
        ensures
            final(self)@ == old(self)@.push(PackageRecord { name, version }),
    {
        self.packages.push(PackageRecord { name, version });
    }

    /// Forgets the first package of the given name; nothing changes when
    /// there is none.
    pub fn remove_package(&mut self, name: String)
        ensures
            match first_named(old(self)@, name@) {
                Some(i) => final(self)@ == old(self)@.remove(i),
                None => final(self)@ == old(self)@,
            },
    {
        let n = self.packages.len();
        let mut i: usize = 0;
        while i < n
            invariant
                n == self.packages@.len(),
                self.packages@ == old(self).packages@,
                i <= n,
                forall|j: int| 0 <= j < i ==> (#[trigger] self.packages@[j]).name@ != name@,
            decreases n - i,
        {
            if text_eq(self.packages[i].name.as_str(), name.as_str()) {
                self.packages.remove(i);
                return;
            }
            i = i + 1;
        }
    }

    /// The same records ordered by name, as they are written out; records of
    /// equal names keep their order.
    pub fn sorted(&self) -> (r: Manifest)
        ensures
            sorted_by_name(r@),
            r@.to_multiset() == self@.to_multiset(),
            exists|from: Seq<int>| stable_from(self@, r@, from),
    {
        let n = self.packages.len();
        let mut out: Vec<PackageRecord> = Vec::new();
        let ghost mut from: Seq<int> = Seq::empty();
        let mut i: usize = 0;
        while i < n
            invariant
                n == self.packages@.len(),
                i <= n,
                sorted_by_name(out@),
                out@.to_multiset() == self.packages@.take(i as int).to_multiset(),
                stable_from(self.packages@, out@, from),
                forall|k: int| 0 <= k < from.len() ==> #[trigger] from[k] < i,
            decreases n - i,
        {
            let ghost item = self.packages@[i as int];
            let m = out.len();
            let mut p: usize = 0;
            while p < m && !text_lt(self.packages[i].name.as_str(), out[p].name.as_str())
                invariant
                    m == out@.len(),
                    p <= m,
                    i < n,
                    n == self.packages@.len(),
                    item == self.packages@[i as int],
                    forall|k: int| 0 <= k < p ==> !lex_lt(item.name@, (#[trigger] out@[k]).name@),
                decreases m - p,
            {
                p = p + 1;
            }
            let ghost before = out@;
            let ghost old_from = from;
            let entry = PackageRecord {
                name: self.packages[i].name.clone(),
                version: self.packages[i].version.clone(),
            };
            assert(entry == item);
            out.insert(p, entry);
            assert forall|a: int, b: int| 0 <= a < b < out@.len() implies !lex_lt(
                (#[trigger] out@[b]).name@,
                (#[trigger] out@[a]).name@,
            ) by {
                if b < p {
                    assert(out@[a] == before[a] && out@[b] == before[b]);
                } else if b == p {
                    assert(out@[a] == before[a]);
                } else if a == p {
                    assert(out@[b] == before[b - 1]);
                    let x = item.name@;
                    let y = before[p as int].name@;
                    let z = before[b - 1].name@;
                    if b - 1 > p {
                        if y != z {
                            lemma_lex_total(y, z);
                            lemma_lex_transitive(x, y, z);
                        }
                    }
                    lemma_lex_asymmetric(x, z);
                } else if a < p {
                    assert(out@[a] == before[a] && out@[b] == before[b - 1]);
                    let x = item.name@;
                    let w = before[a].name@;
                    let y = before[p as int].name@;
                    let z = before[b - 1].name@;
                    // w <= x < y <= z
                    lemma_lex_asymmetric(x, y);
                    if w != x {
                        lemma_lex_total(w, x);
                        lemma_lex_transitive(w, x, y);
                    }
                    if b - 1 > p && y != z {
                        lemma_lex_total(y, z);
                        lemma_lex_transitive(w, y, z);
                    }
                    lemma_lex_asymmetric(w, z);
                } else {
                    assert(out@[a] == before[a - 1] && out@[b] == before[b - 1]);
                }
            }
            proof {
                from = old_from.insert(p as int, i as int);
                assert forall|a: int, b: int|
                    0 <= a < b < out@.len() && (#[trigger] out@[a]).name@ == (
                    #[trigger] out@[b]).name@ implies from[a] < from[b] by {
                    if a == p {
                        let x = item.name@;
                        let y = before[p as int].name@;
                        let z = before[b - 1].name@;
                        assert(out@[b] == before[b - 1]);
                        assert(lex_lt(x, y));
                        if b - 1 > p && y != z {
                            lemma_lex_total(y, z);
                            lemma_lex_transitive(x, y, z);
                        }
                        lemma_lex_irreflexive(x);
                    } else if b == p {
                        assert(from[a] == old_from[a]);
                    } else if b < p {
                        assert(out@[a] == before[a] && out@[b] == before[b]);
                    } else if a < p {
                        assert(out@[a] == before[a] && out@[b] == before[b - 1]);
                        assert(from[b] == old_from[b - 1]);
                    } else {
                        assert(out@[a] == before[a - 1] && out@[b] == before[b - 1]);
                        assert(from[a] == old_from[a - 1] && from[b] == old_from[b - 1]);
                    }
                }
                assert forall|a: int, b: int| 0 <= a < b < out@.len() implies #[trigger] from[a]
                    != #[trigger] from[b] by {
                    if a < p && b > p {
                        assert(from[b] == old_from[b - 1]);
                    } else if a > p {
                        assert(from[a] == old_from[a - 1] && from[b] == old_from[b - 1]);
                    }
                }
                assert forall|k: int| 0 <= k < out@.len() implies 0 <= #[trigger] from[k]
                    < self.packages@.len() && out@[k] == self.packages@[from[k]] by {
                    if k < p {
                        assert(out@[k] == before[k]);
                    } else if k > p {
                        assert(out@[k] == before[k - 1]);
                    }
                }
            }
            assert(self.packages@.take(i + 1) =~= self.packages@.take(i as int).push(item));
            i = i + 1;
        }
        assert(self.packages@.take(n as int) =~= self.packages@);
        let r = Manifest { packages: out };
        assert(stable_from(self@, r@, from));
        r
    }
}

/// The position of the first record with the given name, if any.
pub open spec fn first_named(s: Seq<PackageRecord>, name: Seq<char>) -> Option<int> {
    if exists|i: int| 0 <= i < s.len() && (#[trigger] s[i]).name@ == name {
        Some(
            choose|i: int|
                0 <= i < s.len() && (#[trigger] s[i]).name@ == name && forall|j: int|
                    0 <= j < i ==> (#[trigger] s[j]).name@ != name,
        )
    } else {
        None
    }
}

} // verus!
