//! The artifact store: one byte string per (package name, target triple,
//! version), with conflict detection on publish, resolution of the latest
//! version, and the triple-scoped queries.
use vstd::prelude::*;

use crate::digest::{content_digest, same_bytes, sha256_of};
use crate::model::Triple;
use crate::text::{
    has_text, insert_sorted, lemma_lex_asymmetric, lemma_lex_irreflexive, lemma_lex_total,
    lemma_lex_transitive, lex_lt, strictly_sorted,
    text_eq,
};

verus! {

/// The key of an artifact: package name, target triple and version.
pub type ArtifactKey = (Seq<char>, Triple, Seq<char>);

/// One published artifact.
#[derive(Debug)]
pub struct Artifact {
    pub name: String,
    pub triple: Triple,
    pub version: String,
    pub content: Vec<u8>,
}

impl Artifact {
    pub open spec fn key(&self) -> ArtifactKey {
        (self.name@, self.triple, self.version@)
    }
}

/// What publishing an artifact calls for.
#[derive(Debug, Clone, Copy, PartialEq, Eq, Structural)]
pub enum PutAction {
    /// Nothing is stored under the key yet: the content is to be written.
    Write,
    /// The same content is already stored: nothing changes.
    Unchanged,
}

/// Why a publish is refused.
#[derive(Debug, Clone, Copy, PartialEq, Eq, Structural)]
pub enum PutError {
    /// Different content is already stored under the key.
    Conflict,
}

/// The outcome of a publish, given the digest of what is stored under the
/// key (if anything) and the digest of the incoming content.
pub open spec fn spec_decide(existing: Option<Seq<u8>>, incoming: Seq<u8>) -> Result<PutAction, PutError> {
    match existing {
        None => Ok(PutAction::Write),
        Some(d) => if d == incoming {
            Ok(PutAction::Unchanged)
        } else {
            Err(PutError::Conflict)
        },
    }
}

/// The content stored under `k`, if any.
pub open spec fn stored(m: Map<ArtifactKey, Seq<u8>>, k: ArtifactKey) -> Option<Seq<u8>> {
    if m.contains_key(k) {
        Some(m[k])
    } else {
        None
    }
}

/// The outcome of publishing `content` under `k`: content is compared by digest.
pub open spec fn spec_put(m: Map<ArtifactKey, Seq<u8>>, k: ArtifactKey, content: Seq<u8>) -> Result<PutAction, PutError> {
    match stored(m, k) {
        None => spec_decide(None, sha256_of(content)),
        Some(old) => spec_decide(Some(sha256_of(old)), sha256_of(content)),
    }
}

/// The store after publishing `content` under `k`.
pub open spec fn spec_after_put(m: Map<ArtifactKey, Seq<u8>>, k: ArtifactKey, content: Seq<u8>) -> Map<ArtifactKey, Seq<u8>> {
    if spec_put(m, k, content) == Ok::<PutAction, PutError>(PutAction::Write) {
        m.insert(k, content)
    } else {
        m
    }
}

/// Whether `v` is the latest version of `name` for `triple`: it is published,
/// and no published version orders after it.
pub open spec fn is_latest(m: Map<ArtifactKey, Seq<u8>>, name: Seq<char>, triple: Triple, v: Seq<char>) -> bool {
    &&& m.contains_key((name, triple, v))
    &&& forall|w: Seq<char>| #[trigger] m.contains_key((name, triple, w)) ==> !lex_lt(v, w)
}

/// Whether any version of `name` is published for `triple`.
pub open spec fn has_versions(m: Map<ArtifactKey, Seq<u8>>, name: Seq<char>, triple: Triple) -> bool {
    exists|v: Seq<char>| #[trigger] m.contains_key((name, triple, v))
}

/// The latest version of `name` for `triple`, when any is published.
pub open spec fn latest_of(m: Map<ArtifactKey, Seq<u8>>, name: Seq<char>, triple: Triple) -> Seq<char> {
    choose|v: Seq<char>| is_latest(m, name, triple, v)
}

/// The version that a fetch resolves to: the requested one when it is
/// published, the latest one when none is requested, else nothing.
pub open spec fn resolve(m: Map<ArtifactKey, Seq<u8>>, name: Seq<char>, triple: Triple, version: Option<Seq<char>>) -> Option<Seq<char>> {
    match version {
        Some(v) => if m.contains_key((name, triple, v)) {
            Some(v)
        } else {
            None
        },
        None => if has_versions(m, name, triple) {
            Some(latest_of(m, name, triple))
        } else {
            None
        },
    }
}

/// At most one version is the latest.
pub proof fn lemma_latest_unique(m: Map<ArtifactKey, Seq<u8>>, name: Seq<char>, triple: Triple, v: Seq<char>, w: Seq<char>)
    requires
        is_latest(m, name, triple, v),
        is_latest(m, name, triple, w),
    ensures
        v == w,
{
    if v != w {
        lemma_lex_total(v, w);
    }
}

/// Among finitely many keys with some version of `name` for `triple`, one
/// version orders after no other.
pub proof fn lemma_latest_exists(d: Set<ArtifactKey>, name: Seq<char>, triple: Triple)
    requires
        d.finite(),
        exists|v: Seq<char>| #[trigger] d.contains((name, triple, v)),
    ensures
        exists|v: Seq<char>|
            d.contains((name, triple, v)) && forall|w: Seq<char>| #[trigger]
                d.contains((name, triple, w)) ==> !lex_lt(v, w),
    decreases d.len(),
{
    let v0 = choose|v: Seq<char>| #[trigger] d.contains((name, triple, v));
    let rest = d.remove((name, triple, v0));
    if exists|v: Seq<char>| #[trigger] rest.contains((name, triple, v)) {
        lemma_latest_exists(rest, name, triple);
        let y = choose|v: Seq<char>|
            rest.contains((name, triple, v)) && forall|w: Seq<char>| #[trigger]
                rest.contains((name, triple, w)) ==> !lex_lt(v, w);
        if lex_lt(y, v0) {
            assert forall|w: Seq<char>| #[trigger] d.contains((name, triple, w)) implies !lex_lt(
                v0,
                w,
            ) by {
                if w == v0 {
                    lemma_lex_irreflexive(v0);
                } else {
                    assert(rest.contains((name, triple, w)));
                    if w != y {
                        lemma_lex_total(w, y);
                        lemma_lex_transitive(w, y, v0);
                    }
                    lemma_lex_asymmetric(w, v0);
                }
            }
        } else {
            assert forall|w: Seq<char>| #[trigger] d.contains((name, triple, w)) implies !lex_lt(
                y,
                w,
            ) by {
                if w != v0 {
                    assert(rest.contains((name, triple, w)));
                }
            }
        }
    } else {
        assert forall|w: Seq<char>| #[trigger] d.contains((name, triple, w)) implies !lex_lt(v0, w) by {
            if w != v0 {
                assert(rest.contains((name, triple, w)));
            }
            lemma_lex_irreflexive(v0);
        }
    }
}

/// In a finite store with some version of `name` for `triple`, the latest
/// version exists and is the one that `latest_of` names.
pub proof fn lemma_latest_of(m: Map<ArtifactKey, Seq<u8>>, name: Seq<char>, triple: Triple)
    requires
        m.dom().finite(),
        has_versions(m, name, triple),
    ensures
        is_latest(m, name, triple, latest_of(m, name, triple)),
{
    let v = choose|v: Seq<char>| #[trigger] m.contains_key((name, triple, v));
    assert(m.dom().contains((name, triple, v)));
    lemma_latest_exists(m.dom(), name, triple);
    let w = choose|w: Seq<char>|
        m.dom().contains((name, triple, w)) && forall|u: Seq<char>| #[trigger]
            m.dom().contains((name, triple, u)) ==> !lex_lt(w, u);
    assert(is_latest(m, name, triple, w));
}

/// Decides a publish from the digest of the stored content, if any, and the
/// digest of the incoming content.
pub fn decide(existing: Option<&[u8]>, incoming: &[u8]) -> (r: Result<PutAction, PutError>)
    ensures
        r == spec_decide(
            match existing {
                Some(d) => Some(d@),
                None => None,
            },
            incoming@,
        ),
{
    match existing {
        None => Ok(PutAction::Write),
        Some(d) => if same_bytes(d, incoming) {
            Ok(PutAction::Unchanged)
        } else {
            Err(PutError::Conflict)
        },
    }
}

/// Artifacts by (name, triple, version); each key holds one byte string.
pub struct ArtifactStore {
    artifacts: Vec<Artifact>,
    contents: Ghost<Map<ArtifactKey, Seq<u8>>>,
}

impl View for ArtifactStore {
    type V = Map<ArtifactKey, Seq<u8>>;

    closed spec fn view(&self) -> Map<ArtifactKey, Seq<u8>> {
        self.contents@
    }
}

impl ArtifactStore {
    /// Well-formedness: the ghost map holds exactly the stored artifacts, one
    /// per key.
    pub closed spec fn wf(&self) -> bool {
        &&& self.contents@.dom().finite()
        &&& forall|i: int|
            #![trigger self.artifacts@[i]]
            0 <= i < self.artifacts@.len() ==> self.contents@.contains_key(self.artifacts@[i].key())
                && self.contents@[self.artifacts@[i].key()] == self.artifacts@[i].content@
        &&& forall|k: ArtifactKey|
            #[trigger] self.contents@.contains_key(k) ==> exists|i: int|
                0 <= i < self.artifacts@.len() && (#[trigger] self.artifacts@[i]).key() == k
        &&& forall|i: int, j: int|
            0 <= i < j < self.artifacts@.len() ==> (#[trigger] self.artifacts@[i]).key() != (
            #[trigger] self.artifacts@[j]).key()
    }

    /// A well-formed store holds finitely many artifacts.
    pub proof fn lemma_finite(&self)
        requires
            self.wf(),
        ensures
            self@.dom().finite(),
    {
    }

    /// An empty store.
    pub fn new() -> (r: ArtifactStore)
        ensures
            r.wf(),
            r@ == Map::<ArtifactKey, Seq<u8>>::empty(),
    {
        ArtifactStore { artifacts: Vec::new(), contents: Ghost(Map::empty()) }
    }

    /// The position of the artifact under the key, if any.
    fn find(&self, name: &str, triple: Triple, version: &str) -> (r: Option<usize>)
        requires
            self.wf(),
        ensures
            match r {
                Some(i) => i < self.artifacts@.len() && self.artifacts@[i as int].key() == (
                name@, triple, version@),
                None => !self@.contains_key((name@, triple, version@)),
            },
    {
        let n = self.artifacts.len();
        let mut i: usize = 0;
        while i < n
            invariant
                n == self.artifacts@.len(),
                i <= n,
                forall|j: int|
                    0 <= j < i ==> (#[trigger] self.artifacts@[j]).key() != (name@, triple, version@),
            decreases n - i,
        {
            let a = &self.artifacts[i];
            if text_eq(a.name.as_str(), name) && a.triple == triple && text_eq(
                a.version.as_str(),
                version,
            ) {
                return Some(i);
            }
            i = i + 1;
        }
        None
    }

    /// The artifact stored under exactly this key, if any.
    pub fn lookup(&self, name: &str, triple: Triple, version: &str) -> (r: Option<&Artifact>)
        requires
            self.wf(),
        ensures
            match r {
                Some(a) => a.key() == (name@, triple, version@) && self@.contains_key(a.key())
                    && a.content@ == self@[a.key()],
                None => !self@.contains_key((name@, triple, version@)),
            },
    {
        match self.find(name, triple, version) {
            Some(i) => Some(&self.artifacts[i]),
            None => None,
        }
    }

    /// What publishing `content` under the key calls for, without changing
    /// the store.
    pub fn check(&self, name: &str, triple: Triple, version: &str, content: &[u8]) -> (r: Result<PutAction, PutError>)
        requires
            self.wf(),
        ensures
            r == spec_put(self@, (name@, triple, version@), content@),
    {
        match self.lookup(name, triple, version) {
            None => Ok(PutAction::Write),
            Some(a) => {
                let existing = content_digest(a.content.as_slice());
                let incoming = content_digest(content);
                decide(Some(existing.as_slice()), incoming.as_slice())
            },
        }
    }

    /// Stores content under a key that holds none yet.
    pub fn insert(&mut self, name: String, triple: Triple, version: String, content: Vec<u8>)
        requires
            old(self).wf(),
            !old(self)@.contains_key((name@, triple, version@)),
        ensures
            final(self).wf(),
            final(self)@ == old(self)@.insert((name@, triple, version@), content@),
    {
        let ghost key = (name@, triple, version@);
        let ghost bytes = content@;
        let ghost before = self.artifacts@;
        let ghost m = self.contents@.insert(key, bytes);
        let artifact = Artifact { name, triple, version, content };
        assert(artifact.key() == key);
        self.artifacts.push(artifact);
        self.contents = Ghost(m);
        assert forall|k: ArtifactKey| #[trigger] m.contains_key(k) implies exists|i: int|
            0 <= i < self.artifacts@.len() && (#[trigger] self.artifacts@[i]).key() == k by {
            if k == key {
                assert(self.artifacts@[before.len() as int].key() == k);
            } else {
                let i = choose|i: int| 0 <= i < before.len() && (#[trigger] before[i]).key() == k;
                assert(self.artifacts@[i] == before[i]);
            }
        }
        assert forall|i: int, j: int| 0 <= i < j < self.artifacts@.len() implies (
        #[trigger] self.artifacts@[i]).key() != (#[trigger] self.artifacts@[j]).key() by {
            assert(self.artifacts@[i] == before[i]);
            if j < before.len() {
                assert(self.artifacts@[j] == before[j]);
            }
        }
    }

    /// Publishes `content` under the key: written when the key holds nothing,
    /// accepted unchanged when it holds content with the same digest, refused
    /// as a conflict otherwise.
    pub fn put(&mut self, name: String, triple: Triple, version: String, content: Vec<u8>) -> (r: Result<PutAction, PutError>)
        requires
            old(self).wf(),
        ensures
            final(self).wf(),
            r == spec_put(old(self)@, (name@, triple, version@), content@),
            final(self)@ == spec_after_put(old(self)@, (name@, triple, version@), content@),
    {
        let r = self.check(name.as_str(), triple, version.as_str(), content.as_slice());
        if let Ok(PutAction::Write) = r {
            self.insert(name, triple, version, content);
        }
        r
    }

    /// Every published version of `name` for `triple`, in increasing order.
    pub fn list_versions(&self, name: &str, triple: Triple) -> (r: Vec<String>)
        requires
            self.wf(),
        ensures
            strictly_sorted(r@),
            forall|v: Seq<char>| has_text(r@, v) <==> self@.contains_key((name@, triple, v)),
    {
        let n = self.artifacts.len();
        let mut out: Vec<String> = Vec::new();
        let mut i: usize = 0;
        while i < n
            invariant
                n == self.artifacts@.len(),
                i <= n,
                strictly_sorted(out@),
                forall|v: Seq<char>|
                    has_text(out@, v) <==> exists|j: int|
                        0 <= j < i && (#[trigger] self.artifacts@[j]).key() == (name@, triple, v),
            decreases n - i,
        {
            let a = &self.artifacts[i];
            if text_eq(a.name.as_str(), name) && a.triple == triple {
                insert_sorted(&mut out, a.version.clone());
            }
            assert forall|v: Seq<char>|
                has_text(out@, v) <==> exists|j: int|
                    0 <= j < i + 1 && (#[trigger] self.artifacts@[j]).key() == (name@, triple, v) by {
                if self.artifacts@[i as int].key() == (name@, triple, v) {
                    assert(a.version@ == v);
                }
            }
            i = i + 1;
        }
        assert forall|v: Seq<char>| has_text(out@, v) <==> self@.contains_key((name@, triple, v)) by {
            if self@.contains_key((name@, triple, v)) {
                let j = choose|j: int|
                    0 <= j < n && (#[trigger] self.artifacts@[j]).key() == (name@, triple, v);
            }
        }
        out
    }

    /// Every package name with at least one version published for `triple`,
    /// in increasing order.
    pub fn list_package_names(&self, triple: Triple) -> (r: Vec<String>)
        requires
            self.wf(),
        ensures
            strictly_sorted(r@),
            forall|p: Seq<char>| has_text(r@, p) <==> has_versions(self@, p, triple),
    {
        let n = self.artifacts.len();
        let mut out: Vec<String> = Vec::new();
        let mut i: usize = 0;
        while i < n
            invariant
                n == self.artifacts@.len(),
                i <= n,
                strictly_sorted(out@),
                forall|p: Seq<char>|
                    has_text(out@, p) <==> exists|j: int|
                        0 <= j < i && (#[trigger] self.artifacts@[j]).name@ == p
                            && self.artifacts@[j].triple == triple,
            decreases n - i,
        {
            let a = &self.artifacts[i];
            if a.triple == triple {
                insert_sorted(&mut out, a.name.clone());
            }
            assert forall|p: Seq<char>|
                has_text(out@, p) <==> exists|j: int|
                    0 <= j < i + 1 && (#[trigger] self.artifacts@[j]).name@ == p
                        && self.artifacts@[j].triple == triple by {
                if self.artifacts@[i as int].name@ == p && self.artifacts@[i as int].triple == triple {
                    assert(a.name@ == p);
                }
            }
            i = i + 1;
        }
        assert forall|p: Seq<char>| has_text(out@, p) <==> has_versions(self@, p, triple) by {
            if has_text(out@, p) {
                let j = choose|j: int|
                    0 <= j < n && (#[trigger] self.artifacts@[j]).name@ == p
                        && self.artifacts@[j].triple == triple;
                assert(self@.contains_key((p, triple, self.artifacts@[j].version@)));
            }
            if has_versions(self@, p, triple) {
                let v = choose|v: Seq<char>| #[trigger] self@.contains_key((p, triple, v));
                let j = choose|j: int|
                    0 <= j < n && (#[trigger] self.artifacts@[j]).key() == (p, triple, v);
            }
        }
        out
    }

    /// The artifact under the exact version when one is given; otherwise the
    /// latest version of `name` for `triple`, by lexicographic order.
    pub fn get(&self, name: &str, triple: Triple, version: Option<&str>) -> (r: Option<&Artifact>)
        requires
            self.wf(),
        ensures
            match version {
                Some(v) => match r {
                    Some(a) => a.key() == (name@, triple, v@) && self@.contains_key(a.key())
                        && a.content@ == self@[a.key()],
                    None => !self@.contains_key((name@, triple, v@)),
                },
                None => match r {
                    Some(a) => a.name@ == name@ && a.triple == triple && is_latest(
                        self@,
                        name@,
                        triple,
                        a.version@,
                    ) && a.content@ == self@[a.key()],
                    None => !has_versions(self@, name@, triple),
                },
            },
    {
        match version {
            Some(v) => self.lookup(name, triple, v),
            None => {
                let versions = self.list_versions(name, triple);
                let n = versions.len();
                if n == 0 {
                    assert forall|v: Seq<char>| !self@.contains_key((name@, triple, v)) by {
                        if self@.contains_key((name@, triple, v)) {
                            assert(has_text(versions@, v));
                        }
                    }
                    return None;
                }
                let last = &versions[n - 1];
                assert(has_text(versions@, last@));
                proof {
                    assert forall|w: Seq<char>| #[trigger]
                        self@.contains_key((name@, triple, w)) implies !lex_lt(last@, w) by {
                        assert(has_text(versions@, w));
                        let k = choose|k: int| 0 <= k < n && (#[trigger] versions@[k])@ == w;
                        if k == n - 1 {
                            lemma_lex_irreflexive(w);
                        } else {
                            assert(lex_lt(versions@[k]@, versions@[n - 1]@));
                            lemma_lex_asymmetric(w, last@);
                        }
                    }
                }
                self.lookup(name, triple, last.as_str())
            },
        }
    }
}

} // verus!
