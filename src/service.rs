//! The registry service: the credential gate, the four operations over the
//! artifact store, and the encoding of their results as replies.
use vstd::prelude::*;

use crate::digest::sha256_of;
use crate::encoding::{base64_decoded, base64_encoded, decode_content, encode_content};
use crate::model::{
    ErrorCode, ErrorInfo, GeneralError, GetError, GetInfoError, GetInfoInput, GetInfoOutput,
    GetInput, GetOutput, ListError, ListInput, ListOutput, PublishError, PublishInput,
    PublishOutput,
};
use crate::store::{
    has_versions, is_latest, latest_of, lemma_latest_of, lemma_latest_unique, resolve, spec_after_put, spec_put, stored,
    ArtifactKey, ArtifactStore, PutAction,
};
use crate::text::{has_text, strictly_sorted, text_eq};

verus! {

/// A reply of the registry: the output of the operation, or the code of its
/// error. The success indicator travels apart from the body.
#[derive(Debug)]
pub enum Reply<T> {
    Success(T),
    Failure(ErrorInfo),
}

impl<T> Reply<T> {
    /// The text of the out-of-band success indicator.
    pub fn ok_header(&self) -> (r: &'static str)
        ensures
            r@ == (if self is Success {
                "true"@
            } else {
                "false"@
            }),
    {
        match self {
            Reply::Success(_) => "true",
            Reply::Failure(_) => "false",
        }
    }
}

/// Whether `r` is a failure that carries `code`.
pub open spec fn failed_with<T>(r: Reply<T>, code: Seq<char>) -> bool {
    r matches Reply::Failure(i) && i.code@ == code
}

/// Encodes the result of an operation as a reply.
pub fn reply<T, E: ErrorCode>(r: Result<T, E>) -> (out: Reply<T>)
    ensures
        match r {
            Ok(t) => out == Reply::<T>::Success(t),
            Err(e) => failed_with(out, e.spec_code()),
        },
{
    match r {
        Ok(t) => Reply::Success(t),
        Err(e) => Reply::Failure(e.to_info()),
    }
}

/// The characters of an optional string.
pub open spec fn opt_text(s: Option<&str>) -> Option<Seq<char>> {
    match s {
        Some(t) => Some(t@),
        None => None,
    }
}

/// The credential check: with no secret configured every request passes;
/// otherwise the credential must be present and equal to the secret.
pub open spec fn spec_authenticate(secret: Option<Seq<char>>, credential: Option<Seq<char>>) -> Result<(), GeneralError> {
    match secret {
        None => Ok(()),
        Some(s) => match credential {
            None => Err(GeneralError::PasswordMissing),
            Some(c) => if c == s {
                Ok(())
            } else {
                Err(GeneralError::PasswordInvalid)
            },
        },
    }
}

/// The key under which a publish stores its content.
pub open spec fn publish_key(input: PublishInput) -> ArtifactKey {
    (input.name@, input.triple, input.version@)
}

/// What a get-info reply holds: the name, and every version published for
/// the name and triple, in increasing order.
pub open spec fn info_output(m: Map<ArtifactKey, Seq<u8>>, input: GetInfoInput, o: GetInfoOutput) -> bool {
    &&& o.name@ == input.name@
    &&& strictly_sorted(o.versions@)
    &&& forall|v: Seq<char>| has_text(o.versions@, v) <==> m.contains_key((input.name@, input.triple, v))
}

/// The outcome of a get-info: the versions when any is published for the
/// name and triple, `PackageNotFound` otherwise.
pub open spec fn get_info_outcome(m: Map<ArtifactKey, Seq<u8>>, input: GetInfoInput, r: Result<GetInfoOutput, GetInfoError>) -> bool {
    if has_versions(m, input.name@, input.triple) {
        r matches Ok(o) && info_output(m, input, o)
    } else {
        r == Err::<GetInfoOutput, GetInfoError>(GetInfoError::PackageNotFound)
    }
}

/// What a list reply holds: every package name with a version published for
/// the triple, in increasing order.
pub open spec fn list_output(m: Map<ArtifactKey, Seq<u8>>, input: ListInput, o: ListOutput) -> bool {
    &&& strictly_sorted(o.packages@)
    &&& forall|p: Seq<char>| has_text(o.packages@, p) <==> has_versions(m, p, input.triple)
}

/// The version that a get resolves to.
pub open spec fn get_version(m: Map<ArtifactKey, Seq<u8>>, input: GetInput) -> Option<Seq<char>> {
    resolve(
        m,
        input.name@,
        input.triple,
        match input.version {
            Some(v) => Some(v@),
            None => None,
        },
    )
}

/// The outcome of a get: the resolved version and its content in base64;
/// `PackageNotFound` when nothing resolves; `InternalError` when the content
/// is too large to encode.
pub open spec fn get_outcome(m: Map<ArtifactKey, Seq<u8>>, input: GetInput, r: Result<GetOutput, GetError>) -> bool {
    match get_version(m, input) {
        None => r == Err::<GetOutput, GetError>(GetError::PackageNotFound),
        Some(v) => {
            let c = m[(input.name@, input.triple, v)];
            if c.len() <= usize::MAX / 2 {
                r matches Ok(o) && o.name@ == input.name@ && o.version@ == v && o.content@
                    == base64_encoded(c) && base64_decoded(o.content@) == Some(c)
            } else {
                r == Err::<GetOutput, GetError>(GetError::InternalError)
            }
        },
    }
}

/// The outcome of a publish: `InvalidEncoding` when the content is not valid
/// base64, `VersionExists` on a conflict, success otherwise.
pub open spec fn publish_outcome(m: Map<ArtifactKey, Seq<u8>>, input: PublishInput, r: Result<PublishOutput, PublishError>) -> bool {
    match base64_decoded(input.content@) {
        None => r == Err::<PublishOutput, PublishError>(PublishError::InvalidEncoding),
        Some(b) => match spec_put(m, publish_key(input), b) {
            Ok(_) => r is Ok,
            Err(_) => r == Err::<PublishOutput, PublishError>(PublishError::VersionExists),
        },
    }
}

/// The store after a publish.
pub open spec fn after_publish(m: Map<ArtifactKey, Seq<u8>>, input: PublishInput) -> Map<ArtifactKey, Seq<u8>> {
    match base64_decoded(input.content@) {
        None => m,
        Some(b) => spec_after_put(m, publish_key(input), b),
    }
}

/// A publish that has been decided but not yet applied: the decoded content
/// and what it calls for.
#[derive(Debug)]
pub struct PublishPlan {
    pub content: Vec<u8>,
    pub action: PutAction,
}

/// The registry: the artifact store and the optional shared secret, fixed at
/// startup.
pub struct Registry {
    store: ArtifactStore,
    secret: Option<String>,
}

impl View for Registry {
    type V = Map<ArtifactKey, Seq<u8>>;

    closed spec fn view(&self) -> Map<ArtifactKey, Seq<u8>> {
        self.store@
    }
}

impl Registry {
    pub closed spec fn wf(&self) -> bool {
        self.store.wf()
    }

    /// The configured secret.
    pub closed spec fn spec_secret(&self) -> Option<Seq<char>> {
        match self.secret {
            Some(s) => Some(s@),
            None => None,
        }
    }

    /// A registry over an existing store.
    pub fn new(store: ArtifactStore, secret: Option<String>) -> (r: Registry)
        requires
            store.wf(),
        ensures
            r.wf(),
            r@ == store@,
            r.spec_secret() == match secret {
                Some(s) => Some(s@),
                None => None::<Seq<char>>,
            },
    {
        Registry { store, secret }
    }

    /// A well-formed registry holds finitely many artifacts.
    pub proof fn lemma_finite(&self)
        requires
            self.wf(),
        ensures
            self@.dom().finite(),
    {
        self.store.lemma_finite();
    }

    /// The store behind the registry.
    pub fn store(&self) -> (r: &ArtifactStore)
        requires
            self.wf(),
        ensures
            r.wf(),
            r@ == self@,
    {
        &self.store
    }

    /// Checks the credential of a request against the configured secret.
    pub fn authenticate(&self, credential: Option<&str>) -> (r: Result<(), GeneralError>)
        ensures
            r == spec_authenticate(self.spec_secret(), opt_text(credential)),
    {
        match &self.secret {
            None => Ok(()),
            Some(s) => match credential {
                None => Err(GeneralError::PasswordMissing),
                Some(c) => if text_eq(c, s.as_str()) {
                    Ok(())
                } else {
                    Err(GeneralError::PasswordInvalid)
                },
            },
        }
    }

    /// Decides a publish without applying it: the content is decoded first,
    /// so an invalid encoding is reported before the store is consulted.
    pub fn plan_publish(&self, input: &PublishInput) -> (r: Result<PublishPlan, PublishError>)
        requires
            self.wf(),
        ensures
            match base64_decoded(input.content@) {
                None => r == Err::<PublishPlan, PublishError>(PublishError::InvalidEncoding),
                Some(b) => match spec_put(self@, publish_key(*input), b) {
                    Ok(a) => r matches Ok(p) && p.content@ == b && p.action == a,
                    Err(_) => r == Err::<PublishPlan, PublishError>(PublishError::VersionExists),
                },
            },
    {
        let content = match decode_content(input.content.as_str()) {
            Some(b) => b,
            None => return Err(PublishError::InvalidEncoding),
        };
        match self.store.check(
            input.name.as_str(),
            input.triple,
            input.version.as_str(),
            content.as_slice(),
        ) {
            Ok(action) => Ok(PublishPlan { content, action }),
            Err(_) => Err(PublishError::VersionExists),
        }
    }

    /// Applies a planned publish to the store.
    pub fn commit(&mut self, input: &PublishInput, plan: PublishPlan) -> (r: Result<PublishOutput, PublishError>)
        requires
            old(self).wf(),
        ensures
            final(self).wf(),
            final(self).spec_secret() == old(self).spec_secret(),
            final(self)@ == spec_after_put(old(self)@, publish_key(*input), plan.content@),
            r is Ok <==> spec_put(old(self)@, publish_key(*input), plan.content@) is Ok,
            r is Err ==> r == Err::<PublishOutput, PublishError>(PublishError::VersionExists),
    {
        match self.store.put(input.name.clone(), input.triple, input.version.clone(), plan.content) {
            Ok(_) => Ok(PublishOutput {  }),
            Err(_) => Err(PublishError::VersionExists),
        }
    }

    /// Publishes an artifact: decodes its content, then stores it unless a
    /// different content is already stored under the same key.
    pub fn publish(&mut self, input: &PublishInput) -> (r: Result<PublishOutput, PublishError>)
        requires
            old(self).wf(),
        ensures
            final(self).wf(),
            final(self).spec_secret() == old(self).spec_secret(),
            publish_outcome(old(self)@, *input, r),
            final(self)@ == after_publish(old(self)@, *input),
    {
        match self.plan_publish(input) {
            Ok(plan) => self.commit(input, plan),
            Err(e) => Err(e),
        }
    }

    /// Fetches an artifact: the requested version, or the latest one.
    pub fn get(&self, input: &GetInput) -> (r: Result<GetOutput, GetError>)
        requires
            self.wf(),
        ensures
            get_outcome(self@, *input, r),
    {
        let requested: Option<&str> = match &input.version {
            Some(v) => Some(v.as_str()),
            None => None,
        };
        let found = self.store.get(input.name.as_str(), input.triple, requested);
        proof {
            if input.version is None && has_versions(self@, input.name@, input.triple) {
                let a = found.unwrap();
                let v = latest_of(self@, input.name@, input.triple);
                assert(is_latest(self@, input.name@, input.triple, v));
                lemma_latest_unique(self@, input.name@, input.triple, v, a.version@);
            }
        }
        match found {
            None => Err(GetError::PackageNotFound),
            Some(a) => {
                match encode_content(a.content.as_slice()) {
                    Some(content) => Ok(
                        GetOutput { name: input.name.clone(), version: a.version.clone(), content },
                    ),
                    None => Err(GetError::InternalError),
                }
            },
        }
    }

    /// Lists every version published for a name and triple.
    pub fn get_info(&self, input: &GetInfoInput) -> (r: Result<GetInfoOutput, GetInfoError>)
        requires
            self.wf(),
        ensures
            get_info_outcome(self@, *input, r),
    {
        let versions = self.store.list_versions(input.name.as_str(), input.triple);
        if versions.len() == 0 {
            assert forall|v: Seq<char>| !self@.contains_key((input.name@, input.triple, v)) by {
                if self@.contains_key((input.name@, input.triple, v)) {
                    assert(has_text(versions@, v));
                }
            }
            return Err(GetInfoError::PackageNotFound);
        }
        assert(has_text(versions@, versions@[0]@));
        Ok(GetInfoOutput { name: input.name.clone(), versions })
    }

    /// Lists every package with a version published for the triple.
    pub fn list(&self, input: &ListInput) -> (r: Result<ListOutput, ListError>)
        requires
            self.wf(),
        ensures
            r matches Ok(o) && list_output(self@, *input, o),
    {
        Ok(ListOutput { packages: self.store.list_package_names(input.triple) })
    }

    /// Serves a publish request: the credential is checked first.
    pub fn handle_publish(&mut self, credential: Option<&str>, input: &PublishInput) -> (r: Reply<PublishOutput>)
        requires
            old(self).wf(),
        ensures
            final(self).wf(),
            match spec_authenticate(old(self).spec_secret(), opt_text(credential)) {
                Err(g) => failed_with(r, g.spec_code()) && final(self)@ == old(self)@,
                Ok(_) => final(self)@ == after_publish(old(self)@, *input) && exists|
                    res: Result<PublishOutput, PublishError>,
                |
                    publish_outcome(old(self)@, *input, res) && match res {
                        Ok(_) => r is Success,
                        Err(e) => failed_with(r, e.spec_code()),
                    },
            },
    {
        match self.authenticate(credential) {
            Err(g) => reply(Err(g)),
            Ok(_) => {
                let res = self.publish(input);
                reply(res)
            },
        }
    }

    /// Serves a get request: the credential is checked first.
    pub fn handle_get(&self, credential: Option<&str>, input: &GetInput) -> (r: Reply<GetOutput>)
        requires
            self.wf(),
        ensures
            match spec_authenticate(self.spec_secret(), opt_text(credential)) {
                Err(g) => failed_with(r, g.spec_code()),
                Ok(_) => exists|res: Result<GetOutput, GetError>|
                    get_outcome(self@, *input, res) && match res {
                        Ok(o) => r == Reply::<GetOutput>::Success(o),
                        Err(e) => failed_with(r, e.spec_code()),
                    },
            },
    {
        match self.authenticate(credential) {
            Err(g) => reply(Err(g)),
            Ok(_) => reply(self.get(input)),
        }
    }

    /// Serves a get-info request: the credential is checked first.
    pub fn handle_get_info(&self, credential: Option<&str>, input: &GetInfoInput) -> (r: Reply<GetInfoOutput>)
        requires
            self.wf(),
        ensures
            match spec_authenticate(self.spec_secret(), opt_text(credential)) {
                Err(g) => failed_with(r, g.spec_code()),
                Ok(_) => if has_versions(self@, input.name@, input.triple) {
                    r matches Reply::Success(o) && info_output(self@, *input, o)
                } else {
                    failed_with(r, GetInfoError::PackageNotFound.spec_code())
                },
            },
    {
        match self.authenticate(credential) {
            Err(g) => reply(Err(g)),
            Ok(_) => reply(self.get_info(input)),
        }
    }

    /// Serves a list request: the credential is checked first.
    pub fn handle_list(&self, credential: Option<&str>, input: &ListInput) -> (r: Reply<ListOutput>)
        requires
            self.wf(),
        ensures
            match spec_authenticate(self.spec_secret(), opt_text(credential)) {
                Err(g) => failed_with(r, g.spec_code()),
                Ok(_) => r matches Reply::Success(o) && list_output(self@, *input, o),
            },
    {
        match self.authenticate(credential) {
            Err(g) => reply(Err(g)),
            Ok(_) => reply(self.list(input)),
        }
    }
}

/// Publishing an artifact under a key that is free, or that already holds
/// the same content, succeeds; fetching that exact version afterwards returns
/// the published content, in text that decodes back to the same bytes.
pub proof fn lemma_publish_then_get(m: Map<ArtifactKey, Seq<u8>>, input: PublishInput, bytes: Seq<u8>, query: GetInput)
    requires
        base64_decoded(input.content@) == Some(bytes),
        stored(m, publish_key(input)) is None || stored(m, publish_key(input)) == Some(bytes),
        bytes.len() <= usize::MAX / 2,
        query.name@ == input.name@,
        query.triple == input.triple,
        query.version matches Some(v) && v@ == input.version@,
    ensures
        forall|r: Result<PublishOutput, PublishError>| publish_outcome(m, input, r) ==> r is Ok,
        forall|r: Result<GetOutput, GetError>|
            get_outcome(after_publish(m, input), query, r) ==> (r matches Ok(o) && o.version@
                == input.version@ && o.content@ == base64_encoded(bytes) && base64_decoded(
                o.content@,
            ) == Some(bytes)),
{
}

/// Fetching with no version returns the latest published version, by
/// lexicographic order of the version strings, with its content; the only
/// failure is `InternalError`, for content too large to encode.
pub proof fn lemma_get_latest(m: Map<ArtifactKey, Seq<u8>>, query: GetInput)
    requires
        m.dom().finite(),
        query.version is None,
        has_versions(m, query.name@, query.triple),
    ensures
        forall|r: Result<GetOutput, GetError>|
            get_outcome(m, query, r) ==> match r {
                Ok(o) => o.name@ == query.name@ && is_latest(m, query.name@, query.triple, o.version@)
                    && base64_decoded(o.content@) == Some(m[(query.name@, query.triple, o.version@)]),
                Err(e) => e == GetError::InternalError && m[(
                    query.name@,
                    query.triple,
                    latest_of(m, query.name@, query.triple),
                )].len() > usize::MAX / 2,
            },
{
    lemma_latest_of(m, query.name@, query.triple);
}

/// Publishing the same artifact twice succeeds both times, and the second
/// publish leaves the store as the first one left it.
pub proof fn lemma_republish_unchanged(m: Map<ArtifactKey, Seq<u8>>, input: PublishInput, bytes: Seq<u8>)
    requires
        base64_decoded(input.content@) == Some(bytes),
        stored(m, publish_key(input)) is None || stored(m, publish_key(input)) == Some(bytes),
    ensures
        forall|r: Result<PublishOutput, PublishError>| publish_outcome(m, input, r) ==> r is Ok,
        forall|r: Result<PublishOutput, PublishError>|
            publish_outcome(after_publish(m, input), input, r) ==> r is Ok,
        after_publish(after_publish(m, input), input) == after_publish(m, input),
        after_publish(m, input).dom() == m.dom().insert(publish_key(input)),
{
    let m1 = after_publish(m, input);
    assert(m1.contains_key(publish_key(input)) && m1[publish_key(input)] == bytes);
    assert(m1.dom() =~= m.dom().insert(publish_key(input)));
}

/// Publishing content under a key that already holds content with another
/// digest fails with `VersionExists`, and the stored content stays.
pub proof fn lemma_conflict_keeps_content(m: Map<ArtifactKey, Seq<u8>>, first: PublishInput, second: PublishInput, a: Seq<u8>, b: Seq<u8>)
    requires
        publish_key(first) == publish_key(second),
        base64_decoded(first.content@) == Some(a),
        base64_decoded(second.content@) == Some(b),
        stored(m, publish_key(first)) is None || stored(m, publish_key(first)) == Some(a),
        sha256_of(a) != sha256_of(b),
    ensures
        forall|r: Result<PublishOutput, PublishError>|
            publish_outcome(after_publish(m, first), second, r) ==> r == Err::<
                PublishOutput,
                PublishError,
            >(PublishError::VersionExists),
        after_publish(after_publish(m, first), second) == after_publish(m, first),
        after_publish(m, first)[publish_key(first)] == a,
{
}

/// Publishing under one triple does not list the package under another
/// triple that has none of its versions.
pub proof fn lemma_triple_scoping(m: Map<ArtifactKey, Seq<u8>>, input: PublishInput, query: ListInput)
    requires
        query.triple != input.triple,
        !has_versions(m, input.name@, query.triple),
    ensures
        forall|o: ListOutput|
            list_output(after_publish(m, input), query, o) ==> !has_text(o.packages@, input.name@),
{
    let m1 = after_publish(m, input);
    assert forall|v: Seq<char>| !m1.contains_key((input.name@, query.triple, v)) by {
        assert(!m.contains_key((input.name@, query.triple, v)));
    }
}

/// With no version of a name published for a triple, get and get-info fail
/// with `PackageNotFound`; on an empty store, list returns no package.
pub proof fn lemma_empty_queries(m: Map<ArtifactKey, Seq<u8>>, query: GetInput, info: GetInfoInput, list: ListInput)
    requires
        !has_versions(m, query.name@, query.triple),
        !has_versions(m, info.name@, info.triple),
    ensures
        forall|r: Result<GetOutput, GetError>|
            get_outcome(m, query, r) ==> r == Err::<GetOutput, GetError>(GetError::PackageNotFound),
        forall|r: Result<GetInfoOutput, GetInfoError>|
            get_info_outcome(m, info, r) ==> r == Err::<GetInfoOutput, GetInfoError>(
                GetInfoError::PackageNotFound,
            ),
        forall|o: ListOutput|
            list_output(Map::<ArtifactKey, Seq<u8>>::empty(), list, o) ==> o.packages@.len() == 0,
{
    if let Some(v) = query.version {
        if m.contains_key((query.name@, query.triple, v@)) {
            assert(has_versions(m, query.name@, query.triple));
        }
    }
    assert forall|o: ListOutput|
        list_output(Map::<ArtifactKey, Seq<u8>>::empty(), list, o) implies o.packages@.len() == 0 by {
        if o.packages@.len() > 0 {
            assert(has_text(o.packages@, o.packages@[0]@));
        }
    }
}

/// With a secret configured, a request without a credential fails with
/// `PasswordMissing`, one with another credential fails with
/// `PasswordInvalid`, and one with the secret passes on to the operation.
pub proof fn lemma_credential_gate(secret: Seq<char>, credential: Option<Seq<char>>)
    ensures
        credential is None ==> spec_authenticate(Some(secret), credential) == Err::<(), GeneralError>(
            GeneralError::PasswordMissing,
        ),
        (credential matches Some(c) && c != secret) ==> spec_authenticate(Some(secret), credential)
            == Err::<(), GeneralError>(GeneralError::PasswordInvalid),
        credential == Some(secret) ==> spec_authenticate(Some(secret), credential) is Ok,
        spec_authenticate(None, credential) is Ok,
{
}

} // verus!
