//! Requests to a project's control plane: which errors mean what, and how a rejected token is
//! handled.
use crate::auth_retry::Attempt;
use crate::text::{ascii_lower, contains, has_text, same, to_ascii_lower};
use vstd::prelude::*;

verus! {

/// The answer with which the control plane refuses a request.
#[derive(Debug, Clone)]
pub struct ErrorResponse {
    pub status: String,
    pub message: String,
    pub reason: String,
    pub code: u16,
}

/// Why a request to the control plane failed.
#[derive(Debug, Clone)]
pub enum KubeError {
    /// The control plane answered with an error.
    Api(ErrorResponse),
    /// The request could not be made or carried out.
    Service(String),
    /// The connection would need TLS.
    TlsRequired,
    /// Any other failure, with its text.
    Other(String),
}

/// The bearer token was rejected: the control plane answered 401.
pub open spec fn auth_failure(err: KubeError) -> bool {
    err matches KubeError::Api(resp) && resp.code == 401
}

/// The word `quota` stands in the message, in capitals or not.
pub open spec fn speaks_of_quota(message: Seq<char>) -> bool {
    has_text(ascii_lower(message), "quota"@)
}

/// A quota rejection: the control plane answered 403 and the message speaks of quota.
pub open spec fn quota_exceeded(err: KubeError) -> bool {
    err matches KubeError::Api(resp) && resp.code == 403 && speaks_of_quota(resp.message@)
}

/// Whether the bearer token was rejected.
///
/// A 403 is no such failure: it stands for missing rights and for quota, and the session stays.
pub fn is_kube_auth_failure(err: &KubeError) -> (r: bool)
    ensures
        r == auth_failure(*err),
{
    match err {
        KubeError::Api(resp) => resp.code == 401,
        _ => false,
    }
}

/// Whether the error is a quota rejection.
pub fn is_kube_quota_exceeded(err: &KubeError) -> (r: bool)
    ensures
        r == quota_exceeded(*err),
{
    match err {
        KubeError::Api(resp) => resp.code == 403 && message_looks_like_quota(resp.message.as_str()),
        _ => false,
    }
}

/// Whether a chain of errors, given by their texts from the outermost inwards, looks like a quota
/// rejection: one of the texts does.
pub fn error_looks_like_quota(chain: &Vec<String>) -> (r: bool)
    ensures
        r == exists|i: int| 0 <= i < chain@.len() && speaks_of_quota(#[trigger] chain@[i]@),
{
    let mut i: usize = 0;
    while i < chain.len()
        invariant
            i <= chain@.len(),
            forall|k: int| 0 <= k < i ==> !speaks_of_quota(#[trigger] chain@[k]@),
        decreases chain@.len() - i,
    {
        if message_looks_like_quota(chain[i].as_str()) {
            return true;
        }
        i += 1;
    }
    false
}

/// Whether a message looks like a quota rejection. Only ASCII letters have the letters of the word
/// `quota` as their small form, so no other capitals matter.
pub fn message_looks_like_quota(message: &str) -> (r: bool)
    ensures
        r == speaks_of_quota(message@),
{
    let lower = to_ascii_lower(message);
    contains(lower.as_str(), "quota")
}

/// No error is both a rejected token and a quota rejection: a full quota never ends the session.
pub proof fn law_quota_is_no_auth_failure(err: KubeError)
    ensures
        !(auth_failure(err) && quota_exceeded(err)),
{
}

/// What a run of an operation came to: a rejected token is told apart from other failures.
pub open spec fn attempt<T>(result: Result<T, KubeError>) -> Attempt<T, KubeError> {
    match result {
        Ok(v) => Attempt::Done(v),
        Err(e) => if auth_failure(e) {
            Attempt::Rejected
        } else {
            Attempt::Failed(e)
        },
    }
}

/// What a run of an operation came to.
pub fn attempt_of<T>(result: Result<T, KubeError>) -> (r: Attempt<T, KubeError>)
    ensures
        r == attempt(result),
{
    match result {
        Ok(v) => Attempt::Done(v),
        Err(e) => if is_kube_auth_failure(&e) {
            Attempt::Rejected
        } else {
            Attempt::Failed(e)
        },
    }
}

/// An answer that is not 401, such as one for missing rights or a full quota, is a failure like
/// any other: it is handed on, and the session stays.
pub proof fn law_other_answers_keep_session<T>(resp: ErrorResponse)
    requires
        resp.code != 401,
    ensures
        attempt::<T>(Err(KubeError::Api(resp))) == Attempt::<T, KubeError>::Failed(
            KubeError::Api(resp),
        ),
{
}

/// A client for one project: where it sends its requests, and the token it sends.
#[derive(Debug, Clone)]
pub struct ProjectControlPlaneClient {
    project_id: String,
    server_url: String,
    access_token: String,
}

/// What the client is made of: project, server and token.
impl View for ProjectControlPlaneClient {
    type V = (Seq<char>, Seq<char>, Seq<char>);

    closed spec fn view(&self) -> (Seq<char>, Seq<char>, Seq<char>) {
        (self.project_id@, self.server_url@, self.access_token@)
    }
}

impl ProjectControlPlaneClient {
    pub fn new(project_id: String, server_url: String, access_token: String) -> (r: Self)
        ensures
            r@ == (project_id@, server_url@, access_token@),
    {
        ProjectControlPlaneClient { project_id, server_url, access_token }
    }

    pub fn project_id(&self) -> (r: &str)
        ensures
            r@ == self@.0,
    {
        self.project_id.as_str()
    }

    pub fn server_url(&self) -> (r: &str)
        ensures
            r@ == self@.1,
    {
        self.server_url.as_str()
    }

    pub fn access_token(&self) -> (r: String)
        ensures
            r@ == self@.2,
    {
        self.access_token.clone()
    }

    /// Whether requests with this token need a connection that is made anew.
    pub fn rebuild_if_changed(&self, access_token: &str) -> (r: bool)
        ensures
            r == (self@.2 != access_token@),
    {
        !same(self.access_token.as_str(), access_token)
    }

    /// Takes over the token for which a connection has been made.
    pub fn store_token(&mut self, access_token: String)
        ensures
            final(self)@ == (old(self)@.0, old(self)@.1, access_token@),
    {
        self.access_token = access_token;
    }

    /// The token for which a connection has to be made after the session changed: that of the
    /// session, if there is one and its token is another one.
    pub fn refresh_client_from_update(&self, session_token: &Option<String>) -> (r: Option<String>)
        ensures
            r == (if session_token is Some && self@.2 != session_token->0@ {
                *session_token
            } else {
                None
            }),
    {
        match session_token {
            Some(t) => if self.rebuild_if_changed(t.as_str()) {
                Some(t.clone())
            } else {
                None
            },
            None => None,
        }
    }
}

/// The token was rejected exactly on the answer 401; a quota is full exactly on the answer 403 with
/// the word `quota` in its message, in any mix of capitals and small letters.
pub proof fn law_answers(resp: ErrorResponse, word: Seq<char>, at: int)
    ensures
        auth_failure(KubeError::Api(resp)) <==> resp.code == 401,
        quota_exceeded(KubeError::Api(resp)) ==> resp.code == 403,
        resp.code == 403 && word.len() == 5 && (word[0] == 'q' || word[0] == 'Q') && (word[1] == 'u'
            || word[1] == 'U') && (word[2] == 'o' || word[2] == 'O') && (word[3] == 't' || word[3]
            == 'T') && (word[4] == 'a' || word[4] == 'A') && 0 <= at && at + 5
            <= resp.message@.len() && resp.message@.subrange(at, at + 5) == word
            ==> quota_exceeded(KubeError::Api(resp)),
        quota_exceeded(KubeError::Api(resp)) ==> exists|j: int|
            0 <= j && j + 5 <= resp.message@.len() && #[trigger] ascii_lower(
                resp.message@,
            ).subrange(j, j + 5) == seq!['q', 'u', 'o', 't', 'a'],
{
    reveal_strlit("quota");
    assert("quota"@ =~= seq!['q', 'u', 'o', 't', 'a']);
    let lower = ascii_lower(resp.message@);
    crate::text::lemma_has_text(lower, "quota"@);
    if word.len() == 5 && 0 <= at && at + 5 <= resp.message@.len() && resp.message@.subrange(
        at,
        at + 5,
    ) == word {
        assert forall|k: int| 0 <= k < 5 implies lower.subrange(at, at + 5)[k]
            == crate::text::ascii_small(#[trigger] word[k]) by {
            assert(resp.message@.subrange(at, at + 5)[k] == resp.message@[at + k]);
        }
        if (word[0] == 'q' || word[0] == 'Q') && (word[1] == 'u' || word[1] == 'U') && (word[2]
            == 'o' || word[2] == 'O') && (word[3] == 't' || word[3] == 'T') && (word[4] == 'a'
            || word[4] == 'A') {
            assert(lower.subrange(at, at + 5) =~= "quota"@);
        }
    }
}

/// No failure but an answer of the control plane says anything of the token or the quota; what an
/// operation gave is handed on.
pub proof fn law_attempts<T>(value: T, err: KubeError, resp: ErrorResponse)
    ensures
        !(err is Api) ==> !auth_failure(err) && !quota_exceeded(err) && attempt::<T>(Err(err))
            == Attempt::<T, KubeError>::Failed(err),
        attempt::<T>(Ok(value)) == Attempt::<T, KubeError>::Done(value),
        resp.code == 401 ==> attempt::<T>(Err(KubeError::Api(resp))) == Attempt::<
            T,
            KubeError,
        >::Rejected,
{
}

} // verus!
