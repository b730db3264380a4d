//! The hosting platforms that packages are starred on: what each recognises,
//! and the request that stars a repository there.
use vstd::prelude::*;
use vstd::string::*;

use crate::location::{string_option_view, WebUrl};
use crate::package::Package;
use crate::target::{handle, IdentifierStyle, Target, TargetView};

verus! {

/// HTTP method of a star request.
#[derive(Debug, Clone, Copy, PartialEq, Eq)]
pub enum Method {
    Put,
    Post,
}

/// A request that stars one repository: method, address, and the value of
/// the `Authorization` header.
pub struct StarRequest {
    pub method: Method,
    pub url: String,
    pub authorization: String,
}

/// What `base64::encode` makes of the UTF-8 bytes of a text.
pub uninterp spec fn base64_text(s: Seq<char>) -> Seq<char>;

/// Relies on `base64::encode` with the standard alphabet, on the bytes of `s`.
#[verifier::external_body]
fn base64_encode(s: &str) -> (r: String)
    ensures
        r@ == base64_text(s@),
{
    base64::encode(s)
}

/// `prefix` followed by `rest`.
fn joined(prefix: &str, rest: &str) -> (r: String)
    ensures
        r@ == prefix@ + rest@,
{
    let mut r = String::from_str(prefix);
    r.append(rest);
    r
}

/// Whether an HTTP status is a success (`2xx`).
pub open spec fn is_success(status: u16) -> bool {
    200 <= status <= 299
}

/// GitHub as the registry sees it: repositories live under `github.com`.
pub open spec fn github_view() -> TargetView {
    TargetView {
        name: "github"@,
        domains: seq!["github.com"@, "www.github.com"@],
        style: IdentifierStyle::Path,
    }
}

/// GitLab as the registry sees it: repositories live under `gitlab.com`, and a
/// project is named by its percent-encoded path.
pub open spec fn gitlab_view() -> TargetView {
    TargetView {
        name: "gitlab"@,
        domains: seq!["gitlab.com"@, "www.gitlab.com"@],
        style: IdentifierStyle::Encoded,
    }
}

/// GitHub, reached with a `username:token` credential.
pub struct Github {
    pub credential: Option<String>,
}

impl Github {
    /// Not yet initialised: no credential.
    pub fn new() -> (r: Github)
        ensures
            r.credential is None,
    {
        Github { credential: None }
    }

    pub fn name(&self) -> (r: &'static str)
        ensures
            r@ == "github"@,
    {
        "github"
    }

    /// The registry's view of GitHub.
    pub fn target() -> (r: Target)
        ensures
            r@ == github_view(),
    {
        let mut domains: Vec<String> = Vec::new();
        domains.push(String::from_str("github.com"));
        domains.push(String::from_str("www.github.com"));
        let r = Target {
            name: String::from_str("github"),
            domains,
            style: IdentifierStyle::Path,
        };
        assert(r@.domains =~= github_view().domains);
        r
    }

    /// `owner/repo` of a GitHub repository URL.
    pub fn try_handle(&self, url: &WebUrl) -> (r: Option<String>)
        ensures
            string_option_view(r) == handle(github_view(), url@),
    {
        Github::target().try_handle(url)
    }

    /// Key of the saved credential in the persisted store.
    pub fn credential_key() -> (r: &'static str)
        ensures
            r@ == "github_credential"@,
    {
        "github_credential"
    }

    /// The credential made of a username and a personal access token.
    pub fn login(username: &str, token: &str) -> (r: String)
        ensures
            r@ == username@ + ":"@ + token@,
    {
        let mut r = String::from_str(username);
        r.append(":");
        r.append(token);
        r
    }

    /// The request that stars `package`, authenticated with the credential.
    pub fn star_request(&self, package: &Package) -> (r: StarRequest)
        requires
            self.credential is Some,
        ensures
            r.method == Method::Put,
            r.url@ == "https://api.github.com/user/starred/"@ + package.identifier@,
            r.authorization@ == "Basic "@ + base64_text(self.credential->Some_0@),
    {
        let credential = match &self.credential {
            Some(c) => c,
            None => unreached(),
        };
        let url = joined("https://api.github.com/user/starred/", package.identifier.as_str());
        let encoded = base64_encode(credential.as_str());
        StarRequest {
            method: Method::Put,
            url,
            authorization: joined("Basic ", encoded.as_str()),
        }
    }

    /// Whether GitHub's answer means the star went through; anything else is
    /// reported as a warning.
    pub fn accepts(status: u16) -> (r: bool)
        ensures
            r == is_success(status),
    {
        200 <= status && status <= 299
    }
}

/// GitLab, reached with a personal access token.
pub struct Gitlab {
    pub access_token: Option<String>,
}

impl Gitlab {
    /// Not yet initialised: no token.
    pub fn new() -> (r: Gitlab)
        ensures
            r.access_token is None,
    {
        Gitlab { access_token: None }
    }

    pub fn name(&self) -> (r: &'static str)
        ensures
            r@ == "gitlab"@,
    {
        "gitlab"
    }

    /// The registry's view of GitLab.
    pub fn target() -> (r: Target)
        ensures
            r@ == gitlab_view(),
    {
        let mut domains: Vec<String> = Vec::new();
        domains.push(String::from_str("gitlab.com"));
        domains.push(String::from_str("www.gitlab.com"));
        let r = Target {
            name: String::from_str("gitlab"),
            domains,
            style: IdentifierStyle::Encoded,
        };
        assert(r@.domains =~= gitlab_view().domains);
        r
    }

    /// The encoded `owner/repo` of a GitLab project URL.
    pub fn try_handle(&self, url: &WebUrl) -> (r: Option<String>)
        ensures
            string_option_view(r) == handle(gitlab_view(), url@),
    {
        Gitlab::target().try_handle(url)
    }

    /// Key of the saved token in the persisted store.
    pub fn credential_key() -> (r: &'static str)
        ensures
            r@ == "gitlab_token"@,
    {
        "gitlab_token"
    }

    /// The request that stars `package`, authenticated with the token.
    pub fn star_request(&self, package: &Package) -> (r: StarRequest)
        requires
            self.access_token is Some,
        ensures
            r.method == Method::Post,
            r.url@ == "https://gitlab.com/api/v4/projects/"@ + package.identifier@ + "/star"@,
            r.authorization@ == "Bearer "@ + self.access_token->Some_0@,
    {
        let token = match &self.access_token {
            Some(t) => t,
            None => unreached(),
        };
        let mut url = joined("https://gitlab.com/api/v4/projects/", package.identifier.as_str());
        url.append("/star");
        StarRequest {
            method: Method::Post,
            url,
            authorization: joined("Bearer ", token.as_str()),
        }
    }

    /// Whether GitLab's answer means the star went through: a success, or
    /// `304 Not Modified` for a project that was already starred.
    pub fn accepts(status: u16) -> (r: bool)
        ensures
            r == (is_success(status) || status == 304),
    {
        (200 <= status && status <= 299) || status == 304
    }
}

} // verus!
