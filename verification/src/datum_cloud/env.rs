//! The environments of the API: where it is, and with whom users sign in.
use crate::text::{copy_opt, opt_view, same, strip_back, trim_end_matches};
use vstd::prelude::*;

verus! {

pub const STAGING_API_URL: &'static str = "https://api.staging.env.datum.net";

pub const STAGING_ISSUER_URL: &'static str = "https://auth.staging.env.datum.net";

pub const STAGING_CLIENT_ID: &'static str = "360628090294044442";

pub const STAGING_WEB_URL: &'static str = "https://cloud.staging.env.datum.net";

pub const PROD_API_URL: &'static str = "https://api.datum.net";

pub const PROD_ISSUER_URL: &'static str = "https://auth.datum.net";

pub const PROD_CLIENT_ID: &'static str = "360628348109527815";

pub const PROD_WEB_URL: &'static str = "https://cloud.datum.net";

/// The provider with which users sign in.
#[derive(Debug, Clone)]
pub struct AuthProvider {
    pub issuer_url: String,
    pub client_id: String,
    pub client_secret: Option<String>,
}

/// Issuer, client and secret of a provider.
impl View for AuthProvider {
    type V = (Seq<char>, Seq<char>, Option<Seq<char>>);

    open spec fn view(&self) -> (Seq<char>, Seq<char>, Option<Seq<char>>) {
        (self.issuer_url@, self.client_id@, opt_view(self.client_secret))
    }
}

/// An environment of the API.
#[derive(Debug, Clone)]
pub enum ApiEnv {
    Staging,
    Production,
    /// An endpoint known only at run time, such as that of a `datumctl` session. Its provider is
    /// not meant for logins.
    Custom {
        api_url: String,
        web_url: String,
        auth_provider: AuthProvider,
        oauth_storage_key: String,
    },
}

impl ApiEnv {
    /// Where the API is.
    pub open spec fn api(self) -> Seq<char> {
        match self {
            ApiEnv::Staging => STAGING_API_URL@,
            ApiEnv::Production => PROD_API_URL@,
            ApiEnv::Custom { api_url, .. } => api_url@,
        }
    }

    /// Where the web application is.
    pub open spec fn web(self) -> Seq<char> {
        match self {
            ApiEnv::Staging => STAGING_WEB_URL@,
            ApiEnv::Production => PROD_WEB_URL@,
            ApiEnv::Custom { web_url, .. } => web_url@,
        }
    }

    /// The key under which the session is stored.
    pub open spec fn key(self) -> Seq<char> {
        match self {
            ApiEnv::Staging => "staging"@,
            ApiEnv::Production => "production"@,
            ApiEnv::Custom { oauth_storage_key, .. } => oauth_storage_key@,
        }
    }

    /// The provider with which users sign in.
    pub open spec fn provider(self) -> (Seq<char>, Seq<char>, Option<Seq<char>>) {
        match self {
            ApiEnv::Staging => (STAGING_ISSUER_URL@, STAGING_CLIENT_ID@, None),
            ApiEnv::Production => (PROD_ISSUER_URL@, PROD_CLIENT_ID@, None),
            ApiEnv::Custom { auth_provider, .. } => auth_provider@,
        }
    }

    /// The environment that `DATUM_API_ENV` names: staging by that word, else production.
    pub fn from_env(value: &Option<String>) -> (r: Self)
        ensures
            r == (if value is Some && value->0@ == "staging"@ {
                ApiEnv::Staging
            } else {
                ApiEnv::Production
            }),
    {
        match value {
            Some(v) => if same(v.as_str(), "staging") {
                ApiEnv::Staging
            } else {
                ApiEnv::Production
            },
            None => ApiEnv::Production,
        }
    }

    /// The environment at an address: a known one, else a custom one whose provider is a stub.
    pub fn from_api_url(api_url: &str) -> (r: Self)
        ensures
            ({
                let url = strip_back(api_url@, '/');
                match r {
                    ApiEnv::Production => url == PROD_API_URL@,
                    ApiEnv::Staging => url == STAGING_API_URL@ && url != PROD_API_URL@,
                    ApiEnv::Custom { .. } => {
                        &&& url != PROD_API_URL@
                        &&& url != STAGING_API_URL@
                        &&& r.api() == url
                        &&& r.web() == url
                        &&& r.key() == "custom"@
                        &&& r.provider() == (url, Seq::<char>::empty(), None::<Seq<char>>)
                    },
                }
            }),
    {
        let url = trim_end_matches(api_url, '/');
        if same(url.as_str(), PROD_API_URL) {
            ApiEnv::Production
        } else if same(url.as_str(), STAGING_API_URL) {
            ApiEnv::Staging
        } else {
            let none = String::new();
            assert(none@ =~= Seq::<char>::empty());
            ApiEnv::Custom {
                api_url: url.clone(),
                web_url: url.clone(),
                auth_provider: AuthProvider {
                    issuer_url: url,
                    client_id: none,
                    client_secret: None,
                },
                oauth_storage_key: "custom".to_owned(),
            }
        }
    }

    pub fn oauth_storage_key(&self) -> (r: &str)
        ensures
            r@ == self.key(),
    {
        match self {
            ApiEnv::Staging => "staging",
            ApiEnv::Production => "production",
            ApiEnv::Custom { oauth_storage_key, .. } => oauth_storage_key.as_str(),
        }
    }

    pub fn api_url(&self) -> (r: &str)
        ensures
            r@ == self.api(),
    {
        match self {
            ApiEnv::Staging => STAGING_API_URL,
            ApiEnv::Production => PROD_API_URL,
            ApiEnv::Custom { api_url, .. } => api_url.as_str(),
        }
    }

    pub fn web_url(&self) -> (r: &str)
        ensures
            r@ == self.web(),
    {
        match self {
            ApiEnv::Staging => STAGING_WEB_URL,
            ApiEnv::Production => PROD_WEB_URL,
            ApiEnv::Custom { web_url, .. } => web_url.as_str(),
        }
    }

    pub fn auth_provider(&self) -> (r: AuthProvider)
        ensures
            r@ == self.provider(),
    {
        match self {
            ApiEnv::Staging => AuthProvider {
                issuer_url: STAGING_ISSUER_URL.to_owned(),
                client_id: STAGING_CLIENT_ID.to_owned(),
                client_secret: None,
            },
            ApiEnv::Production => AuthProvider {
                issuer_url: PROD_ISSUER_URL.to_owned(),
                client_id: PROD_CLIENT_ID.to_owned(),
                client_secret: None,
            },
            ApiEnv::Custom { auth_provider, .. } => AuthProvider {
                issuer_url: auth_provider.issuer_url.clone(),
                client_id: auth_provider.client_id.clone(),
                client_secret: copy_opt(&auth_provider.client_secret),
            },
        }
    }
}

/// The two known environments, by where they are, where users go and with whom they sign in.
pub proof fn law_known_environments()
    ensures
        ApiEnv::Production.api() == "https://api.datum.net"@,
        ApiEnv::Production.web() == "https://cloud.datum.net"@,
        ApiEnv::Production.provider().0 == "https://auth.datum.net"@,
        ApiEnv::Production.provider().1 == "360628348109527815"@,
        ApiEnv::Production.key() == "production"@,
        ApiEnv::Staging.api() == "https://api.staging.env.datum.net"@,
        ApiEnv::Staging.web() == "https://cloud.staging.env.datum.net"@,
        ApiEnv::Staging.provider().0 == "https://auth.staging.env.datum.net"@,
        ApiEnv::Staging.provider().1 == "360628090294044442"@,
        ApiEnv::Staging.key() == "staging"@,
        ApiEnv::Production.provider().2 is None && ApiEnv::Staging.provider().2 is None,
{
}

} // verus!
