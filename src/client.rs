use vstd::prelude::*;
use crate::error::ClientError;

verus! {

/// The serialization of `s` read as an absolute URL; none where it is not
/// one.
pub uninterp spec fn parsed_url(s: Seq<char>) -> Option<Seq<char>>;

/// Relies on `url::Url::parse` (as `reqwest::Url`): it parses an absolute URL
/// or fails; what comes back is the parsed URL's serialization.
#[verifier::external_body]
fn parse_url(s: &str) -> (r: Option<String>)
    ensures
        match r {
            Some(u) => parsed_url(s@) == Some(u@),
            None => parsed_url(s@) is None,
        },
{
    reqwest::Url::parse(s).ok().map(String::from)
}

/// The URL of a registry, as parsed.
#[derive(Debug, Clone)]
pub struct RegistryUrl {
    pub url: String,
}

impl RegistryUrl {
    /// Parses a registry URL.
    pub fn new(url: &str) -> (r: Result<RegistryUrl, ClientError>)
        ensures
            match parsed_url(url@) {
                Some(u) => r is Ok && r->Ok_0.url@ == u,
                None => r is Err && r->Err_0 is Other,
            },
    {
        match parse_url(url) {
            Some(u) => Ok(RegistryUrl { url: u }),
            None => Err(ClientError::Other(String::from_str("invalid registry URL"))),
        }
    }

    /// The URL's text.
    pub fn as_str(&self) -> (r: &str)
        ensures
            r@ == self.url@,
    {
        self.url.as_str()
    }
}

/// The client's configuration: the default registry and where its storage
/// lives.
#[derive(Debug, Clone)]
pub struct Config {
    pub home_url: Option<String>,
    pub registries_dir: String,
    pub content_dir: String,
}

/// The registry and the storage directories that a client uses.
#[derive(Debug, Clone)]
pub struct StoragePaths {
    pub registry_url: RegistryUrl,
    pub registries_dir: String,
    pub content_dir: String,
}

/// The URL a client uses: the one given, else the configured default.
pub open spec fn chosen_url(url: Option<&str>, config: Config) -> Option<Seq<char>> {
    match url {
        Some(u) => Some(u@),
        None => match config.home_url {
            Some(h) => Some(h@),
            None => None,
        },
    }
}

/// `r` is what resolving the storage paths for `url` under `config` gives.
pub open spec fn paths_outcome<T>(url: Option<&str>, config: Config, r: Result<T, ClientError>) -> bool {
    match chosen_url(url, config) {
        None => r == Err::<T, ClientError>(ClientError::NoDefaultUrl),
        Some(c) => match parsed_url(c) {
            None => r is Err && r->Err_0 is Other,
            Some(_) => r is Ok,
        },
    }
}

/// The paths are those of the configuration, for the URL chosen.
pub open spec fn paths_for(url: Option<&str>, config: Config, paths: StoragePaths) -> bool {
    &&& Some(paths.registry_url.url@) == parsed_url(chosen_url(url, config)->Some_0)
    &&& paths.registries_dir == config.registries_dir
    &&& paths.content_dir == config.content_dir
}

impl Config {
    /// Resolves the registry URL and storage directories for `url`, or for
    /// the default registry where `url` is none; without either there is no
    /// registry to use.
    pub fn storage_paths_for_url(&self, url: Option<&str>) -> (r: Result<StoragePaths, ClientError>)
        ensures
            paths_outcome(url, *self, r),
            r is Ok ==> paths_for(url, *self, r->Ok_0),
    {
        let chosen: &str = match url {
            Some(u) => u,
            None => match &self.home_url {
                Some(h) => h.as_str(),
                None => {
                    return Err(ClientError::NoDefaultUrl);
                },
            },
        };
        let registry_url = RegistryUrl::new(chosen)?;
        Ok(StoragePaths {
            registry_url,
            registries_dir: self.registries_dir.clone(),
            content_dir: self.content_dir.clone(),
        })
    }
}

/// A result of an attempt to lock client storage.
#[derive(Debug)]
pub enum StorageLockResult<T> {
    /// The storage lock was acquired.
    Acquired(T),
    /// The storage lock was not acquired for the specified directory.
    NotAcquired(String),
}

/// A client for a Warg registry, over registry storage `R` and content
/// storage `C`.
#[derive(Debug)]
pub struct Client<R, C> {
    pub registry: R,
    pub content: C,
    pub url: RegistryUrl,
}

impl<R, C> Client<R, C> {
    /// Creates a new client for the given URL, registry storage, and content
    /// storage.
    pub fn new(url: &str, registry: R, content: C) -> (r: Result<Self, ClientError>)
        ensures
            match parsed_url(url@) {
                Some(u) => r is Ok && r->Ok_0.url.url@ == u && r->Ok_0.registry == registry && r->Ok_0.content == content,
                None => r is Err && r->Err_0 is Other,
            },
    {
        let url = RegistryUrl::new(url)?;
        Ok(Client { registry, content, url })
    }

    /// Gets the URL of the client.
    pub fn url(&self) -> (r: &RegistryUrl)
        ensures
            *r == self.url,
    {
        &self.url
    }

    /// Gets the registry storage used by the client.
    pub fn registry(&self) -> (r: &R)
        ensures
            *r == self.registry,
    {
        &self.registry
    }

    /// Gets the content storage used by the client.
    pub fn content(&self) -> (r: &C)
        ensures
            *r == self.content,
    {
        &self.content
    }

    /// Attempts to create a client for the given registry URL, or the
    /// configured default, from the outcome of trying to lock its registry
    /// storage and its content storage, in that order. Where a lock was not
    /// acquired, the directory that could not be locked comes back.
    pub fn try_new_with_config(url: Option<&str>, config: &Config, registry: Option<R>, content: Option<C>) -> (r: Result<StorageLockResult<Self>, ClientError>)
        ensures
            paths_outcome(url, *config, r),
            r is Ok ==> match (registry, content) {
                (Some(reg), Some(con)) => r->Ok_0 is Acquired && ({
                    let c = r->Ok_0->Acquired_0;
                    &&& Some(c.url.url@) == parsed_url(chosen_url(url, *config)->Some_0)
                    &&& c.registry == reg
                    &&& c.content == con
                }),
                (None, _) => r->Ok_0 == StorageLockResult::<Self>::NotAcquired(config.registries_dir),
                (Some(_), None) => r->Ok_0 == StorageLockResult::<Self>::NotAcquired(config.content_dir),
            },
    {
        let paths = config.storage_paths_for_url(url)?;
        let StoragePaths { registry_url, registries_dir, content_dir } = paths;
        match (registry, content) {
            (Some(registry), Some(content)) => Ok(StorageLockResult::Acquired(Client { registry, content, url: registry_url })),
            (None, _) => Ok(StorageLockResult::NotAcquired(registries_dir)),
            (Some(_), None) => Ok(StorageLockResult::NotAcquired(content_dir)),
        }
    }

    /// Creates a client for the given registry URL, or the configured
    /// default, over storage whose locks were acquired.
    pub fn new_with_config(url: Option<&str>, config: &Config, registry: R, content: C) -> (r: Result<Self, ClientError>)
        ensures
            paths_outcome(url, *config, r),
            r is Ok ==> ({
                let c = r->Ok_0;
                &&& Some(c.url.url@) == parsed_url(chosen_url(url, *config)->Some_0)
                &&& c.registry == registry
                &&& c.content == content
            }),
    {
        let paths = config.storage_paths_for_url(url)?;
        Ok(Client { registry, content, url: paths.registry_url })
    }
}

} // verus!
