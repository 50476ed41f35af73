//! Configuration types for Constellation agents.
//!
//! Use [`AgentConfigBuilder`] for a fluent API to construct agent configurations,
//! or create an [`AgentConfig`] directly.

use vstd::prelude::*;

use crate::error::{ConstellationError, Result};

verus! {

/// Configuration for a Constellation agent's connection to a Matrix homeserver.
///
/// # Required fields
///
/// - `homeserver_url` — URL of the Matrix homeserver (e.g. `http://localhost:6167`)
/// - `username` — Matrix localpart for authentication
/// - `password` — Password for authentication
#[derive(Debug, Clone)]
pub struct AgentConfig {
    /// URL of the Matrix homeserver to connect to.
    pub homeserver_url: String,
    /// Matrix username (localpart) for authentication.
    pub username: String,
    /// Password for Matrix authentication.
    pub password: String,
    /// Optional display name shown to other agents in rooms.
    pub display_name: Option<String>,
    /// Room aliases to automatically join on connect.
    pub auto_join_rooms: Vec<String>,
    /// Optional device ID for session persistence across restarts.
    pub device_id: Option<String>,
}

/// The homeserver that a configuration names unless told otherwise.
pub open spec fn default_homeserver_url() -> Seq<char> {
    "http://localhost:6167"@
}

/// The configuration with every field at its default.
pub open spec fn is_default_config(c: AgentConfig) -> bool {
    &&& c.homeserver_url@ == default_homeserver_url()
    &&& c.username@.len() == 0
    &&& c.password@.len() == 0
    &&& c.display_name is None
    &&& c.auto_join_rooms@.len() == 0
    &&& c.device_id is None
}

impl Default for AgentConfig {
    fn default() -> (res: Self)
        ensures
            is_default_config(res),
    {
        AgentConfig {
            homeserver_url: String::from_str("http://localhost:6167"),
            username: String::new(),
            password: String::new(),
            display_name: None,
            auto_join_rooms: Vec::new(),
            device_id: None,
        }
    }
}

/// The message of the first problem that validation finds in `c`,
/// checking `username`, then `password`, then `homeserver_url`;
/// `None` when all three are set.
pub open spec fn config_problem(c: AgentConfig) -> Option<Seq<char>> {
    if c.username@.len() == 0 {
        Some("username is required"@)
    } else if c.password@.len() == 0 {
        Some("password is required"@)
    } else if c.homeserver_url@.len() == 0 {
        Some("homeserver_url is required"@)
    } else {
        None
    }
}

/// Whether `res` is what validating a configuration with `problem` gives:
/// `Ok` when there is none, else a configuration error with its message.
pub open spec fn reports_problem<T>(res: Result<T>, problem: Option<Seq<char>>) -> bool {
    match problem {
        None => res is Ok,
        Some(msg) => res matches Err(ConstellationError::Config(m)) && m@ == msg,
    }
}

/// A configuration with every field at its default fails validation, for
/// want of a username.
pub proof fn lemma_default_config_is_invalid(c: AgentConfig)
    requires
        is_default_config(c),
    ensures
        config_problem(c) == Some("username is required"@),
{
}

/// Only the username and password are required: a configuration that keeps
/// the default homeserver passes validation exactly when both are set.
pub proof fn lemma_only_credentials_required(c: AgentConfig)
    requires
        c.homeserver_url@ == default_homeserver_url(),
    ensures
        config_problem(c) is None <==> (c.username@.len() > 0 && c.password@.len() > 0),
{
    reveal_strlit("http://localhost:6167");
}

/// Validation passes exactly when `username`, `password` and
/// `homeserver_url` are all non-empty, whatever they hold; otherwise it
/// names the first empty one, in that order: an empty password with a
/// username set gives "password is required" whatever the homeserver.
pub proof fn lemma_validation_needs_all_three(c: AgentConfig)
    ensures
        config_problem(c) is None
            <==> (c.username@.len() > 0 && c.password@.len() > 0 && c.homeserver_url@.len() > 0),
        c.username@.len() == 0 ==> config_problem(c) == Some("username is required"@),
        c.username@.len() > 0 && c.password@.len() == 0 ==> config_problem(c) == Some("password is required"@),
        c.username@.len() > 0 && c.password@.len() > 0 && c.homeserver_url@.len() == 0
            ==> config_problem(c) == Some("homeserver_url is required"@),
{
}

impl AgentConfig {
    /// Validate that all required fields are populated.
    ///
    /// # Errors
    ///
    /// Returns [`ConstellationError::Config`] if `username`, `password`, or
    /// `homeserver_url` is empty.
    pub fn validate(&self) -> (res: Result<()>)
        ensures
            reports_problem(res, config_problem(*self)),
    {
        if self.username.as_str().is_empty() {
            return Err(ConstellationError::Config(String::from_str("username is required")));
        }
        if self.password.as_str().is_empty() {
            return Err(ConstellationError::Config(String::from_str("password is required")));
        }
        if self.homeserver_url.as_str().is_empty() {
            return Err(ConstellationError::Config(String::from_str("homeserver_url is required")));
        }
        Ok(())
    }
}

/// Builder for constructing an [`AgentConfig`] with a fluent API.
///
/// All fields have sensible defaults; only `username` and `password` are required
/// for [`build`](Self::build) to succeed.
pub struct AgentConfigBuilder {
    config: AgentConfig,
}

impl AgentConfigBuilder {
    /// The configuration built up so far.
    pub closed spec fn settings(self) -> AgentConfig {
        self.config
    }

    /// Create a new builder with default values.
    pub fn new() -> (res: Self)
        ensures
            is_default_config(res.settings()),
    {
        AgentConfigBuilder { config: AgentConfig::default() }
    }

    /// Set the Matrix homeserver URL (default: `http://localhost:6167`).
    pub fn homeserver_url(self, url: &str) -> (res: Self)
        ensures
            res.settings().homeserver_url@ == url@,
            res.settings() == (AgentConfig { homeserver_url: res.settings().homeserver_url, ..self.settings() }),
    {
        let mut b = self;
        b.config.homeserver_url = String::from_str(url);
        b
    }

    /// Set the Matrix username (localpart) for authentication.
    pub fn username(self, username: &str) -> (res: Self)
        ensures
            res.settings().username@ == username@,
            res.settings() == (AgentConfig { username: res.settings().username, ..self.settings() }),
    {
        let mut b = self;
        b.config.username = String::from_str(username);
        b
    }

    /// Set the password for Matrix authentication.
    pub fn password(self, password: &str) -> (res: Self)
        ensures
            res.settings().password@ == password@,
            res.settings() == (AgentConfig { password: res.settings().password, ..self.settings() }),
    {
        let mut b = self;
        b.config.password = String::from_str(password);
        b
    }

    /// Set a display name for this agent.
    pub fn display_name(self, name: &str) -> (res: Self)
        ensures
            res.settings().display_name matches Some(n) && n@ == name@,
            res.settings() == (AgentConfig { display_name: res.settings().display_name, ..self.settings() }),
    {
        let mut b = self;
        b.config.display_name = Some(String::from_str(name));
        b
    }

    /// Add a single room alias to auto-join on connect.
    pub fn auto_join_room(self, room: &str) -> (res: Self)
        ensures
            res.settings().auto_join_rooms@.len() == self.settings().auto_join_rooms@.len() + 1,
            res.settings().auto_join_rooms@.drop_last() == self.settings().auto_join_rooms@,
            res.settings().auto_join_rooms@.last()@ == room@,
            res.settings() == (AgentConfig { auto_join_rooms: res.settings().auto_join_rooms, ..self.settings() }),
    {
        let mut b = self;
        b.config.auto_join_rooms.push(String::from_str(room));
        b
    }

    /// Set the full list of room aliases to auto-join on connect, replacing
    /// any added before.
    pub fn auto_join_rooms(self, rooms: Vec<String>) -> (res: Self)
        ensures
            res.settings() == (AgentConfig { auto_join_rooms: rooms, ..self.settings() }),
    {
        let mut b = self;
        b.config.auto_join_rooms = rooms;
        b
    }

    /// Set a device ID for session persistence across agent restarts.
    pub fn device_id(self, id: &str) -> (res: Self)
        ensures
            res.settings().device_id matches Some(d) && d@ == id@,
            res.settings() == (AgentConfig { device_id: res.settings().device_id, ..self.settings() }),
    {
        let mut b = self;
        b.config.device_id = Some(String::from_str(id));
        b
    }

    /// Validate and build the final [`AgentConfig`].
    ///
    /// # Errors
    ///
    /// Returns an error if required fields are missing.
    pub fn build(self) -> (res: Result<AgentConfig>)
        ensures
            reports_problem(res, config_problem(self.settings())),
            res matches Ok(c) ==> c == self.settings(),
    {
        match self.config.validate() {
            Ok(()) => Ok(self.config),
            Err(e) => Err(e),
        }
    }
}

impl Default for AgentConfigBuilder {
    fn default() -> (res: Self)
        ensures
            is_default_config(res.settings()),
    {
        Self::new()
    }
}

} // verus!
