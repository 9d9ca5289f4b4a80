//! Where the store is.
use vstd::prelude::*;
use crate::error::Error;
use crate::host::home_dir;
use crate::paths;
use crate::paths::{joined_path, native_style, PathStyle};
use crate::text::{begins_with, starts_with};

verus! {

/// Where the store is and how it is reached.
#[derive(Debug, Clone)]
pub struct DbConfig {
    /// A path for a local store, a `libsql://` address for a remote one.
    pub url: String,
    pub mode: ConnectionMode,
}

/// How the store is reached.
#[derive(Debug, Clone, Copy, PartialEq, Eq, Structural)]
pub enum ConnectionMode {
    /// A file on this machine.
    Local,
    /// A server.
    Remote,
}

/// The path of the store below the home directory, or in the working directory where there is none.
pub open spec fn default_store_path(style: PathStyle, home: Option<Seq<char>>) -> Seq<char> {
    match home {
        Some(h) => joined_path(
            style,
            joined_path(style, joined_path(style, h, ".vimo"@), "db"@),
            "ai-cli-session.db"@,
        ),
        None => "ai-cli-session.db"@,
    }
}

impl DbConfig {
    /// A local store at the path.
    pub fn local(path: String) -> (r: DbConfig)
        ensures
            r.url == path,
            r.mode == ConnectionMode::Local,
    {
        DbConfig { url: path, mode: ConnectionMode::Local }
    }

    /// Whether this is the store that `url` names, which is remote where it is a `libsql://`
    /// address, or else the one below the home directory.
    pub open spec fn is_store(
        self,
        style: PathStyle,
        url: Option<String>,
        home: Option<Seq<char>>,
    ) -> bool {
        match url {
            Some(u) => {
                &&& self.url == u
                &&& self.mode == if begins_with(u@, "libsql://"@) {
                    ConnectionMode::Remote
                } else {
                    ConnectionMode::Local
                }
            },
            None => {
                &&& self.url@ == default_store_path(style, home)
                &&& self.mode == ConnectionMode::Local
            },
        }
    }

    /// The store that the environment names with `url`, or else the one below the home directory
    /// of the user.
    pub fn from_env(url: Option<String>) -> (r: DbConfig)
        ensures
            exists|style: PathStyle, home: Option<Seq<char>>| #[trigger] r.is_store(style, url, home),
    {
        let style = native_style();
        let home = home_dir();
        let r = DbConfig::in_home(
            style,
            url,
            match &home {
                Some(h) => Some(h.as_str()),
                None => None,
            },
        );
        assert(r.is_store(
            style,
            url,
            match home {
                Some(h) => Some(h@),
                None => None,
            },
        ));
        r
    }

    /// The store that `url` names, or else the one below the home directory given.
    pub fn in_home(style: PathStyle, url: Option<String>, home: Option<&str>) -> (r: DbConfig)
        ensures
            r.is_store(
                style,
                url,
                match home {
                    Some(h) => Some(h@),
                    None => None,
                },
            ),
    {
        match url {
            Some(u) => {
                if starts_with(u.as_str(), "libsql://") {
                    DbConfig { url: u, mode: ConnectionMode::Remote }
                } else {
                    DbConfig::local(u)
                }
            },
            None => match home {
                Some(h) => {
                    let dir = paths::join(style, paths::join(style, h, ".vimo").as_str(), "db");
                    DbConfig::local(paths::join(style, dir.as_str(), "ai-cli-session.db"))
                },
                None => DbConfig::local("ai-cli-session.db".to_owned()),
            },
        }
    }

    /// The path of a local store.
    pub fn path(&self) -> (r: Option<String>)
        ensures
            r == match self.mode {
                ConnectionMode::Local => Some(self.url),
                ConnectionMode::Remote => None,
            },
    {
        match self.mode {
            ConnectionMode::Local => Some(self.url.clone()),
            ConnectionMode::Remote => None,
        }
    }

    /// The path at which the store is opened; a remote one is not supported.
    pub fn connect(&self) -> (r: Result<String, Error>)
        ensures
            match self.mode {
                ConnectionMode::Local => r == Ok::<String, Error>(self.url),
                ConnectionMode::Remote => r matches Err(Error::Config(why)) && why@
                    == "Remote connection not supported yet"@,
            },
    {
        match self.mode {
            ConnectionMode::Local => Ok(self.url.clone()),
            ConnectionMode::Remote => Err(
                Error::Config("Remote connection not supported yet".to_owned()),
            ),
        }
    }
}

} // verus!
