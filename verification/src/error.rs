//! What can go wrong.
use vstd::prelude::*;

verus! {

/// An error of the session store.
#[derive(Debug, Clone)]
pub enum Error {
    /// The database failed.
    Database(String),
    /// Reading or writing a file failed.
    Io(String),
    /// A value could not be read from or written as text.
    Serialization(String),
    /// The coordination of writers failed.
    Coordination(String),
    /// The configuration is wrong.
    Config(String),
    /// A connection failed.
    Connection(String),
    /// A reader tried to write.
    PermissionDenied,
    /// Anything else.
    Other(String),
}

impl Error {
    /// The error in words.
    pub open spec fn words(self) -> Seq<char> {
        match self {
            Error::Database(e) => "数据库错误: "@ + e@,
            Error::Io(e) => "IO 错误: "@ + e@,
            Error::Serialization(e) => "序列化错误: "@ + e@,
            Error::Coordination(e) => "Writer 协调错误: "@ + e@,
            Error::Config(e) => "配置错误: "@ + e@,
            Error::Connection(e) => "连接错误: "@ + e@,
            Error::PermissionDenied => "权限错误: 当前角色为 Reader，无法执行写入操作"@,
            Error::Other(e) => e@,
        }
    }

    /// The error in words.
    pub fn to_string(&self) -> (r: String)
        ensures
            r@ == self.words(),
    {
        match self {
            Error::Database(e) => prefixed("数据库错误: ", e.as_str()),
            Error::Io(e) => prefixed("IO 错误: ", e.as_str()),
            Error::Serialization(e) => prefixed("序列化错误: ", e.as_str()),
            Error::Coordination(e) => prefixed("Writer 协调错误: ", e.as_str()),
            Error::Config(e) => prefixed("配置错误: ", e.as_str()),
            Error::Connection(e) => prefixed("连接错误: ", e.as_str()),
            Error::PermissionDenied => {
                "权限错误: 当前角色为 Reader，无法执行写入操作".to_owned()
            },
            Error::Other(e) => e.clone(),
        }
    }
}

fn prefixed(what: &str, why: &str) -> (r: String)
    ensures
        r@ == what@ + why@,
{
    let mut r = what.to_owned();
    r.push_str(why);
    r
}

} // verus!
