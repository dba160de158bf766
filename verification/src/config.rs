//! Process configuration: command-line choices and the storage backend's
//! coordinates.  Reading files and parsing arguments happen at the process
//! edge; this core holds the values and builds the connection text.

use crate::encode::u64_string;
use crate::wire::dec_digits;
use vstd::prelude::*;
use vstd::string::StringExecFns;

verus! {

/// How much the process logs.
#[derive(Clone, Copy, Debug, PartialEq, Eq, Structural)]
pub enum Verbosity {
    Warn,
    Info,
    Debug,
    Trace,
}

/// Choices taken from the command line.
pub struct CmdArgs {
    pub verbosity: Verbosity,
    pub config_file: Option<String>,
    pub log_file: String,
}

impl Default for CmdArgs {
    /// Quiet logging, no configuration file, the usual log path.
    fn default() -> (r: CmdArgs)
        ensures
            r.verbosity == Verbosity::Warn,
            r.config_file is None,
            r.log_file@ == "/tmp/arrow.log"@,
    {
        CmdArgs {
            verbosity: Verbosity::Warn,
            config_file: None,
            log_file: String::from_str("/tmp/arrow.log"),
        }
    }
}

/// Where the relational backend lives.
pub struct DBConfiguration {
    pub user: String,
    pub host: String,
    pub port: u32,
    pub db: String,
}

impl Default for DBConfiguration {
    /// The backend's usual coordinates.
    fn default() -> (r: DBConfiguration)
        ensures
            r.user@ == "arrow"@,
            r.host@ == "localhost"@,
            r.port == 5432,
            r.db@ == "arrow"@,
    {
        DBConfiguration {
            user: String::from_str("arrow"),
            host: String::from_str("localhost"),
            port: 5432,
            db: String::from_str("arrow"),
        }
    }
}

/// The connection text for given backend coordinates.
pub open spec fn conn_text(user: Seq<char>, host: Seq<char>, port: nat, db: Seq<char>) -> Seq<
    char,
> {
    "postgres://"@ + user + "@"@ + host + ":"@ + dec_digits(port) + "/"@ + db
}

impl DBConfiguration {
    /// Builds the connection text for the relational backend.
    pub fn conn_string(&self) -> (s: String)
        ensures
            s@ == conn_text(self.user@, self.host@, self.port as nat, self.db@),
    {
        let mut s = String::from_str("postgres://");
        s.append(self.user.as_str());
        s.append("@");
        s.append(self.host.as_str());
        s.append(":");
        let digits = u64_string(self.port as u64);
        s.append(digits.as_str());
        s.append("/");
        s.append(self.db.as_str());
        assert(s@ =~= conn_text(self.user@, self.host@, self.port as nat, self.db@));
        s
    }
}

} // verus!
