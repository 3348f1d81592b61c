//! Where to connect to.

use crate::text::{decimal, push_decimal};
use vstd::prelude::*;

verus! {

/// Creates connections to a real Postgres (or Postgres-compatible) server over TCP.
#[derive(Debug)]
pub struct TcpConnectionFactory {
    pub host: String,
    pub port: u16,
    pub user: String,
    pub password: Option<String>,
    pub database: String,
}

/// What is given for the target; what is missing is that of the oracle.
#[derive(Debug)]
pub struct TargetOptions {
    pub host: Option<String>,
    pub port: Option<u16>,
    pub user: Option<String>,
    pub password: Option<String>,
    pub database: Option<String>,
}

/// The text that is given, or the one to fall back on.
pub open spec fn text_or(given: Option<String>, fallback: Seq<char>) -> Seq<char> {
    match given {
        Some(text) => text@,
        None => fallback,
    }
}

/// What a text that may be missing holds.
pub open spec fn optional_text(text: Option<String>) -> Option<Seq<char>> {
    match text {
        Some(known) => Some(known@),
        None => None,
    }
}

fn given_or(given: Option<String>, fallback: &String) -> (text: String)
    ensures
        text@ == text_or(given, fallback@),
{
    match given {
        Some(text) => text,
        None => fallback.clone(),
    }
}

impl TcpConnectionFactory {
    /// The target, with what is not given taken from the oracle.
    pub fn target(&self, options: TargetOptions) -> (target: TcpConnectionFactory)
        ensures
            target.host@ == text_or(options.host, self.host@),
            target.port == match options.port {
                Some(port) => port,
                None => self.port,
            },
            target.user@ == text_or(options.user, self.user@),
            optional_text(target.password) == match options.password {
                Some(password) => Some(password@),
                None => optional_text(self.password),
            },
            target.database@ == text_or(options.database, self.database@),
    {
        let password = match options.password {
            Some(password) => Some(password),
            None => match &self.password {
                Some(password) => Some(password.clone()),
                None => None,
            },
        };
        TcpConnectionFactory {
            host: given_or(options.host, &self.host),
            port: match options.port {
                Some(port) => port,
                None => self.port,
            },
            user: given_or(options.user, &self.user),
            password,
            database: given_or(options.database, &self.database),
        }
    }

    /// The server as logs show it: user, host, port and database, without the password.
    pub fn to_text(&self) -> (text: String)
        ensures
            text@ == self.user@ + "@"@ + self.host@ + ":"@ + decimal(self.port as nat) + "/"@
                + self.database@,
    {
        let mut out = String::new();
        out.append(self.user.as_str());
        out.append("@");
        out.append(self.host.as_str());
        out.append(":");
        push_decimal(&mut out, self.port as u64);
        out.append("/");
        out.append(self.database.as_str());
        assert(out@ =~= self.user@ + "@"@ + self.host@ + ":"@ + decimal(self.port as nat) + "/"@
            + self.database@);
        out
    }
}

// ---------------------------------------------------------------------------
// Laws
// ---------------------------------------------------------------------------

/// What is given is used as it is, and what is not given is taken from the fallback.
pub proof fn law_given_comes_first(given: Option<String>, fallback: Seq<char>)
    ensures
        given matches Some(text) ==> text_or(given, fallback) == text@,
        given is None ==> text_or(given, fallback) == fallback,
        optional_text(given) is None <==> given is None,
        given matches Some(text) ==> optional_text(given) == Some(text@),
{
}

} // verus!
