//! Where the daemon and its client look for their files.
//!
//! The environment is read and directories are made elsewhere; what is
//! decided here is how the paths are put together from what was found.

use vstd::prelude::*;
use vstd::string::{StrSliceExecFns, StringExecFns};

verus! {

/// The locations that the daemon uses.
#[derive(Clone, Debug, PartialEq, Eq)]
pub struct Paths {
    /// The configuration file.
    pub config_file_path: String,
    /// The socket on which commands arrive.
    pub socket_path: String,
}

/// The text of one decimal digit.
pub open spec fn digit_text(digit: nat) -> Seq<char> {
    if digit == 0 {
        "0"@
    } else if digit == 1 {
        "1"@
    } else if digit == 2 {
        "2"@
    } else if digit == 3 {
        "3"@
    } else if digit == 4 {
        "4"@
    } else if digit == 5 {
        "5"@
    } else if digit == 6 {
        "6"@
    } else if digit == 7 {
        "7"@
    } else if digit == 8 {
        "8"@
    } else {
        "9"@
    }
}

/// The decimal text of a number, without leading zeros.
pub open spec fn decimal(n: nat) -> Seq<char>
    decreases n,
{
    if n < 10 {
        digit_text(n)
    } else {
        decimal(n / 10) + digit_text(n % 10)
    }
}

/// A directory's path with a relative name added: a separator goes between
/// the two unless the directory is empty or ends in one.
pub open spec fn joined(base: Seq<char>, name: Seq<char>) -> Seq<char> {
    if base.len() == 0 || base.last() == '/' {
        base + name
    } else {
        base + "/"@ + name
    }
}

/// The directory that holds the daemon's socket: `lumd` inside the user's
/// runtime directory where the environment names one, and a directory of the
/// user's own under `/tmp` otherwise.
pub open spec fn runtime_dir(xdg_runtime_dir: Option<Seq<char>>, uid: nat) -> Seq<char> {
    match xdg_runtime_dir {
        Some(dir) => joined(dir, "lumd"@),
        None => "/tmp/lumd-"@ + decimal(uid),
    }
}

/// The directory in which the client looks for the socket where the
/// environment names no runtime directory.
pub open spec fn client_fallback_dir(uid: nat) -> Seq<char> {
    "/var/run/user/"@ + decimal(uid)
}

/// The socket to which the client connects.
pub open spec fn client_socket(xdg_runtime_dir: Option<Seq<char>>, uid: nat) -> Seq<char> {
    match xdg_runtime_dir {
        Some(dir) => joined(joined(dir, "lumd"@), "lumd.sock"@),
        None => joined(client_fallback_dir(uid), "lumd.sock"@),
    }
}

fn digit(d: u32) -> (text: &'static str)
    requires
        d < 10,
    ensures
        text@ == digit_text(d as nat),
{
    if d == 0 {
        "0"
    } else if d == 1 {
        "1"
    } else if d == 2 {
        "2"
    } else if d == 3 {
        "3"
    } else if d == 4 {
        "4"
    } else if d == 5 {
        "5"
    } else if d == 6 {
        "6"
    } else if d == 7 {
        "7"
    } else if d == 8 {
        "8"
    } else {
        "9"
    }
}

fn append_decimal(text: String, n: u32) -> (longer: String)
    ensures
        longer@ == text@ + decimal(n as nat),
    decreases n,
{
    if n < 10 {
        text.concat(digit(n))
    } else {
        let longer = append_decimal(text, n / 10).concat(digit(n % 10));
        assert(longer@ =~= text@ + decimal(n as nat));
        longer
    }
}

/// Adds a relative name to a directory's path.
pub fn join(base: &str, name: &str) -> (path: String)
    ensures
        path@ == joined(base@, name@),
{
    let len = base.unicode_len();
    if len == 0 || base.get_char(len - 1) == '/' {
        String::from_str(base).concat(name)
    } else {
        String::from_str(base).concat("/").concat(name)
    }
}

/// Names the directory that holds the daemon's socket, from the user's
/// runtime directory, if the environment names one, and the user's id.
pub fn runtime_directory(xdg_runtime_dir: Option<&str>, uid: u32) -> (dir: String)
    ensures
        dir@ == runtime_dir(
            match xdg_runtime_dir {
                Some(d) => Some(d@),
                None => None,
            },
            uid as nat,
        ),
{
    match xdg_runtime_dir {
        Some(d) => join(d, "lumd"),
        None => append_decimal(String::from_str("/tmp/lumd-"), uid),
    }
}

/// Names the directory in which the client looks for the socket where the
/// environment names no runtime directory.
pub fn client_fallback_directory(uid: u32) -> (dir: String)
    ensures
        dir@ == client_fallback_dir(uid as nat),
{
    append_decimal(String::from_str("/var/run/user/"), uid)
}

/// Names the socket to which the client connects.
pub fn get_socket_path(xdg_runtime_dir: Option<&str>, uid: u32) -> (path: String)
    ensures
        path@ == client_socket(
            match xdg_runtime_dir {
                Some(d) => Some(d@),
                None => None,
            },
            uid as nat,
        ),
{
    match xdg_runtime_dir {
        Some(d) => {
            let dir = join(d, "lumd");
            join(dir.as_str(), "lumd.sock")
        },
        None => {
            let dir = client_fallback_directory(uid);
            join(dir.as_str(), "lumd.sock")
        },
    }
}

impl Paths {
    /// Puts the daemon's locations together: the socket is `lumd.sock`
    /// inside the runtime directory, the configuration file is as given.
    pub fn new(runtime_dir: &str, config_file_path: String) -> (paths: Paths)
        ensures
            paths.config_file_path@ == config_file_path@,
            paths.socket_path@ == joined(runtime_dir@, "lumd.sock"@),
    {
        Paths { config_file_path, socket_path: join(runtime_dir, "lumd.sock") }
    }

    /// The configuration file.
    pub fn config_file(&self) -> (path: &String)
        ensures
            path == &self.config_file_path,
    {
        &self.config_file_path
    }

    /// The socket on which commands arrive.
    pub fn socket_path(&self) -> (path: &String)
        ensures
            path == &self.socket_path,
    {
        &self.socket_path
    }
}

} // verus!
