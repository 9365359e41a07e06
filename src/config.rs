//! The agent's configuration record, read once at startup.
use vstd::prelude::*;
use vstd::string::StringExecFns;

use crate::text::{decimal, push_decimal};

verus! {

/// The broker port used when the configuration names none.
pub const DEFAULT_PORT: u16 = 1883;

/// The agent's settings. Every `Option<bool>` switch counts as off when absent.
#[derive(Debug)]
pub struct Config {
    pub username: String,
    pub password: String,
    pub broker: String,
    pub port: Option<u16>,
    pub disk_use_percent: Option<bool>,
    pub disk_paths: Option<Vec<String>>,
    pub processor_use: Option<bool>,
    pub processor_temperature: Option<bool>,
    pub memory_use: Option<bool>,
    pub last_boot: Option<bool>,
    pub hostname: Option<bool>,
}

/// A switch is on only when it is present and true.
pub open spec fn switched_on(o: Option<bool>) -> bool {
    o == Some(true)
}

/// The port to connect to.
pub open spec fn port_of(c: &Config) -> u16 {
    match c.port {
        Some(p) => p,
        None => DEFAULT_PORT,
    }
}

/// The disk paths to sample, in order: the configured list, or the root path
/// alone when the list is absent or empty.
pub open spec fn disk_path_list(c: &Config) -> Seq<Seq<char>> {
    match c.disk_paths {
        Some(v) if v@.len() > 0 => Seq::new(v@.len(), |i: int| v@[i]@),
        _ => seq!["/"@],
    }
}

/// The broker's address: `tcp://<broker>:<port>`.
pub open spec fn broker_url_of(c: &Config) -> Seq<char> {
    "tcp://"@ + c.broker@ + ":"@ + decimal(port_of(c) as nat)
}

/// The files that may hold the configuration, in the order they are tried.
pub open spec fn config_candidates_spec() -> Seq<Seq<char>> {
    seq!["/etc/server_status/config.yaml"@, "config.yaml"@]
}

impl Config {
    /// Whether the switch is on.
    pub fn enabled(o: Option<bool>) -> (r: bool)
        ensures
            r == switched_on(o),
    {
        match o {
            Some(b) => b,
            None => false,
        }
    }

    /// The disk paths to sample, in order.
    pub fn disk_path_list(&self) -> (r: Vec<String>)
        ensures
            r@.len() == disk_path_list(self).len(),
            forall|i: int| 0 <= i < r@.len() ==> #[trigger] r@[i]@ == disk_path_list(self)[i],
    {
        match &self.disk_paths {
            Some(v) if v.len() > 0 => {
                let mut out: Vec<String> = Vec::new();
                let mut i: usize = 0;
                while i < v.len()
                    invariant
                        i <= v@.len(),
                        out@.len() == i,
                        forall|j: int| 0 <= j < i ==> #[trigger] out@[j]@ == v@[j]@,
                    decreases v@.len() - i,
                {
                    out.push(v[i].clone());
                    i = i + 1;
                }
                out
            },
            _ => {
                let mut out: Vec<String> = Vec::new();
                out.push(String::from_str("/"));
                out
            },
        }
    }

    /// The broker's address, `tcp://<broker>:<port>`, with the default port
    /// when none is configured.
    pub fn broker_url(&self) -> (r: String)
        ensures
            r@ == broker_url_of(self),
    {
        let port: u16 = match self.port {
            Some(p) => p,
            None => DEFAULT_PORT,
        };
        let mut out = String::from_str("tcp://");
        out.append(self.broker.as_str());
        out.append(":");
        push_decimal(&mut out, port as u128);
        out
    }
}

/// The files that may hold the configuration, in the order they are tried.
pub fn config_candidates() -> (r: Vec<String>)
    ensures
        r@.len() == config_candidates_spec().len(),
        forall|i: int| 0 <= i < r@.len() ==> #[trigger] r@[i]@ == config_candidates_spec()[i],
{
    let mut out: Vec<String> = Vec::new();
    out.push(String::from_str("/etc/server_status/config.yaml"));
    out.push(String::from_str("config.yaml"));
    out
}

/// Given which candidate files exist, the position of the one to read: the
/// first that exists, or `None` when none does.
pub fn first_existing(exists: &Vec<bool>) -> (r: Option<usize>)
    ensures
        r is None <==> forall|i: int| 0 <= i < exists@.len() ==> !exists@[i],
        r matches Some(k) ==> k < exists@.len() && exists@[k as int] && forall|i: int|
            0 <= i < k ==> !exists@[i],
{
    let mut i: usize = 0;
    while i < exists.len()
        invariant
            i <= exists@.len(),
            forall|j: int| 0 <= j < i ==> !exists@[j],
        decreases exists@.len() - i,
    {
        if exists[i] {
            return Some(i);
        }
        i = i + 1;
    }
    None
}

} // verus!
