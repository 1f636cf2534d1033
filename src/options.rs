//! How the listening port and the TLS pair are settled from a config file
//! and the command line.

use vstd::prelude::*;
use vstd::string::*;
use crate::text::{before, lemma_before_at};

verus! {

/// Where the server listens, and the TLS certificate and key files to use.
#[derive(Debug)]
pub struct Options {
    pub port: u16,
    pub ssl: Option<(String, String)>,
}

/// The first index of `c` in `s` at or after `from`, or the length.
fn find_char(s: &str, c: char, from: usize) -> (r: usize)
    requires
        from <= s@.len(),
    ensures
        from <= r <= s@.len(),
        forall|i: int| from <= i < r ==> s@[i] != c,
        r == s@.len() || s@[r as int] == c,
{
    let len = s.unicode_len();
    let mut i = from;
    while i < len && s.get_char(i) != c
        invariant
            len == s@.len(),
            from <= i <= len,
            forall|j: int| from <= j < i ==> s@[j] != c,
        decreases len - i,
    {
        i = i + 1;
    }
    i
}

impl Options {
    /// The port given on the command line wins; otherwise the config's,
    /// cut to 16 bits.
    pub fn choose_port(config_port: Option<i64>, flag_port: Option<u16>) -> (r: Option<u16>)
        ensures
            flag_port is Some ==> r == flag_port,
            flag_port is None && config_port is Some ==> r == Some(config_port->0 as u16),
            flag_port is None && config_port is None ==> r is None,
    {
        match flag_port {
            Some(p) => Some(p),
            None => match config_port {
                Some(p) => Some(p as u16),
                None => None,
            },
        }
    }

    /// Reads `CERT;KEY` as given on the command line: the certificate is
    /// what comes before the first `;`, the key what comes between it and
    /// the next one. Without a `;` there is no key.
    pub fn split_ssl(flag: &str) -> (r: (String, Option<String>))
        ensures
            r.0@ == before(flag@, ';'),
            before(flag@, ';').len() == flag@.len() ==> r.1 is None,
            before(flag@, ';').len() < flag@.len() ==> r.1 is Some
                && r.1->0@ == before(flag@.skip(before(flag@, ';').len() as int + 1), ';'),
    {
        let len = flag.unicode_len();
        let k = find_char(flag, ';', 0);
        proof {
            lemma_before_at(flag@, ';', k as int);
        }
        let cert = flag.substring_char(0, k).to_owned();
        if k == len {
            (cert, None)
        } else {
            let e = find_char(flag, ';', k + 1);
            let key = flag.substring_char(k + 1, e).to_owned();
            proof {
                let rest = flag@.skip(k + 1);
                lemma_before_at(rest, ';', e - (k + 1));
                assert(rest.take(e - (k + 1)) =~= flag@.subrange(k + 1, e as int));
            }
            (cert, Some(key))
        }
    }

    /// A TLS pair only where both the certificate and the key are known.
    pub fn ssl_pair(cert: Option<String>, key: Option<String>) -> (r: Option<(String, String)>)
        ensures
            cert is Some && key is Some ==> r == Some((cert->0, key->0)),
            cert is None || key is None ==> r is None,
    {
        match (cert, key) {
            (Some(c), Some(k)) => Some((c, k)),
            _ => None,
        }
    }
}

} // verus!
