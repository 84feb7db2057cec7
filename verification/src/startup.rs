use vstd::prelude::*;

use crate::text::{trim_text, trimmed};

verus! {

/// What the release build signature covers.
pub open spec fn signature_covered() -> Seq<char> {
    "official_release_manifest"@
}

/// The signature algorithm assumed when the build names none.
pub open spec fn default_signature_algorithm() -> Seq<char> {
    "ed25519"@
}

/// Whether a build carries a release signature, and its parts.
#[derive(Debug, Clone, Copy, PartialEq, Eq)]
pub enum BuildSignature<'a> {
    Unsigned,
    Present { algorithm: &'a str, key_id: &'a str, signature: &'a str, covered: &'a str },
}

/// A value trimmed, when something is left.
pub open spec fn spec_non_empty(value: Option<Seq<char>>) -> Option<Seq<char>> {
    match value {
        Some(v) => if trimmed(v).len() > 0 {
            Some(trimmed(v))
        } else {
            None
        },
        None => None,
    }
}

/// A value trimmed, when something is left.
pub fn non_empty<'a>(value: Option<&'a str>) -> (r: Option<&'a str>)
    ensures
        match spec_non_empty(
            match value {
                Some(v) => Some(v@),
                None => None,
            },
        ) {
            Some(t) => r matches Some(s) && s@ == t,
            None => r is None,
        },
{
    match value {
        Some(v) => {
            let t = trim_text(v);
            if t.is_empty() {
                None
            } else {
                Some(t)
            }
        },
        None => None,
    }
}

impl<'a> BuildSignature<'a> {
    /// The signature the build-time settings describe: present only when
    /// both a key id and a signature are given (after trimming), with the
    /// named algorithm or ed25519.
    pub fn from_parts(key_id: Option<&'a str>, signature: Option<&'a str>, algorithm: Option<&'a str>) -> (r: BuildSignature<'a>)
        ensures
            ({
                let key = spec_non_empty(
                    match key_id {
                        Some(v) => Some(v@),
                        None => None,
                    },
                );
                let sig = spec_non_empty(
                    match signature {
                        Some(v) => Some(v@),
                        None => None,
                    },
                );
                let alg = spec_non_empty(
                    match algorithm {
                        Some(v) => Some(v@),
                        None => None,
                    },
                );
                if key is Some && sig is Some {
                    r matches BuildSignature::Present { algorithm: a, key_id: k, signature: s, covered: c }
                        && k@ == key->Some_0 && s@ == sig->Some_0 && c@ == signature_covered() && a@ == (
                    match alg {
                        Some(x) => x,
                        None => default_signature_algorithm(),
                    })
                } else {
                    r == BuildSignature::<'a>::Unsigned
                }
            }),
    {
        let key = non_empty(key_id);
        let sig = non_empty(signature);
        match (key, sig) {
            (Some(k), Some(s)) => {
                let a = match non_empty(algorithm) {
                    Some(a) => a,
                    None => "ed25519",
                };
                BuildSignature::Present { algorithm: a, key_id: k, signature: s, covered: "official_release_manifest" }
            },
            _ => BuildSignature::Unsigned,
        }
    }
}

} // verus!
