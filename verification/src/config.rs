//! The configuration a run consumes.
//!
//! The configuration is read once per run by the caller (a file, in the
//! ordinary deployment) and handed in as one immutable value: the API
//! credential, the IPv6 selection policy, and the ordered zones, each with
//! its ordered record-name fragments.

use vstd::prelude::*;

use crate::ip::Ipv6Policy;

verus! {

/// One configured zone: its name and the record-name fragments to manage,
/// each joined with the zone name to form a fully-qualified record name.
pub struct ZoneConfig {
    pub name: String,
    pub records: Vec<String>,
}

/// The configuration of one run, never mutated.
pub struct Config {
    pub api_token: String,
    pub ipv6: Ipv6Policy,
    pub zones: Vec<ZoneConfig>,
}

/// `s` with every underscore replaced by a hyphen.
pub open spec fn dashed(s: Seq<char>) -> Seq<char> {
    s.map_values(
        |c: char|
            if c == '_' {
                '-'
            } else {
                c
            },
    )
}

/// Replaces underscores with hyphens, as package names are written in
/// distribution artefacts.
#[verifier::loop_isolation(false)]
pub fn replace_underscores(s: &str) -> (r: String)
    requires
        s@.len() < usize::MAX,
    ensures
        r@ == dashed(s@),
{
    let n = s.unicode_len();
    let mut out = String::new();
    proof {
        assert(out@ =~= dashed(s@.take(0)));
    }
    let mut i: usize = 0;
    while i < n
        invariant
            i <= n,
            out@ == dashed(s@.take(i as int)),
        decreases n - i,
    {
        let c = s.get_char(i);
        if c == '_' {
            out.append("-");
            proof {
                reveal_strlit("-");
                assert(out@ =~= dashed(s@.take(i + 1)));
            }
        } else {
            let piece = s.substring_char(i, i + 1);
            out.append(piece);
            proof {
                assert(out@ =~= dashed(s@.take(i + 1)));
            }
        }
        i = i + 1;
    }
    proof {
        assert(s@.take(n as int) =~= s@);
    }
    out
}

/// This crate's package name as distributions write it, underscores
/// hyphenated.
pub fn cargo_name() -> (r: String)
    ensures
        r@ == dashed("cfddns"@),
{
    proof {
        reveal_strlit("cfddns");
    }
    replace_underscores("cfddns")
}

} // verus!
