//! Selecting the target cluster.  A network name maps to a fixed RPC
//! endpoint; this is a plain lookup, kept beside the core so every
//! command resolves names the same way.

use vstd::prelude::*;

use crate::ProtocolError;

verus! {

/// The clusters a transaction can be sent to.
#[derive(Clone, Copy, PartialEq, Eq, Structural, Debug)]
pub enum Network {
    Mainnet,
    Testnet,
    Devnet,
    Local,
}

/// Case-insensitive match of one character of a candidate name
/// against one lower-case ASCII pattern character.
pub open spec fn char_eq_ci(c: char, t: char) -> bool {
    c as u32 == t as u32 || c as u32 + 32 == t as u32
}

/// Case-insensitive match of a candidate name against a lower-case
/// ASCII pattern.
pub open spec fn matches_name_ci(s: Seq<char>, t: Seq<char>) -> bool {
    s.len() == t.len() && forall|i: int| 0 <= i < s.len() ==> char_eq_ci(#[trigger] s[i], t[i])
}

/// Compare a candidate name against a lower-case ASCII pattern,
/// ignoring ASCII case.
fn eq_ignore_case(s: &str, t: &str) -> (b: bool)
    ensures
        b == matches_name_ci(s@, t@),
{
    let n = s.unicode_len();
    if n != t.unicode_len() {
        return false;
    }
    let mut i: usize = 0;
    while i < n
        invariant
            0 <= i <= n,
            n == s@.len(),
            s@.len() == t@.len(),
            forall|k: int| 0 <= k < i ==> char_eq_ci(#[trigger] s@[k], t@[k]),
        decreases n - i,
    {
        let c = s.get_char(i);
        let p = t.get_char(i);
        if !(c as u32 == p as u32 || (c as u32) + 32 == p as u32) {
            return false;
        }
        i = i + 1;
    }
    true
}

/// The view of the URL `get_cluster_url` answers for each network.
pub open spec fn cluster_url_chars(n: Network) -> Seq<char> {
    match n {
        Network::Mainnet => "https://api.mainnet-beta.solana.com"@,
        Network::Testnet => "https://api.testnet.solana.com"@,
        Network::Devnet => "https://api.devnet.solana.com"@,
        Network::Local => "http://127.0.0.1:8899"@,
    }
}

impl Network {
    /// The RPC endpoint of this cluster.
    pub fn get_cluster_url(&self) -> (r: &'static str)
        ensures
            r@ == cluster_url_chars(*self),
    {
        match self {
            Self::Mainnet => "https://api.mainnet-beta.solana.com",
            Self::Testnet => "https://api.testnet.solana.com",
            Self::Devnet => "https://api.devnet.solana.com",
            Self::Local => "http://127.0.0.1:8899",
        }
    }
}

/// Resolve a cluster name, ignoring ASCII case.  Accepts exactly the
/// four cluster names; anything else is `WrongNetwork`.
pub fn parse_network(s: &str) -> (r: Result<Network, ProtocolError>)
    ensures
        r == Ok::<Network, ProtocolError>(Network::Mainnet) <==> matches_name_ci(s@, "mainnet"@),
        r == Ok::<Network, ProtocolError>(Network::Testnet) <==> matches_name_ci(s@, "testnet"@),
        r == Ok::<Network, ProtocolError>(Network::Devnet) <==> matches_name_ci(s@, "devnet"@),
        r == Ok::<Network, ProtocolError>(Network::Local) <==> matches_name_ci(s@, "local"@),
        r == Err::<Network, ProtocolError>(ProtocolError::WrongNetwork) <==> !(matches_name_ci(
            s@,
            "mainnet"@,
        ) || matches_name_ci(s@, "testnet"@) || matches_name_ci(s@, "devnet"@)
            || matches_name_ci(s@, "local"@)),
{
    proof {
        reveal_strlit("mainnet");
        reveal_strlit("testnet");
        reveal_strlit("devnet");
        reveal_strlit("local");
        // The four names are pairwise distinguishable even ignoring
        // case: their first characters differ, or their lengths do.
        assert(!(matches_name_ci(s@, "mainnet"@) && matches_name_ci(s@, "testnet"@))) by {
            if matches_name_ci(s@, "mainnet"@) && matches_name_ci(s@, "testnet"@) {
                assert(char_eq_ci(s@[0], "mainnet"@[0]));
                assert(char_eq_ci(s@[0], "testnet"@[0]));
            }
        }
        assert(!(matches_name_ci(s@, "mainnet"@) && matches_name_ci(s@, "devnet"@))) by {
            if matches_name_ci(s@, "mainnet"@) && matches_name_ci(s@, "devnet"@) {
                assert(char_eq_ci(s@[0], "mainnet"@[0]));
                assert(char_eq_ci(s@[0], "devnet"@[0]));
            }
        }
        assert(!(matches_name_ci(s@, "testnet"@) && matches_name_ci(s@, "devnet"@))) by {
            if matches_name_ci(s@, "testnet"@) && matches_name_ci(s@, "devnet"@) {
                assert(char_eq_ci(s@[0], "testnet"@[0]));
                assert(char_eq_ci(s@[0], "devnet"@[0]));
            }
        }
    }
    if eq_ignore_case(s, "mainnet") {
        Ok(Network::Mainnet)
    } else if eq_ignore_case(s, "testnet") {
        Ok(Network::Testnet)
    } else if eq_ignore_case(s, "devnet") {
        Ok(Network::Devnet)
    } else if eq_ignore_case(s, "local") {
        Ok(Network::Local)
    } else {
        Err(ProtocolError::WrongNetwork)
    }
}

impl core::str::FromStr for Network {
    type Err = ProtocolError;

    fn from_str(s: &str) -> Result<Network, ProtocolError> {
        parse_network(s)
    }
}

} // verus!
