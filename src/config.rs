use vstd::prelude::*;
use vstd::string::StrSliceExecFns;
use rand::seq::SliceRandom;

verus! {

pub const ULTRASOUND_RELAY_URL: &'static str = "https://relay.ultrasound.money";

pub const AGNOSTIC_RELAY_URL: &'static str = "https://agnostic-relay.net";

pub const FLASHBOTS_RELAY_URL: &'static str = "https://boost-relay.flashbots.net";

pub const BLOXROUTE_RELAY_URL: &'static str = "https://bloxroute.max-profit.blxrbdn.com";

pub const AESTUS_RELAY_URL: &'static str = "https://mainnet.aestus.live";

pub const TITAN_RELAY_URL: &'static str = "https://titanrelay.xyz";

/// The relays this watcher knows.
#[derive(Clone, Copy, Debug, PartialEq, Eq, Structural)]
pub enum RelayId {
    Ultrasound,
    Agnostic,
    Flashbots,
    Bloxroute,
    Aestus,
    Titan,
}

/// The lower-case name of a relay.
pub open spec fn relay_name(id: RelayId) -> Seq<char> {
    match id {
        RelayId::Ultrasound => "ultrasound"@,
        RelayId::Agnostic => "agnostic"@,
        RelayId::Flashbots => "flashbots"@,
        RelayId::Bloxroute => "bloxroute"@,
        RelayId::Aestus => "aestus"@,
        RelayId::Titan => "titan"@,
    }
}

/// The base URL of a relay's bid queries.
pub open spec fn relay_url(id: RelayId) -> Seq<char> {
    match id {
        RelayId::Ultrasound => ULTRASOUND_RELAY_URL@,
        RelayId::Agnostic => AGNOSTIC_RELAY_URL@,
        RelayId::Flashbots => FLASHBOTS_RELAY_URL@,
        RelayId::Bloxroute => BLOXROUTE_RELAY_URL@,
        RelayId::Aestus => AESTUS_RELAY_URL@,
        RelayId::Titan => TITAN_RELAY_URL@,
    }
}

/// `c` is `lower`, or its ASCII upper-case form.
pub open spec fn char_folds_to(c: char, lower: char) -> bool {
    c == lower || ('A' <= c && c <= 'Z' && c as u32 + 32 == lower as u32)
}

/// `s` spells the lower-case `name` without regard to ASCII case.
pub open spec fn name_matches(s: Seq<char>, name: Seq<char>) -> bool {
    s.len() == name.len() && forall|i: int| 0 <= i < s.len() ==> char_folds_to(#[trigger] s[i], name[i])
}

/// The relay that a name denotes, if any.
pub open spec fn relay_of(s: Seq<char>) -> Option<RelayId> {
    if name_matches(s, relay_name(RelayId::Ultrasound)) {
        Some(RelayId::Ultrasound)
    } else if name_matches(s, relay_name(RelayId::Agnostic)) {
        Some(RelayId::Agnostic)
    } else if name_matches(s, relay_name(RelayId::Flashbots)) {
        Some(RelayId::Flashbots)
    } else if name_matches(s, relay_name(RelayId::Bloxroute)) {
        Some(RelayId::Bloxroute)
    } else if name_matches(s, relay_name(RelayId::Aestus)) {
        Some(RelayId::Aestus)
    } else if name_matches(s, relay_name(RelayId::Titan)) {
        Some(RelayId::Titan)
    } else {
        None
    }
}

fn matches_name(s: &str, name: &str) -> (r: bool)
    ensures
        r <==> name_matches(s@, name@),
{
    let n = s.unicode_len();
    if n != name.unicode_len() {
        return false;
    }
    let mut i: usize = 0;
    while i < n
        invariant
            n == s@.len(),
            n == name@.len(),
            i <= n,
            forall|k: int| 0 <= k < i ==> char_folds_to(#[trigger] s@[k], name@[k]),
        decreases n - i,
    {
        let c = s.get_char(i);
        let l = name.get_char(i);
        let ok = c == l || ('A' <= c && c <= 'Z' && c as u32 + 32 == l as u32);
        if !ok {
            return false;
        }
        i = i + 1;
    }
    true
}

impl RelayId {
    /// The relay that `name` denotes, without regard to ASCII case.
    pub fn from_name(name: &str) -> (r: Option<RelayId>)
        ensures
            r == relay_of(name@),
    {
        if matches_name(name, "ultrasound") {
            Some(RelayId::Ultrasound)
        } else if matches_name(name, "agnostic") {
            Some(RelayId::Agnostic)
        } else if matches_name(name, "flashbots") {
            Some(RelayId::Flashbots)
        } else if matches_name(name, "bloxroute") {
            Some(RelayId::Bloxroute)
        } else if matches_name(name, "aestus") {
            Some(RelayId::Aestus)
        } else if matches_name(name, "titan") {
            Some(RelayId::Titan)
        } else {
            None
        }
    }

    pub fn name(&self) -> (r: &'static str)
        ensures
            r@ == relay_name(*self),
    {
        match self {
            RelayId::Ultrasound => "ultrasound",
            RelayId::Agnostic => "agnostic",
            RelayId::Flashbots => "flashbots",
            RelayId::Bloxroute => "bloxroute",
            RelayId::Aestus => "aestus",
            RelayId::Titan => "titan",
        }
    }

    pub fn url(&self) -> (r: &'static str)
        ensures
            r@ == relay_url(*self),
    {
        match self {
            RelayId::Ultrasound => ULTRASOUND_RELAY_URL,
            RelayId::Agnostic => AGNOSTIC_RELAY_URL,
            RelayId::Flashbots => FLASHBOTS_RELAY_URL,
            RelayId::Bloxroute => BLOXROUTE_RELAY_URL,
            RelayId::Aestus => AESTUS_RELAY_URL,
            RelayId::Titan => TITAN_RELAY_URL,
        }
    }
}

/// The base URL of the relay that `relay` names, without regard to ASCII case.
pub fn get_relay_url(relay: &str) -> (r: &'static str)
    requires
        relay_of(relay@) is Some,
    ensures
        r@ == relay_url(relay_of(relay@)->Some_0),
{
    match RelayId::from_name(relay) {
        Some(id) => id.url(),
        None => ULTRASOUND_RELAY_URL,
    }
}

/// Where the application keeps its files.
#[derive(Debug, Clone, Default)]
pub struct Common {
    pub db_dir: String,
    pub cache_dir: String,
    pub output_dir: String,
}

/// The RPC URL of each relay.
#[derive(Debug, Clone, Default)]
pub struct Rpc {
    pub ultrasound_rpc_url: String,
    pub agnostic_rpc_url: String,
    pub flashbots_rpc_url: String,
    pub bloxroute_rpc_url: String,
    pub aestus_rpc_url: String,
    pub titan_rpc_url: String,
}

/// The candidate public keys of each relay.
#[derive(Debug, Clone, Default)]
pub struct PublicKey {
    pub ultrasound_public_keys: Vec<String>,
    pub agnostic_public_keys: Vec<String>,
    pub flashbots_public_keys: Vec<String>,
    pub bloxroute_public_keys: Vec<String>,
    pub aestus_public_keys: Vec<String>,
    pub titan_public_keys: Vec<String>,
}

/// The application's settings.
#[derive(Debug, Clone, Default)]
pub struct Config {
    pub relay_urls: Vec<String>,
    pub provider_url: String,
    pub comm: Common,
    pub rpc: Rpc,
    pub publickey: PublicKey,
}

impl Rpc {
    pub open spec fn spec_url_for(&self, id: RelayId) -> String {
        match id {
            RelayId::Ultrasound => self.ultrasound_rpc_url,
            RelayId::Agnostic => self.agnostic_rpc_url,
            RelayId::Flashbots => self.flashbots_rpc_url,
            RelayId::Bloxroute => self.bloxroute_rpc_url,
            RelayId::Aestus => self.aestus_rpc_url,
            RelayId::Titan => self.titan_rpc_url,
        }
    }

    pub fn url_for(&self, id: RelayId) -> (r: &String)
        ensures
            *r == self.spec_url_for(id),
    {
        match id {
            RelayId::Ultrasound => &self.ultrasound_rpc_url,
            RelayId::Agnostic => &self.agnostic_rpc_url,
            RelayId::Flashbots => &self.flashbots_rpc_url,
            RelayId::Bloxroute => &self.bloxroute_rpc_url,
            RelayId::Aestus => &self.aestus_rpc_url,
            RelayId::Titan => &self.titan_rpc_url,
        }
    }
}

impl PublicKey {
    pub open spec fn spec_keys_for(&self, id: RelayId) -> Vec<String> {
        match id {
            RelayId::Ultrasound => self.ultrasound_public_keys,
            RelayId::Agnostic => self.agnostic_public_keys,
            RelayId::Flashbots => self.flashbots_public_keys,
            RelayId::Bloxroute => self.bloxroute_public_keys,
            RelayId::Aestus => self.aestus_public_keys,
            RelayId::Titan => self.titan_public_keys,
        }
    }

    pub fn keys_for(&self, id: RelayId) -> (r: &Vec<String>)
        ensures
            *r == self.spec_keys_for(id),
    {
        match id {
            RelayId::Ultrasound => &self.ultrasound_public_keys,
            RelayId::Agnostic => &self.agnostic_public_keys,
            RelayId::Flashbots => &self.flashbots_public_keys,
            RelayId::Bloxroute => &self.bloxroute_public_keys,
            RelayId::Aestus => &self.aestus_public_keys,
            RelayId::Titan => &self.titan_public_keys,
        }
    }
}

/// The relay at position `i` of the fixed order of `rpc_urls`.
pub open spec fn relay_at(i: int) -> RelayId {
    if i == 0 {
        RelayId::Ultrasound
    } else if i == 1 {
        RelayId::Agnostic
    } else if i == 2 {
        RelayId::Flashbots
    } else if i == 3 {
        RelayId::Bloxroute
    } else if i == 4 {
        RelayId::Aestus
    } else {
        RelayId::Titan
    }
}

/// Relies on rand's `SliceRandom::choose` with `thread_rng`: `None` for an
/// empty slice, and otherwise one of its elements, chosen at random.
#[verifier::external_body]
fn choose_key(keys: &Vec<String>) -> (r: Option<&String>)
    ensures
        r is None <==> keys@.len() == 0,
        r matches Some(k) ==> exists|i: int| 0 <= i < keys@.len() && keys@[i] == *k,
{
    keys.choose(&mut rand::thread_rng())
}

fn copy_string(s: &String) -> (r: String)
    ensures
        r@ == s@,
{
    s.clone()
}

impl Config {
    /// The RPC URL of the relay that `relay` names, without regard to ASCII case.
    pub fn rpc_url(&self, relay: &str) -> (r: &str)
        requires
            relay_of(relay@) is Some,
        ensures
            r@ == self.rpc.spec_url_for(relay_of(relay@)->Some_0)@,
    {
        match RelayId::from_name(relay) {
            Some(id) => self.rpc.url_for(id).as_str(),
            None => self.rpc.ultrasound_rpc_url.as_str(),
        }
    }

    /// Each relay's name with its RPC URL, in a fixed order.
    pub fn rpc_urls(&self) -> (r: Vec<(String, String)>)
        ensures
            r@.len() == 6,
            forall|i: int|
                0 <= i < 6 ==> (#[trigger] r@[i]).0@ == relay_name(relay_at(i)) && r@[i].1@
                    == self.rpc.spec_url_for(relay_at(i))@,
    {
        let ids = [
            RelayId::Ultrasound,
            RelayId::Agnostic,
            RelayId::Flashbots,
            RelayId::Bloxroute,
            RelayId::Aestus,
            RelayId::Titan,
        ];
        let mut out: Vec<(String, String)> = Vec::new();
        let mut i: usize = 0;
        while i < 6
            invariant
                i <= 6,
                ids@ == seq![
                    RelayId::Ultrasound,
                    RelayId::Agnostic,
                    RelayId::Flashbots,
                    RelayId::Bloxroute,
                    RelayId::Aestus,
                    RelayId::Titan,
                ],
                out@.len() == i,
                forall|k: int|
                    0 <= k < i ==> (#[trigger] out@[k]).0@ == relay_name(relay_at(k)) && out@[k].1@
                        == self.rpc.spec_url_for(relay_at(k))@,
            decreases 6 - i,
        {
            let id = ids[i];
            assert(id == relay_at(i as int));
            let name = id.name().to_string();
            let url = copy_string(self.rpc.url_for(id));
            out.push((name, url));
            i = i + 1;
        }
        out
    }

    /// One of the public keys configured for the relay that `relay` names,
    /// picked at random.
    pub fn public_key(&self, relay: &str) -> (r: &str)
        requires
            relay_of(relay@) is Some,
            self.publickey.spec_keys_for(relay_of(relay@)->Some_0)@.len() > 0,
        ensures
            exists|i: int|
                0 <= i < self.publickey.spec_keys_for(relay_of(relay@)->Some_0)@.len()
                    && r@ == self.publickey.spec_keys_for(relay_of(relay@)->Some_0)@[i]@,
    {
        let keys = match RelayId::from_name(relay) {
            Some(id) => self.publickey.keys_for(id),
            None => &self.publickey.ultrasound_public_keys,
        };
        match choose_key(keys) {
            Some(k) => k.as_str(),
            None => keys[0].as_str(),
        }
    }
}

} // verus!
