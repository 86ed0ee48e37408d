//! The chains a node can start on, and the well-known keys of test chains.

use vstd::prelude::*;
use vstd::string::*;
use crate::codec::copy_bytes;
use crate::primitives::Balance;

verus! {

/// A public key as raw bytes.
pub type PublicKey = Vec<u8>;

/// The chain to start on, as named on the command line.
#[derive(Clone, Copy, Debug, PartialEq, Eq, Structural)]
pub enum Alternative {
    /// Whatever the current runtime is, with just Alice as an authority.
    Development,
    /// Whatever the current runtime is, with Alice and Bob as authorities.
    LocalTestnet,
    /// The public test network.
    Sunburst,
}

/// The chain that the name `s` stands for.
pub open spec fn alternative_named(s: Seq<char>) -> Option<Alternative> {
    if s == "dev"@ {
        Some(Alternative::Development)
    } else if s == ""@ || s == "local"@ {
        Some(Alternative::LocalTestnet)
    } else if s == "sunburst"@ {
        Some(Alternative::Sunburst)
    } else {
        None
    }
}

impl Alternative {
    /// The chain that the name `s` stands for: `dev`, `local` or nothing at
    /// all, or `sunburst`. Any other name stands for none.
    pub fn from(s: &str) -> (r: Option<Self>)
        ensures
            r == alternative_named(s@),
    {
        let name = String::from_str(s);
        if name == String::from_str("dev") {
            Some(Alternative::Development)
        } else if name == String::from_str("") || name == String::from_str("local") {
            Some(Alternative::LocalTestnet)
        } else if name == String::from_str("sunburst") {
            Some(Alternative::Sunburst)
        } else {
            None
        }
    }
}

/// The signature scheme of a key.
#[derive(Clone, Copy, Debug, PartialEq, Eq, Structural)]
pub enum KeyScheme {
    Sr25519,
    Ed25519,
}

/// The public key of the sr25519 pair that `sp_core` derives from the secret
/// string `suri`, where it derives one.
pub uninterp spec fn sr25519_public_of(suri: Seq<char>) -> Option<Seq<u8>>;

/// The public key of the ed25519 pair that `sp_core` derives from the secret
/// string `suri`, where it derives one.
pub uninterp spec fn ed25519_public_of(suri: Seq<char>) -> Option<Seq<u8>>;

/// The public key that `scheme` gives for the secret string `suri`.
pub open spec fn public_of(scheme: KeyScheme, suri: Seq<char>) -> Option<Seq<u8>> {
    match scheme {
        KeyScheme::Sr25519 => sr25519_public_of(suri),
        KeyScheme::Ed25519 => ed25519_public_of(suri),
    }
}

/// The plain value of an optional key.
pub open spec fn key_view(key: Option<PublicKey>) -> Option<Seq<u8>> {
    match key {
        Some(k) => Some(k@),
        None => None,
    }
}

/// Calls `sp_core::Pair::from_string` for sr25519 without a password, and
/// `public` on the pair. The string is parsed into phrase and junctions, the
/// development phrase standing in for a missing one, and the key derived
/// along them; a string that does not parse, or a bad phrase, gives no pair.
/// The outcome depends on the string alone; a key has 32 bytes.
#[verifier::external_body]
fn sr25519_from_string(suri: &str) -> (key: Option<PublicKey>)
    ensures
        key_view(key) == sr25519_public_of(suri@),
        key matches Some(k) ==> k@.len() == 32,
{
    match <sp_core::sr25519::Pair as sp_core::Pair>::from_string(suri, None) {
        Ok(pair) => Some(sp_core::Pair::public(&pair).0.to_vec()),
        Err(_) => None,
    }
}

/// Calls `sp_core::Pair::from_string` for ed25519 without a password, and
/// `public` on the pair, as for sr25519. The outcome depends on the string
/// alone; a key has 32 bytes.
#[verifier::external_body]
fn ed25519_from_string(suri: &str) -> (key: Option<PublicKey>)
    ensures
        key_view(key) == ed25519_public_of(suri@),
        key matches Some(k) ==> k@.len() == 32,
{
    match <sp_core::ed25519::Pair as sp_core::Pair>::from_string(suri, None) {
        Ok(pair) => Some(sp_core::Pair::public(&pair).0.to_vec()),
        Err(_) => None,
    }
}

/// The public key that `scheme` derives from the secret string `suri`.
fn derive_public(scheme: KeyScheme, suri: &str) -> (key: Option<PublicKey>)
    ensures
        key_view(key) == public_of(scheme, suri@),
        key matches Some(k) ==> k@.len() == 32,
{
    match scheme {
        KeyScheme::Sr25519 => sr25519_from_string(suri),
        KeyScheme::Ed25519 => ed25519_from_string(suri),
    }
}

/// The public key of the pair derived from the development phrase along the
/// hard junction `seed`. The seed must be one that a key can be derived
/// from, as the well-known names of test chains are; `try_get_from_seed`
/// takes any seed.
pub fn get_from_seed(scheme: KeyScheme, seed: &str) -> (key: PublicKey)
    requires
        public_of(scheme, "//"@ + seed@) is Some,
    ensures
        Some(key@) == public_of(scheme, "//"@ + seed@),
        key@.len() == 32,
{
    let suri = String::from_str("//").concat(seed);
    derive_public(scheme, suri.as_str()).expect("static values are valid; qed")
}

/// The public key of the pair derived from the development phrase along the
/// hard junction `seed`; `None` where `seed` is no junction.
pub fn try_get_from_seed(scheme: KeyScheme, seed: &str) -> (key: Option<PublicKey>)
    ensures
        key_view(key) == public_of(scheme, "//"@ + seed@),
        key matches Some(k) ==> k@.len() == 32,
{
    let suri = String::from_str("//").concat(seed);
    if derive_public(scheme, suri.as_str()).is_some() {
        Some(get_from_seed(scheme, seed))
    } else {
        None
    }
}

/// The keys of one authority of a test chain.
#[derive(Clone, Debug, PartialEq, Eq)]
pub struct AuthorityKeys {
    pub stash: PublicKey,
    pub controller: PublicKey,
    pub grandpa: PublicKey,
    pub babe: PublicKey,
    pub oracle: PublicKey,
}

/// The session keys of one authority.
#[derive(Clone, Debug, PartialEq, Eq)]
pub struct SessionKeys {
    pub grandpa: PublicKey,
    pub babe: PublicKey,
    pub oracle: PublicKey,
}

/// The three keys as the session keys of one authority.
pub fn session_keys(grandpa: PublicKey, babe: PublicKey, oracle: PublicKey) -> (keys: SessionKeys)
    ensures
        keys.grandpa == grandpa,
        keys.babe == babe,
        keys.oracle == oracle,
{
    SessionKeys { grandpa, babe, oracle }
}

/// Whether `keys` are the keys that `seed` stands for: the stash account
/// under `seed` followed by the hard junction `stash`, the others under
/// `seed` itself, finality with ed25519 and the rest with sr25519.
pub open spec fn keys_of_seed(keys: AuthorityKeys, seed: Seq<char>) -> bool {
    &&& Some(keys.stash@) == sr25519_public_of("//"@ + (seed + "//stash"@))
    &&& Some(keys.controller@) == sr25519_public_of("//"@ + seed)
    &&& Some(keys.grandpa@) == ed25519_public_of("//"@ + seed)
    &&& Some(keys.babe@) == sr25519_public_of("//"@ + seed)
    &&& Some(keys.oracle@) == sr25519_public_of("//"@ + seed)
}

/// Whether every key that `seed` stands for can be derived.
pub open spec fn seed_has_keys(seed: Seq<char>) -> bool {
    &&& sr25519_public_of("//"@ + (seed + "//stash"@)) is Some
    &&& sr25519_public_of("//"@ + seed) is Some
    &&& ed25519_public_of("//"@ + seed) is Some
}

/// The stash, controller and session keys that `seed` stands for. The seed
/// must be one that all of them can be derived from;
/// `try_get_authority_keys_from_seed` takes any seed.
pub fn get_authority_keys_from_seed(seed: &str) -> (keys: AuthorityKeys)
    requires
        seed_has_keys(seed@),
    ensures
        keys_of_seed(keys, seed@),
{
    let stash_seed = String::from_str(seed).concat("//stash");
    AuthorityKeys {
        stash: get_from_seed(KeyScheme::Sr25519, stash_seed.as_str()),
        controller: get_from_seed(KeyScheme::Sr25519, seed),
        grandpa: get_from_seed(KeyScheme::Ed25519, seed),
        babe: get_from_seed(KeyScheme::Sr25519, seed),
        oracle: get_from_seed(KeyScheme::Sr25519, seed),
    }
}

/// The stash, controller and session keys that `seed` stands for; `None`
/// where one of them cannot be derived.
pub fn try_get_authority_keys_from_seed(seed: &str) -> (keys: Option<AuthorityKeys>)
    ensures
        keys is Some <==> seed_has_keys(seed@),
        keys matches Some(k) ==> keys_of_seed(k, seed@),
{
    let stash_seed = String::from_str(seed).concat("//stash");
    if try_get_from_seed(KeyScheme::Sr25519, stash_seed.as_str()).is_some() && try_get_from_seed(
        KeyScheme::Sr25519,
        seed,
    ).is_some() && try_get_from_seed(KeyScheme::Ed25519, seed).is_some() {
        Some(get_authority_keys_from_seed(seed))
    } else {
        None
    }
}

/// What every endowed account starts with.
pub const ENDOWMENT: Balance = 1 << 60;

/// What every authority has bonded at the start.
pub const STASH: Balance = 1 << 59;

/// Where the description of the public test network is kept.
pub const SUNBURST_FILE: &'static str = "../sunburst.json";

/// What a staker does with its bond.
#[derive(Clone, Copy, Debug, PartialEq, Eq, Structural)]
pub enum StakerStatus {
    Idle,
    Validator,
    Nominator,
}

/// One staker of the first era.
#[derive(Clone, Debug, PartialEq, Eq)]
pub struct Staker {
    pub stash: PublicKey,
    pub controller: PublicKey,
    pub bonded: Balance,
    pub status: StakerStatus,
}

/// The state a test chain starts from, as plain values.
#[derive(Clone, Debug, PartialEq, Eq)]
pub struct GenesisConfig {
    pub indices: Vec<PublicKey>,
    pub balances: Vec<(PublicKey, Balance)>,
    pub sudo_key: PublicKey,
    pub session_keys: Vec<(PublicKey, SessionKeys)>,
    pub current_era: u32,
    pub validator_count: u32,
    pub minimum_validator_count: u32,
    pub stakers: Vec<Staker>,
    pub invulnerables: Vec<PublicKey>,
    pub slash_reward_percent: u32,
}

/// Whether `genesis` is the start of a test chain with the given
/// authorities, root key and endowed accounts: every endowed account is
/// indexed and holds `ENDOWMENT`; every authority's stash carries its session
/// keys, is bonded with `STASH` as a validator under its controller, and
/// cannot be slashed; seven validators are wanted and four needed.
pub open spec fn is_testnet_genesis(
    genesis: GenesisConfig,
    authorities: Seq<AuthorityKeys>,
    root_key: Seq<u8>,
    endowed: Seq<PublicKey>,
) -> bool {
    &&& genesis.indices@.len() == endowed.len()
    &&& genesis.balances@.len() == endowed.len()
    &&& forall|i: int| 0 <= i < endowed.len() ==> (#[trigger] genesis.indices@[i])@ == endowed[i]@
    &&& forall|i: int|
        0 <= i < endowed.len() ==> {
            &&& (#[trigger] genesis.balances@[i]).0@ == endowed[i]@
            &&& genesis.balances@[i].1 == ENDOWMENT
        }
    &&& genesis.sudo_key@ == root_key
    &&& genesis.session_keys@.len() == authorities.len()
    &&& genesis.stakers@.len() == authorities.len()
    &&& genesis.invulnerables@.len() == authorities.len()
    &&& forall|i: int|
        0 <= i < authorities.len() ==> {
            &&& (#[trigger] genesis.session_keys@[i]).0@ == authorities[i].stash@
            &&& genesis.session_keys@[i].1.grandpa@ == authorities[i].grandpa@
            &&& genesis.session_keys@[i].1.babe@ == authorities[i].babe@
            &&& genesis.session_keys@[i].1.oracle@ == authorities[i].oracle@
        }
    &&& forall|i: int|
        0 <= i < authorities.len() ==> {
            &&& (#[trigger] genesis.stakers@[i]).stash@ == authorities[i].stash@
            &&& genesis.stakers@[i].controller@ == authorities[i].controller@
            &&& genesis.stakers@[i].bonded == STASH
            &&& genesis.stakers@[i].status == StakerStatus::Validator
        }
    &&& forall|i: int|
        0 <= i < authorities.len() ==> (#[trigger] genesis.invulnerables@[i])@ == authorities[i].stash@
    &&& genesis.current_era == 0
    &&& genesis.validator_count == 7
    &&& genesis.minimum_validator_count == 4
    &&& genesis.slash_reward_percent == 0
}

/// The start of a test chain with the given authorities, root key and
/// endowed accounts.
pub fn testnet_genesis(
    initial_authorities: &Vec<AuthorityKeys>,
    root_key: PublicKey,
    endowed_accounts: &Vec<PublicKey>,
    _enable_println: bool,
) -> (genesis: GenesisConfig)
    ensures
        is_testnet_genesis(genesis, initial_authorities@, root_key@, endowed_accounts@),
{
    let mut indices: Vec<PublicKey> = Vec::new();
    let mut balances: Vec<(PublicKey, Balance)> = Vec::new();
    let mut i: usize = 0;
    while i < endowed_accounts.len()
        invariant
            i <= endowed_accounts.len(),
            indices@.len() == i,
            balances@.len() == i,
            forall|k: int| 0 <= k < i ==> (#[trigger] indices@[k])@ == endowed_accounts@[k]@,
            forall|k: int|
                0 <= k < i ==> {
                    &&& (#[trigger] balances@[k]).0@ == endowed_accounts@[k]@
                    &&& balances@[k].1 == ENDOWMENT
                },
        decreases endowed_accounts.len() - i,
    {
        indices.push(copy_bytes(&endowed_accounts[i]));
        balances.push((copy_bytes(&endowed_accounts[i]), ENDOWMENT));
        i += 1;
    }
    let mut keys: Vec<(PublicKey, SessionKeys)> = Vec::new();
    let mut stakers: Vec<Staker> = Vec::new();
    let mut invulnerables: Vec<PublicKey> = Vec::new();
    let mut j: usize = 0;
    while j < initial_authorities.len()
        invariant
            j <= initial_authorities.len(),
            keys@.len() == j,
            stakers@.len() == j,
            invulnerables@.len() == j,
            forall|k: int|
                0 <= k < j ==> {
                    &&& (#[trigger] keys@[k]).0@ == initial_authorities@[k].stash@
                    &&& keys@[k].1.grandpa@ == initial_authorities@[k].grandpa@
                    &&& keys@[k].1.babe@ == initial_authorities@[k].babe@
                    &&& keys@[k].1.oracle@ == initial_authorities@[k].oracle@
                },
            forall|k: int|
                0 <= k < j ==> {
                    &&& (#[trigger] stakers@[k]).stash@ == initial_authorities@[k].stash@
                    &&& stakers@[k].controller@ == initial_authorities@[k].controller@
                    &&& stakers@[k].bonded == STASH
                    &&& stakers@[k].status == StakerStatus::Validator
                },
            forall|k: int| 0 <= k < j ==> (#[trigger] invulnerables@[k])@ == initial_authorities@[k].stash@,
        decreases initial_authorities.len() - j,
    {
        let x = &initial_authorities[j];
        keys.push(
            (copy_bytes(&x.stash), session_keys(copy_bytes(&x.grandpa), copy_bytes(&x.babe), copy_bytes(&x.oracle))),
        );
        stakers.push(
            Staker {
                stash: copy_bytes(&x.stash),
                controller: copy_bytes(&x.controller),
                bonded: STASH,
                status: StakerStatus::Validator,
            },
        );
        invulnerables.push(copy_bytes(&x.stash));
        j += 1;
    }
    GenesisConfig {
        indices,
        balances,
        sudo_key: root_key,
        session_keys: keys,
        current_era: 0,
        validator_count: 7,
        minimum_validator_count: 4,
        stakers,
        invulnerables,
        slash_reward_percent: 0,
    }
}

/// What a node needs to start on a chain.
#[derive(Clone, Debug, PartialEq, Eq)]
pub enum ChainSpec {
    /// A chain made up on the spot, with its name, identifier and start.
    Generated { name: &'static str, id: &'static str, genesis: GenesisConfig },
    /// A chain described in a file.
    JsonFile { path: &'static str },
}

/// Whether `authorities` are the keys that `seeds` stand for, one by one.
pub open spec fn authorities_of_seeds(authorities: Seq<AuthorityKeys>, seeds: Seq<&'static str>) -> bool {
    &&& authorities.len() == seeds.len()
    &&& forall|i: int| 0 <= i < seeds.len() ==> keys_of_seed(#[trigger] authorities[i], seeds[i]@)
}

/// Whether `accounts` are the account keys that `seeds` stand for, one by one.
pub open spec fn accounts_of_seeds(accounts: Seq<PublicKey>, seeds: Seq<&'static str>) -> bool {
    &&& accounts.len() == seeds.len()
    &&& forall|i: int|
        0 <= i < seeds.len() ==> Some((#[trigger] accounts[i])@) == sr25519_public_of("//"@ + seeds[i]@)
}

/// Whether every seed in `seeds` has all the keys of an authority.
pub open spec fn seeds_have_keys(seeds: Seq<&'static str>) -> bool {
    forall|i: int| 0 <= i < seeds.len() ==> seed_has_keys(#[trigger] seeds[i]@)
}

/// Whether every seed in `seeds` has an account key.
pub open spec fn seeds_have_accounts(seeds: Seq<&'static str>) -> bool {
    forall|i: int| 0 <= i < seeds.len() ==> sr25519_public_of("//"@ + (#[trigger] seeds[i])@) is Some
}

/// The keys of the authorities that `seeds` stand for; `None` where one
/// cannot be derived.
pub fn authorities_from_seeds(seeds: &Vec<&'static str>) -> (authorities: Option<Vec<AuthorityKeys>>)
    ensures
        authorities is Some <==> seeds_have_keys(seeds@),
        authorities matches Some(a) ==> authorities_of_seeds(a@, seeds@),
{
    let mut out: Vec<AuthorityKeys> = Vec::new();
    let mut i: usize = 0;
    while i < seeds.len()
        invariant
            i <= seeds.len(),
            authorities_of_seeds(out@, seeds@.take(i as int)),
            seeds_have_keys(seeds@.take(i as int)),
        decreases seeds.len() - i,
    {
        match try_get_authority_keys_from_seed(seeds[i]) {
            Some(k) => {
                out.push(k);
            },
            None => {
                return None;
            },
        }
        i += 1;
    }
    proof {
        assert(seeds@.take(seeds@.len() as int) =~= seeds@);
    }
    Some(out)
}

/// The account keys that `seeds` stand for; `None` where one cannot be
/// derived.
pub fn accounts_from_seeds(seeds: &Vec<&'static str>) -> (accounts: Option<Vec<PublicKey>>)
    ensures
        accounts is Some <==> seeds_have_accounts(seeds@),
        accounts matches Some(a) ==> accounts_of_seeds(a@, seeds@),
{
    let mut out: Vec<PublicKey> = Vec::new();
    let mut i: usize = 0;
    while i < seeds.len()
        invariant
            i <= seeds.len(),
            accounts_of_seeds(out@, seeds@.take(i as int)),
            seeds_have_accounts(seeds@.take(i as int)),
        decreases seeds.len() - i,
    {
        match try_get_from_seed(KeyScheme::Sr25519, seeds[i]) {
            Some(k) => {
                out.push(k);
            },
            None => {
                return None;
            },
        }
        i += 1;
    }
    proof {
        assert(seeds@.take(seeds@.len() as int) =~= seeds@);
    }
    Some(out)
}

/// Whether `genesis` is the start of the test chain whose authorities, root
/// and endowed accounts are the keys of the given seeds.
pub open spec fn genesis_of_seeds(
    genesis: GenesisConfig,
    authority_seeds: Seq<&'static str>,
    root_seed: &'static str,
    endowed_seeds: Seq<&'static str>,
) -> bool {
    exists|authorities: Seq<AuthorityKeys>, root: PublicKey, endowed: Seq<PublicKey>|
        {
            &&& authorities_of_seeds(authorities, authority_seeds)
            &&& Some(root@) == sr25519_public_of("//"@ + root_seed@)
            &&& accounts_of_seeds(endowed, endowed_seeds)
            &&& #[trigger] is_testnet_genesis(genesis, authorities, root@, endowed)
        }
}

/// Whether all the keys of a test chain with these seeds can be derived.
pub open spec fn seeds_usable(
    authority_seeds: Seq<&'static str>,
    root_seed: &'static str,
    endowed_seeds: Seq<&'static str>,
) -> bool {
    &&& seeds_have_keys(authority_seeds)
    &&& sr25519_public_of("//"@ + root_seed@) is Some
    &&& seeds_have_accounts(endowed_seeds)
}

/// The start of the test chain whose authorities, root and endowed accounts
/// are the keys of the given seeds; `None` where a key cannot be derived.
pub fn genesis_from_seeds(
    authority_seeds: &Vec<&'static str>,
    root_seed: &'static str,
    endowed_seeds: &Vec<&'static str>,
) -> (genesis: Option<GenesisConfig>)
    ensures
        genesis is Some <==> seeds_usable(authority_seeds@, root_seed, endowed_seeds@),
        genesis matches Some(g) ==> genesis_of_seeds(g, authority_seeds@, root_seed, endowed_seeds@),
{
    let authorities = match authorities_from_seeds(authority_seeds) {
        Some(a) => a,
        None => {
            return None;
        },
    };
    let root = match try_get_from_seed(KeyScheme::Sr25519, root_seed) {
        Some(k) => k,
        None => {
            return None;
        },
    };
    let endowed = match accounts_from_seeds(endowed_seeds) {
        Some(a) => a,
        None => {
            return None;
        },
    };
    let ghost root_copy = root;
    let g = testnet_genesis(&authorities, root, &endowed, true);
    proof {
        assert(is_testnet_genesis(g, authorities@, root_copy@, endowed@));
    }
    Some(g)
}

/// The seeds of the authorities of a chain that is made up on the spot.
pub open spec fn authority_seeds(chain: Alternative) -> Seq<&'static str> {
    match chain {
        Alternative::Development => seq!["Alice"],
        Alternative::LocalTestnet => seq!["Alice", "Bob"],
        Alternative::Sunburst => seq![],
    }
}

/// The seeds of the endowed accounts of a chain that is made up on the spot.
pub open spec fn endowed_seeds(chain: Alternative) -> Seq<&'static str> {
    match chain {
        Alternative::Development => seq!["Alice", "Bob", "Alice//stash", "Bob//stash"],
        Alternative::LocalTestnet => seq![
            "Alice",
            "Bob",
            "Charlie",
            "Dave",
            "Eve",
            "Ferdie",
            "Alice//stash",
            "Bob//stash",
            "Charlie//stash",
            "Dave//stash",
            "Eve//stash",
            "Ferdie//stash",
        ],
        Alternative::Sunburst => seq![],
    }
}

/// What loading `chain` owes: the public test network is read from its
/// file; the other two are made up from their seeds with Alice as root,
/// which fails only where a key cannot be derived.
pub open spec fn loaded(chain: Alternative, outcome: Result<ChainSpec, String>) -> bool {
    match chain {
        Alternative::Sunburst => outcome == Ok::<ChainSpec, String>(ChainSpec::JsonFile { path: SUNBURST_FILE }),
        _ => match outcome {
            Ok(ChainSpec::Generated { name, id, genesis }) => {
                &&& seeds_usable(authority_seeds(chain), "Alice", endowed_seeds(chain))
                &&& chain.name_and_id() == Some((name, id))
                &&& genesis_of_seeds(genesis, authority_seeds(chain), "Alice", endowed_seeds(chain))
            },
            Ok(ChainSpec::JsonFile { .. }) => false,
            Err(e) => {
                &&& !seeds_usable(authority_seeds(chain), "Alice", endowed_seeds(chain))
                &&& e@ == "static values are valid; qed"@
            },
        },
    }
}

impl Alternative {
    /// The name shown for the chain and its identifier; the public test
    /// network carries its own in its file.
    pub open spec fn name_and_id(&self) -> Option<(&'static str, &'static str)> {
        match *self {
            Alternative::Development => Some(("Development", "dev")),
            Alternative::LocalTestnet => Some(("Local Testnet", "local_testnet")),
            Alternative::Sunburst => None,
        }
    }

    /// What a node needs to start on this chain.
    pub fn load(self) -> (outcome: Result<ChainSpec, String>)
        ensures
            loaded(self, outcome),
    {
        let mut authorities: Vec<&'static str> = Vec::new();
        let mut endowed: Vec<&'static str> = Vec::new();
        let (name, id) = match self {
            Alternative::Development => {
                authorities.push("Alice");
                endowed.push("Alice");
                endowed.push("Bob");
                endowed.push("Alice//stash");
                endowed.push("Bob//stash");
                ("Development", "dev")
            },
            Alternative::LocalTestnet => {
                authorities.push("Alice");
                authorities.push("Bob");
                endowed.push("Alice");
                endowed.push("Bob");
                endowed.push("Charlie");
                endowed.push("Dave");
                endowed.push("Eve");
                endowed.push("Ferdie");
                endowed.push("Alice//stash");
                endowed.push("Bob//stash");
                endowed.push("Charlie//stash");
                endowed.push("Dave//stash");
                endowed.push("Eve//stash");
                endowed.push("Ferdie//stash");
                ("Local Testnet", "local_testnet")
            },
            Alternative::Sunburst => {
                return Ok(ChainSpec::JsonFile { path: SUNBURST_FILE });
            },
        };
        proof {
            assert(authorities@ =~= authority_seeds(self));
            assert(endowed@ =~= endowed_seeds(self));
        }
        match genesis_from_seeds(&authorities, "Alice", &endowed) {
            Some(genesis) => Ok(ChainSpec::Generated { name, id, genesis }),
            None => Err(String::from_str("static values are valid; qed")),
        }
    }
}

} // verus!
