//! The assembler: orchestrates key generation, validator-set building
//! and genesis encoding, and returns every artifact to the caller, who
//! persists the genesis bytes at the path the node configuration names.

use vstd::prelude::*;
use vstd::string::StringExecFns;
use crate::address::AccountAddress;
use crate::crypto;
use crate::errors::ConfigError;
use crate::genesis::GenesisTransactionView;
use crate::genesis::decode_transaction_spec;
use crate::genesis::gen_genesis_transaction_bytes;
use crate::genesis::genesis_transaction_view;
use crate::genesis::transaction_bytes;
use crate::genesis::transaction_signature_valid;
use crate::keys::KeyPair;
use crate::validator::ConsensusPeersConfig;
use crate::validator::NetworkPeersConfig;
use crate::validator::ValidatorKeys;
use crate::validator::gen_validator_nodes;
use crate::validator::peer_addresses_distinct;
use crate::validator::peers_aligned;
use crate::validator::peers_wf;

verus! {

/// A template node configuration: it names the filesystem path where the
/// genesis transaction must be written. Created once per assembly call and
/// handed to the caller; writing the file itself is the caller's
/// input/output edge.
pub struct NodeConfig {
    pub genesis_file_location: String,
}

impl NodeConfig {
    /// The single-node test template, naming the default genesis file.
    pub fn get_single_node_test_config() -> (r: NodeConfig)
        ensures
            r.genesis_file_location@ == "genesis.blob"@,
    {
        NodeConfig { genesis_file_location: String::from_str("genesis.blob") }
    }

    /// The path of the file where the genesis transaction is to be stored.
    pub fn get_genesis_transaction_file(&self) -> (r: String)
        ensures
            r@ == self.genesis_file_location@,
    {
        self.genesis_file_location.clone()
    }
}

/// Everything one assembly call produces: the validator-key mapping, the two
/// peer directories, the node configuration, the root keypair that signed
/// the genesis transaction, and the encoded genesis transaction awaiting
/// persistence at the configuration's genesis path.
pub struct TestNetworkArtifacts {
    pub validator_keys: Vec<(AccountAddress, ValidatorKeys)>,
    pub consensus_peers: ConsensusPeersConfig,
    pub network_peers: NetworkPeersConfig,
    pub node_config: NodeConfig,
    pub root_keypair: KeyPair,
    pub genesis_bytes: Vec<u8>,
}

/// What a successful assembly of a `count`-validator test network owes the
/// caller.
pub open spec fn artifacts_ok(a: TestNetworkArtifacts, count: int) -> bool {
    &&& a.validator_keys@.len() == count
    &&& forall|i: int|
        0 <= i < count ==> (#[trigger] a.validator_keys@[i]).0.wf() && a.validator_keys@[i].1.wf()
    &&& forall|i: int|
        0 <= i < count ==> (#[trigger] a.validator_keys@[i]).0.bytes@ == crypto::sha3_256_of(
            a.validator_keys@[i].1.consensus_keypair.public_key@,
        )
    &&& forall|i: int, j: int|
        0 <= i < j < count ==> (#[trigger] a.validator_keys@[i]).0.bytes@
            != (#[trigger] a.validator_keys@[j]).0.bytes@
    &&& a.consensus_peers.peers@.len() == count
    &&& a.network_peers.peers@.len() == count
    &&& peers_wf(a.consensus_peers.peers@)
    &&& peers_wf(a.network_peers.peers@)
    &&& peers_aligned(a.consensus_peers.peers@, a.network_peers.peers@)
    &&& peer_addresses_distinct(a.consensus_peers.peers@)
    &&& forall|i: int|
        0 <= i < count ==> (#[trigger] a.consensus_peers.peers@[i]).0.bytes@
            == a.validator_keys@[i].0.bytes@ && a.consensus_peers.peers@[i].1@
            == a.validator_keys@[i].1.consensus_keypair.public_key@
    &&& forall|i: int|
        0 <= i < count ==> (#[trigger] a.network_peers.peers@[i]).0.bytes@
            == a.validator_keys@[i].0.bytes@ && a.network_peers.peers@[i].1@
            == a.validator_keys@[i].1.network_keypair.public_key@
    &&& a.root_keypair.wf()
    &&& a.genesis_bytes@ == transaction_bytes(
        genesis_transaction_view(a.root_keypair, a.consensus_peers.peers@, a.network_peers.peers@),
    )
    &&& decode_transaction_spec(a.genesis_bytes@) == Some(
        genesis_transaction_view(a.root_keypair, a.consensus_peers.peers@, a.network_peers.peers@),
    )
    &&& transaction_signature_valid(
        genesis_transaction_view(a.root_keypair, a.consensus_peers.peers@, a.network_peers.peers@),
    )
    &&& a.genesis_bytes@.len() > 0
}

/// Assembles a complete test network: obtains the template configuration,
/// generates a fresh root keypair, builds the validator set, and encodes the
/// signed genesis transaction. The pipeline is strictly linear: the first
/// failing stage aborts the call, and no genesis bytes exist outside a
/// successful result, so nothing can be persisted for a failed call.
pub fn build_test_network_artifacts(validator_count: usize, seeds: Option<&Vec<Vec<u8>>>) -> (r:
    Result<TestNetworkArtifacts, ConfigError>)
    requires
        seeds matches Some(s) ==> s@.len() == validator_count && (forall|i: int|
            0 <= i < validator_count ==> (#[trigger] s@[i])@.len() == 32),
        validator_count * 96 + 104 <= u32::MAX,
        validator_count * 96 + 104 <= usize::MAX,
    ensures
        validator_count == 0 ==> (r matches Err(e) && e == ConfigError::InvalidValidatorCount),
        validator_count >= 1 ==> (r matches Err(e) ==> e == ConfigError::Environment),
        r matches Ok(a) ==> artifacts_ok(a, validator_count as int),
{
    if validator_count == 0 {
        return Err(ConfigError::InvalidValidatorCount);
    }
    let node_config = NodeConfig::get_single_node_test_config();
    let root_keypair = match KeyPair::generate() {
        Ok(kp) => kp,
        Err(e) => {
            return Err(e);
        },
    };
    let (validator_keys, consensus_peers, network_peers) = match gen_validator_nodes(
        validator_count,
        seeds,
    ) {
        Ok(t) => t,
        Err(e) => {
            return Err(e);
        },
    };
    let genesis_bytes = gen_genesis_transaction_bytes(
        &root_keypair,
        &consensus_peers,
        &network_peers,
    );
    Ok(
        TestNetworkArtifacts {
            validator_keys,
            consensus_peers,
            network_peers,
            node_config,
            root_keypair,
            genesis_bytes,
        },
    )
}

/// Assembles the default single-validator test network and returns all of
/// its artifacts; the caller persists the genesis bytes at the path the node
/// configuration names.
pub fn get_test_config_with_validators() -> (r: Result<TestNetworkArtifacts, ConfigError>)
    ensures
        r matches Err(e) ==> e == ConfigError::Environment,
        r matches Ok(a) ==> artifacts_ok(a, 1),
{
    build_test_network_artifacts(1, None)
}

/// Assembles the default single-validator test network and returns only the
/// node configuration, the root keypair, and the genesis bytes the caller
/// must persist.
pub fn get_test_config() -> (r: Result<(NodeConfig, KeyPair, Vec<u8>), ConfigError>)
    ensures
        r matches Err(e) ==> e == ConfigError::Environment,
        r matches Ok(t) ==> t.1.wf() && t.2@.len() > 0 && (exists|v: GenesisTransactionView|
            decode_transaction_spec(t.2@) == Some(v) && transaction_signature_valid(v)
                && v.public_key == t.1.public_key@),
{
    match get_test_config_with_validators() {
        Ok(a) => {
            proof {
                let v = genesis_transaction_view(
                    a.root_keypair,
                    a.consensus_peers.peers@,
                    a.network_peers.peers@,
                );
                assert(decode_transaction_spec(a.genesis_bytes@) == Some(v)
                    && transaction_signature_valid(v) && v.public_key
                    == a.root_keypair.public_key@);
            }
            Ok((a.node_config, a.root_keypair, a.genesis_bytes))
        },
        Err(e) => Err(e),
    }
}

} // verus!
