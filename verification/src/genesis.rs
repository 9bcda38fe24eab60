//! The genesis transaction: canonical ordering and binary encoding of
//! the validator set, signing, and the decoder for the envelope.

use vstd::prelude::*;
use vstd::bytes::lemma_auto_spec_u32_to_from_le_bytes;
use vstd::bytes::spec_u32_from_le_bytes;
use vstd::bytes::spec_u32_to_le_bytes;
use vstd::bytes::u32_from_le_bytes;
use vstd::bytes::u32_to_le_bytes;
use crate::address::AccountAddress;
use crate::address::bytes_le;
use crate::address::lemma_bytes_le_total;
use crate::bytes_util::copy_bytes;
use crate::bytes_util::copy_range;
use crate::bytes_util::push_bytes;
use crate::crypto;
use crate::keys::KeyPair;
use crate::validator::ConsensusPeersConfig;
use crate::validator::NetworkPeersConfig;
use crate::validator::peers_aligned;
use crate::validator::peers_wf;

verus! {

/// One row of the validator-set payload: a validator's address and its two
/// public keys.
pub struct ValidatorPeer {
    pub address: AccountAddress,
    pub consensus_public_key: Vec<u8>,
    pub network_public_key: Vec<u8>,
}

/// The mathematical value of one validator-set row.
#[verifier::ext_equal]
pub ghost struct PeerView {
    pub address: Seq<u8>,
    pub consensus_public_key: Seq<u8>,
    pub network_public_key: Seq<u8>,
}

impl View for ValidatorPeer {
    type V = PeerView;

    open spec fn view(&self) -> PeerView {
        PeerView {
            address: self.address.bytes@,
            consensus_public_key: self.consensus_public_key@,
            network_public_key: self.network_public_key@,
        }
    }
}

/// Every field of the row has its fixed width.
pub open spec fn peer_view_wf(p: PeerView) -> bool {
    &&& p.address.len() == 32
    &&& p.consensus_public_key.len() == 32
    &&& p.network_public_key.len() == 32
}

pub open spec fn peers_all_wf(s: Seq<PeerView>) -> bool {
    forall|i: int| 0 <= i < s.len() ==> peer_view_wf(#[trigger] s[i])
}

/// Rows are ordered by their addresses.
pub open spec fn peer_le(a: PeerView, b: PeerView) -> bool {
    bytes_le(a.address, b.address)
}

pub open spec fn peers_sorted(s: Seq<PeerView>) -> bool {
    forall|i: int, j: int| 0 <= i < j < s.len() ==> peer_le(#[trigger] s[i], #[trigger] s[j])
}

pub open spec fn peers_view(s: Seq<ValidatorPeer>) -> Seq<PeerView> {
    s.map_values(|p: ValidatorPeer| p@)
}

/// Places `p` into `s` before the longest suffix of rows that do not come at
/// or before it; on a sorted sequence this is ordered insertion.
pub open spec fn insert_canonical(s: Seq<PeerView>, p: PeerView) -> Seq<PeerView>
    decreases s.len(),
{
    if s.len() == 0 {
        seq![p]
    } else if peer_le(s.last(), p) {
        s.push(p)
    } else {
        insert_canonical(s.drop_last(), p).push(s.last())
    }
}

/// The canonical, deterministic ordering of a validator set: the rows sorted
/// by address. Identical logical inputs always canonicalize identically.
pub open spec fn canonical_peers(s: Seq<PeerView>) -> Seq<PeerView>
    decreases s.len(),
{
    if s.len() == 0 {
        Seq::empty()
    } else {
        insert_canonical(canonical_peers(s.drop_first()), s.first())
    }
}

/// Canonical insertion is insertion at a position: it splits the sequence at
/// the point the scan from the right stops.
pub proof fn lemma_insert_canonical_at(s: Seq<PeerView>, p: PeerView, j: int)
    requires
        0 <= j <= s.len(),
        forall|k: int| j <= k < s.len() ==> !peer_le(#[trigger] s[k], p),
        j > 0 ==> peer_le(s[j - 1], p),
    ensures
        insert_canonical(s, p) == s.insert(j, p),
    decreases s.len(),
{
    if j == s.len() {
        if s.len() == 0 {
            assert(insert_canonical(s, p) =~= s.insert(j, p));
        } else {
            assert(peer_le(s.last(), p));
            assert(s.push(p) =~= s.insert(j, p));
        }
    } else {
        assert(!peer_le(s.last(), p));
        let sd = s.drop_last();
        assert(forall|k: int| j <= k < sd.len() ==> !peer_le(#[trigger] sd[k], p));
        lemma_insert_canonical_at(sd, p, j);
        assert(sd.insert(j, p).push(s.last()) =~= s.insert(j, p));
    }
}

/// Canonical insertion inserts at some position, keeps well-formedness, and
/// keeps the ordering.
pub proof fn lemma_insert_canonical_props(s: Seq<PeerView>, p: PeerView)
    ensures
        insert_canonical(s, p).len() == s.len() + 1,
        exists|j: int|
            0 <= j <= s.len() && insert_canonical(s, p) == #[trigger] s.insert(j, p),
        peers_all_wf(s) && peer_view_wf(p) ==> peers_all_wf(insert_canonical(s, p)),
        peers_sorted(s) ==> peers_sorted(insert_canonical(s, p)),
    decreases s.len(),
{
    if s.len() == 0 {
        assert(insert_canonical(s, p) =~= s.insert(0, p));
        assert(s.insert(0, p) == s.insert(0, p));
    } else if peer_le(s.last(), p) {
        assert(s.push(p) =~= s.insert(s.len() as int, p));
        if peers_sorted(s) {
            assert forall|i: int, j: int|
                0 <= i < j < s.push(p).len() implies peer_le(
                #[trigger] s.push(p)[i],
                #[trigger] s.push(p)[j],
            ) by {
                if j == s.len() {
                    if i < s.len() - 1 {
                        assert(peer_le(s[i], s.last()));
                        lemma_bytes_le_total(s[i].address, p.address);
                        crate::address::lemma_bytes_le_transitive(
                            s[i].address,
                            s.last().address,
                            p.address,
                        );
                    }
                }
            }
        }
    } else {
        let sd = s.drop_last();
        lemma_insert_canonical_props(sd, p);
        let r = insert_canonical(sd, p).push(s.last());
        let j = choose|j: int|
            0 <= j <= sd.len() && insert_canonical(sd, p) == #[trigger] sd.insert(j, p);
        assert(sd.insert(j, p).push(s.last()) =~= s.insert(j, p));
        assert(insert_canonical(s, p) == s.insert(j, p));
        if peers_sorted(s) {
            assert(peers_sorted(sd));
            lemma_bytes_le_total(s.last().address, p.address);
            assert(peer_le(p, s.last()));
            assert forall|i: int, k: int| 0 <= i < k < r.len() implies peer_le(
                #[trigger] r[i],
                #[trigger] r[k],
            ) by {
                if k < r.len() - 1 {
                    assert(peer_le(sd.insert(j, p)[i], sd.insert(j, p)[k]));
                } else {
                    // every row of the inserted prefix comes at or before the
                    // final row
                    if i < j {
                        assert(r[i] == sd[i]);
                        assert(peer_le(s[i], s.last()));
                    } else if i == j {
                        assert(r[i] == p);
                    } else {
                        assert(r[i] == sd[i - 1]);
                        assert(peer_le(s[i - 1], s.last()));
                    }
                }
            }
        }
    }
}

/// The canonical ordering keeps the length and the rows' well-formedness,
/// and its result is sorted by address.
pub proof fn lemma_canonical_peers_props(s: Seq<PeerView>)
    ensures
        canonical_peers(s).len() == s.len(),
        peers_all_wf(s) ==> peers_all_wf(canonical_peers(s)),
        peers_sorted(canonical_peers(s)),
    decreases s.len(),
{
    if s.len() > 0 {
        let sd = s.drop_first();
        assert(peers_all_wf(s) ==> peers_all_wf(sd)) by {
            if peers_all_wf(s) {
                assert forall|i: int| 0 <= i < sd.len() implies peer_view_wf(#[trigger] sd[i]) by {
                    assert(sd[i] == s[i + 1]);
                }
            }
        }
        lemma_canonical_peers_props(sd);
        lemma_insert_canonical_props(canonical_peers(sd), s.first());
    }
}

/// Ordered insertion of `p` into the (sorted) vector, scanning from the
/// right; the result is exactly the canonical insertion of the rows' views.
fn insert_peer(out: &mut Vec<ValidatorPeer>, p: ValidatorPeer)
    ensures
        peers_view(final(out)@) == insert_canonical(peers_view(old(out)@), p@),
{
    let ghost v0 = out@;
    let ghost s0 = peers_view(out@);
    let mut j: usize = out.len();
    while j > 0
        invariant
            j <= v0.len(),
            out@ == v0,
            s0 == peers_view(v0),
            forall|k: int| j <= k < s0.len() ==> !peer_le(#[trigger] s0[k], p@),
        ensures
            out@ == v0,
            j <= s0.len(),
            forall|k: int| j <= k < s0.len() ==> !peer_le(#[trigger] s0[k], p@),
            j > 0 ==> peer_le(s0[j - 1], p@),
        decreases j,
    {
        let stop = out[j - 1].address.le(&p.address);
        if stop {
            break ;
        }
        j = j - 1;
    }
    proof {
        lemma_insert_canonical_at(s0, p@, j as int);
    }
    out.insert(j, p);
    proof {
        assert(peers_view(out@) =~= s0.insert(j as int, p@));
    }
}

/// Sorts the validator set into its canonical order by address.
pub fn sort_peers_by_address(peers: Vec<ValidatorPeer>) -> (r: Vec<ValidatorPeer>)
    ensures
        peers_view(r@) == canonical_peers(peers_view(peers@)),
{
    let ghost v = peers@;
    let ghost s = peers_view(peers@);
    let mut rest = peers;
    let mut out: Vec<ValidatorPeer> = Vec::new();
    while rest.len() > 0
        invariant
            rest@.len() <= v.len(),
            rest@ == v.subrange(0, rest@.len() as int),
            s == peers_view(v),
            peers_view(out@) == canonical_peers(s.skip(rest@.len() as int)),
        decreases rest@.len(),
    {
        let ghost n0 = rest@.len() as int;
        let p = rest.pop().unwrap();
        proof {
            assert(p == v[n0 - 1]);
            assert(rest@ =~= v.subrange(0, n0 - 1));
        }
        insert_peer(&mut out, p);
        proof {
            let i = n0 - 1;
            assert(s.skip(i).drop_first() =~= s.skip(i + 1));
            assert(s.skip(i).first() == s[i]);
            assert(s[i] == p@);
            assert(peers_view(out@) == canonical_peers(s.skip(i)));
        }
    }
    proof {
        assert(s.skip(0) =~= s);
    }
    out
}

/// The validator-set rows obtained by pairing the two aligned peer
/// directories position by position.
pub open spec fn merged_views(
    c: Seq<(AccountAddress, Vec<u8>)>,
    n: Seq<(AccountAddress, Vec<u8>)>,
) -> Seq<PeerView> {
    Seq::new(
        c.len(),
        |i: int|
            PeerView {
                address: c[i].0.bytes@,
                consensus_public_key: c[i].1@,
                network_public_key: n[i].1@,
            },
    )
}

/// Pairs the two aligned peer directories into validator-set rows, one per
/// validator, in directory order.
pub fn merge_peer_directories(
    consensus_peers_config: &ConsensusPeersConfig,
    network_peers_config: &NetworkPeersConfig,
) -> (r: Vec<ValidatorPeer>)
    requires
        peers_wf(consensus_peers_config.peers@),
        peers_wf(network_peers_config.peers@),
        peers_aligned(consensus_peers_config.peers@, network_peers_config.peers@),
    ensures
        peers_view(r@) == merged_views(
            consensus_peers_config.peers@,
            network_peers_config.peers@,
        ),
        peers_all_wf(peers_view(r@)),
        r@.len() == consensus_peers_config.peers@.len(),
{
    let c = &consensus_peers_config.peers;
    let n = &network_peers_config.peers;
    let ghost m = merged_views(c@, n@);
    let mut r: Vec<ValidatorPeer> = Vec::new();
    let mut i: usize = 0;
    while i < c.len()
        invariant
            i <= c@.len(),
            c@.len() == n@.len(),
            peers_wf(c@),
            peers_wf(n@),
            m == merged_views(c@, n@),
            r@.len() == i,
            peers_view(r@) == m.take(i as int),
        decreases c@.len() - i,
    {
        let address = AccountAddress { bytes: copy_bytes(&c[i].0.bytes) };
        let consensus_public_key = copy_bytes(&c[i].1);
        let network_public_key = copy_bytes(&n[i].1);
        r.push(ValidatorPeer { address, consensus_public_key, network_public_key });
        proof {
            assert(peers_view(r@) =~= m.take(i + 1));
        }
        i = i + 1;
    }
    proof {
        assert(m.take(c@.len() as int) =~= m);
        assert forall|k: int| 0 <= k < m.len() implies peer_view_wf(#[trigger] m[k]) by {
            assert(c@[k].0.wf() && c@[k].1@.len() == 32);
            assert(n@[k].0.wf() && n@[k].1@.len() == 32);
        }
    }
    r
}

/// The bytes of one validator-set row: address, consensus public key and
/// network public key, each of fixed width.
pub open spec fn peer_bytes(p: PeerView) -> Seq<u8> {
    p.address + p.consensus_public_key + p.network_public_key
}

pub open spec fn peers_bytes(s: Seq<PeerView>) -> Seq<u8>
    decreases s.len(),
{
    if s.len() == 0 {
        Seq::<u8>::empty()
    } else {
        peers_bytes(s.drop_last()) + peer_bytes(s.last())
    }
}

/// The canonical validator-set payload: a 4-byte little-endian row count
/// followed by the rows.
pub open spec fn payload_bytes(s: Seq<PeerView>) -> Seq<u8> {
    spec_u32_to_le_bytes(s.len() as u32) + peers_bytes(s)
}

pub proof fn lemma_peers_bytes_len(s: Seq<PeerView>)
    requires
        peers_all_wf(s),
    ensures
        peers_bytes(s).len() == 96 * s.len(),
    decreases s.len(),
{
    if s.len() > 0 {
        let sd = s.drop_last();
        assert forall|i: int| 0 <= i < sd.len() implies peer_view_wf(#[trigger] sd[i]) by {
            assert(sd[i] == s[i]);
        }
        lemma_peers_bytes_len(sd);
        assert(peer_view_wf(s.last()));
    }
}

/// Serializes the validator set, row for row, behind its row count.
pub fn encode_validator_set(peers: &Vec<ValidatorPeer>) -> (r: Vec<u8>)
    requires
        peers@.len() <= u32::MAX,
        peers_all_wf(peers_view(peers@)),
    ensures
        r@ == payload_bytes(peers_view(peers@)),
{
    let ghost s = peers_view(peers@);
    let count: u32 = peers.len() as u32;
    let mut out: Vec<u8> = u32_to_le_bytes(count);
    let mut i: usize = 0;
    while i < peers.len()
        invariant
            i <= peers@.len(),
            s == peers_view(peers@),
            peers@.len() <= u32::MAX,
            count == peers@.len() as u32,
            out@ == spec_u32_to_le_bytes(count) + peers_bytes(s.take(i as int)),
        decreases peers@.len() - i,
    {
        let p = &peers[i];
        push_bytes(&mut out, &p.address.bytes);
        push_bytes(&mut out, &p.consensus_public_key);
        push_bytes(&mut out, &p.network_public_key);
        proof {
            assert(s.take(i + 1).drop_last() =~= s.take(i as int));
            assert(s.take(i + 1).last() == s[i as int]);
            assert(out@ =~= spec_u32_to_le_bytes(count) + peers_bytes(s.take(i + 1)));
        }
        i = i + 1;
    }
    proof {
        assert(s.take(s.len() as int) =~= s);
    }
    out
}

/// A signed transaction carrying a validator-set payload: the exact payload
/// bytes, the signature over them, and the signer's public key.
pub struct SignatureCheckedTransaction {
    pub payload: Vec<u8>,
    pub signature: Vec<u8>,
    pub public_key: Vec<u8>,
}

/// The mathematical value of a signed genesis transaction.
#[verifier::ext_equal]
pub ghost struct GenesisTransactionView {
    pub payload: Seq<u8>,
    pub signature: Seq<u8>,
    pub public_key: Seq<u8>,
}

impl View for SignatureCheckedTransaction {
    type V = GenesisTransactionView;

    open spec fn view(&self) -> GenesisTransactionView {
        GenesisTransactionView {
            payload: self.payload@,
            signature: self.signature@,
            public_key: self.public_key@,
        }
    }
}

/// The payload opens with a 4-byte little-endian row count followed by that
/// many fixed-width rows, and nothing else.
pub open spec fn payload_shape_ok(p: Seq<u8>) -> bool {
    &&& p.len() >= 4
    &&& p.len() == 4 + 96 * (spec_u32_from_le_bytes(p.subrange(0, 4)) as int)
}

/// Structural validity of a signed genesis transaction: fixed-width key and
/// signature, and a payload of the canonical shape.
pub open spec fn transaction_wf(v: GenesisTransactionView) -> bool {
    &&& v.public_key.len() == 32
    &&& v.signature.len() == 64
    &&& v.payload.len() <= u32::MAX
    &&& payload_shape_ok(v.payload)
}

/// The embedded signature verifies against the embedded public key and the
/// exact payload bytes.
pub open spec fn transaction_signature_valid(v: GenesisTransactionView) -> bool {
    crypto::signature_checks(v.public_key, v.payload, v.signature)
}

/// The canonical binary envelope: payload length, payload, signer public
/// key, signature.
pub open spec fn transaction_bytes(v: GenesisTransactionView) -> Seq<u8> {
    spec_u32_to_le_bytes(v.payload.len() as u32) + v.payload + v.public_key + v.signature
}

/// What the envelope decoder accepts, and the transaction it reads.
pub open spec fn decode_transaction_spec(b: Seq<u8>) -> Option<GenesisTransactionView> {
    if b.len() < 4 {
        None
    } else {
        let n = spec_u32_from_le_bytes(b.subrange(0, 4)) as int;
        if b.len() == 4 + n + 96 && payload_shape_ok(b.subrange(4, 4 + n)) {
            Some(
                GenesisTransactionView {
                    payload: b.subrange(4, 4 + n),
                    public_key: b.subrange(4 + n, 4 + n + 32),
                    signature: b.subrange(4 + n + 32, 4 + n + 96),
                },
            )
        } else {
            None
        }
    }
}

/// Encoding a structurally valid transaction and decoding the result gives
/// the transaction back: no truncation, no silently dropped bytes.
pub proof fn lemma_transaction_round_trip(v: GenesisTransactionView)
    requires
        transaction_wf(v),
    ensures
        decode_transaction_spec(transaction_bytes(v)) == Some(v),
{
    lemma_auto_spec_u32_to_from_le_bytes();
    let b = transaction_bytes(v);
    let n = v.payload.len() as int;
    assert(b.subrange(0, 4) =~= spec_u32_to_le_bytes(v.payload.len() as u32));
    assert(spec_u32_from_le_bytes(b.subrange(0, 4)) == v.payload.len() as u32);
    assert(b.len() == 4 + n + 96);
    assert(b.subrange(4, 4 + n) =~= v.payload);
    assert(b.subrange(4 + n, 4 + n + 32) =~= v.public_key);
    assert(b.subrange(4 + n + 32, 4 + n + 96) =~= v.signature);
    assert(decode_transaction_spec(b) =~= Some(v));
}

impl SignatureCheckedTransaction {
    /// Checks the embedded signature against the embedded public key and the
    /// exact payload bytes.
    pub fn check_signature(&self) -> (r: bool)
        requires
            self.public_key@.len() == 32,
            self.signature@.len() == 64,
        ensures
            r == transaction_signature_valid(self@),
    {
        crypto::ed25519_verify(&self.public_key, &self.payload, &self.signature)
    }
}

/// Serializes a transaction into its canonical binary envelope.
pub fn encode_transaction(t: &SignatureCheckedTransaction) -> (r: Vec<u8>)
    requires
        transaction_wf(t@),
    ensures
        r@ == transaction_bytes(t@),
{
    let len32: u32 = t.payload.len() as u32;
    let mut out: Vec<u8> = u32_to_le_bytes(len32);
    push_bytes(&mut out, &t.payload);
    push_bytes(&mut out, &t.public_key);
    push_bytes(&mut out, &t.signature);
    out
}

/// Checks that a payload has the canonical shape.
fn payload_shape_check(p: &Vec<u8>) -> (r: bool)
    ensures
        r == payload_shape_ok(p@),
{
    if p.len() < 4 {
        return false;
    }
    let head = copy_range(p, 0, 4);
    let count = u32_from_le_bytes(head.as_slice());
    (p.len() as u64) == 4u64 + 96u64 * (count as u64)
}

/// Reads a transaction back from its canonical binary envelope; rejects any
/// byte sequence that is not exactly one well-shaped envelope.
pub fn decode_genesis_transaction(bytes: &Vec<u8>) -> (r: Option<SignatureCheckedTransaction>)
    ensures
        r matches Some(t) ==> decode_transaction_spec(bytes@) == Some(t@) && transaction_wf(t@),
        r is None ==> decode_transaction_spec(bytes@) is None,
{
    if bytes.len() < 4 {
        return None;
    }
    let head = copy_range(bytes, 0, 4);
    let n32 = u32_from_le_bytes(head.as_slice());
    if (bytes.len() as u64) != 4u64 + (n32 as u64) + 96u64 {
        return None;
    }
    let n = n32 as usize;
    let payload = copy_range(bytes, 4, 4 + n);
    if !payload_shape_check(&payload) {
        return None;
    }
    let public_key = copy_range(bytes, 4 + n, 4 + n + 32);
    let signature = copy_range(bytes, 4 + n + 32, 4 + n + 96);
    let t = SignatureCheckedTransaction { payload, signature, public_key };
    proof {
        assert(decode_transaction_spec(bytes@) =~= Some(t@));
    }
    Some(t)
}

/// The genesis transaction owed for a root keypair and a pair of aligned
/// peer directories: the canonically ordered validator set as payload,
/// signed with the root private key, carrying the root public key.
pub open spec fn genesis_transaction_view(
    root: KeyPair,
    c: Seq<(AccountAddress, Vec<u8>)>,
    n: Seq<(AccountAddress, Vec<u8>)>,
) -> GenesisTransactionView {
    let payload = payload_bytes(canonical_peers(merged_views(c, n)));
    GenesisTransactionView {
        payload,
        signature: crypto::signature_of(root.private_key@, payload),
        public_key: root.public_key@,
    }
}

/// Builds and signs the transaction that seeds the ledger's initial
/// validator set: merges the peer directories, orders the rows canonically
/// by address, encodes the payload, signs the exact payload bytes with the
/// root private key, and attaches the root public key.
pub fn gen_genesis_transaction(
    faucet_account_keypair: &KeyPair,
    consensus_peers_config: &ConsensusPeersConfig,
    network_peers_config: &NetworkPeersConfig,
) -> (r: SignatureCheckedTransaction)
    requires
        faucet_account_keypair.wf(),
        peers_wf(consensus_peers_config.peers@),
        peers_wf(network_peers_config.peers@),
        peers_aligned(consensus_peers_config.peers@, network_peers_config.peers@),
        consensus_peers_config.peers@.len() * 96 + 104 <= u32::MAX,
        consensus_peers_config.peers@.len() * 96 + 104 <= usize::MAX,
    ensures
        r@ == genesis_transaction_view(
            *faucet_account_keypair,
            consensus_peers_config.peers@,
            network_peers_config.peers@,
        ),
        transaction_wf(r@),
        transaction_signature_valid(r@),
{
    let ghost m = merged_views(consensus_peers_config.peers@, network_peers_config.peers@);
    let merged = merge_peer_directories(consensus_peers_config, network_peers_config);
    proof {
        lemma_canonical_peers_props(m);
    }
    let sorted = sort_peers_by_address(merged);
    let payload = encode_validator_set(&sorted);
    proof {
        lemma_peers_bytes_len(canonical_peers(m));
        lemma_auto_spec_u32_to_from_le_bytes();
        assert(payload@.subrange(0, 4) =~= spec_u32_to_le_bytes(canonical_peers(m).len() as u32));
    }
    let signature = crypto::sign_message(&faucet_account_keypair.private_key, &payload);
    let public_key = copy_bytes(&faucet_account_keypair.public_key);
    SignatureCheckedTransaction { payload, signature, public_key }
}

/// Builds, signs and serializes the genesis transaction into its canonical
/// binary envelope.
pub fn gen_genesis_transaction_bytes(
    faucet_account_keypair: &KeyPair,
    consensus_peers_config: &ConsensusPeersConfig,
    network_peers_config: &NetworkPeersConfig,
) -> (r: Vec<u8>)
    requires
        faucet_account_keypair.wf(),
        peers_wf(consensus_peers_config.peers@),
        peers_wf(network_peers_config.peers@),
        peers_aligned(consensus_peers_config.peers@, network_peers_config.peers@),
        consensus_peers_config.peers@.len() * 96 + 104 <= u32::MAX,
        consensus_peers_config.peers@.len() * 96 + 104 <= usize::MAX,
    ensures
        r@ == transaction_bytes(
            genesis_transaction_view(
                *faucet_account_keypair,
                consensus_peers_config.peers@,
                network_peers_config.peers@,
            ),
        ),
        decode_transaction_spec(r@) == Some(
            genesis_transaction_view(
                *faucet_account_keypair,
                consensus_peers_config.peers@,
                network_peers_config.peers@,
            ),
        ),
        transaction_wf(
            genesis_transaction_view(
                *faucet_account_keypair,
                consensus_peers_config.peers@,
                network_peers_config.peers@,
            ),
        ),
        transaction_signature_valid(
            genesis_transaction_view(
                *faucet_account_keypair,
                consensus_peers_config.peers@,
                network_peers_config.peers@,
            ),
        ),
        r@.len() > 0,
{
    let t = gen_genesis_transaction(
        faucet_account_keypair,
        consensus_peers_config,
        network_peers_config,
    );
    proof {
        lemma_transaction_round_trip(t@);
    }
    encode_transaction(&t)
}

/// No two rows of the validator set share an address.
pub open spec fn peer_views_addresses_distinct(s: Seq<PeerView>) -> bool {
    forall|i: int, j: int|
        0 <= i < j < s.len() ==> (#[trigger] s[i]).address != (#[trigger] s[j]).address
}

/// Canonical insertion adds exactly the inserted row to the collection of
/// rows.
pub proof fn lemma_insert_canonical_multiset(s: Seq<PeerView>, p: PeerView)
    ensures
        insert_canonical(s, p).to_multiset() == s.to_multiset().insert(p),
{
    broadcast use vstd::seq_lib::group_to_multiset_ensures;

    lemma_insert_canonical_props(s, p);
    let j = choose|j: int|
        0 <= j <= s.len() && insert_canonical(s, p) == #[trigger] s.insert(j, p);
    assert(s.insert(j, p).to_multiset() == s.to_multiset().insert(p));
}

/// The canonical ordering is a permutation: it keeps the collection of rows.
pub proof fn lemma_canonical_peers_multiset(s: Seq<PeerView>)
    ensures
        canonical_peers(s).to_multiset() == s.to_multiset(),
    decreases s.len(),
{
    broadcast use vstd::seq_lib::group_to_multiset_ensures;
    broadcast use vstd::multiset::group_multiset_axioms;

    if s.len() > 0 {
        let sd = s.drop_first();
        lemma_canonical_peers_multiset(sd);
        lemma_insert_canonical_multiset(canonical_peers(sd), s.first());
        assert(s =~= seq![s.first()] + sd);
        vstd::seq_lib::lemma_multiset_commutative(seq![s.first()], sd);
        assert(seq![s.first()] =~= Seq::<PeerView>::empty().push(s.first()));
        assert(s.to_multiset() =~= sd.to_multiset().insert(s.first()));
    }
}

/// Whether some row of `s` carries address `a`.
pub open spec fn addr_in(s: Seq<PeerView>, a: Seq<u8>) -> bool {
    exists|k: int| 0 <= k < s.len() && (#[trigger] s[k]).address == a
}

/// Canonical insertion carries exactly the old addresses plus the inserted
/// one, and keeps distinctness when the inserted address is new.
pub proof fn lemma_insert_canonical_addresses(s: Seq<PeerView>, p: PeerView)
    ensures
        forall|a: Seq<u8>|
            addr_in(insert_canonical(s, p), a) <==> (addr_in(s, a) || a == p.address),
        peer_views_addresses_distinct(s) && !addr_in(s, p.address)
            ==> peer_views_addresses_distinct(insert_canonical(s, p)),
{
    lemma_insert_canonical_props(s, p);
    let j = choose|j: int|
        0 <= j <= s.len() && insert_canonical(s, p) == #[trigger] s.insert(j, p);
    let r = s.insert(j, p);
    assert forall|a: Seq<u8>| addr_in(r, a) implies (addr_in(s, a) || a == p.address) by {
        let k = choose|k: int| 0 <= k < r.len() && (#[trigger] r[k]).address == a;
        if k < j {
            assert(s[k].address == a);
        } else if k > j {
            assert(s[k - 1].address == a);
        }
    }
    assert forall|a: Seq<u8>| (addr_in(s, a) || a == p.address) implies addr_in(r, a) by {
        if addr_in(s, a) {
            let k = choose|k: int| 0 <= k < s.len() && (#[trigger] s[k]).address == a;
            if k < j {
                assert(r[k].address == a);
            } else {
                assert(r[k + 1].address == a);
            }
        } else {
            assert(r[j].address == a);
        }
    }
    if peer_views_addresses_distinct(s) && !addr_in(s, p.address) {
        assert forall|i1: int, i2: int| 0 <= i1 < i2 < r.len() implies (#[trigger] r[i1]).address
            != (#[trigger] r[i2]).address by {
            if i1 == j {
                let i3 = if i2 > j { i2 - 1 } else { i2 };
                assert(r[i2] == s[i3]);
            } else if i2 == j {
                let i0 = if i1 > j { i1 - 1 } else { i1 };
                assert(r[i1] == s[i0]);
            } else {
                let i0 = if i1 > j { i1 - 1 } else { i1 };
                let i3 = if i2 > j { i2 - 1 } else { i2 };
                assert(r[i1] == s[i0] && r[i2] == s[i3]);
            }
        }
    }
}

/// The canonical ordering keeps addresses and their distinctness.
pub proof fn lemma_canonical_peers_distinct(s: Seq<PeerView>)
    ensures
        forall|a: Seq<u8>| addr_in(canonical_peers(s), a) <==> addr_in(s, a),
        peer_views_addresses_distinct(s) ==> peer_views_addresses_distinct(canonical_peers(s)),
    decreases s.len(),
{
    if s.len() > 0 {
        let sd = s.drop_first();
        lemma_canonical_peers_distinct(sd);
        lemma_insert_canonical_addresses(canonical_peers(sd), s.first());
        assert forall|a: Seq<u8>| addr_in(sd, a) || a == s.first().address implies addr_in(s, a) by {
            if addr_in(sd, a) {
                let k = choose|k: int| 0 <= k < sd.len() && (#[trigger] sd[k]).address == a;
                assert(s[k + 1].address == a);
            } else {
                assert(s[0].address == a);
            }
        }
        assert forall|a: Seq<u8>| addr_in(s, a) implies (addr_in(sd, a) || a == s.first().address) by {
            let k = choose|k: int| 0 <= k < s.len() && (#[trigger] s[k]).address == a;
            if k > 0 {
                assert(sd[k - 1].address == a);
            }
        }
        if peer_views_addresses_distinct(s) {
            assert forall|i1: int, i2: int| 0 <= i1 < i2 < sd.len() implies (#[trigger] sd[i1]).address
                != (#[trigger] sd[i2]).address by {
                assert(sd[i1] == s[i1 + 1] && sd[i2] == s[i2 + 1]);
            }
            assert(!addr_in(sd, s.first().address)) by {
                if addr_in(sd, s.first().address) {
                    let k = choose|k: int|
                        0 <= k < sd.len() && (#[trigger] sd[k]).address == s.first().address;
                    assert(s[k + 1].address == s[0].address);
                    assert(false);
                }
            }
        }
    }
}

/// Two sequences sorted by address, holding the same rows, the first with
/// pairwise distinct addresses, are equal: the canonical order is unique.
pub proof fn lemma_sorted_distinct_unique(x: Seq<PeerView>, y: Seq<PeerView>)
    requires
        peers_sorted(x),
        peers_sorted(y),
        peer_views_addresses_distinct(x),
        x.to_multiset() == y.to_multiset(),
    ensures
        x == y,
    decreases x.len(),
{
    broadcast use vstd::seq_lib::group_to_multiset_ensures;
    broadcast use vstd::multiset::group_multiset_axioms;

    if x.len() == 0 {
        assert(y.to_multiset().len() == 0);
        assert(x =~= y);
    } else {
        assert(x.to_multiset().len() == x.len());
        assert(y.to_multiset().len() == y.len());
        assert(y.len() == x.len());
        let p = x.last();
        let q = y.last();
        assert(x.contains(p));
        assert(x.to_multiset().count(p) > 0);
        assert(y.contains(p));
        let i = choose|i: int| 0 <= i < y.len() && y[i] == p;
        assert(y.contains(q));
        assert(y.to_multiset().count(q) > 0);
        assert(x.contains(q));
        let j = choose|j: int| 0 <= j < x.len() && x[j] == q;
        // p's address comes at or before q's, and q's at or before p's
        if i < y.len() - 1 {
            assert(peer_le(y[i], y[y.len() - 1]));
        } else {
            crate::address::lemma_bytes_le_reflexive(p.address);
        }
        if j < x.len() - 1 {
            assert(peer_le(x[j], x[x.len() - 1]));
        } else {
            crate::address::lemma_bytes_le_reflexive(q.address);
        }
        crate::address::lemma_bytes_le_antisymmetric(p.address, q.address);
        assert(p.address == q.address);
        // with distinct addresses, q can only be the last row of x
        if j < x.len() - 1 {
            assert(x[j].address != x[x.len() - 1].address);
            assert(false);
        }
        assert(q == p);
        let xd = x.drop_last();
        let yd = y.drop_last();
        assert(x =~= xd.push(p));
        assert(y =~= yd.push(p));
        assert(xd.push(p).to_multiset() == xd.to_multiset().insert(p));
        assert(yd.push(p).to_multiset() == yd.to_multiset().insert(p));
        assert(xd.to_multiset() =~= yd.to_multiset()) by {
            assert(forall|e: PeerView|
                #![trigger xd.to_multiset().count(e)]
                xd.to_multiset().insert(p).count(e) == yd.to_multiset().insert(p).count(e));
        }
        assert forall|i1: int, i2: int| 0 <= i1 < i2 < xd.len() implies (#[trigger] xd[i1]).address
            != (#[trigger] xd[i2]).address by {
            assert(xd[i1] == x[i1] && xd[i2] == x[i2]);
        }
        assert forall|i1: int, i2: int| 0 <= i1 < i2 < xd.len() implies peer_le(
            #[trigger] xd[i1],
            #[trigger] xd[i2],
        ) by {
            assert(xd[i1] == x[i1] && xd[i2] == x[i2]);
        }
        assert forall|i1: int, i2: int| 0 <= i1 < i2 < yd.len() implies peer_le(
            #[trigger] yd[i1],
            #[trigger] yd[i2],
        ) by {
            assert(yd[i1] == y[i1] && yd[i2] == y[i2]);
        }
        lemma_sorted_distinct_unique(xd, yd);
        assert(x =~= y);
    }
}

/// The heart of deterministic encoding: two validator sets holding the same
/// rows, in any order, canonicalize identically and so yield identical
/// payload bytes.
pub proof fn lemma_payload_order_independent(s1: Seq<PeerView>, s2: Seq<PeerView>)
    requires
        peer_views_addresses_distinct(s1),
        s1.to_multiset() == s2.to_multiset(),
    ensures
        canonical_peers(s1) == canonical_peers(s2),
        payload_bytes(canonical_peers(s1)) == payload_bytes(canonical_peers(s2)),
{
    lemma_canonical_peers_multiset(s1);
    lemma_canonical_peers_multiset(s2);
    lemma_canonical_peers_props(s1);
    lemma_canonical_peers_props(s2);
    lemma_canonical_peers_distinct(s1);
    lemma_sorted_distinct_unique(canonical_peers(s1), canonical_peers(s2));
}

/// Two pairs of peer directories describing the same validators, in any
/// order, yield the same genesis transaction under the same root keypair.
pub proof fn lemma_genesis_transaction_order_independent(
    root: KeyPair,
    c1: Seq<(AccountAddress, Vec<u8>)>,
    n1: Seq<(AccountAddress, Vec<u8>)>,
    c2: Seq<(AccountAddress, Vec<u8>)>,
    n2: Seq<(AccountAddress, Vec<u8>)>,
)
    requires
        peer_views_addresses_distinct(merged_views(c1, n1)),
        merged_views(c1, n1).to_multiset() == merged_views(c2, n2).to_multiset(),
    ensures
        genesis_transaction_view(root, c1, n1) == genesis_transaction_view(root, c2, n2),
{
    lemma_payload_order_independent(merged_views(c1, n1), merged_views(c2, n2));
    assert(genesis_transaction_view(root, c1, n1) =~= genesis_transaction_view(root, c2, n2));
}

/// Re-encoding the genesis transaction for a fixed validator set and a fixed
/// root keypair yields identical bytes: the payload before signing, the
/// signature, and the whole envelope.
pub proof fn lemma_genesis_encoding_deterministic(
    root1: KeyPair,
    c1: Seq<(AccountAddress, Vec<u8>)>,
    n1: Seq<(AccountAddress, Vec<u8>)>,
    root2: KeyPair,
    c2: Seq<(AccountAddress, Vec<u8>)>,
    n2: Seq<(AccountAddress, Vec<u8>)>,
)
    requires
        root1 == root2,
        c1 == c2,
        n1 == n2,
    ensures
        genesis_transaction_view(root1, c1, n1).payload == genesis_transaction_view(
            root2,
            c2,
            n2,
        ).payload,
        transaction_bytes(genesis_transaction_view(root1, c1, n1)) == transaction_bytes(
            genesis_transaction_view(root2, c2, n2),
        ),
{
}

} // verus!
