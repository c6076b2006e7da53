//! Types shared by the Phala runtime and its workers: the messages that travel
//! between the chain, gatekeepers and workers, the records kept in chain
//! storage, and the framing of content that a worker signs.
use vstd::prelude::*;

pub mod hex_text;
pub mod primitives;
pub mod key_map;
pub mod messaging;
pub mod scale;

use std::borrow::Cow;

use messaging::EncryptedKey;
use primitives::H256;
pub use primitives::{
    ClusterPublicKey, ContractPublicKey, EcdhPublicKey, MasterPublicKey, Sr25519Signature,
    WorkerPublicKey,
};

verus! {

/// A remote attestation report of a worker's enclave.
#[derive(Debug, Clone, PartialEq, Eq)]
pub enum AttestationReport {
    SgxIas { ra_report: Vec<u8>, signature: Vec<u8>, raw_signing_cert: Vec<u8> },
}

/// Who vouched for a worker's enclave.
#[derive(Debug, Copy, Clone, PartialEq, Eq)]
pub enum AttestationProvider {
    Root,
    Ias,
}

/// The state of a worker as the chain keeps it.
#[derive(PartialEq, Eq, Debug, Default, Clone)]
pub enum WorkerStateEnum<BlockNumber> {
    #[default]
    Empty,
    Free,
    Gatekeeper,
    Pending,
    Computing(BlockNumber),
    Stopping,
}

/// What the chain keeps of a registered worker.
#[derive(Debug, Default, Clone)]
pub struct WorkerInfo<BlockNumber> {
    // identity
    pub machine_id: Vec<u8>,
    pub pubkey: Vec<u8>,
    pub last_updated: u64,
    // computing
    pub state: WorkerStateEnum<BlockNumber>,
    // performance
    pub score: Option<Score>,
    pub attestation_provider: Option<AttestationProvider>,
    pub confidence_level: u8,
    // version
    pub runtime_version: u32,
}

/// The controller and payout preferences of a stash account.
#[derive(Default)]
pub struct StashInfo<AccountId: Default> {
    pub controller: AccountId,
    pub payout_prefs: PayoutPrefs<AccountId>,
}

/// Where the payout of a stash goes, and the commission kept.
#[derive(Default)]
pub struct PayoutPrefs<AccountId: Default> {
    pub commission: u32,
    pub target: AccountId,
}

/// The benchmark score of a worker.
#[derive(Debug, Default, Clone)]
pub struct Score {
    pub overall_score: u32,
    pub features: Vec<u32>,
}

/// The id of a worker's machine.
pub type MachineId = Vec<u8>;

/// The keys that identify a worker.
#[derive(Debug, Clone, PartialEq, Eq)]
pub struct WorkerIdentity {
    pub pubkey: WorkerPublicKey,
    pub ecdh_pubkey: EcdhPublicKey,
}

/// One-time Challenge for WorkerKey handover
#[derive(Debug, Clone, PartialEq, Eq)]
pub struct HandoverChallenge<BlockNumber> {
    pub sgx_target_info: Vec<u8>,
    // The challenge is only considered valid within 150 blocks (~30 min)
    pub block_number: BlockNumber,
    pub now: u64,
    pub dev_mode: bool,
    pub nonce: [u8; 32],
}

/// The answer of a worker to a handover challenge.
#[derive(Debug, Clone, PartialEq, Eq)]
pub struct ChallengeHandlerInfo<BlockNumber> {
    pub challenge: HandoverChallenge<BlockNumber>,
    pub sgx_local_report: Vec<u8>,
    pub ecdh_pubkey: EcdhPublicKey,
}

/// A worker key, encrypted for handover to another worker.
#[derive(Debug, Clone, PartialEq, Eq)]
pub struct EncryptedWorkerKey {
    pub genesis_block_hash: H256,
    pub para_id: u32,
    pub dev_mode: bool,
    pub encrypted_key: EncryptedKey,
}

/// What a worker registers with.
#[derive(Debug, Clone, PartialEq, Eq)]
pub struct WorkerRegistrationInfo<AccountId> {
    pub version: u32,
    pub machine_id: MachineId,
    pub pubkey: WorkerPublicKey,
    pub ecdh_pubkey: EcdhPublicKey,
    pub genesis_block_hash: H256,
    pub features: Vec<u32>,
    pub operator: Option<AccountId>,
}

/// What a worker registers with, including its parachain and consensus version.
#[derive(Debug, Clone, PartialEq, Eq)]
pub struct WorkerRegistrationInfoV2<AccountId> {
    pub version: u32,
    pub machine_id: MachineId,
    pub pubkey: WorkerPublicKey,
    pub ecdh_pubkey: EcdhPublicKey,
    pub genesis_block_hash: H256,
    pub features: Vec<u32>,
    pub operator: Option<AccountId>,
    pub para_id: u32,
    pub max_consensus_version: u32,
}

/// The endpoints at which a worker can be reached.
#[derive(Debug, Clone, PartialEq, Eq)]
pub enum VersionedWorkerEndpoints {
    V1(Vec<String>),
}

/// The endpoints of a worker, with the time at which the worker signed them.
#[derive(Debug, Clone, PartialEq, Eq)]
pub struct WorkerEndpointPayload {
    pub pubkey: WorkerPublicKey,
    pub versioned_endpoints: VersionedWorkerEndpoints,
    pub signing_time: u64,
}

/// A computing round and the block it started at.
#[derive(Debug, Default)]
pub struct RoundInfo<BlockNumber> {
    pub round: u32,
    pub start_block: BlockNumber,
}

/// The rewards and slashes of the workers of a stash.
#[derive(Debug, Default)]
pub struct StashWorkerStats<Balance> {
    pub slash: Balance,
    pub compute_received: Balance,
    pub online_received: Balance,
}

/// The totals of a computing round.
#[derive(Debug, Default, Clone, PartialEq, Eq)]
pub struct RoundStats {
    pub round: u32,
    pub online_workers: u32,
    pub compute_workers: u32,
    /// The targeted online reward counts in fraction (base: 100_000)
    pub frac_target_online_reward: u32,
    pub total_power: u32,
    /// The targeted compute reward counts in fraction (base: 100_000)
    pub frac_target_compute_reward: u32,
}

/// A change of the number of workers and of their power.
#[derive(Debug, Default, Clone, PartialEq, Eq)]
pub struct WorkerStatsDelta {
    pub num_worker: i32,
    pub num_power: i32,
}

/// Why a payout was made.
#[derive(Debug, Default, Clone, PartialEq, Eq)]
pub enum PayoutReason {
    #[default]
    OnlineReward,
    ComputeReward,
}

/// The kinds of content that a worker signs.
pub enum SignedContentType {
    MqMessage,
    RpcResponse,
    EndpointInfo,
    MasterKeyRotation,
    MasterKeyStore,
    ClusterStateRequest,
}

/// The byte that stands for each kind of signed content, in declaration order
/// from 0.
pub open spec fn content_type_byte(t: SignedContentType) -> u8 {
    match t {
        SignedContentType::MqMessage => 0,
        SignedContentType::RpcResponse => 1,
        SignedContentType::EndpointInfo => 2,
        SignedContentType::MasterKeyRotation => 3,
        SignedContentType::MasterKeyStore => 4,
        SignedContentType::ClusterStateRequest => 5,
    }
}

/// The bytes that are signed for content `data` of kind `sigtype`: queue
/// messages as they are; anything else behind the reserved origin byte `0xff`
/// and the byte of its kind.
pub open spec fn wrapped_content(data: Seq<u8>, sigtype: SignedContentType) -> Seq<u8> {
    match sigtype {
        SignedContentType::MqMessage => data,
        _ => seq![0xffu8, content_type_byte(sigtype)] + data,
    }
}

impl SignedContentType {
    /// The byte that stands for this kind of content.
    fn byte(&self) -> (b: u8)
        ensures
            b == content_type_byte(*self),
    {
        match self {
            SignedContentType::MqMessage => 0,
            SignedContentType::RpcResponse => 1,
            SignedContentType::EndpointInfo => 2,
            SignedContentType::MasterKeyRotation => 3,
            SignedContentType::MasterKeyStore => 4,
            SignedContentType::ClusterStateRequest => 5,
        }
    }
}

/// The bytes to sign for content `data` of kind `sigtype`. Queue messages are
/// not wrapped, so that their signatures stay as they were.
pub fn wrap_content_to_sign(data: &[u8], sigtype: SignedContentType) -> (r: Cow<[u8]>)
    ensures
        r@ == wrapped_content(data@, sigtype),
        sigtype is MqMessage ==> r@ == data@,
        !(sigtype is MqMessage) ==> {
            &&& r@.len() == data@.len() + 2
            &&& r@[0] == 0xffu8
            &&& r@[1] == content_type_byte(sigtype)
            &&& r@.subrange(2, r@.len() as int) == data@
        },
        sigtype is MqMessage ==> r matches Cow::Borrowed(_),
        !(sigtype is MqMessage) ==> r matches Cow::Owned(_),
{
    match sigtype {
        // We don't wrap mq messages for backward compatibility.
        SignedContentType::MqMessage => Cow::Borrowed(data),
        _ => {
            let mut wrapped: Vec<u8> = Vec::new();
            // MessageOrigin::Reserved.encode() == 0xff
            wrapped.push(0xff);
            wrapped.push(sigtype.byte());
            wrapped.extend_from_slice(data);
            assert(wrapped@ =~= wrapped_content(data@, sigtype));
            proof {
                lemma_wrapped_content_layout(data@, sigtype);
            }
            Cow::Owned(wrapped)
        },
    }
}

/// The bytes that stand for the kinds of content: 0 for queue messages, 1 for
/// RPC responses, 2 for endpoint info, 3 for master-key rotations, 4 for
/// master-key stores, 5 for cluster state requests; no two kinds share one.
pub proof fn lemma_content_type_bytes(t1: SignedContentType, t2: SignedContentType)
    ensures
        content_type_byte(SignedContentType::MqMessage) == 0,
        content_type_byte(SignedContentType::RpcResponse) == 1,
        content_type_byte(SignedContentType::EndpointInfo) == 2,
        content_type_byte(SignedContentType::MasterKeyRotation) == 3,
        content_type_byte(SignedContentType::MasterKeyStore) == 4,
        content_type_byte(SignedContentType::ClusterStateRequest) == 5,
        content_type_byte(t1) == content_type_byte(t2) <==> t1 == t2,
{
}

/// The framing laid out: a queue message is signed as it is; any other
/// content as `0xff`, then the byte of its kind, then the content itself.
pub proof fn lemma_wrapped_content_layout(data: Seq<u8>, sigtype: SignedContentType)
    ensures
        sigtype is MqMessage ==> wrapped_content(data, sigtype) == data,
        !(sigtype is MqMessage) ==> {
            let w = wrapped_content(data, sigtype);
            &&& w.len() == data.len() + 2
            &&& w[0] == 0xffu8
            &&& w[1] == content_type_byte(sigtype)
            &&& w.subrange(2, w.len() as int) == data
        },
{
    if !(sigtype is MqMessage) {
        let w = wrapped_content(data, sigtype);
        assert(w.subrange(2, w.len() as int) =~= data);
    }
}

/// Content of two kinds other than queue messages is signed as the same bytes
/// only when it is the same content of the same kind.
pub proof fn lemma_wrapped_content_injective(
    data1: Seq<u8>,
    sigtype1: SignedContentType,
    data2: Seq<u8>,
    sigtype2: SignedContentType,
)
    requires
        !(sigtype1 is MqMessage),
        !(sigtype2 is MqMessage),
    ensures
        wrapped_content(data1, sigtype1) == wrapped_content(data2, sigtype2) <==> (sigtype1
            == sigtype2 && data1 == data2),
{
    let w1 = wrapped_content(data1, sigtype1);
    let w2 = wrapped_content(data2, sigtype2);
    if w1 == w2 {
        assert(w1[1] == content_type_byte(sigtype1));
        assert(w2[1] == content_type_byte(sigtype2));
        assert(w1.subrange(2, w1.len() as int) =~= data1);
        assert(w2.subrange(2, w2.len() as int) =~= data2);
    }
}

/// Wrapped content never reads as a queue message that does not itself start
/// with the reserved origin byte `0xff`.
pub proof fn lemma_wrapped_content_differs_from_messages(
    data: Seq<u8>,
    sigtype: SignedContentType,
    message: Seq<u8>,
)
    requires
        !(sigtype is MqMessage),
        message.len() == 0 || message[0] != 0xffu8,
    ensures
        wrapped_content(data, sigtype) != wrapped_content(message, SignedContentType::MqMessage),
{
    assert(wrapped_content(data, sigtype)[0] == 0xffu8);
}

} // verus!
