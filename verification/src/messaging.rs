//! The messages that the chain, gatekeepers and workers exchange, and the
//! bytes that the sender of a batch master-key rotation signs.
use vstd::prelude::*;

use crate::key_map::{keys_sorted, KeyMap};
use crate::primitives::{EcdhPublicKey, MasterPublicKey, Public, WorkerPublicKey, U256};
use crate::scale::{
    byte_vec_bytes, compact_u32_bytes, encode_byte_array_to, encode_byte_vec_to,
    encode_compact_u32_to, encode_u64_to, u64_le_bytes,
};
use crate::WorkerIdentity;

verus! {

/// The payload of a command sent to a contract.
#[derive(Debug)]
pub enum CommandPayload<T> {
    Plain(T),
}

/// A fixed point number with 64 integer bits and 64 fractional bits.
pub type U64F64Bits = u128;

/// An event about one worker, with the key of that worker.
pub struct WorkerEventWithKey {
    pub pubkey: WorkerPublicKey,
    pub event: WorkerEvent,
}

/// What the registry reports of a worker when it registers.
#[derive(Debug)]
pub struct WorkerInfo {
    pub confidence_level: u8,
}

/// Events that the chain sends to one worker.
#[derive(Debug)]
pub enum WorkerEvent {
    /// pallet-registry --> worker
    ///  Indicate a worker register succeeded.
    Registered(WorkerInfo),
    /// pallet-registry --> worker
    ///  When a worker register succeed, the chain request the worker to benchmark.
    ///   duration: Number of blocks the benchmark to keep on.
    BenchStart { duration: u32 },
    /// pallet-registry --> worker
    ///  The init bench score caculated by pallet.
    BenchScore(u32),
    /// pallet-computing --> worker
    ///  When a worker start to compute, push this message to the worker to start the benchmark task.
    ///   session_id: Generated by pallet. Each computing session should have a unique session_id.
    Started { session_id: u32, init_v: U64F64Bits, init_p: u32 },
    /// pallet-computing --> worker
    ///  When a worker entered CoolingDown state, push this message to the worker, so that it can stop the
    ///  benchmark task.
    Stopped,
    /// pallet-computing --> worker
    ///  When a worker entered Unresponsive state, push this message to the worker to suppress the subsequent
    ///  heartbeat responses.
    EnterUnresponsive,
    /// pallet-computing --> worker
    ///  When a worker recovered to WorkerIdle state from Unresponsive, push this message to the worker to
    ///  resume the subsequent heartbeat responses.
    ExitUnresponsive,
}

/// Events of the system topic.
pub enum SystemEvent {
    WorkerEvent(WorkerEventWithKey),
    HeartbeatChallenge(HeartbeatChallenge),
}

impl SystemEvent {
    /// An event for the worker with key `pubkey`.
    pub fn new_worker_event(pubkey: WorkerPublicKey, event: WorkerEvent) -> (r: SystemEvent)
        ensures
            r == SystemEvent::WorkerEvent((WorkerEventWithKey { pubkey, event })),
    {
        SystemEvent::WorkerEvent(WorkerEventWithKey { pubkey, event })
    }
}

/// The challenge that workers answer with heartbeats.
#[derive(Debug, Default, Clone, PartialEq, Eq)]
pub struct HeartbeatChallenge {
    pub seed: U256,
    pub online_target: U256,
}

/// Reports that a computing worker sends to the chain.
#[derive(Clone, Debug)]
pub enum WorkingReportEvent {
    Heartbeat {
        /// The computing session id.
        session_id: u32,
        /// The challenge block number.
        challenge_block: u32,
        /// The challenge block timestamp.
        challenge_time: u64,
        /// Benchmark iterations since working_start_time.
        iterations: u64,
    },
    HeartbeatV2 {
        /// The computing session id.
        session_id: u32,
        /// The challenge block number.
        challenge_block: u32,
        /// The challenge block timestamp.
        challenge_time: u64,
        /// Benchmark iterations since working_start_time.
        iterations: u64,
        /// Number of current deployed clusters.
        n_clusters: u32,
        /// Number of current deployed contracts.
        n_contracts: u32,
    },
}

/// The changes of the working state of workers that one block brings.
#[derive(Clone, Debug, PartialEq, Eq)]
pub struct WorkingInfoUpdateEvent<BlockNumber> {
    /// The block emiting this message.
    pub block_number: BlockNumber,
    /// The timestamp of the block emiting this message.
    pub timestamp_ms: u64,
    /// Workers that do not responce the heartbeat challenge in time. Each delay only report once.
    pub offline: Vec<WorkerPublicKey>,
    /// Workers that received a heartbeat in offline state.
    pub recovered_to_online: Vec<WorkerPublicKey>,
    /// V update and payout info
    pub settle: Vec<SettleInfo>,
}

impl<BlockNumber> WorkingInfoUpdateEvent<BlockNumber> {
    /// The update of block `block_number` at `timestamp_ms` before anything is
    /// reported in it.
    pub open spec fn is_fresh(&self, block_number: BlockNumber, timestamp_ms: u64) -> bool {
        &&& self.block_number == block_number
        &&& self.timestamp_ms == timestamp_ms
        &&& self.offline@ == Seq::<WorkerPublicKey>::empty()
        &&& self.recovered_to_online@ == Seq::<WorkerPublicKey>::empty()
        &&& self.settle@ == Seq::<SettleInfo>::empty()
    }

    /// The update reports no worker: none went offline, none recovered, none
    /// was settled.
    pub open spec fn reports_nothing(&self) -> bool {
        &&& self.offline@.len() == 0
        &&& self.settle@.len() == 0
        &&& self.recovered_to_online@.len() == 0
    }

    /// An update for block `block_number` at `timestamp_ms` with no report yet.
    pub fn new(block_number: BlockNumber, timestamp_ms: u64) -> (r: Self)
        ensures
            r.is_fresh(block_number, timestamp_ms),
            r.block_number == block_number,
            r.timestamp_ms == timestamp_ms,
            r.offline@.len() == 0,
            r.recovered_to_online@.len() == 0,
            r.settle@.len() == 0,
    {
        Self {
            block_number,
            timestamp_ms,
            offline: Vec::new(),
            recovered_to_online: Vec::new(),
            settle: Vec::new(),
        }
    }

    /// Whether the update reports nothing.
    pub fn is_empty(&self) -> (b: bool)
        ensures
            b == self.reports_nothing(),
            b == (self.offline@.len() == 0 && self.recovered_to_online@.len() == 0
                && self.settle@.len() == 0),
    {
        self.offline.len() == 0 && self.settle.len() == 0 && self.recovered_to_online.len() == 0
    }
}

impl<BlockNumber: Default> Default for WorkingInfoUpdateEvent<BlockNumber> {
    /// The update of the default block at time 0, with no report.
    fn default() -> (r: Self)
        ensures
            call_ensures(BlockNumber::default, (), r.block_number),
            r.is_fresh(r.block_number, 0),
    {
        WorkingInfoUpdateEvent {
            block_number: BlockNumber::default(),
            timestamp_ms: 0,
            offline: Vec::new(),
            recovered_to_online: Vec::new(),
            settle: Vec::new(),
        }
    }
}

/// A new update is the default update with its block and time set: both
/// report nothing, and they differ at most in the block and the time.
pub proof fn lemma_new_update_is_default_but_block_and_time<BlockNumber>(
    made: WorkingInfoUpdateEvent<BlockNumber>,
    block_number: BlockNumber,
    timestamp_ms: u64,
    default: WorkingInfoUpdateEvent<BlockNumber>,
)
    requires
        made.is_fresh(block_number, timestamp_ms),
        default.is_fresh(default.block_number, 0),
    ensures
        made.block_number == block_number,
        made.timestamp_ms == timestamp_ms,
        default.timestamp_ms == 0,
        made.offline@ == default.offline@,
        made.recovered_to_online@ == default.recovered_to_online@,
        made.settle@ == default.settle@,
        made.reports_nothing() && default.reports_nothing(),
        block_number == default.block_number && timestamp_ms == 0 ==> made.is_fresh(
            default.block_number,
            default.timestamp_ms,
        ),
{
}

/// An update reports nothing exactly when no worker went offline, none
/// recovered and none was settled: one entry in any of the three lists is a
/// report.
pub proof fn lemma_reports_nothing_iff_lists_empty<BlockNumber>(
    update: WorkingInfoUpdateEvent<BlockNumber>,
)
    ensures
        update.reports_nothing() <==> (update.offline@.len() == 0
            && update.recovered_to_online@.len() == 0 && update.settle@.len() == 0),
        update.offline@.len() > 0 ==> !update.reports_nothing(),
        update.recovered_to_online@.len() > 0 ==> !update.reports_nothing(),
        update.settle@.len() > 0 ==> !update.reports_nothing(),
{
}

/// A freshly made update has the given block and time and empty lists.
pub proof fn lemma_fresh_update_fields<BlockNumber>(
    update: WorkingInfoUpdateEvent<BlockNumber>,
    block_number: BlockNumber,
    timestamp_ms: u64,
)
    requires
        update.is_fresh(block_number, timestamp_ms),
    ensures
        update.block_number == block_number,
        update.timestamp_ms == timestamp_ms,
        update.offline@.len() == 0,
        update.recovered_to_online@.len() == 0,
        update.settle@.len() == 0,
{
}

/// A freshly made update reports nothing.
pub proof fn lemma_fresh_update_is_empty<BlockNumber>(
    update: WorkingInfoUpdateEvent<BlockNumber>,
    block_number: BlockNumber,
    timestamp_ms: u64,
)
    requires
        update.is_fresh(block_number, timestamp_ms),
    ensures
        update.reports_nothing(),
{
}

/// The value update and payout of one worker.
#[derive(Clone, Debug, PartialEq, Eq)]
pub struct SettleInfo {
    pub pubkey: WorkerPublicKey,
    pub v: U64F64Bits,
    pub payout: U64F64Bits,
    pub treasury: U64F64Bits,
}

/// Messages of the gatekeeper launch topic.
#[derive(Clone, Debug, PartialEq, Eq)]
pub enum GatekeeperLaunch {
    FirstGatekeeper(NewGatekeeperEvent),
    MasterPubkeyOnChain(MasterPubkeyEvent),
    RotateMasterKey(RotateMasterKeyEvent),
    MasterPubkeyRotated(MasterPubkeyEvent),
}

impl GatekeeperLaunch {
    /// The first gatekeeper has been registered.
    pub fn first_gatekeeper(pubkey: WorkerPublicKey, ecdh_pubkey: EcdhPublicKey) -> (r:
        GatekeeperLaunch)
        ensures
            r == GatekeeperLaunch::FirstGatekeeper((NewGatekeeperEvent { pubkey, ecdh_pubkey })),
    {
        GatekeeperLaunch::FirstGatekeeper(NewGatekeeperEvent { pubkey, ecdh_pubkey })
    }

    /// The master public key has been put on chain.
    pub fn master_pubkey_on_chain(master_pubkey: MasterPublicKey) -> (r: GatekeeperLaunch)
        ensures
            r == GatekeeperLaunch::MasterPubkeyOnChain((MasterPubkeyEvent { master_pubkey })),
    {
        GatekeeperLaunch::MasterPubkeyOnChain(MasterPubkeyEvent { master_pubkey })
    }

    /// The gatekeepers `gk_identities` are asked to rotate the master key.
    pub fn rotate_master_key(rotation_id: u64, gk_identities: Vec<WorkerIdentity>) -> (r:
        GatekeeperLaunch)
        ensures
            r == GatekeeperLaunch::RotateMasterKey((RotateMasterKeyEvent { rotation_id, gk_identities })),
    {
        GatekeeperLaunch::RotateMasterKey(RotateMasterKeyEvent { rotation_id, gk_identities })
    }

    /// The master public key has been rotated.
    pub fn master_pubkey_rotated(master_pubkey: MasterPublicKey) -> (r: GatekeeperLaunch)
        ensures
            r == GatekeeperLaunch::MasterPubkeyRotated((MasterPubkeyEvent { master_pubkey })),
    {
        GatekeeperLaunch::MasterPubkeyRotated(MasterPubkeyEvent { master_pubkey })
    }
}

/// A gatekeeper has been registered.
#[derive(Clone, Debug, PartialEq, Eq)]
pub struct NewGatekeeperEvent {
    /// The public key of registered gatekeeper
    pub pubkey: WorkerPublicKey,
    /// The ecdh public key of registered gatekeeper
    pub ecdh_pubkey: EcdhPublicKey,
}

/// A gatekeeper has been unregistered.
#[derive(Clone, Debug, PartialEq, Eq)]
pub struct RemoveGatekeeperEvent {
    /// The public key of registered gatekeeper
    pub pubkey: WorkerPublicKey,
}

/// A master public key.
#[derive(Clone, Debug, PartialEq, Eq)]
pub struct MasterPubkeyEvent {
    pub master_pubkey: MasterPublicKey,
}

/// A request to rotate the master key.
#[derive(Clone, Debug, PartialEq, Eq)]
pub struct RotateMasterKeyEvent {
    pub rotation_id: u64,
    pub gk_identities: Vec<WorkerIdentity>,
}

/// Messages of the gatekeeper change topic.
#[derive(Clone, Debug, PartialEq, Eq)]
pub enum GatekeeperChange {
    Registered(NewGatekeeperEvent),
    Unregistered(RemoveGatekeeperEvent),
}

impl GatekeeperChange {
    /// A gatekeeper has been registered.
    pub fn gatekeeper_registered(pubkey: WorkerPublicKey, ecdh_pubkey: EcdhPublicKey) -> (r:
        GatekeeperChange)
        ensures
            r == GatekeeperChange::Registered((NewGatekeeperEvent { pubkey, ecdh_pubkey })),
    {
        GatekeeperChange::Registered(NewGatekeeperEvent { pubkey, ecdh_pubkey })
    }

    /// A gatekeeper has been unregistered.
    pub fn gatekeeper_unregistered(pubkey: WorkerPublicKey) -> (r: GatekeeperChange)
        ensures
            r == GatekeeperChange::Unregistered((RemoveGatekeeperEvent { pubkey })),
    {
        GatekeeperChange::Unregistered(RemoveGatekeeperEvent { pubkey })
    }
}

/// Messages that distribute the master key and contract keys.
#[derive(Clone, Debug, PartialEq, Eq)]
pub enum KeyDistribution<BlockNumber> {
    /// Legacy single master key sharing, use `MasterKeyHistory` after we enable master key rotation
    ///
    /// MessageOrigin::Gatekeeper -> MessageOrigin::Worker
    MasterKeyDistribution(DispatchMasterKeyEvent),
    /// MessageOrigin::Worker -> ALL
    ///
    /// The origin cannot be Gatekeeper, else the leakage of old master key will further leak the following keys
    MasterKeyRotation(BatchRotateMasterKeyEvent),
    /// MessageOrigin::Gatekeeper -> MessageOrigin::Worker
    MasterKeyHistory(DispatchMasterKeyHistoryEvent<BlockNumber>),
}

impl<BlockNumber> KeyDistribution<BlockNumber> {
    /// The master key, encrypted for the worker `dest`.
    pub fn master_key_distribution(
        dest: WorkerPublicKey,
        ecdh_pubkey: EcdhPublicKey,
        encrypted_master_key: Vec<u8>,
        iv: AeadIV,
    ) -> (r: KeyDistribution<BlockNumber>)
        ensures
            r == KeyDistribution::<BlockNumber>::MasterKeyDistribution(
                (DispatchMasterKeyEvent { dest, ecdh_pubkey, encrypted_master_key, iv }),
            ),
    {
        KeyDistribution::MasterKeyDistribution(
            DispatchMasterKeyEvent { dest, ecdh_pubkey, encrypted_master_key, iv },
        )
    }
}

/// The initialization vector of an AEAD encryption.
pub type AeadIV = [u8; 12];

/// Secret key encrypted with AES-256-GCM algorithm
///
/// The encryption key is generated with sr25519-based ECDH
#[derive(Clone, Debug, PartialEq, Eq)]
pub struct EncryptedKey {
    /// The ecdh public key of key source
    pub ecdh_pubkey: EcdhPublicKey,
    /// Key encrypted with aead key
    pub encrypted_key: Vec<u8>,
    /// Aead IV
    pub iv: AeadIV,
}

/// The master key, encrypted for one worker.
#[derive(Clone, Debug, PartialEq, Eq)]
pub struct DispatchMasterKeyEvent {
    /// The target to dispatch master key
    pub dest: WorkerPublicKey,
    /// The ecdh public key of master key source
    pub ecdh_pubkey: EcdhPublicKey,
    /// Master key encrypted with aead key
    pub encrypted_master_key: Vec<u8>,
    /// Aead IV
    pub iv: AeadIV,
}

/// The history of master keys, encrypted for one worker.
#[derive(Clone, Debug, PartialEq, Eq)]
pub struct DispatchMasterKeyHistoryEvent<BlockNumber> {
    /// The target to dispatch master key
    pub dest: WorkerPublicKey,
    pub encrypted_master_key_history: Vec<(u64, BlockNumber, EncryptedKey)>,
}

/// A new master key, encrypted for each of a set of workers, signed by the
/// worker that made it.
#[derive(Clone, Debug, PartialEq, Eq)]
pub struct BatchRotateMasterKeyEvent {
    pub rotation_id: u64,
    pub secret_keys: KeyMap<EncryptedKey>,
    pub sender: WorkerPublicKey,
    pub sig: Vec<u8>,
}

/// Two encrypted keys hold the same key, public key and IV.
pub open spec fn same_encrypted_key(a: EncryptedKey, b: EncryptedKey) -> bool {
    &&& a.ecdh_pubkey == b.ecdh_pubkey
    &&& a.encrypted_key@ == b.encrypted_key@
    &&& a.iv == b.iv
}

/// Two lists of keyed encrypted keys agree entry by entry.
pub open spec fn same_secret_keys(a: Seq<(Public, EncryptedKey)>, b: Seq<(Public, EncryptedKey)>) -> bool {
    &&& a.len() == b.len()
    &&& forall|i: int|
        0 <= i < a.len() ==> {
            &&& (#[trigger] a[i]).0 == b[i].0
            &&& same_encrypted_key(a[i].1, b[i].1)
        }
}

/// Every encrypted key is short enough for its length to be encoded.
pub open spec fn secret_keys_encodable(s: Seq<(Public, EncryptedKey)>) -> bool {
    &&& s.len() <= u32::MAX
    &&& forall|i: int| 0 <= i < s.len() ==> (#[trigger] s[i]).1.encrypted_key@.len() <= u32::MAX
}

/// The encoding of an encrypted key: its ECDH public key, the encrypted key
/// with its length in front, and the IV.
pub open spec fn encrypted_key_bytes(k: EncryptedKey) -> Seq<u8> {
    k.ecdh_pubkey.0@ + byte_vec_bytes(k.encrypted_key@) + k.iv@
}

/// The encoding of one entry: the worker's key, then its encrypted key.
pub open spec fn secret_key_entry_bytes(e: (Public, EncryptedKey)) -> Seq<u8> {
    e.0.0@ + encrypted_key_bytes(e.1)
}

/// The encodings of the entries one after the other.
pub open spec fn secret_key_entries_bytes(s: Seq<(Public, EncryptedKey)>) -> Seq<u8>
    decreases s.len(),
{
    if s.len() == 0 {
        Seq::empty()
    } else {
        secret_key_entries_bytes(s.drop_last()) + secret_key_entry_bytes(s.last())
    }
}

/// The bytes that the sender of a batch rotation signs: the rotation id, the
/// number of entries, the entries in the order given, and the sender's key.
pub open spec fn rotation_signed_bytes(
    rotation_id: u64,
    secret_keys: Seq<(Public, EncryptedKey)>,
    sender: Public,
) -> Seq<u8> {
    u64_le_bytes(rotation_id) + compact_u32_bytes(secret_keys.len() as u32)
        + secret_key_entries_bytes(secret_keys) + sender.0@
}

/// The encodings of the entries, read from the front: the first entry, then
/// the rest.
pub proof fn lemma_entries_bytes_front(s: Seq<(Public, EncryptedKey)>)
    requires
        s.len() > 0,
    ensures
        secret_key_entries_bytes(s) == secret_key_entry_bytes(s[0]) + secret_key_entries_bytes(
            s.drop_first(),
        ),
    decreases s.len(),
{
    if s.len() == 1 {
        assert(s.drop_last().len() == 0);
        assert(s.drop_first().len() == 0);
        assert(secret_key_entries_bytes(s.drop_last()) =~= Seq::<u8>::empty());
        assert(s.last() == s[0]);
        assert(secret_key_entries_bytes(s) =~= secret_key_entry_bytes(s[0]));
        assert(secret_key_entries_bytes(s.drop_first()) =~= Seq::<u8>::empty());
        assert(secret_key_entry_bytes(s[0]) + Seq::<u8>::empty() =~= secret_key_entry_bytes(s[0]));
    } else {
        let init = s.drop_last();
        lemma_entries_bytes_front(init);
        assert(init[0] == s[0]);
        assert(init.drop_first() =~= s.drop_first().drop_last());
        assert(s.drop_first().last() == s.last());
        assert(secret_key_entries_bytes(s) =~= secret_key_entry_bytes(s[0])
            + secret_key_entries_bytes(s.drop_first()));
    }
}

/// Entries that agree entry by entry have the same encoding.
pub proof fn lemma_same_entries_same_bytes(
    a: Seq<(Public, EncryptedKey)>,
    b: Seq<(Public, EncryptedKey)>,
)
    requires
        same_secret_keys(a, b),
    ensures
        secret_key_entries_bytes(a) == secret_key_entries_bytes(b),
    decreases a.len(),
{
    if a.len() > 0 {
        assert(same_secret_keys(a.drop_last(), b.drop_last())) by {
            assert forall|i: int| 0 <= i < a.drop_last().len() implies {
                &&& (#[trigger] a.drop_last()[i]).0 == b.drop_last()[i].0
                &&& same_encrypted_key(a.drop_last()[i].1, b.drop_last()[i].1)
            } by {
                assert(a[i].0 == b[i].0);
            }
        }
        lemma_same_entries_same_bytes(a.drop_last(), b.drop_last());
        assert(a[a.len() - 1].0 == b[b.len() - 1].0);
        assert(secret_key_entry_bytes(a.last()) =~= secret_key_entry_bytes(b.last()));
    }
}

/// An entry's encoding, followed by anything, gives the entry back and what
/// follows it.
pub proof fn lemma_entry_bytes_prefix(
    e1: (Public, EncryptedKey),
    e2: (Public, EncryptedKey),
    x: Seq<u8>,
    y: Seq<u8>,
)
    requires
        e1.1.encrypted_key@.len() <= u32::MAX,
        e2.1.encrypted_key@.len() <= u32::MAX,
        secret_key_entry_bytes(e1) + x == secret_key_entry_bytes(e2) + y,
    ensures
        e1.0 == e2.0,
        same_encrypted_key(e1.1, e2.1),
        x == y,
{
    let a = secret_key_entry_bytes(e1) + x;
    let b = secret_key_entry_bytes(e2) + y;
    let k1 = e1.1.encrypted_key@;
    let k2 = e2.1.encrypted_key@;
    let r1 = k1 + e1.1.iv@ + x;
    let r2 = k2 + e2.1.iv@ + y;
    assert(a =~= e1.0.0@ + (e1.1.ecdh_pubkey.0@ + (compact_u32_bytes(k1.len() as u32) + r1)));
    assert(b =~= e2.0.0@ + (e2.1.ecdh_pubkey.0@ + (compact_u32_bytes(k2.len() as u32) + r2)));
    assert(a.subrange(0, 32) =~= e1.0.0@);
    assert(b.subrange(0, 32) =~= e2.0.0@);
    assert(e1.0.0 =~= e2.0.0);
    assert(a.subrange(32, 64) =~= e1.1.ecdh_pubkey.0@);
    assert(b.subrange(32, 64) =~= e2.1.ecdh_pubkey.0@);
    assert(e1.1.ecdh_pubkey.0 =~= e2.1.ecdh_pubkey.0);
    assert(a.subrange(64, a.len() as int) =~= compact_u32_bytes(k1.len() as u32) + r1);
    assert(b.subrange(64, b.len() as int) =~= compact_u32_bytes(k2.len() as u32) + r2);
    crate::scale::lemma_compact_prefix_injective(k1.len() as u32, k2.len() as u32, r1, r2);
    assert(k1.len() == k2.len());
    let n = k1.len() as int;
    assert(r1.subrange(0, n) =~= k1);
    assert(r2.subrange(0, n) =~= k2);
    assert(r1.subrange(n, n + 12) =~= e1.1.iv@);
    assert(r2.subrange(n, n + 12) =~= e2.1.iv@);
    assert(e1.1.iv =~= e2.1.iv);
    assert(r1.subrange(n + 12, r1.len() as int) =~= x);
    assert(r2.subrange(n + 12, r2.len() as int) =~= y);
}

/// The encodings of two equally long lists of entries, each followed by
/// anything, agree only where the entries agree and so does what follows.
pub proof fn lemma_entries_bytes_prefix(
    s1: Seq<(Public, EncryptedKey)>,
    s2: Seq<(Public, EncryptedKey)>,
    x: Seq<u8>,
    y: Seq<u8>,
)
    requires
        s1.len() == s2.len(),
        secret_keys_encodable(s1),
        secret_keys_encodable(s2),
        secret_key_entries_bytes(s1) + x == secret_key_entries_bytes(s2) + y,
    ensures
        same_secret_keys(s1, s2),
        x == y,
    decreases s1.len(),
{
    if s1.len() == 0 {
        assert(secret_key_entries_bytes(s1) + x =~= x);
        assert(secret_key_entries_bytes(s2) + y =~= y);
    } else {
        lemma_entries_bytes_front(s1);
        lemma_entries_bytes_front(s2);
        let t1 = s1.drop_first();
        let t2 = s2.drop_first();
        let rest1 = secret_key_entries_bytes(t1) + x;
        let rest2 = secret_key_entries_bytes(t2) + y;
        assert(secret_key_entries_bytes(s1) + x =~= secret_key_entry_bytes(s1[0]) + rest1);
        assert(secret_key_entries_bytes(s2) + y =~= secret_key_entry_bytes(s2[0]) + rest2);
        assert(s1[0].1.encrypted_key@.len() <= u32::MAX);
        assert(s2[0].1.encrypted_key@.len() <= u32::MAX);
        lemma_entry_bytes_prefix(s1[0], s2[0], rest1, rest2);
        assert(secret_keys_encodable(t1)) by {
            assert forall|i: int| 0 <= i < t1.len() implies (#[trigger] t1[i]).1.encrypted_key@.len()
                <= u32::MAX by {
                assert(t1[i] == s1[i + 1]);
            }
        }
        assert(secret_keys_encodable(t2)) by {
            assert forall|i: int| 0 <= i < t2.len() implies (#[trigger] t2[i]).1.encrypted_key@.len()
                <= u32::MAX by {
                assert(t2[i] == s2[i + 1]);
            }
        }
        lemma_entries_bytes_prefix(t1, t2, x, y);
        assert forall|i: int| 0 <= i < s1.len() implies {
            &&& (#[trigger] s1[i]).0 == s2[i].0
            &&& same_encrypted_key(s1[i].1, s2[i].1)
        } by {
            if i > 0 {
                assert(t1[i - 1] == s1[i]);
                assert(t2[i - 1] == s2[i]);
            }
        }
    }
}

/// The signed bytes of a batch rotation pin down what was signed: two
/// rotations give the same bytes exactly when they have the same rotation id,
/// the same entries in the same order and the same sender.
pub proof fn lemma_rotation_signed_bytes_injective(
    rotation_id1: u64,
    secret_keys1: Seq<(Public, EncryptedKey)>,
    sender1: Public,
    rotation_id2: u64,
    secret_keys2: Seq<(Public, EncryptedKey)>,
    sender2: Public,
)
    requires
        secret_keys_encodable(secret_keys1),
        secret_keys_encodable(secret_keys2),
    ensures
        rotation_signed_bytes(rotation_id1, secret_keys1, sender1) == rotation_signed_bytes(
            rotation_id2,
            secret_keys2,
            sender2,
        ) <==> {
            &&& rotation_id1 == rotation_id2
            &&& same_secret_keys(secret_keys1, secret_keys2)
            &&& sender1 == sender2
        },
{
    let a = rotation_signed_bytes(rotation_id1, secret_keys1, sender1);
    let b = rotation_signed_bytes(rotation_id2, secret_keys2, sender2);
    if a == b {
        let e1 = secret_key_entries_bytes(secret_keys1) + sender1.0@;
        let e2 = secret_key_entries_bytes(secret_keys2) + sender2.0@;
        let c1 = compact_u32_bytes(secret_keys1.len() as u32) + e1;
        let c2 = compact_u32_bytes(secret_keys2.len() as u32) + e2;
        assert(a =~= u64_le_bytes(rotation_id1) + c1);
        assert(b =~= u64_le_bytes(rotation_id2) + c2);
        assert(a.subrange(0, 8) =~= u64_le_bytes(rotation_id1));
        assert(b.subrange(0, 8) =~= u64_le_bytes(rotation_id2));
        crate::scale::lemma_u64_le_bytes_injective(rotation_id1, rotation_id2);
        assert(a.subrange(8, a.len() as int) =~= c1);
        assert(b.subrange(8, b.len() as int) =~= c2);
        crate::scale::lemma_compact_prefix_injective(
            secret_keys1.len() as u32,
            secret_keys2.len() as u32,
            e1,
            e2,
        );
        lemma_entries_bytes_prefix(secret_keys1, secret_keys2, sender1.0@, sender2.0@);
        assert(sender1.0 =~= sender2.0);
    }
    if rotation_id1 == rotation_id2 && same_secret_keys(secret_keys1, secret_keys2) && sender1
        == sender2 {
        lemma_same_entries_same_bytes(secret_keys1, secret_keys2);
    }
}

/// The encoding of one entry, laid out: 32 bytes of the worker's key, 32
/// bytes of the ECDH key, the compact length of the encrypted key, the
/// encrypted key, and the 12 bytes of the IV.
pub proof fn lemma_secret_key_entry_layout(e: (Public, EncryptedKey))
    requires
        e.1.encrypted_key@.len() <= u32::MAX,
    ensures
        ({
            let b = secret_key_entry_bytes(e);
            let k = e.1.encrypted_key@;
            let c = compact_u32_bytes(k.len() as u32);
            &&& b.len() == 32 + 32 + c.len() as int + k.len() as int + 12
            &&& b.subrange(0, 32) == e.0.0@
            &&& b.subrange(32, 64) == e.1.ecdh_pubkey.0@
            &&& b.subrange(64, 64 + c.len() as int) == c
            &&& b.subrange(64 + c.len() as int, 64 + c.len() as int + k.len() as int) == k
            &&& b.subrange(64 + c.len() as int + k.len() as int, b.len() as int) == e.1.iv@
        }),
{
    let b = secret_key_entry_bytes(e);
    let k = e.1.encrypted_key@;
    let c = compact_u32_bytes(k.len() as u32);
    assert(b =~= e.0.0@ + e.1.ecdh_pubkey.0@ + c + k + e.1.iv@);
    assert(b.subrange(0, 32) =~= e.0.0@);
    assert(b.subrange(32, 64) =~= e.1.ecdh_pubkey.0@);
    assert(b.subrange(64, 64 + c.len() as int) =~= c);
    assert(b.subrange(64 + c.len() as int, 64 + c.len() as int + k.len() as int) =~= k);
    assert(b.subrange(64 + c.len() as int + k.len() as int, b.len() as int) =~= e.1.iv@);
}

/// The encodings of the entries are those of the entries one after the other,
/// in the order of the entries: the first entry's bytes first.
pub proof fn lemma_entries_bytes_in_order(s: Seq<(Public, EncryptedKey)>)
    ensures
        secret_key_entries_bytes(s) == s.map_values(
            |e: (Public, EncryptedKey)| secret_key_entry_bytes(e),
        ).flatten(),
    decreases s.len(),
{
    let parts = s.map_values(|e: (Public, EncryptedKey)| secret_key_entry_bytes(e));
    if s.len() == 0 {
        assert(parts.len() == 0);
        assert(secret_key_entries_bytes(s) =~= parts.flatten());
    } else {
        lemma_entries_bytes_front(s);
        lemma_entries_bytes_in_order(s.drop_first());
        assert(parts.drop_first() =~= s.drop_first().map_values(
            |e: (Public, EncryptedKey)| secret_key_entry_bytes(e),
        ));
        assert(parts.first() == secret_key_entry_bytes(s[0]));
        assert(parts.flatten() == parts.first() + parts.drop_first().flatten());
    }
}

/// The bytes signed for a batch rotation, laid out: the eight little-endian
/// bytes of the rotation id, the compact count of the entries, the entries'
/// encodings one after the other in the order given, and last the 32 bytes of
/// the sender's key.
pub proof fn lemma_rotation_signed_bytes_layout(
    rotation_id: u64,
    secret_keys: Seq<(Public, EncryptedKey)>,
    sender: Public,
)
    requires
        secret_keys.len() <= u32::MAX,
    ensures
        ({
            let b = rotation_signed_bytes(rotation_id, secret_keys, sender);
            let c = compact_u32_bytes(secret_keys.len() as u32);
            let entries = secret_keys.map_values(
                |e: (Public, EncryptedKey)| secret_key_entry_bytes(e),
            ).flatten();
            &&& b.len() == 8 + c.len() as int + entries.len() + 32
            &&& b.subrange(0, 8) == u64_le_bytes(rotation_id)
            &&& b.subrange(8, 8 + c.len() as int) == c
            &&& b.subrange(8 + c.len() as int, b.len() - 32) == entries
            &&& b.subrange(b.len() - 32, b.len() as int) == sender.0@
        }),
{
    let b = rotation_signed_bytes(rotation_id, secret_keys, sender);
    let c = compact_u32_bytes(secret_keys.len() as u32);
    lemma_entries_bytes_in_order(secret_keys);
    let entries = secret_key_entries_bytes(secret_keys);
    assert(b =~= u64_le_bytes(rotation_id) + c + entries + sender.0@);
    assert(b.subrange(0, 8) =~= u64_le_bytes(rotation_id));
    assert(b.subrange(8, 8 + c.len() as int) =~= c);
    assert(b.subrange(8 + c.len() as int, b.len() - 32) =~= entries);
    assert(b.subrange(b.len() - 32, b.len() as int) =~= sender.0@);
}

impl BatchRotateMasterKeyEvent {
    /// The data that `sig` signs: the rotation id, the encrypted keys in
    /// ascending order of the workers' keys, and the sender, in the SCALE
    /// encoding. The signature itself is not part of it.
    pub fn data_be_signed(&self) -> (data: Vec<u8>)
        requires
            secret_keys_encodable(self.secret_keys.entries_view()),
        ensures
            data@ == rotation_signed_bytes(
                self.rotation_id,
                self.secret_keys.entries_view(),
                self.sender,
            ),
            keys_sorted(self.secret_keys.entries_view()),
            ({
                let c = compact_u32_bytes(self.secret_keys.entries_view().len() as u32);
                let entries = self.secret_keys.entries_view().map_values(
                    |e: (Public, EncryptedKey)| secret_key_entry_bytes(e),
                ).flatten();
                &&& data@.len() == 8 + c.len() as int + entries.len() + 32
                &&& data@.subrange(0, 8) == u64_le_bytes(self.rotation_id)
                &&& data@.subrange(8, 8 + c.len() as int) == c
                &&& data@.subrange(8 + c.len() as int, data@.len() - 32) == entries
                &&& data@.subrange(data@.len() - 32, data@.len() as int) == self.sender.0@
            }),
    {
        let mut data: Vec<u8> = Vec::new();
        encode_u64_to(self.rotation_id, &mut data);
        let entries = self.secret_keys.entries();
        let n = entries.len();
        encode_compact_u32_to(n as u32, &mut data);
        let ghost head = data@;
        let mut i: usize = 0;
        while i < n
            invariant
                n == entries@.len(),
                secret_keys_encodable(entries@),
                0 <= i <= n,
                data@ == head + secret_key_entries_bytes(entries@.take(i as int)),
            decreases n - i,
        {
            let entry = &entries[i];
            let ghost before = data@;
            encode_byte_array_to(&entry.0.0, &mut data);
            encode_byte_array_to(&entry.1.ecdh_pubkey.0, &mut data);
            encode_byte_vec_to(&entry.1.encrypted_key, &mut data);
            encode_byte_array_to(&entry.1.iv, &mut data);
            assert(entries@.take(i + 1).drop_last() =~= entries@.take(i as int));
            assert(data@ =~= before + secret_key_entry_bytes(entries@[i as int]));
            i += 1;
        }
        assert(entries@.take(n as int) =~= entries@);
        encode_byte_array_to(&self.sender.0, &mut data);
        proof {
            lemma_rotation_signed_bytes_layout(self.rotation_id, entries@, self.sender);
        }
        data
    }
}

/// Messages of the gatekeeper event topic.
#[derive(Clone, Debug, PartialEq, Eq)]
pub enum GatekeeperEvent {
    NewRandomNumber(RandomNumberEvent),
    TokenomicParametersChanged(TokenomicParameters),
    /// Deprecated after <https://github.com/Phala-Network/phala-blockchain/pull/499>
    /// Dropped in Phala. The index is reserved here for Khala+pruntime-v0 compatibility.
    _RepairV,
    /// Trigger a set of changes:
    /// - <https://github.com/Phala-Network/phala-blockchain/issues/693>
    /// - <https://github.com/Phala-Network/phala-blockchain/issues/676>
    /// Dropped in Phala. The index is reserved here for Khala+pruntime-v0 compatibility.
    _PhalaLaunched,
    /// Fix the payout duration problem in unresponsive state.
    /// Dropped in Phala. The index is reserved here for Khala+pruntime-v0 compatibility.
    _UnrespFix,
}

impl GatekeeperEvent {
    /// A new random number of block `block_number`, following `last_random_number`.
    pub fn new_random_number(
        block_number: u32,
        random_number: RandomNumber,
        last_random_number: RandomNumber,
    ) -> (r: GatekeeperEvent)
        ensures
            r == GatekeeperEvent::NewRandomNumber(
                (RandomNumberEvent { block_number, random_number, last_random_number }),
            ),
    {
        GatekeeperEvent::NewRandomNumber(
            RandomNumberEvent { block_number, random_number, last_random_number },
        )
    }
}

/// A random number of 32 bytes.
pub type RandomNumber = [u8; 32];

/// The random number of a block.
#[derive(Clone, Debug, PartialEq, Eq)]
pub struct RandomNumberEvent {
    pub block_number: u32,
    pub random_number: RandomNumber,
    pub last_random_number: RandomNumber,
}

/// The parameters of the tokenomic model.
#[derive(Clone, Debug, PartialEq, Eq)]
pub struct TokenomicParameters {
    // V calculation
    pub pha_rate: U64F64Bits,
    pub rho: U64F64Bits,
    pub budget_per_block: U64F64Bits,
    pub v_max: U64F64Bits,
    pub cost_k: U64F64Bits,
    pub cost_b: U64F64Bits,
    pub slash_rate: U64F64Bits,
    // Payout
    pub treasury_ratio: U64F64Bits,
    pub heartbeat_window: u32,
    // Ve calculation
    pub rig_k: U64F64Bits,
    pub rig_b: U64F64Bits,
    pub re: U64F64Bits,
    pub k: U64F64Bits,
    // Slash calculation
    pub kappa: U64F64Bits,
}

} // verus!
