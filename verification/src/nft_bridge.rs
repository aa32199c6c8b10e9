//! Cross-chain NFT transfers by lock and mint: each transfer moves through
//! locked, proof generated, complete and returned (or expires while locked),
//! with the NFT's metadata kept as it was locked.
use vstd::prelude::*;
use vstd::string::StringExecFns;
use crate::arith::sat_sub_spec;
use crate::keyed::{has_key, keyed_map, lemma_keyed_at, lemma_keyed_empty, lemma_keyed_len, lemma_keyed_push, lemma_keyed_update, unique_keys};
use crate::text::{dec_chars, decimal, lemma_prefixed_injective, prefixed_decimal};

verus! {

/// Most metadata bytes a transfer may carry.
pub const MAX_METADATA_BYTES: usize = 65_536;
/// Most attributes an NFT may have.
pub const MAX_ATTRIBUTES: usize = 100;
/// Highest royalty in basis points.
pub const MAX_ROYALTY_BPS: u32 = 5_000;
/// Seconds after which an unminted lock expires.
pub const LOCK_TIMEOUT_SECS: u64 = 86_400;

/// An NFT: its origin chain, contract and token.
#[derive(Debug, Clone, PartialEq, Eq, Hash)]
pub struct NftId {
    pub origin_chain: u32,
    pub contract_address: String,
    pub token_id: String,
}

/// Index key of an NFT: chain, contract and token joined by colons.
pub open spec fn canonical_spec(n: NftId) -> Seq<char> {
    dec_chars(n.origin_chain as nat) + ":"@ + n.contract_address@ + ":"@ + n.token_id@
}

impl NftId {
    pub fn new(origin_chain: u32, contract: &str, token_id: &str) -> (r: Self)
        ensures
            r.origin_chain == origin_chain,
            r.contract_address@ == contract@,
            r.token_id@ == token_id@,
    {
        NftId { origin_chain, contract_address: contract.to_owned(), token_id: token_id.to_owned() }
    }

    /// The index key of the NFT.
    pub fn canonical_key(&self) -> (r: String)
        ensures
            r@ == canonical_spec(*self),
    {
        let mut out = decimal(self.origin_chain as u64);
        out.append(":");
        out.append(self.contract_address.as_str());
        out.append(":");
        out.append(self.token_id.as_str());
        out
    }
}

/// One trait of an NFT.
#[derive(Debug, Clone)]
pub struct NftAttribute {
    pub trait_type: String,
    pub value: String,
    pub display_type: Option<String>,
}

/// Metadata carried with an NFT.
#[derive(Debug, Clone)]
pub struct NftMetadata {
    pub name: String,
    pub description: String,
    pub image_uri: String,
    pub animation_uri: Option<String>,
    pub external_url: Option<String>,
    pub attributes: Vec<NftAttribute>,
    pub royalty_recipient: Option<String>,
    pub royalty_bps: Option<u32>,
}

/// Where a transfer stands.
#[derive(Debug, Clone, PartialEq, Eq)]
pub enum BridgeState {
    Locked,
    ProofGenerated,
    Minted,
    Complete,
    Returned,
    Expired,
    Failed { reason: String },
}

/// A transfer of one NFT.
#[derive(Debug, Clone)]
pub struct NftTransfer {
    pub transfer_id: String,
    pub nft_id: NftId,
    pub metadata: NftMetadata,
    pub source_chain: u32,
    pub dest_chain: u32,
    pub sender: String,
    pub receiver: String,
    pub state: BridgeState,
    pub locked_at: u64,
    pub wrapped_contract: Option<String>,
    pub wrapped_token_id: Option<String>,
}

/// NFT bridge errors.
#[derive(Debug, PartialEq, Eq)]
pub enum NftBridgeError {
    AlreadyLocked,
    TransferNotFound,
    InvalidStateTransition,
    InvalidMetadata(String),
    MetadataTooLarge { size: usize, max: usize },
}

/// Bytes of a string in UTF-8.
pub open spec fn utf8_len(s: Seq<char>) -> nat {
    vstd::utf8::encode_utf8(s).len()
}

/// Bytes of the trait types and values of a list of attributes.
pub open spec fn attributes_size(a: Seq<NftAttribute>) -> nat
    decreases a.len(),
{
    if a.len() == 0 {
        0
    } else {
        attributes_size(a.drop_last()) + utf8_len(a.last().trait_type@) + utf8_len(a.last().value@)
    }
}

/// Estimated size of metadata: name, description, image URI and attributes.
pub open spec fn metadata_size(m: NftMetadata) -> nat {
    utf8_len(m.name@) + utf8_len(m.description@) + utf8_len(m.image_uri@) + attributes_size(m.attributes@)
}

/// Metadata is accepted: a name, at most `MAX_ATTRIBUTES` attributes, a
/// royalty of at most `MAX_ROYALTY_BPS`, at most `MAX_METADATA_BYTES` bytes.
pub open spec fn metadata_valid(m: NftMetadata) -> bool {
    &&& utf8_len(m.name@) > 0
    &&& m.attributes@.len() <= MAX_ATTRIBUTES
    &&& (m.royalty_bps matches Some(b) ==> b <= MAX_ROYALTY_BPS)
    &&& metadata_size(m) <= MAX_METADATA_BYTES
}

/// `e` is the error reported for metadata `m`: the first check it fails.
pub open spec fn metadata_error(m: NftMetadata, e: NftBridgeError) -> bool {
    if utf8_len(m.name@) == 0 {
        e matches NftBridgeError::InvalidMetadata(s) && s@ == "name is empty"@
    } else if m.attributes@.len() > MAX_ATTRIBUTES {
        e matches NftBridgeError::InvalidMetadata(s) && s@ == "too many attributes: "@ + dec_chars(
            m.attributes@.len(),
        ) + " > 100"@
    } else if m.royalty_bps matches Some(b) && b > MAX_ROYALTY_BPS {
        e matches NftBridgeError::InvalidMetadata(s) && s@ == "royalty "@ + dec_chars(m.royalty_bps->0 as nat)
            + "bps exceeds max 5000bps"@
    } else {
        e == NftBridgeError::MetadataTooLarge { size: metadata_size(m) as usize, max: MAX_METADATA_BYTES }
    }
}

fn metadata_byte_size(m: &NftMetadata) -> (r: usize)
    requires
        metadata_size(*m) <= usize::MAX,
    ensures
        r == metadata_size(*m),
{
    let mut size: usize = m.name.as_str().len() + m.description.as_str().len() + m.image_uri.as_str().len();
    let mut i: usize = 0;
    while i < m.attributes.len()
        invariant
            i <= m.attributes@.len(),
            size == utf8_len(m.name@) + utf8_len(m.description@) + utf8_len(m.image_uri@) + attributes_size(
                m.attributes@.take(i as int),
            ),
            metadata_size(*m) <= usize::MAX,
        decreases m.attributes@.len() - i,
    {
        proof {
            assert(m.attributes@.take(i as int + 1).drop_last() =~= m.attributes@.take(i as int));
            lemma_attributes_size_prefix(m.attributes@, i as int + 1);
        }
        size = size + m.attributes[i].trait_type.as_str().len() + m.attributes[i].value.as_str().len();
        i = i + 1;
    }
    proof {
        assert(m.attributes@.take(i as int) =~= m.attributes@);
    }
    size
}

proof fn lemma_attributes_size_prefix(a: Seq<NftAttribute>, k: int)
    requires
        0 <= k <= a.len(),
    ensures
        attributes_size(a.take(k)) <= attributes_size(a),
    decreases a.len() - k,
{
    if k < a.len() {
        lemma_attributes_size_prefix(a, k + 1);
        assert(a.take(k + 1).drop_last() =~= a.take(k));
    } else {
        assert(a.take(k) =~= a);
    }
}

/// Check metadata before a lock.
pub fn validate_metadata(metadata: &NftMetadata) -> (r: Result<(), NftBridgeError>)
    requires
        metadata_size(*metadata) <= usize::MAX,
    ensures
        r is Ok <==> metadata_valid(*metadata),
        r matches Err(e) ==> metadata_error(*metadata, e),
{
    if metadata.name.as_str().len() == 0 {
        return Err(NftBridgeError::InvalidMetadata("name is empty".to_owned()));
    }
    if metadata.attributes.len() > MAX_ATTRIBUTES {
        let mut msg = prefixed_decimal("too many attributes: ", metadata.attributes.len() as u64);
        msg.append(" > 100");
        return Err(NftBridgeError::InvalidMetadata(msg));
    }
    match metadata.royalty_bps {
        Some(bps) => {
            if bps > MAX_ROYALTY_BPS {
                let mut msg = prefixed_decimal("royalty ", bps as u64);
                msg.append("bps exceeds max 5000bps");
                return Err(NftBridgeError::InvalidMetadata(msg));
            }
        },
        None => {},
    }
    let estimated_size = metadata_byte_size(metadata);
    if estimated_size > MAX_METADATA_BYTES {
        return Err(NftBridgeError::MetadataTooLarge { size: estimated_size, max: MAX_METADATA_BYTES });
    }
    Ok(())
}

/// A transfer still holds its NFT locked: locked, proven or minted.
pub open spec fn is_active(s: BridgeState) -> bool {
    s matches BridgeState::Locked || s matches BridgeState::ProofGenerated || s matches BridgeState::Minted
}

fn state_is_active(s: &BridgeState) -> (r: bool)
    ensures
        r == is_active(*s),
{
    match s {
        BridgeState::Locked => true,
        BridgeState::ProofGenerated => true,
        BridgeState::Minted => true,
        _ => false,
    }
}

/// Identifier of the `n`-th transfer.
pub open spec fn nft_transfer_id_of(n: int) -> Seq<char> {
    "nft_tx_"@ + dec_chars(n as nat)
}

/// Index of the latest transfer of an NFT with index key `key`.
pub open spec fn latest_with_key(s: Seq<NftTransfer>, key: Seq<char>) -> Option<int>
    decreases s.len(),
{
    if s.len() == 0 {
        None
    } else if canonical_spec(s.last().nft_id) == key {
        Some(s.len() - 1)
    } else {
        latest_with_key(s.drop_last(), key)
    }
}

/// A transfer that is still locked after the timeout.
pub open spec fn is_stale(t: NftTransfer, now: u64) -> bool {
    t.state matches BridgeState::Locked && sat_sub_spec(now as int, t.locked_at as int) >= LOCK_TIMEOUT_SECS
}

/// Wrapped contract of an NFT contract on one destination chain.
#[derive(Debug, Clone)]
pub struct WrappedTarget {
    pub dest_chain: u32,
    pub wrapped_contract: String,
}

/// Wrapped contracts of one NFT contract.
#[derive(Debug, Clone)]
pub struct WrappedGroup {
    pub origin_chain: u32,
    pub origin_contract: String,
    pub targets: Vec<WrappedTarget>,
}

pub open spec fn target_key() -> spec_fn(WrappedTarget) -> u32 {
    |t: WrappedTarget| t.dest_chain
}

pub open spec fn group_key() -> spec_fn(WrappedGroup) -> (u32, Seq<char>) {
    |g: WrappedGroup| (g.origin_chain, g.origin_contract@)
}

fn find_target(targets: &Vec<WrappedTarget>, dest_chain: u32) -> (r: Option<usize>)
    ensures
        match r {
            Some(i) => i < targets@.len() && targets@[i as int].dest_chain == dest_chain,
            None => !has_key(targets@, target_key(), dest_chain),
        },
{
    let mut ti: usize = 0;
    while ti < targets.len()
        invariant
            ti <= targets@.len(),
            forall|k: int| 0 <= k < ti ==> (#[trigger] targets@[k]).dest_chain != dest_chain,
        decreases targets@.len() - ti,
    {
        if targets[ti].dest_chain == dest_chain {
            return Some(ti);
        }
        ti = ti + 1;
    }
    None
}

/// All NFT transfers and the wrapped contract directory.
pub struct NftBridgeRegistry {
    transfers: Vec<NftTransfer>,
    wrapped: Vec<WrappedGroup>,
    next_id: u64,
}

impl NftBridgeRegistry {
    /// Transfers in the order they were created; the `n`-th has identifier
    /// `nft_transfer_id_of(n)`.
    pub closed spec fn transfer_seq(&self) -> Seq<NftTransfer> {
        self.transfers@
    }

    /// Wrapped contracts: by origin chain and contract, then by destination chain.
    pub closed spec fn wrapped_map(&self) -> Map<(u32, Seq<char>), Map<u32, Seq<char>>> {
        keyed_map(self.wrapped@, group_key()).map_values(
            |g: WrappedGroup| keyed_map(g.targets@, target_key()).map_values(|t: WrappedTarget| t.wrapped_contract@),
        )
    }

    /// Transfers numbered in order, one directory entry per contract and
    /// per destination.
    pub closed spec fn wf(&self) -> bool {
        &&& self.next_id == self.transfers@.len()
        &&& forall|i: int| 0 <= i < self.transfers@.len() ==> (#[trigger] self.transfers@[i]).transfer_id@ == nft_transfer_id_of(i)
        &&& unique_keys(self.wrapped@, group_key())
        &&& forall|i: int| 0 <= i < self.wrapped@.len() ==> unique_keys((#[trigger] self.wrapped@[i]).targets@, target_key())
    }

    proof fn lemma_id_index(&self, i: int, j: int)
        requires
            self.wf(),
            0 <= i < self.transfers@.len(),
            0 <= j < self.transfers@.len(),
            self.transfers@[i].transfer_id@ == self.transfers@[j].transfer_id@,
        ensures
            i == j,
    {
        lemma_prefixed_injective("nft_tx_"@, i as nat, j as nat);
    }

    fn find_transfer(&self, transfer_id: &str) -> (r: Option<usize>)
        requires
            self.wf(),
        ensures
            match r {
                Some(i) => i < self.transfers@.len() && self.transfers@[i as int].transfer_id@ == transfer_id@
                    && forall|j: int|
                    0 <= j < self.transfers@.len() && (#[trigger] self.transfers@[j]).transfer_id@ == transfer_id@ ==> j
                        == i,
                None => forall|j: int| 0 <= j < self.transfers@.len() ==> (#[trigger] self.transfers@[j]).transfer_id@ != transfer_id@,
            },
    {
        let key = transfer_id.to_owned();
        let mut i: usize = 0;
        while i < self.transfers.len()
            invariant
                0 <= i <= self.transfers@.len(),
                key@ == transfer_id@,
                self.wf(),
                forall|k: int| 0 <= k < i ==> (#[trigger] self.transfers@[k]).transfer_id@ != transfer_id@,
            decreases self.transfers@.len() - i,
        {
            if self.transfers[i].transfer_id == key {
                proof {
                    assert forall|j: int|
                        0 <= j < self.transfers@.len() && (#[trigger] self.transfers@[j]).transfer_id@ == transfer_id@ implies j
                        == i by {
                        self.lemma_id_index(i as int, j);
                    }
                }
                return Some(i);
            }
            i = i + 1;
        }
        None
    }

    /// No transfer, empty directory.
    pub fn new() -> (r: Self)
        ensures
            r.wf(),
            r.transfer_seq().len() == 0,
            r.wrapped_map() == Map::<(u32, Seq<char>), Map<u32, Seq<char>>>::empty(),
    {
        let r = NftBridgeRegistry { transfers: Vec::new(), wrapped: Vec::new(), next_id: 0 };
        proof {
            lemma_keyed_empty(group_key());
            assert(r.wrapped@ =~= Seq::<WrappedGroup>::empty());
            assert(r.wrapped_map() =~= Map::<(u32, Seq<char>), Map<u32, Seq<char>>>::empty());
        }
        r
    }

    /// Number of transfers.
    pub fn total_transfers(&self) -> (r: usize)
        ensures
            r == self.transfer_seq().len(),
    {
        self.transfers.len()
    }

    /// The transfer with this identifier.
    pub fn get_transfer(&self, transfer_id: &str) -> (r: Option<&NftTransfer>)
        requires
            self.wf(),
        ensures
            match r {
                Some(t) => exists|i: int|
                    0 <= i < self.transfer_seq().len() && *t == #[trigger] self.transfer_seq()[i] && t.transfer_id@ == transfer_id@,
                None => forall|i: int|
                    0 <= i < self.transfer_seq().len() ==> (#[trigger] self.transfer_seq()[i]).transfer_id@ != transfer_id@,
            },
    {
        match self.find_transfer(transfer_id) {
            Some(i) => Some(&self.transfers[i]),
            None => None,
        }
    }

    /// Lock an NFT for transfer to `dest_chain`. The metadata must be valid,
    /// and the NFT's latest transfer must not still hold it locked.
    pub fn lock_nft(
        &mut self,
        nft_id: NftId,
        metadata: NftMetadata,
        dest_chain: u32,
        sender: &str,
        receiver: &str,
        now: u64,
    ) -> (r: Result<String, NftBridgeError>)
        requires
            old(self).wf(),
            metadata_size(metadata) <= usize::MAX,
            old(self).transfer_seq().len() < u64::MAX,
        ensures
            final(self).wf(),
            final(self).wrapped_map() == old(self).wrapped_map(),
            !metadata_valid(metadata) ==> (r matches Err(e) && metadata_error(metadata, e)) && final(self).transfer_seq()
                == old(self).transfer_seq(),
            metadata_valid(metadata) && (latest_with_key(old(self).transfer_seq(), canonical_spec(nft_id)) matches Some(j)
                && is_active(old(self).transfer_seq()[j].state)) ==> r == Err::<String, NftBridgeError>(
                NftBridgeError::AlreadyLocked,
            ) && final(self).transfer_seq() == old(self).transfer_seq(),
            metadata_valid(metadata) && !(latest_with_key(old(self).transfer_seq(), canonical_spec(nft_id)) matches Some(j)
                && is_active(old(self).transfer_seq()[j].state)) ==> {
                let n = old(self).transfer_seq().len();
                let t = final(self).transfer_seq()[n as int];
                &&& r matches Ok(id) && id@ == nft_transfer_id_of(n as int)
                &&& final(self).transfer_seq().len() == n + 1
                &&& final(self).transfer_seq().take(n as int) == old(self).transfer_seq()
                &&& t.transfer_id@ == nft_transfer_id_of(n as int)
                &&& t.nft_id == nft_id
                &&& t.metadata == metadata
                &&& t.source_chain == nft_id.origin_chain
                &&& t.dest_chain == dest_chain
                &&& t.sender@ == sender@
                &&& t.receiver@ == receiver@
                &&& t.state == BridgeState::Locked
                &&& t.locked_at == now
                &&& t.wrapped_contract is None
                &&& t.wrapped_token_id is None
            },
    {
        match validate_metadata(&metadata) {
            Ok(()) => {},
            Err(e) => return Err(e),
        }
        let key = nft_id.canonical_key();
        let mut j = self.transfers.len();
        let mut hit: Option<usize> = None;
        proof {
            assert(self.transfers@.take(j as int) =~= self.transfers@);
        }
        while j > 0 && hit.is_none()
            invariant
                j <= self.transfers@.len(),
                hit is None ==> latest_with_key(self.transfers@, key@) == latest_with_key(
                    self.transfers@.take(j as int),
                    key@,
                ),
                hit matches Some(h) ==> h < self.transfers@.len() && latest_with_key(self.transfers@, key@) == Some(
                    h as int,
                ),
            decreases j,
        {
            j = j - 1;
            let c = self.transfers[j].nft_id.canonical_key();
            proof {
                assert(self.transfers@.take(j as int + 1).drop_last() =~= self.transfers@.take(j as int));
                assert(self.transfers@.take(j as int + 1).last() == self.transfers@[j as int]);
            }
            if c == key {
                hit = Some(j);
            }
        }
        match hit {
            Some(h) => {
                if state_is_active(&self.transfers[h].state) {
                    return Err(NftBridgeError::AlreadyLocked);
                }
            },
            None => {
                proof {
                    assert(self.transfers@.take(0) =~= Seq::<NftTransfer>::empty());
                }
            },
        }
        let n = self.next_id;
        let transfer_id = prefixed_decimal("nft_tx_", n);
        self.next_id = self.next_id + 1;
        let source_chain = nft_id.origin_chain;
        let transfer = NftTransfer {
            transfer_id: prefixed_decimal("nft_tx_", n),
            nft_id,
            metadata,
            source_chain,
            dest_chain,
            sender: sender.to_owned(),
            receiver: receiver.to_owned(),
            state: BridgeState::Locked,
            locked_at: now,
            wrapped_contract: None,
            wrapped_token_id: None,
        };
        let ghost before = self.transfers@;
        self.transfers.push(transfer);
        proof {
            assert(self.transfers@.take(n as int) =~= before);
            assert forall|i: int| 0 <= i < self.transfers@.len() implies (#[trigger] self.transfers@[i]).transfer_id@
                == nft_transfer_id_of(i) by {
                if i < n {
                    assert(self.transfers@[i] == before[i]);
                }
            }
        }
        Ok(transfer_id)
    }
    /// The proof of a locked transfer has been generated.
    pub fn mark_proof_generated(&mut self, transfer_id: &str) -> (r: Result<(), NftBridgeError>)
        requires
            old(self).wf(),
        ensures
            final(self).wf(),
            final(self).wrapped_map() == old(self).wrapped_map(),
            (forall|i: int| 0 <= i < old(self).transfer_seq().len() ==> (#[trigger] old(self).transfer_seq()[i]).transfer_id@ != transfer_id@)
                ==> r == Err::<(), NftBridgeError>(NftBridgeError::TransferNotFound) && final(self).transfer_seq()
                == old(self).transfer_seq(),
            forall|i: int|
                0 <= i < old(self).transfer_seq().len() && (#[trigger] old(self).transfer_seq()[i]).transfer_id@
                    == transfer_id@ ==> if old(self).transfer_seq()[i].state == BridgeState::Locked {
                    r is Ok && final(self).transfer_seq() == old(self).transfer_seq().update(
                        i,
                        NftTransfer { state: BridgeState::ProofGenerated, ..old(self).transfer_seq()[i] },
                    )
                } else {
                    r == Err::<(), NftBridgeError>(NftBridgeError::InvalidStateTransition) && final(self).transfer_seq()
                        == old(self).transfer_seq()
                },
    {
        let i = match self.find_transfer(transfer_id) {
            Some(i) => i,
            None => return Err(NftBridgeError::TransferNotFound),
        };
        match self.transfers[i].state {
            BridgeState::Locked => {},
            _ => return Err(NftBridgeError::InvalidStateTransition),
        }
        let ghost before = self.transfers@;
        self.transfers[i].state = BridgeState::ProofGenerated;
        proof {
            assert(self.transfers@ =~= before.update(i as int, NftTransfer { state: BridgeState::ProofGenerated, ..before[i as int] }));
            assert forall|k: int| 0 <= k < self.transfers@.len() implies (#[trigger] self.transfers@[k]).transfer_id@
                == nft_transfer_id_of(k) by {
                assert(self.transfers@[k].transfer_id == before[k].transfer_id);
            }
        }
        Ok(())
    }

    /// The wrapped NFT of a proven transfer has been minted; the transfer is complete.
    pub fn mark_minted(&mut self, transfer_id: &str, wrapped_contract: &str, wrapped_token_id: &str) -> (r: Result<
        (),
        NftBridgeError,
    >)
        requires
            old(self).wf(),
        ensures
            final(self).wf(),
            final(self).wrapped_map() == old(self).wrapped_map(),
            (forall|i: int| 0 <= i < old(self).transfer_seq().len() ==> (#[trigger] old(self).transfer_seq()[i]).transfer_id@ != transfer_id@)
                ==> r == Err::<(), NftBridgeError>(NftBridgeError::TransferNotFound) && final(self).transfer_seq()
                == old(self).transfer_seq(),
            forall|i: int|
                0 <= i < old(self).transfer_seq().len() && (#[trigger] old(self).transfer_seq()[i]).transfer_id@
                    == transfer_id@ ==> if old(self).transfer_seq()[i].state == BridgeState::ProofGenerated {
                    let q = final(self).transfer_seq()[i];
                    &&& r is Ok
                    &&& final(self).transfer_seq() == old(self).transfer_seq().update(i, q)
                    &&& q.state == BridgeState::Complete
                    &&& q.wrapped_contract matches Some(c) && c@ == wrapped_contract@
                    &&& q.wrapped_token_id matches Some(t) && t@ == wrapped_token_id@
                    &&& q == NftTransfer {
                        state: BridgeState::Complete,
                        wrapped_contract: q.wrapped_contract,
                        wrapped_token_id: q.wrapped_token_id,
                        ..old(self).transfer_seq()[i]
                    }
                } else {
                    r == Err::<(), NftBridgeError>(NftBridgeError::InvalidStateTransition) && final(self).transfer_seq()
                        == old(self).transfer_seq()
                },
    {
        let i = match self.find_transfer(transfer_id) {
            Some(i) => i,
            None => return Err(NftBridgeError::TransferNotFound),
        };
        match self.transfers[i].state {
            BridgeState::ProofGenerated => {},
            _ => return Err(NftBridgeError::InvalidStateTransition),
        }
        let ghost before = self.transfers@;
        self.transfers[i].wrapped_contract = Some(wrapped_contract.to_owned());
        self.transfers[i].wrapped_token_id = Some(wrapped_token_id.to_owned());
        self.transfers[i].state = BridgeState::Complete;
        proof {
            assert(self.transfers@ =~= before.update(i as int, self.transfers@[i as int]));
            assert forall|k: int| 0 <= k < self.transfers@.len() implies (#[trigger] self.transfers@[k]).transfer_id@
                == nft_transfer_id_of(k) by {
                assert(self.transfers@[k].transfer_id == before[k].transfer_id);
            }
        }
        Ok(())
    }

    /// The wrapped NFT of a complete transfer was burned and the original released.
    pub fn process_return(&mut self, transfer_id: &str) -> (r: Result<(), NftBridgeError>)
        requires
            old(self).wf(),
        ensures
            final(self).wf(),
            final(self).wrapped_map() == old(self).wrapped_map(),
            (forall|i: int| 0 <= i < old(self).transfer_seq().len() ==> (#[trigger] old(self).transfer_seq()[i]).transfer_id@ != transfer_id@)
                ==> r == Err::<(), NftBridgeError>(NftBridgeError::TransferNotFound) && final(self).transfer_seq()
                == old(self).transfer_seq(),
            forall|i: int|
                0 <= i < old(self).transfer_seq().len() && (#[trigger] old(self).transfer_seq()[i]).transfer_id@
                    == transfer_id@ ==> if old(self).transfer_seq()[i].state == BridgeState::Complete {
                    r is Ok && final(self).transfer_seq() == old(self).transfer_seq().update(
                        i,
                        NftTransfer { state: BridgeState::Returned, ..old(self).transfer_seq()[i] },
                    )
                } else {
                    r == Err::<(), NftBridgeError>(NftBridgeError::InvalidStateTransition) && final(self).transfer_seq()
                        == old(self).transfer_seq()
                },
    {
        let i = match self.find_transfer(transfer_id) {
            Some(i) => i,
            None => return Err(NftBridgeError::TransferNotFound),
        };
        match self.transfers[i].state {
            BridgeState::Complete => {},
            _ => return Err(NftBridgeError::InvalidStateTransition),
        }
        let ghost before = self.transfers@;
        self.transfers[i].state = BridgeState::Returned;
        proof {
            assert(self.transfers@ =~= before.update(i as int, NftTransfer { state: BridgeState::Returned, ..before[i as int] }));
            assert forall|k: int| 0 <= k < self.transfers@.len() implies (#[trigger] self.transfers@[k]).transfer_id@
                == nft_transfer_id_of(k) by {
                assert(self.transfers@[k].transfer_id == before[k].transfer_id);
            }
        }
        Ok(())
    }

    /// Expire every transfer still locked after the timeout; returns their
    /// identifiers in transfer order.
    pub fn expire_stale_locks(&mut self, now: u64) -> (r: Vec<String>)
        requires
            old(self).wf(),
        ensures
            final(self).wf(),
            final(self).wrapped_map() == old(self).wrapped_map(),
            final(self).transfer_seq().len() == old(self).transfer_seq().len(),
            forall|i: int|
                0 <= i < old(self).transfer_seq().len() ==> #[trigger] final(self).transfer_seq()[i] == if is_stale(
                    old(self).transfer_seq()[i],
                    now,
                ) {
                    NftTransfer { state: BridgeState::Expired, ..old(self).transfer_seq()[i] }
                } else {
                    old(self).transfer_seq()[i]
                },
            r@.map_values(|s: String| s@) == old(self).transfer_seq().filter(|t: NftTransfer| is_stale(t, now)).map_values(
                |t: NftTransfer| t.transfer_id@,
            ),
    {
        let ghost s0 = self.transfers@;
        let mut expired: Vec<String> = Vec::new();
        let mut i: usize = 0;
        while i < self.transfers.len()
            invariant
                self.transfers@.len() == s0.len(),
                i <= s0.len(),
                self.wrapped@ == old(self).wrapped@,
                self.next_id == old(self).next_id,
                forall|k: int| 0 <= k < s0.len() ==> (#[trigger] s0[k]).transfer_id@ == nft_transfer_id_of(k),
                forall|k: int|
                    0 <= k < s0.len() ==> #[trigger] self.transfers@[k] == if k < i && is_stale(s0[k], now) {
                        NftTransfer { state: BridgeState::Expired, ..s0[k] }
                    } else {
                        s0[k]
                    },
                expired@.map_values(|s: String| s@) == s0.take(i as int).filter(|t: NftTransfer| is_stale(t, now)).map_values(
                    |t: NftTransfer| t.transfer_id@,
                ),
            decreases s0.len() - i,
        {
            proof {
                reveal_with_fuel(Seq::filter, 1);
                assert(s0.take(i as int + 1).drop_last() =~= s0.take(i as int));
                assert(s0.take(i as int + 1).last() == s0[i as int]);
            }
            let stale = match self.transfers[i].state {
                BridgeState::Locked => now.saturating_sub(self.transfers[i].locked_at) >= LOCK_TIMEOUT_SECS,
                _ => false,
            };
            if stale {
                let ghost before = self.transfers@;
                self.transfers[i].state = BridgeState::Expired;
                let ghost before_ids = expired@;
                expired.push(self.transfers[i].transfer_id.clone());
                proof {
                    assert forall|k: int| 0 <= k < s0.len() && k != i implies #[trigger] self.transfers@[k] == before[k] by {}
                    assert(expired@.map_values(|s: String| s@) =~= before_ids.map_values(|s: String| s@).push(
                        s0[i as int].transfer_id@,
                    ));
                }
            }
            proof {
                assert(expired@.map_values(|s: String| s@) =~= s0.take(i as int + 1).filter(|t: NftTransfer| is_stale(t, now)).map_values(
                    |t: NftTransfer| t.transfer_id@,
                ));
            }
            i = i + 1;
        }
        proof {
            assert(s0.take(s0.len() as int) =~= s0);
            assert forall|k: int| 0 <= k < self.transfers@.len() implies (#[trigger] self.transfers@[k]).transfer_id@
                == nft_transfer_id_of(k) by {
                assert(self.transfers@[k].transfer_id == s0[k].transfer_id);
            }
        }
        expired
    }

    /// The transfers of a sender, in transfer order.
    pub fn get_by_sender(&self, sender: &str) -> (r: Vec<&NftTransfer>)
        ensures
            r@.len() == self.transfer_seq().filter(|t: NftTransfer| t.sender@ == sender@).len(),
            forall|k: int| 0 <= k < r@.len() ==> *(#[trigger] r@[k]) == self.transfer_seq().filter(|t: NftTransfer| t.sender@ == sender@)[k],
    {
        let key = sender.to_owned();
        let mut out: Vec<&NftTransfer> = Vec::new();
        let mut i: usize = 0;
        while i < self.transfers.len()
            invariant
                i <= self.transfers@.len(),
                key@ == sender@,
                out@.len() == self.transfers@.take(i as int).filter(|t: NftTransfer| t.sender@ == sender@).len(),
                forall|k: int| 0 <= k < out@.len() ==> *(#[trigger] out@[k]) == self.transfers@.take(i as int).filter(|t: NftTransfer| t.sender@ == sender@)[k],
            decreases self.transfers@.len() - i,
        {
            proof {
                reveal_with_fuel(Seq::filter, 1);
                assert(self.transfers@.take(i as int + 1).drop_last() =~= self.transfers@.take(i as int));
                assert(self.transfers@.take(i as int + 1).last() == self.transfers@[i as int]);
            }
            if self.transfers[i].sender == key {
                out.push(&self.transfers[i]);
            }
            i = i + 1;
        }
        proof {
            assert(self.transfers@.take(i as int) =~= self.transfers@);
        }
        out
    }

    /// Record the wrapped contract of an NFT contract on a destination chain.
    pub fn register_wrapped_contract(&mut self, origin_chain: u32, origin_contract: &str, dest_chain: u32, wrapped_contract: &str)
        requires
            old(self).wf(),
        ensures
            final(self).wf(),
            final(self).transfer_seq() == old(self).transfer_seq(),
            final(self).wrapped_map() == old(self).wrapped_map().insert(
                (origin_chain, origin_contract@),
                if old(self).wrapped_map().dom().contains((origin_chain, origin_contract@)) {
                    old(self).wrapped_map()[(origin_chain, origin_contract@)].insert(dest_chain, wrapped_contract@)
                } else {
                    Map::<u32, Seq<char>>::empty().insert(dest_chain, wrapped_contract@)
                },
            ),
    {
        let key = origin_contract.to_owned();
        let mut gi: usize = 0;
        let mut found = false;
        while gi < self.wrapped.len() && !found
            invariant
                gi <= self.wrapped@.len(),
                key@ == origin_contract@,
                !found ==> forall|k: int| 0 <= k < gi ==> group_key()(#[trigger] self.wrapped@[k]) != (origin_chain, origin_contract@),
                found ==> gi < self.wrapped@.len() && group_key()(self.wrapped@[gi as int]) == (origin_chain, origin_contract@),
            decreases self.wrapped@.len() - gi + if found { 0int } else { 1int },
        {
            if self.wrapped[gi].origin_chain == origin_chain && self.wrapped[gi].origin_contract == key {
                found = true;
            } else {
                gi = gi + 1;
            }
        }
        let ghost old_groups = self.wrapped@;
        let target = WrappedTarget { dest_chain, wrapped_contract: wrapped_contract.to_owned() };
        let ghost gt = target;
        if !found {
            let mut targets: Vec<WrappedTarget> = Vec::new();
            proof {
                lemma_keyed_empty(target_key());
                assert(targets@ =~= Seq::<WrappedTarget>::empty());
                lemma_keyed_push(targets@, target_key(), gt);
            }
            targets.push(target);
            let group = WrappedGroup { origin_chain, origin_contract: key, targets };
            let ghost gg = group;
            self.wrapped.push(group);
            proof {
                lemma_keyed_push(old_groups, group_key(), gg);
                assert forall|i: int| 0 <= i < self.wrapped@.len() implies unique_keys((#[trigger] self.wrapped@[i]).targets@, target_key()) by {
                    if i < old_groups.len() {
                        assert(self.wrapped@[i] == old_groups[i]);
                    }
                }
                let gk = (origin_chain, origin_contract@);
                assert(gg.targets@ =~= Seq::<WrappedTarget>::empty().push(gt));
                assert(keyed_map(gg.targets@, target_key()) == Map::<u32, WrappedTarget>::empty().insert(dest_chain, gt));
                assert(keyed_map(gg.targets@, target_key()).map_values(|t: WrappedTarget| t.wrapped_contract@) =~= Map::<
                    u32,
                    Seq<char>,
                >::empty().insert(dest_chain, wrapped_contract@));
                assert(keyed_map(self.wrapped@, group_key()) == keyed_map(old_groups, group_key()).insert(gk, gg));
                assert(self.wrapped_map() =~= old(self).wrapped_map().insert(
                    gk,
                    Map::<u32, Seq<char>>::empty().insert(dest_chain, wrapped_contract@),
                ));
            }
        } else {
            proof {
                lemma_keyed_at(old_groups, group_key(), gi as int);
            }
            let mut targets: Vec<WrappedTarget> = Vec::new();
            std::mem::swap(&mut targets, &mut self.wrapped[gi].targets);
            let ghost old_targets = targets@;
            let mut ti: usize = 0;
            let mut hit = false;
            while ti < targets.len() && !hit
                invariant
                    ti <= targets@.len(),
                    targets@ == old_targets,
                    !hit ==> forall|k: int| 0 <= k < ti ==> (#[trigger] targets@[k]).dest_chain != dest_chain,
                    hit ==> ti < targets@.len() && targets@[ti as int].dest_chain == dest_chain,
                decreases targets@.len() - ti + if hit { 0int } else { 1int },
            {
                if targets[ti].dest_chain == dest_chain {
                    hit = true;
                } else {
                    ti = ti + 1;
                }
            }
            proof {
                assert(unique_keys(old_targets, target_key()));
            }
            if hit {
                targets.set(ti, target);
                proof {
                    lemma_keyed_update(old_targets, target_key(), ti as int, gt);
                    assert(targets@ == old_targets.update(ti as int, gt));
                }
            } else {
                targets.push(target);
                proof {
                    lemma_keyed_push(old_targets, target_key(), gt);
                }
            }
            self.wrapped[gi].targets = targets;
            proof {
                let g = self.wrapped@[gi as int];
                assert(self.wrapped@ == old_groups.update(gi as int, g));
                lemma_keyed_update(old_groups, group_key(), gi as int, g);
                assert forall|i: int| 0 <= i < self.wrapped@.len() implies unique_keys((#[trigger] self.wrapped@[i]).targets@, target_key()) by {
                    if i != gi {
                        assert(self.wrapped@[i] == old_groups[i]);
                    }
                }
                assert(keyed_map(g.targets@, target_key()).map_values(|t: WrappedTarget| t.wrapped_contract@) =~= keyed_map(
                    old_targets,
                    target_key(),
                ).map_values(|t: WrappedTarget| t.wrapped_contract@).insert(dest_chain, wrapped_contract@));
                assert(self.wrapped_map() =~= old(self).wrapped_map().insert(
                    (origin_chain, origin_contract@),
                    old(self).wrapped_map()[(origin_chain, origin_contract@)].insert(dest_chain, wrapped_contract@),
                ));
            }
        }
    }

    /// The wrapped contract of an NFT contract on a destination chain.
    pub fn get_wrapped_contract(&self, origin_chain: u32, origin_contract: &str, dest_chain: u32) -> (r: Option<&String>)
        requires
            self.wf(),
        ensures
            match r {
                Some(c) => self.wrapped_map().dom().contains((origin_chain, origin_contract@)) && self.wrapped_map()[(
                    origin_chain,
                    origin_contract@,
                )].dom().contains(dest_chain) && c@ == self.wrapped_map()[(origin_chain, origin_contract@)][dest_chain],
                None => !(self.wrapped_map().dom().contains((origin_chain, origin_contract@)) && self.wrapped_map()[(
                    origin_chain,
                    origin_contract@,
                )].dom().contains(dest_chain)),
            },
    {
        let key = origin_contract.to_owned();
        let mut gi: usize = 0;
        while gi < self.wrapped.len()
            invariant
                gi <= self.wrapped@.len(),
                key@ == origin_contract@,
                self.wf(),
                forall|k: int| 0 <= k < gi ==> group_key()(#[trigger] self.wrapped@[k]) != (origin_chain, origin_contract@),
            decreases self.wrapped@.len() - gi,
        {
            if self.wrapped[gi].origin_chain == origin_chain && self.wrapped[gi].origin_contract == key {
                proof {
                    lemma_keyed_at(self.wrapped@, group_key(), gi as int);
                }
                let targets = &self.wrapped[gi].targets;
                proof {
                    assert(unique_keys(targets@, target_key()));
                }
                match find_target(targets, dest_chain) {
                    Some(ti) => {
                        proof {
                            lemma_keyed_at(targets@, target_key(), ti as int);
                            let g = self.wrapped@[gi as int];
                            let gk = (origin_chain, origin_contract@);
                            assert(self.wrapped_map().dom().contains(gk));
                            assert(self.wrapped_map()[gk] == keyed_map(g.targets@, target_key()).map_values(
                                |t: WrappedTarget| t.wrapped_contract@,
                            ));
                            assert(self.wrapped_map()[gk].dom().contains(dest_chain));
                        }
                        return Some(&targets[ti].wrapped_contract);
                    },
                    None => {},
                }
                proof {
                    let g = self.wrapped@[gi as int];
                    let gk = (origin_chain, origin_contract@);
                    assert(self.wrapped_map()[gk] == keyed_map(g.targets@, target_key()).map_values(
                        |t: WrappedTarget| t.wrapped_contract@,
                    ));
                }
                return None;
            }
            gi = gi + 1;
        }
        None
    }

    /// Numbers of transfers in total, locked, complete, returned and expired,
    /// and of NFT contracts with wrapped contracts.
    pub fn stats_counts(&self) -> (r: (usize, usize, usize, usize, usize, usize))
        requires
            self.wf(),
        ensures
            r.0 == self.transfer_seq().len(),
            r.1 == self.transfer_seq().filter(|t: NftTransfer| t.state == BridgeState::Locked).len(),
            r.2 == self.transfer_seq().filter(|t: NftTransfer| t.state == BridgeState::Complete).len(),
            r.3 == self.transfer_seq().filter(|t: NftTransfer| t.state == BridgeState::Returned).len(),
            r.4 == self.transfer_seq().filter(|t: NftTransfer| t.state == BridgeState::Expired).len(),
            r.5 == self.wrapped_map().len(),
    {
        let mut c = (0usize, 0usize, 0usize, 0usize);
        let mut i: usize = 0;
        while i < self.transfers.len()
            invariant
                i <= self.transfers@.len(),
                c.0 <= i && c.1 <= i && c.2 <= i && c.3 <= i,
                c.0 == self.transfers@.take(i as int).filter(|t: NftTransfer| t.state == BridgeState::Locked).len(),
                c.1 == self.transfers@.take(i as int).filter(|t: NftTransfer| t.state == BridgeState::Complete).len(),
                c.2 == self.transfers@.take(i as int).filter(|t: NftTransfer| t.state == BridgeState::Returned).len(),
                c.3 == self.transfers@.take(i as int).filter(|t: NftTransfer| t.state == BridgeState::Expired).len(),
            decreases self.transfers@.len() - i,
        {
            proof {
                reveal_with_fuel(Seq::filter, 1);
                assert(self.transfers@.take(i as int + 1).drop_last() =~= self.transfers@.take(i as int));
                assert(self.transfers@.take(i as int + 1).last() == self.transfers@[i as int]);
            }
            match self.transfers[i].state {
                BridgeState::Locked => { c.0 = c.0 + 1; },
                BridgeState::Complete => { c.1 = c.1 + 1; },
                BridgeState::Returned => { c.2 = c.2 + 1; },
                BridgeState::Expired => { c.3 = c.3 + 1; },
                _ => {},
            }
            i = i + 1;
        }
        proof {
            assert(self.transfers@.take(i as int) =~= self.transfers@);
            lemma_keyed_len(self.wrapped@, group_key());
            assert(self.wrapped_map().dom() =~= keyed_map(self.wrapped@, group_key()).dom());
        }
        (self.transfers.len(), c.0, c.1, c.2, c.3, self.wrapped.len())
    }
}


/// The registry's counts as JSON (keys in sorted order).
pub open spec fn nft_stats_text(complete: nat, locked: nat, expired: nat, returned: nat, total: nat, wrapped: nat)
    -> Seq<char> {
    "{\"complete\":"@ + dec_chars(complete) + ",\"currently_locked\":"@ + dec_chars(locked) + ",\"expired\":"@
        + dec_chars(expired) + ",\"returned\":"@ + dec_chars(returned) + ",\"total_transfers\":"@ + dec_chars(total)
        + ",\"wrapped_contracts\":"@ + dec_chars(wrapped) + "}"@
}

impl NftBridgeRegistry {
    /// The counts of transfers by state and of wrapped contracts, as JSON.
    pub fn stats_json(&self) -> (r: String)
        requires
            self.wf(),
        ensures
            r@ == nft_stats_text(
                self.transfer_seq().filter(|t: NftTransfer| t.state == BridgeState::Complete).len(),
                self.transfer_seq().filter(|t: NftTransfer| t.state == BridgeState::Locked).len(),
                self.transfer_seq().filter(|t: NftTransfer| t.state == BridgeState::Expired).len(),
                self.transfer_seq().filter(|t: NftTransfer| t.state == BridgeState::Returned).len(),
                self.transfer_seq().len(),
                self.wrapped_map().len(),
            ),
    {
        let (total, locked, complete, returned, expired, wrapped) = self.stats_counts();
        let mut out = prefixed_decimal("{\"complete\":", complete as u64);
        out.append(prefixed_decimal(",\"currently_locked\":", locked as u64).as_str());
        out.append(prefixed_decimal(",\"expired\":", expired as u64).as_str());
        out.append(prefixed_decimal(",\"returned\":", returned as u64).as_str());
        out.append(prefixed_decimal(",\"total_transfers\":", total as u64).as_str());
        out.append(prefixed_decimal(",\"wrapped_contracts\":", wrapped as u64).as_str());
        out.append("}");
        out
    }
}

} // verus!
