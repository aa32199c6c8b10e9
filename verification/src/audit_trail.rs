//! Append-only, hash-chained audit log of bridge transfers.
//!
//! Every entry carries the hash of the previous one, so a change to any
//! entry breaks the chain from that point on.
use vstd::prelude::*;
use vstd::string::StringExecFns;
use vstd::string::StringSliceAdditionalSpecFns;
use crate::bytes::{be_bytes, bytes32_eq, push_be, push_bytes, sha256_digest, sha256_spec};
use crate::text::{dec_chars, decimal, decimal_u128};

verus! {

/// Status of a transfer.
#[derive(Debug, Clone, PartialEq, Eq)]
pub enum TransferStatus {
    Initiated,
    FinalityConfirmed,
    ProofGenerated,
    Settled,
    Failed { reason: String },
}

/// Name of a status as stored in the log.
pub open spec fn status_name(s: TransferStatus) -> Seq<char> {
    match s {
        TransferStatus::Initiated => "initiated"@,
        TransferStatus::FinalityConfirmed => "finality_confirmed"@,
        TransferStatus::ProofGenerated => "proof_generated"@,
        TransferStatus::Settled => "settled"@,
        TransferStatus::Failed { .. } => "failed"@,
    }
}

impl TransferStatus {
    /// Name of the status.
    pub fn as_str(&self) -> (r: &'static str)
        ensures
            r@ == status_name(*self),
    {
        match self {
            TransferStatus::Initiated => "initiated",
            TransferStatus::FinalityConfirmed => "finality_confirmed",
            TransferStatus::ProofGenerated => "proof_generated",
            TransferStatus::Settled => "settled",
            TransferStatus::Failed { .. } => "failed",
        }
    }
}

/// One log entry.
#[derive(Debug, Clone)]
pub struct AuditEntry {
    pub seq: u64,
    pub prev_hash: [u8; 32],
    pub hash: [u8; 32],
    pub timestamp: u64,
    pub source_chain: u32,
    pub dest_chain: u32,
    pub sender: String,
    pub receiver: String,
    pub amount: u128,
    pub token: String,
    pub fee: u128,
    pub status: TransferStatus,
    pub tx_hash: Option<String>,
    pub proof_commitment: Option<String>,
}

/// The bytes hashed for an entry: its fields (except the hash, the
/// transaction hash and the proof commitment) in order, integers big-endian
/// and strings UTF-8.
pub open spec fn hash_input(e: AuditEntry) -> Seq<u8> {
    be_bytes(e.seq as nat, 8) + e.prev_hash@ + be_bytes(e.timestamp as nat, 8) + be_bytes(e.source_chain as nat, 4)
        + be_bytes(e.dest_chain as nat, 4) + vstd::utf8::encode_utf8(e.sender@) + vstd::utf8::encode_utf8(
        e.receiver@,
    ) + be_bytes(e.amount as nat, 16) + vstd::utf8::encode_utf8(e.token@) + be_bytes(e.fee as nat, 16)
        + vstd::utf8::encode_utf8(status_name(e.status))
}

/// Chain integrity errors.
#[derive(Debug, Clone, Copy, PartialEq, Eq, Structural)]
pub enum IntegrityError {
    SequenceGap { expected: u64, got: u64 },
    HashMismatch { seq: u64 },
    HashTampered { seq: u64 },
}

/// The first problem with entry `i` of `log`, if any.
pub open spec fn entry_error(log: Seq<AuditEntry>, i: int) -> Option<IntegrityError> {
    let e = log[i];
    if e.seq != i {
        Some(IntegrityError::SequenceGap { expected: i as u64, got: e.seq })
    } else if i > 0 && e.prev_hash@ != log[i - 1].hash@ {
        Some(IntegrityError::HashMismatch { seq: e.seq })
    } else if sha256_spec(hash_input(e)) != e.hash@ {
        Some(IntegrityError::HashTampered { seq: e.seq })
    } else {
        None
    }
}

/// Every entry of `log` is sound.
pub open spec fn chain_ok(log: Seq<AuditEntry>) -> bool {
    forall|i: int| 0 <= i < log.len() ==> #[trigger] entry_error(log, i) is None
}

/// The CSV line of an entry.
pub open spec fn csv_line(e: AuditEntry) -> Seq<char> {
    dec_chars(e.seq as nat) + ","@ + dec_chars(e.timestamp as nat) + ","@ + dec_chars(e.source_chain as nat) + ","@
        + dec_chars(e.dest_chain as nat) + ","@ + e.sender@ + ","@ + e.receiver@ + ","@ + dec_chars(e.amount as nat)
        + ","@ + e.token@ + ","@ + dec_chars(e.fee as nat) + ","@ + status_name(e.status) + ","@ + match e.tx_hash {
        Some(t) => t@,
        None => Seq::empty(),
    } + "\n"@
}

/// CSV lines of all entries.
pub open spec fn csv_lines(log: Seq<AuditEntry>) -> Seq<char>
    decreases log.len(),
{
    if log.len() == 0 {
        Seq::empty()
    } else {
        csv_lines(log.drop_last()) + csv_line(log.last())
    }
}

/// Header of the CSV export.
pub open spec fn csv_header() -> Seq<char> {
    "seq,timestamp,source_chain,dest_chain,sender,receiver,amount,token,fee,status,tx_hash\n"@
}

/// The append-only log.
pub struct AuditLog {
    entries: Vec<AuditEntry>,
}

fn entry_hash(e: &AuditEntry) -> (r: [u8; 32])
    ensures
        r@ == sha256_spec(hash_input(*e)),
{
    let mut buf: Vec<u8> = Vec::new();
    push_be(&mut buf, e.seq as u128, 8);
    push_bytes(&mut buf, &e.prev_hash);
    push_be(&mut buf, e.timestamp as u128, 8);
    push_be(&mut buf, e.source_chain as u128, 4);
    push_be(&mut buf, e.dest_chain as u128, 4);
    push_bytes(&mut buf, e.sender.as_str().as_bytes());
    push_bytes(&mut buf, e.receiver.as_str().as_bytes());
    push_be(&mut buf, e.amount, 16);
    push_bytes(&mut buf, e.token.as_str().as_bytes());
    push_be(&mut buf, e.fee, 16);
    push_bytes(&mut buf, e.status.as_str().as_bytes());
    assert(buf@ =~= hash_input(*e));
    sha256_digest(buf.as_slice())
}

fn push_csv_line(out: &mut String, e: &AuditEntry)
    ensures
        final(out)@ == old(out)@ + csv_line(*e),
{
    let mut line = decimal(e.seq);
    line.append(",");
    line.append(decimal(e.timestamp).as_str());
    line.append(",");
    line.append(decimal(e.source_chain as u64).as_str());
    line.append(",");
    line.append(decimal(e.dest_chain as u64).as_str());
    line.append(",");
    line.append(e.sender.as_str());
    line.append(",");
    line.append(e.receiver.as_str());
    line.append(",");
    let ghost first = line@;
    let mut rest = decimal_u128(e.amount);
    rest.append(",");
    rest.append(e.token.as_str());
    rest.append(",");
    rest.append(decimal_u128(e.fee).as_str());
    rest.append(",");
    rest.append(e.status.as_str());
    rest.append(",");
    match &e.tx_hash {
        Some(t) => rest.append(t.as_str()),
        None => {},
    }
    rest.append("\n");
    let ghost second = rest@;
    out.append(line.as_str());
    out.append(rest.as_str());
    assert(first + second =~= csv_line(*e));
    assert(out@ =~= old(out)@ + csv_line(*e));
}

impl AuditLog {
    /// The entries in order.
    pub closed spec fn entries_spec(&self) -> Seq<AuditEntry> {
        self.entries@
    }

    /// An empty log.
    pub fn new() -> (r: Self)
        ensures
            r.entries_spec().len() == 0,
            chain_ok(r.entries_spec()),
    {
        AuditLog { entries: Vec::new() }
    }

    /// Append a transfer record, linked to the previous entry's hash;
    /// returns its sequence number.
    pub fn append(
        &mut self,
        timestamp: u64,
        source_chain: u32,
        dest_chain: u32,
        sender: &str,
        receiver: &str,
        amount: u128,
        token: &str,
        fee: u128,
        status: TransferStatus,
        tx_hash: Option<String>,
        proof_commitment: Option<String>,
    ) -> (seq: u64)
        requires
            old(self).entries_spec().len() < u64::MAX,
        ensures
            seq == old(self).entries_spec().len(),
            final(self).entries_spec().len() == old(self).entries_spec().len() + 1,
            final(self).entries_spec().drop_last() == old(self).entries_spec(),
            ({
                let e = final(self).entries_spec().last();
                &&& e.seq == seq
                &&& e.prev_hash@ == (if seq == 0 {
                    Seq::new(32, |i: int| 0u8)
                } else {
                    old(self).entries_spec()[seq - 1].hash@
                })
                &&& e.timestamp == timestamp
                &&& e.source_chain == source_chain
                &&& e.dest_chain == dest_chain
                &&& e.sender@ == sender@
                &&& e.receiver@ == receiver@
                &&& e.amount == amount
                &&& e.token@ == token@
                &&& e.fee == fee
                &&& e.status == status
                &&& e.tx_hash == tx_hash
                &&& e.proof_commitment == proof_commitment
                &&& e.hash@ == sha256_spec(hash_input(e))
            }),
            chain_ok(old(self).entries_spec()) ==> chain_ok(final(self).entries_spec()),
    {
        let seq = self.entries.len() as u64;
        let n = self.entries.len();
        let prev_hash: [u8; 32] = if n == 0 { [0u8; 32] } else { self.entries[n - 1].hash };
        let mut entry = AuditEntry {
            seq,
            prev_hash,
            hash: [0u8; 32],
            timestamp,
            source_chain,
            dest_chain,
            sender: sender.to_owned(),
            receiver: receiver.to_owned(),
            amount,
            token: token.to_owned(),
            fee,
            status,
            tx_hash,
            proof_commitment,
        };
        let h = entry_hash(&entry);
        entry.hash = h;
        self.entries.push(entry);
        assert(self.entries@.drop_last() =~= old(self).entries@);
        proof {
            if n == 0 {
                assert(prev_hash@ =~= Seq::new(32, |i: int| 0u8));
            }
            if chain_ok(old(self).entries@) {
                assert forall|i: int| 0 <= i < self.entries@.len() implies #[trigger] entry_error(self.entries@, i)
                    is None by {
                    if i < n {
                        assert(self.entries@[i] == old(self).entries@[i]);
                        assert(entry_error(old(self).entries@, i) is None);
                        if i > 0 {
                            assert(self.entries@[i - 1] == old(self).entries@[i - 1]);
                        }
                    }
                }
            }
        }
        seq
    }

    /// Check sequence numbers, hash links and entry hashes from the start;
    /// the first problem found is returned.
    pub fn verify_integrity(&self) -> (r: Result<(), IntegrityError>)
        ensures
            r is Ok <==> chain_ok(self.entries_spec()),
            r matches Err(e) ==> exists|i: int|
                0 <= i < self.entries_spec().len() && (forall|j: int| 0 <= j < i ==> #[trigger] entry_error(
                    self.entries_spec(),
                    j,
                ) is None) && #[trigger] entry_error(self.entries_spec(), i) == Some(e),
    {
        let mut i: usize = 0;
        while i < self.entries.len()
            invariant
                0 <= i <= self.entries@.len(),
                forall|j: int| 0 <= j < i ==> #[trigger] entry_error(self.entries@, j) is None,
            decreases self.entries@.len() - i,
        {
            let entry = &self.entries[i];
            if entry.seq != i as u64 {
                assert(entry_error(self.entries@, i as int) is Some);
                return Err(IntegrityError::SequenceGap { expected: i as u64, got: entry.seq });
            }
            if i > 0 {
                if !bytes32_eq(&entry.prev_hash, &self.entries[i - 1].hash) {
                    assert(entry_error(self.entries@, i as int) is Some);
                    return Err(IntegrityError::HashMismatch { seq: entry.seq });
                }
            }
            let recomputed = entry_hash(entry);
            if !bytes32_eq(&recomputed, &entry.hash) {
                assert(entry_error(self.entries@, i as int) is Some);
                return Err(IntegrityError::HashTampered { seq: entry.seq });
            }
            assert(entry_error(self.entries@, i as int) is None);
            i = i + 1;
        }
        Ok(())
    }

    /// The entry with this sequence number, if any.
    pub fn get(&self, seq: u64) -> (r: Option<&AuditEntry>)
        ensures
            seq < self.entries_spec().len() ==> r == Some(&self.entries_spec()[seq as int]),
            seq >= self.entries_spec().len() ==> r is None,
    {
        if seq < self.entries.len() as u64 {
            Some(&self.entries[seq as usize])
        } else {
            None
        }
    }

    /// Number of entries.
    pub fn len(&self) -> (r: usize)
        ensures
            r == self.entries_spec().len(),
    {
        self.entries.len()
    }

    /// Whether the log has no entries.
    pub fn is_empty(&self) -> (r: bool)
        ensures
            r == (self.entries_spec().len() == 0),
    {
        self.entries.len() == 0
    }

    /// Entries sent by `sender`, in order.
    pub fn query_by_sender(&self, sender: &str) -> (r: Vec<&AuditEntry>)
        ensures
            r@.map_values(|p: &AuditEntry| *p) == self.entries_spec().filter(|e: AuditEntry| e.sender@ == sender@),
    {
        let key = sender.to_owned();
        let mut r: Vec<&AuditEntry> = Vec::new();
        let ghost pred = |e: AuditEntry| e.sender@ == sender@;
        let mut i: usize = 0;
        while i < self.entries.len()
            invariant
                0 <= i <= self.entries@.len(),
                key@ == sender@,
                pred == (|e: AuditEntry| e.sender@ == sender@),
                r@.map_values(|p: &AuditEntry| *p) == self.entries@.take(i as int).filter(pred),
            decreases self.entries@.len() - i,
        {
            reveal_with_fuel(Seq::<_>::filter, 1);
            assert(self.entries@.take(i + 1).drop_last() =~= self.entries@.take(i as int));
            if self.entries[i].sender == key {
                r.push(&self.entries[i]);
            }
            assert(r@.map_values(|p: &AuditEntry| *p) =~= self.entries@.take(i + 1).filter(pred));
            i = i + 1;
        }
        assert(self.entries@.take(self.entries@.len() as int) =~= self.entries@);
        r
    }

    /// Entries received by `receiver`, in order.
    pub fn query_by_receiver(&self, receiver: &str) -> (r: Vec<&AuditEntry>)
        ensures
            r@.map_values(|p: &AuditEntry| *p) == self.entries_spec().filter(
                |e: AuditEntry| e.receiver@ == receiver@,
            ),
    {
        let key = receiver.to_owned();
        let mut r: Vec<&AuditEntry> = Vec::new();
        let ghost pred = |e: AuditEntry| e.receiver@ == receiver@;
        let mut i: usize = 0;
        while i < self.entries.len()
            invariant
                0 <= i <= self.entries@.len(),
                key@ == receiver@,
                pred == (|e: AuditEntry| e.receiver@ == receiver@),
                r@.map_values(|p: &AuditEntry| *p) == self.entries@.take(i as int).filter(pred),
            decreases self.entries@.len() - i,
        {
            reveal_with_fuel(Seq::<_>::filter, 1);
            assert(self.entries@.take(i + 1).drop_last() =~= self.entries@.take(i as int));
            if self.entries[i].receiver == key {
                r.push(&self.entries[i]);
            }
            assert(r@.map_values(|p: &AuditEntry| *p) =~= self.entries@.take(i + 1).filter(pred));
            i = i + 1;
        }
        assert(self.entries@.take(self.entries@.len() as int) =~= self.entries@);
        r
    }

    /// Entries with `from <= timestamp <= to`, in order.
    pub fn query_by_time_range(&self, from: u64, to: u64) -> (r: Vec<&AuditEntry>)
        ensures
            r@.map_values(|p: &AuditEntry| *p) == self.entries_spec().filter(
                |e: AuditEntry| from <= e.timestamp <= to,
            ),
    {
        let mut r: Vec<&AuditEntry> = Vec::new();
        let ghost pred = |e: AuditEntry| from <= e.timestamp <= to;
        let mut i: usize = 0;
        while i < self.entries.len()
            invariant
                0 <= i <= self.entries@.len(),
                pred == (|e: AuditEntry| from <= e.timestamp <= to),
                r@.map_values(|p: &AuditEntry| *p) == self.entries@.take(i as int).filter(pred),
            decreases self.entries@.len() - i,
        {
            reveal_with_fuel(Seq::<_>::filter, 1);
            assert(self.entries@.take(i + 1).drop_last() =~= self.entries@.take(i as int));
            if self.entries[i].timestamp >= from && self.entries[i].timestamp <= to {
                r.push(&self.entries[i]);
            }
            assert(r@.map_values(|p: &AuditEntry| *p) =~= self.entries@.take(i + 1).filter(pred));
            i = i + 1;
        }
        assert(self.entries@.take(self.entries@.len() as int) =~= self.entries@);
        r
    }

    /// Entries of one corridor (source chain to destination chain), in order.
    pub fn query_by_corridor(&self, source_chain: u32, dest_chain: u32) -> (r: Vec<&AuditEntry>)
        ensures
            r@.map_values(|p: &AuditEntry| *p) == self.entries_spec().filter(
                |e: AuditEntry| e.source_chain == source_chain && e.dest_chain == dest_chain,
            ),
    {
        let mut r: Vec<&AuditEntry> = Vec::new();
        let ghost pred = |e: AuditEntry| e.source_chain == source_chain && e.dest_chain == dest_chain;
        let mut i: usize = 0;
        while i < self.entries.len()
            invariant
                0 <= i <= self.entries@.len(),
                pred == (|e: AuditEntry| e.source_chain == source_chain && e.dest_chain == dest_chain),
                r@.map_values(|p: &AuditEntry| *p) == self.entries@.take(i as int).filter(pred),
            decreases self.entries@.len() - i,
        {
            reveal_with_fuel(Seq::<_>::filter, 1);
            assert(self.entries@.take(i + 1).drop_last() =~= self.entries@.take(i as int));
            if self.entries[i].source_chain == source_chain && self.entries[i].dest_chain == dest_chain {
                r.push(&self.entries[i]);
            }
            assert(r@.map_values(|p: &AuditEntry| *p) =~= self.entries@.take(i + 1).filter(pred));
            i = i + 1;
        }
        assert(self.entries@.take(self.entries@.len() as int) =~= self.entries@);
        r
    }

    /// CSV export: a header line and one line per entry.
    pub fn export_csv(&self) -> (r: String)
        ensures
            r@ == csv_header() + csv_lines(self.entries_spec()),
    {
        let mut out = "seq,timestamp,source_chain,dest_chain,sender,receiver,amount,token,fee,status,tx_hash\n".to_owned();
        let mut i: usize = 0;
        while i < self.entries.len()
            invariant
                0 <= i <= self.entries@.len(),
                out@ == csv_header() + csv_lines(self.entries@.take(i as int)),
            decreases self.entries@.len() - i,
        {
            assert(self.entries@.take(i + 1).drop_last() =~= self.entries@.take(i as int));
            push_csv_line(&mut out, &self.entries[i]);
            assert(out@ =~= csv_header() + csv_lines(self.entries@.take(i + 1)));
            i = i + 1;
        }
        assert(self.entries@.take(self.entries@.len() as int) =~= self.entries@);
        out
    }
}

/// A log built only by `append` from `new` always passes `verify_integrity`:
/// appending preserves the soundness of every entry.
pub proof fn law_append_preserves_chain(before: Seq<AuditEntry>, after: Seq<AuditEntry>)
    requires
        chain_ok(before),
        after.len() == before.len() + 1,
        after.drop_last() == before,
        after.last().seq == before.len(),
        after.last().prev_hash@ == (if before.len() == 0 {
            Seq::new(32, |i: int| 0u8)
        } else {
            before.last().hash@
        }),
        after.last().hash@ == sha256_spec(hash_input(after.last())),
    ensures
        chain_ok(after),
{
    assert forall|i: int| 0 <= i < after.len() implies #[trigger] entry_error(after, i) is None by {
        if i < before.len() {
            assert(after[i] == before[i]);
            assert(entry_error(before, i) is None);
            if i > 0 {
                assert(after[i - 1] == before[i - 1]);
            }
        }
    }
}

} // verus!
