use vstd::prelude::*;

verus! {

/// Number of a block on the relay chain or on a parachain.
pub type BlockNumber = u32;

/// Identifier of a GRANDPA authority set.
pub type SetId = u64;

/// Identifier of a parachain.
pub type ParaId = u32;

/// Hash of a block.
pub type BlockHash = [u8; 32];

/// Tag of the consensus engine that produced a justification.
pub type EngineId = [u8; 4];

/// A storage proof: trie nodes in the order the prover gave them.
pub type StorageProof = Vec<Vec<u8>>;

/// The tag that GRANDPA puts on its justifications, `FRNK`.
pub const GRANDPA_ENGINE_ID: EngineId = [0x46, 0x52, 0x4e, 0x4b];

/// A relay-chain block header. The library reads its number and carries the
/// rest along in encoded form.
#[derive(Clone, Debug, PartialEq, Eq)]
pub struct Header {
    /// The block number, under which the header is filed.
    pub number: BlockNumber,
    /// The whole header, in the bytes of its SCALE encoding.
    pub encoded: Vec<u8>,
}

/// What a [`Header`] holds, as mathematical values.
pub ghost struct HeaderView {
    pub number: BlockNumber,
    pub encoded: Seq<u8>,
}

impl View for Header {
    type V = HeaderView;

    open spec fn view(&self) -> HeaderView {
        HeaderView { number: self.number, encoded: self.encoded@ }
    }
}

/// The justifications that came with a block, one per consensus engine, in
/// the order the chain listed them.
#[derive(Clone, Debug, PartialEq, Eq)]
pub struct Justifications {
    pub entries: Vec<(EngineId, Vec<u8>)>,
}

/// The first justification from `from` on that carries the tag `engine_id`.
pub open spec fn justification_from(
    entries: Seq<(EngineId, Vec<u8>)>,
    engine_id: EngineId,
    from: int,
) -> Option<Vec<u8>>
    decreases entries.len() - from,
{
    if from < 0 || from >= entries.len() {
        None
    } else if entries[from].0 == engine_id {
        Some(entries[from].1)
    } else {
        justification_from(entries, engine_id, from + 1)
    }
}

/// Whether two engine tags are the same.
pub fn same_engine(a: &EngineId, b: &EngineId) -> (same: bool)
    ensures
        same == (*a == *b),
{
    let same = a[0] == b[0] && a[1] == b[1] && a[2] == b[2] && a[3] == b[3];
    proof {
        if same {
            assert(a@ =~= b@);
            assert(*a == *b);
        }
    }
    same
}

impl Justifications {
    /// The justification of the engine `engine_id`: the first entry with that
    /// tag, if there is one.
    pub open spec fn find(&self, engine_id: EngineId) -> Option<Vec<u8>> {
        justification_from(self.entries@, engine_id, 0)
    }

    /// The GRANDPA justification among them, if there is one.
    pub open spec fn grandpa(&self) -> Option<Vec<u8>> {
        self.find(GRANDPA_ENGINE_ID)
    }

    /// Takes the justification of the engine `engine_id` out of the bundle:
    /// the first entry with that tag. Entries of other engines do not count.
    pub fn into_justification(self, engine_id: EngineId) -> (found: Option<Vec<u8>>)
        ensures
            found == self.find(engine_id),
    {
        let mut entries = self.entries;
        let mut i: usize = 0;
        while i < entries.len()
            invariant
                i <= entries.len(),
                entries == self.entries,
                justification_from(entries@, engine_id, 0) == justification_from(
                    entries@,
                    engine_id,
                    i as int,
                ),
            decreases entries.len() - i,
        {
            if same_engine(&entries[i].0, &engine_id) {
                let entry = entries.remove(i);
                return Some(entry.1);
            }
            i += 1;
        }
        None
    }
}

/// The finalized header of the parachain as of a relay-chain block, with the
/// proof that it is included there.
#[derive(Clone, Debug, PartialEq, Eq)]
pub struct ParaHeader {
    /// Finalized parachain header number
    pub fin_header_num: BlockNumber,
    pub proof: StorageProof,
}

/// A GRANDPA authority set, carried in encoded form.
#[derive(Clone, Debug, PartialEq, Eq)]
pub struct AuthoritySet {
    pub encoded: Vec<u8>,
}

/// The authority set that took over at a block, with the proof that it did.
#[derive(Clone, Debug, PartialEq, Eq)]
pub struct AuthoritySetChange {
    pub authority_set: AuthoritySet,
    pub authority_proof: StorageProof,
}

/// Everything captured for one relay-chain block.
#[derive(Clone, Debug, PartialEq, Eq)]
pub struct BlockInfo {
    pub header: Header,
    pub justification: Option<Vec<u8>>,
    pub para_header: Option<ParaHeader>,
    pub authority_set_change: Option<AuthoritySetChange>,
}

/// The trust anchor from which later justifications are checked.
#[derive(Clone, Debug, PartialEq, Eq)]
pub struct GenesisBlockInfo {
    pub block_header: Header,
    pub authority_set: AuthoritySet,
    pub proof: StorageProof,
}

} // verus!
