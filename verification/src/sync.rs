use crate::error::Error;
use crate::types::{
    AuthoritySetChange, BlockInfo, BlockNumber, GenesisBlockInfo, BlockHash, Header, Justifications,
    ParaHeader, ParaId, SetId, StorageProof, GRANDPA_ENGINE_ID,
};
use vstd::prelude::*;

verus! {

/// What a walk asks of its driver. The driver does what is asked and hands
/// the outcome to [`Walk::step`], which answers with the next request.
#[derive(Clone, Debug, PartialEq, Eq)]
pub enum Request {
    /// Resolve the hash of the block with this number.
    ResolveHash { number: BlockNumber },
    /// Query the id of the authority set as of the block with this hash.
    QuerySetId { hash: BlockHash },
    /// Query the id of the parachain.
    QueryParaId,
    /// Fetch the block with this number: header, hash and justifications.
    FetchBlock { number: BlockNumber },
    /// Fetch the header with this number, and the block's hash.
    FetchHeader { number: BlockNumber },
    /// Fetch the justifications of the block with this hash.
    FetchJustifications { hash: BlockHash },
    /// Fetch the authority set with its proof as of the block with this hash.
    FetchAuthorityProof { hash: BlockHash },
    /// Fetch the finalized header of the parachain with its proof as of the
    /// relay-chain block with this hash.
    FetchParaHeader { para_id: ParaId, hash: BlockHash },
    /// Hand this bundle to the sink.
    Emit { info: BlockInfo },
    /// The walk is over; so many blocks were grabbed.
    Done { grabbed: BlockNumber },
    /// The walk gave up while it worked on the block with this number.
    Failed { error: Error, block_number: BlockNumber },
}

/// What the driver has to report of a request.
#[derive(Clone, Debug, PartialEq, Eq)]
pub enum Response {
    /// The hash that was asked for.
    Hash { hash: BlockHash },
    /// The authority set id that was asked for.
    SetId { set_id: SetId },
    /// The parachain id that was asked for.
    ParaId { para_id: ParaId },
    /// The block that was asked for.
    Block { header: Header, hash: BlockHash, justifications: Option<Justifications> },
    /// The header that was asked for.
    Header { header: Header, hash: BlockHash },
    /// The chain has no such block.
    NotFound,
    /// The justifications of the block that was asked for, if it has any.
    Justifications { justifications: Option<Justifications> },
    /// The authority set with its proof.
    AuthorityProof { change: AuthoritySetChange },
    /// The finalized parachain header with its proof, if the chain has one.
    /// A walk that asked for it cannot go on without.
    ParaHeader { finalized: Option<(Header, StorageProof)> },
    /// The sink took the bundle.
    Emitted,
    /// The chain or the sink failed.
    Failure,
}

/// The numbers that a walk keeps from block to block.
#[derive(Clone, Copy, Debug, PartialEq, Eq)]
pub struct Progress {
    /// The first block of the walk.
    pub start_at: BlockNumber,
    /// The number of blocks to grab at most.
    pub count: BlockNumber,
    /// How many blocks pass without a fetch of justifications after one was
    /// captured.
    pub justification_interval: u32,
    /// The block that the walk works on.
    pub block_number: BlockNumber,
    /// The authority set id as of the block before.
    pub last_set_id: SetId,
    /// How many blocks are still to pass before justifications are fetched
    /// again.
    pub skip_justification: u32,
    /// How many bundles the sink took.
    pub grabbed: BlockNumber,
    /// The parachain whose finalized headers are captured.
    pub para_id: ParaId,
}

/// Where a walk stands: what it waits for, and what it holds of the block it
/// works on.
#[derive(Clone, Debug, PartialEq, Eq)]
pub enum Phase {
    /// Waits for the hash of the block before the first.
    StartHash,
    /// Waits for the authority set id as of the block before the first.
    StartSetId,
    /// Waits for the parachain id.
    ParaId,
    /// Waits for the block, or for its header alone.
    Fetch,
    /// Waits for the authority set id as of the block.
    SetId { header: Header, hash: BlockHash, justifications: Option<Justifications> },
    /// The authority set changed and no justifications came with the block:
    /// waits for them.
    Justifications { header: Header, hash: BlockHash, set_id: SetId },
    /// The authority set changed: waits for the new set and its proof.
    AuthorityProof { header: Header, hash: BlockHash, set_id: SetId, justifications: Justifications },
    /// A justification was captured: waits for the parachain header.
    ParaHeader {
        header: Header,
        justification: Vec<u8>,
        authority_set_change: Option<AuthoritySetChange>,
    },
    /// Waits for the sink to take the bundle.
    Emit,
    /// Over.
    Done,
    /// Given up.
    Failed { error: Error },
}

/// A walk over the blocks of the relay chain from a first block on, which
/// captures for each block its header and, where they are due, its
/// justification, the parachain's finalized header and the change of the
/// authority set.
#[derive(Clone, Debug, PartialEq, Eq)]
pub struct Walk {
    pub progress: Progress,
    pub phase: Phase,
}

/// The count after one more, which stays at the largest number.
pub open spec fn one_more(n: u32) -> u32 {
    if n < u32::MAX {
        (n + 1) as u32
    } else {
        n
    }
}

/// The count after one less, which stays at zero.
pub open spec fn one_less(n: u32) -> u32 {
    if n > 0 {
        (n - 1) as u32
    } else {
        n
    }
}

impl Walk {
    /// The numbers of the walk fit together: a walk that is not over has
    /// grabbed fewer blocks than it was asked for, works on the block
    /// behind those it grabbed, and skips no more blocks than the interval
    /// says.
    pub open spec fn wf(&self) -> bool {
        let progress = self.progress;
        match self.phase {
            Phase::Done => progress.grabbed <= progress.count,
            Phase::Failed { error } => error == Error::InvalidRange <==> progress.start_at == 0,
            _ => {
                &&& progress.start_at > 0
                &&& progress.grabbed < progress.count
                &&& progress.block_number == progress.start_at + progress.grabbed
                &&& progress.skip_justification <= progress.justification_interval
            },
        }
    }

    /// The walk that gives up with `error`, and its last request.
    pub open spec fn failed(progress: Progress, error: Error) -> (Walk, Request) {
        (
            Walk { progress, phase: Phase::Failed { error } },
            Request::Failed { error, block_number: progress.block_number },
        )
    }

    /// The walk that turns to the block `progress.block_number`: it asks for
    /// the whole block where justifications are due, and for the header
    /// alone where they are not.
    pub open spec fn fetching(progress: Progress) -> (Walk, Request) {
        (
            Walk { progress, phase: Phase::Fetch },
            if progress.skip_justification == 0 {
                Request::FetchBlock { number: progress.block_number }
            } else {
                Request::FetchHeader { number: progress.block_number }
            },
        )
    }

    /// The walk once the block's authority set id is known. Where the id is
    /// that of the block before, the bundle is put together. Where it is
    /// another, the set changed: the walk asks for the block's
    /// justifications, unless they came with the block, and then for the new
    /// set and its proof.
    pub open spec fn set_id_known(
        progress: Progress,
        header: Header,
        hash: BlockHash,
        justifications: Option<Justifications>,
        set_id: SetId,
    ) -> (Walk, Request) {
        if set_id != progress.last_set_id {
            match justifications {
                None => (
                    Walk { progress, phase: Phase::Justifications { header, hash, set_id } },
                    Request::FetchJustifications { hash },
                ),
                Some(bundle) => (
                    Walk {
                        progress,
                        phase: Phase::AuthorityProof { header, hash, set_id, justifications: bundle },
                    },
                    Request::FetchAuthorityProof { hash },
                ),
            }
        } else {
            Self::assembled(progress, header, hash, set_id, justifications, None)
        }
    }

    /// The walk once everything but the parachain header is known of the
    /// block. The counter of blocks to skip goes down by one. Where the
    /// justifications hold one of GRANDPA, it is captured: the counter
    /// starts again at the interval, and the walk asks for the parachain
    /// header. Where they hold none, the bundle goes to the sink without.
    pub open spec fn assembled(
        progress: Progress,
        header: Header,
        hash: BlockHash,
        set_id: SetId,
        justifications: Option<Justifications>,
        authority_set_change: Option<AuthoritySetChange>,
    ) -> (Walk, Request) {
        let justification = match justifications {
            Some(bundle) => bundle.grandpa(),
            None => None,
        };
        match justification {
            None => (
                Walk {
                    progress: Progress {
                        skip_justification: one_less(progress.skip_justification),
                        last_set_id: set_id,
                        ..progress
                    },
                    phase: Phase::Emit,
                },
                Request::Emit {
                    info: BlockInfo {
                        header,
                        justification: None,
                        para_header: None,
                        authority_set_change,
                    },
                },
            ),
            Some(bytes) => (
                Walk {
                    progress: Progress {
                        skip_justification: progress.justification_interval,
                        last_set_id: set_id,
                        ..progress
                    },
                    phase: Phase::ParaHeader { header, justification: bytes, authority_set_change },
                },
                Request::FetchParaHeader { para_id: progress.para_id, hash },
            ),
        }
    }

    /// The walk once the sink took a bundle: it is over where as many were
    /// grabbed as were asked for, or where no block has a higher number, and
    /// turns to the next block otherwise.
    pub open spec fn acknowledged(progress: Progress) -> (Walk, Request) {
        let grabbed = one_more(progress.grabbed);
        if grabbed == progress.count || progress.block_number == u32::MAX {
            (
                Walk { progress: Progress { grabbed, ..progress }, phase: Phase::Done },
                Request::Done { grabbed },
            )
        } else {
            Self::fetching(
                Progress { grabbed, block_number: (progress.block_number + 1) as u32, ..progress },
            )
        }
    }

    /// A walk of `count` blocks from `start_at` on at its beginning, and its
    /// first request.
    pub open spec fn started(
        start_at: BlockNumber,
        count: BlockNumber,
        justification_interval: u32,
    ) -> (Walk, Request) {
        let progress = Progress {
            start_at,
            count,
            justification_interval,
            block_number: start_at,
            last_set_id: 0,
            skip_justification: justification_interval,
            grabbed: 0,
            para_id: 0,
        };
        if start_at == 0 {
            Self::failed(progress, Error::InvalidRange)
        } else if count == 0 {
            (Walk { progress, phase: Phase::Done }, Request::Done { grabbed: 0 })
        } else {
            (
                Walk { progress, phase: Phase::StartHash },
                Request::ResolveHash { number: (start_at - 1) as u32 },
            )
        }
    }

    /// The walk after the driver reported `response` of its last request,
    /// and its next request.
    pub open spec fn stepped(self, response: Response) -> (Walk, Request) {
        let progress = self.progress;
        match self.phase {
            Phase::StartHash => match response {
                Response::Hash { hash } => (
                    Walk { progress, phase: Phase::StartSetId },
                    Request::QuerySetId { hash },
                ),
                _ => Self::failed(progress, Error::ChainQueryFailed),
            },
            Phase::StartSetId => match response {
                Response::SetId { set_id } => (
                    Walk { progress: Progress { last_set_id: set_id, ..progress }, phase: Phase::ParaId },
                    Request::QueryParaId,
                ),
                _ => Self::failed(progress, Error::ChainQueryFailed),
            },
            Phase::ParaId => match response {
                Response::ParaId { para_id } => Self::fetching(Progress { para_id, ..progress }),
                _ => Self::failed(progress, Error::ChainQueryFailed),
            },
            Phase::Fetch => match response {
                Response::Block { header, hash, justifications } => if progress.skip_justification
                    == 0 {
                    (
                        Walk { progress, phase: Phase::SetId { header, hash, justifications } },
                        Request::QuerySetId { hash },
                    )
                } else {
                    Self::failed(progress, Error::ChainQueryFailed)
                },
                Response::Header { header, hash } => if progress.skip_justification != 0 {
                    (
                        Walk { progress, phase: Phase::SetId { header, hash, justifications: None } },
                        Request::QuerySetId { hash },
                    )
                } else {
                    Self::failed(progress, Error::ChainQueryFailed)
                },
                Response::NotFound => (
                    Walk { progress, phase: Phase::Done },
                    Request::Done { grabbed: progress.grabbed },
                ),
                _ => Self::failed(progress, Error::ChainQueryFailed),
            },
            Phase::SetId { header, hash, justifications } => match response {
                Response::SetId { set_id } => Self::set_id_known(
                    progress,
                    header,
                    hash,
                    justifications,
                    set_id,
                ),
                _ => Self::failed(progress, Error::ChainQueryFailed),
            },
            Phase::Justifications { header, hash, set_id } => match response {
                Response::Justifications { justifications: Some(bundle) } => (
                    Walk {
                        progress,
                        phase: Phase::AuthorityProof { header, hash, set_id, justifications: bundle },
                    },
                    Request::FetchAuthorityProof { hash },
                ),
                Response::Justifications { justifications: None } => Self::failed(
                    progress,
                    Error::MissingTransitionProof,
                ),
                _ => Self::failed(progress, Error::ChainQueryFailed),
            },
            Phase::AuthorityProof { header, hash, set_id, justifications } => match response {
                Response::AuthorityProof { change } => Self::assembled(
                    progress,
                    header,
                    hash,
                    set_id,
                    Some(justifications),
                    Some(change),
                ),
                _ => Self::failed(progress, Error::ChainQueryFailed),
            },
            Phase::ParaHeader { header, justification, authority_set_change } => match response {
                Response::ParaHeader { finalized: Some((para, proof)) } => (
                    Walk { progress, phase: Phase::Emit },
                    Request::Emit {
                        info: BlockInfo {
                            header,
                            justification: Some(justification),
                            para_header: Some(ParaHeader { fin_header_num: para.number, proof }),
                            authority_set_change,
                        },
                    },
                ),
                _ => Self::failed(progress, Error::ChainQueryFailed),
            },
            Phase::Emit => match response {
                Response::Emitted => Self::acknowledged(progress),
                _ => Self::failed(progress, Error::SinkWriteFailed),
            },
            Phase::Done => (self, Request::Done { grabbed: progress.grabbed }),
            Phase::Failed { error } => (
                self,
                Request::Failed { error, block_number: progress.block_number },
            ),
        }
    }

    fn fail(progress: Progress, error: Error) -> (next: (Walk, Request))
        ensures
            next == Self::failed(progress, error),
    {
        (
            Walk { progress, phase: Phase::Failed { error } },
            Request::Failed { error, block_number: progress.block_number },
        )
    }

    fn fetch(progress: Progress) -> (next: (Walk, Request))
        ensures
            next == Self::fetching(progress),
    {
        let request = if progress.skip_justification == 0 {
            Request::FetchBlock { number: progress.block_number }
        } else {
            Request::FetchHeader { number: progress.block_number }
        };
        (Walk { progress, phase: Phase::Fetch }, request)
    }

    fn assemble(
        progress: Progress,
        header: Header,
        hash: BlockHash,
        set_id: SetId,
        justifications: Option<Justifications>,
        authority_set_change: Option<AuthoritySetChange>,
    ) -> (next: (Walk, Request))
        ensures
            next == Self::assembled(progress, header, hash, set_id, justifications, authority_set_change),
    {
        let justification = match justifications {
            Some(bundle) => bundle.into_justification(GRANDPA_ENGINE_ID),
            None => None,
        };
        let mut progress = progress;
        progress.last_set_id = set_id;
        match justification {
            None => {
                progress.skip_justification = progress.skip_justification.saturating_sub(1);
                (
                    Walk { progress, phase: Phase::Emit },
                    Request::Emit {
                        info: BlockInfo {
                            header,
                            justification: None,
                            para_header: None,
                            authority_set_change,
                        },
                    },
                )
            },
            Some(bytes) => {
                progress.skip_justification = progress.justification_interval;
                let para_id = progress.para_id;
                (
                    Walk {
                        progress,
                        phase: Phase::ParaHeader { header, justification: bytes, authority_set_change },
                    },
                    Request::FetchParaHeader { para_id, hash },
                )
            },
        }
    }

    fn acknowledge(progress: Progress) -> (next: (Walk, Request))
        ensures
            next == Self::acknowledged(progress),
    {
        let mut progress = progress;
        if progress.grabbed < u32::MAX {
            progress.grabbed = progress.grabbed + 1;
        }
        if progress.grabbed == progress.count || progress.block_number == u32::MAX {
            let grabbed = progress.grabbed;
            (Walk { progress, phase: Phase::Done }, Request::Done { grabbed })
        } else {
            progress.block_number = progress.block_number + 1;
            Self::fetch(progress)
        }
    }

    /// Begins a walk of at most `count` blocks from block `start_at` on, in
    /// which `justification_interval` blocks pass without a fetch of
    /// justifications after one was captured. A walk from block 0 gives up
    /// at once with [`Error::InvalidRange`]; a walk of no blocks is over at
    /// once; any other asks for the hash of the block before the first.
    pub fn start(start_at: BlockNumber, count: BlockNumber, justification_interval: u32) -> (next: (
        Walk,
        Request,
    ))
        ensures
            next == Self::started(start_at, count, justification_interval),
            next.0.wf(),
    {
        let progress = Progress {
            start_at,
            count,
            justification_interval,
            block_number: start_at,
            last_set_id: 0,
            skip_justification: justification_interval,
            grabbed: 0,
            para_id: 0,
        };
        if start_at == 0 {
            Self::fail(progress, Error::InvalidRange)
        } else if count == 0 {
            (Walk { progress, phase: Phase::Done }, Request::Done { grabbed: 0 })
        } else {
            (Walk { progress, phase: Phase::StartHash }, Request::ResolveHash { number: start_at - 1 })
        }
    }

    /// Takes the driver's report of the last request and says what to do
    /// next. A report that does not belong to the request counts as a failed
    /// query, and so does a report that the parachain has no finalized
    /// header where a justification was captured: a bundle carries both or
    /// neither. Any report but [`Response::Emitted`] of a bundle handed out
    /// counts as a failed write. A walk that is over, or has given up, repeats
    /// its last word.
    pub fn step(self, response: Response) -> (next: (Walk, Request))
        ensures
            next == self.stepped(response),
            self.wf() ==> next.0.wf(),
    {
        let progress = self.progress;
        match self.phase {
            Phase::StartHash => match response {
                Response::Hash { hash } => (
                    Walk { progress, phase: Phase::StartSetId },
                    Request::QuerySetId { hash },
                ),
                _ => Self::fail(progress, Error::ChainQueryFailed),
            },
            Phase::StartSetId => match response {
                Response::SetId { set_id } => {
                    let mut progress = progress;
                    progress.last_set_id = set_id;
                    (Walk { progress, phase: Phase::ParaId }, Request::QueryParaId)
                },
                _ => Self::fail(progress, Error::ChainQueryFailed),
            },
            Phase::ParaId => match response {
                Response::ParaId { para_id } => {
                    let mut progress = progress;
                    progress.para_id = para_id;
                    Self::fetch(progress)
                },
                _ => Self::fail(progress, Error::ChainQueryFailed),
            },
            Phase::Fetch => match response {
                Response::Block { header, hash, justifications } => {
                    if progress.skip_justification == 0 {
                        (
                            Walk { progress, phase: Phase::SetId { header, hash, justifications } },
                            Request::QuerySetId { hash },
                        )
                    } else {
                        Self::fail(progress, Error::ChainQueryFailed)
                    }
                },
                Response::Header { header, hash } => {
                    if progress.skip_justification != 0 {
                        (
                            Walk {
                                progress,
                                phase: Phase::SetId { header, hash, justifications: None },
                            },
                            Request::QuerySetId { hash },
                        )
                    } else {
                        Self::fail(progress, Error::ChainQueryFailed)
                    }
                },
                Response::NotFound => (
                    Walk { progress, phase: Phase::Done },
                    Request::Done { grabbed: progress.grabbed },
                ),
                _ => Self::fail(progress, Error::ChainQueryFailed),
            },
            Phase::SetId { header, hash, justifications } => match response {
                Response::SetId { set_id } => {
                    if set_id != progress.last_set_id {
                        match justifications {
                            None => (
                                Walk { progress, phase: Phase::Justifications { header, hash, set_id } },
                                Request::FetchJustifications { hash },
                            ),
                            Some(bundle) => (
                                Walk {
                                    progress,
                                    phase: Phase::AuthorityProof {
                                        header,
                                        hash,
                                        set_id,
                                        justifications: bundle,
                                    },
                                },
                                Request::FetchAuthorityProof { hash },
                            ),
                        }
                    } else {
                        Self::assemble(progress, header, hash, set_id, justifications, None)
                    }
                },
                _ => Self::fail(progress, Error::ChainQueryFailed),
            },
            Phase::Justifications { header, hash, set_id } => match response {
                Response::Justifications { justifications } => match justifications {
                    Some(bundle) => (
                        Walk {
                            progress,
                            phase: Phase::AuthorityProof { header, hash, set_id, justifications: bundle },
                        },
                        Request::FetchAuthorityProof { hash },
                    ),
                    None => Self::fail(progress, Error::MissingTransitionProof),
                },
                _ => Self::fail(progress, Error::ChainQueryFailed),
            },
            Phase::AuthorityProof { header, hash, set_id, justifications } => match response {
                Response::AuthorityProof { change } => Self::assemble(
                    progress,
                    header,
                    hash,
                    set_id,
                    Some(justifications),
                    Some(change),
                ),
                _ => Self::fail(progress, Error::ChainQueryFailed),
            },
            Phase::ParaHeader { header, justification, authority_set_change } => match response {
                Response::ParaHeader { finalized } => match finalized {
                    Some((para, proof)) => (
                        Walk { progress, phase: Phase::Emit },
                        Request::Emit {
                            info: BlockInfo {
                                header,
                                justification: Some(justification),
                                para_header: Some(ParaHeader { fin_header_num: para.number, proof }),
                                authority_set_change,
                            },
                        },
                    ),
                    None => Self::fail(progress, Error::ChainQueryFailed),
                },
                _ => Self::fail(progress, Error::ChainQueryFailed),
            },
            Phase::Emit => match response {
                Response::Emitted => Self::acknowledge(progress),
                _ => Self::fail(progress, Error::SinkWriteFailed),
            },
            Phase::Done => (
                Walk { progress, phase: Phase::Done },
                Request::Done { grabbed: progress.grabbed },
            ),
            Phase::Failed { error } => (
                Walk { progress, phase: Phase::Failed { error } },
                Request::Failed { error, block_number: progress.block_number },
            ),
        }
    }
}

/// The authority set id as of a block, and whether justifications came with
/// the block.
pub fn get_set_id(set_id: SetId, justifications: &Option<Justifications>) -> (answer: (SetId, bool))
    ensures
        answer == (set_id, justifications is Some),
{
    (set_id, justifications.is_some())
}

/// Puts the trust anchor together from the header of the first block and
/// the authority set with its proof as of that block.
pub fn fetch_genesis_info(block_header: Header, set_proof: AuthoritySetChange) -> (info:
    GenesisBlockInfo)
    ensures
        info == (GenesisBlockInfo {
            block_header,
            authority_set: set_proof.authority_set,
            proof: set_proof.authority_proof,
        }),
{
    GenesisBlockInfo {
        block_header,
        authority_set: set_proof.authority_set,
        proof: set_proof.authority_proof,
    }
}

/// Where the capture of a trust anchor stands.
#[derive(Clone, Debug, PartialEq, Eq)]
pub enum GenesisPhase {
    /// Waits for the block.
    Block,
    /// Waits for the block's hash.
    Hash { header: Header },
    /// Waits for the authority set and its proof.
    AuthorityProof { header: Header },
    /// Over, one way or the other.
    Over,
}

/// What the capture of a trust anchor says next.
#[derive(Clone, Debug, PartialEq, Eq)]
pub enum GenesisStep {
    /// The driver is to answer this request.
    Ask { request: Request },
    /// The trust anchor.
    Done { info: GenesisBlockInfo },
    /// The capture gave up.
    Failed { error: Error },
}

/// The capture of the trust anchor as of one block: the block's header, and
/// the authority set with its proof as of the block's hash. Every piece is
/// fetched; nothing is skipped.
#[derive(Clone, Debug, PartialEq, Eq)]
pub struct GenesisCapture {
    pub block_number: BlockNumber,
    pub phase: GenesisPhase,
}

impl GenesisCapture {
    /// The capture that gives up with a failed query.
    pub open spec fn failed(block_number: BlockNumber) -> (GenesisCapture, GenesisStep) {
        (
            GenesisCapture { block_number, phase: GenesisPhase::Over },
            GenesisStep::Failed { error: Error::ChainQueryFailed },
        )
    }

    /// The capture as of block `block_number` at its beginning: it asks for
    /// the block.
    pub open spec fn started(block_number: BlockNumber) -> (GenesisCapture, GenesisStep) {
        (
            GenesisCapture { block_number, phase: GenesisPhase::Block },
            GenesisStep::Ask { request: Request::FetchBlock { number: block_number } },
        )
    }

    /// The capture after the driver reported `response` of its last
    /// request: behind the block it asks for the block's hash, behind the
    /// hash for the authority set with its proof as of that hash, and with
    /// those it hands out the trust anchor. Any other report ends it with a
    /// failed query, and so does any report to a capture that is over.
    pub open spec fn stepped(self, response: Response) -> (GenesisCapture, GenesisStep) {
        let block_number = self.block_number;
        match self.phase {
            GenesisPhase::Block => match response {
                Response::Block { header, .. } => (
                    GenesisCapture { block_number, phase: GenesisPhase::Hash { header } },
                    GenesisStep::Ask { request: Request::ResolveHash { number: block_number } },
                ),
                _ => Self::failed(block_number),
            },
            GenesisPhase::Hash { header } => match response {
                Response::Hash { hash } => (
                    GenesisCapture { block_number, phase: GenesisPhase::AuthorityProof { header } },
                    GenesisStep::Ask { request: Request::FetchAuthorityProof { hash } },
                ),
                _ => Self::failed(block_number),
            },
            GenesisPhase::AuthorityProof { header } => match response {
                Response::AuthorityProof { change } => (
                    GenesisCapture { block_number, phase: GenesisPhase::Over },
                    GenesisStep::Done {
                        info: GenesisBlockInfo {
                            block_header: header,
                            authority_set: change.authority_set,
                            proof: change.authority_proof,
                        },
                    },
                ),
                _ => Self::failed(block_number),
            },
            GenesisPhase::Over => Self::failed(block_number),
        }
    }

    fn fail(block_number: BlockNumber) -> (next: (GenesisCapture, GenesisStep))
        ensures
            next == Self::failed(block_number),
    {
        (
            GenesisCapture { block_number, phase: GenesisPhase::Over },
            GenesisStep::Failed { error: Error::ChainQueryFailed },
        )
    }

    /// Begins the capture of the trust anchor as of block `block_number`.
    pub fn start(block_number: BlockNumber) -> (next: (GenesisCapture, GenesisStep))
        ensures
            next == Self::started(block_number),
    {
        (
            GenesisCapture { block_number, phase: GenesisPhase::Block },
            GenesisStep::Ask { request: Request::FetchBlock { number: block_number } },
        )
    }

    /// Takes the driver's report of the last request and says what to do
    /// next.
    pub fn step(self, response: Response) -> (next: (GenesisCapture, GenesisStep))
        ensures
            next == self.stepped(response),
    {
        let block_number = self.block_number;
        match self.phase {
            GenesisPhase::Block => match response {
                Response::Block { header, hash: _, justifications: _ } => (
                    GenesisCapture { block_number, phase: GenesisPhase::Hash { header } },
                    GenesisStep::Ask { request: Request::ResolveHash { number: block_number } },
                ),
                _ => Self::fail(block_number),
            },
            GenesisPhase::Hash { header } => match response {
                Response::Hash { hash } => (
                    GenesisCapture { block_number, phase: GenesisPhase::AuthorityProof { header } },
                    GenesisStep::Ask { request: Request::FetchAuthorityProof { hash } },
                ),
                _ => Self::fail(block_number),
            },
            GenesisPhase::AuthorityProof { header } => match response {
                Response::AuthorityProof { change } => (
                    GenesisCapture { block_number, phase: GenesisPhase::Over },
                    GenesisStep::Done { info: fetch_genesis_info(header, change) },
                ),
                _ => Self::fail(block_number),
            },
            GenesisPhase::Over => Self::fail(block_number),
        }
    }
}

} // verus!
