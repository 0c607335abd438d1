use crate::error::Error;
use crate::sync::{Phase, Progress, Request, Response, Walk};
use crate::types::{BlockInfo, BlockNumber};
use vstd::prelude::*;

verus! {

/// The walk of `count` blocks from `start_at` on after its driver reported
/// `responses`, one after the other, and the request it makes then.
pub open spec fn walked(
    start_at: BlockNumber,
    count: BlockNumber,
    justification_interval: u32,
    responses: Seq<Response>,
) -> (Walk, Request)
    decreases responses.len(),
{
    if responses.len() == 0 {
        Walk::started(start_at, count, justification_interval)
    } else {
        walked(start_at, count, justification_interval, responses.drop_last()).0.stepped(
            responses.last(),
        )
    }
}

/// The bundle that a request hands to the sink, if it hands one.
pub open spec fn emitted_by(request: Request) -> Seq<BlockInfo> {
    match request {
        Request::Emit { info } => seq![info],
        _ => Seq::empty(),
    }
}

/// The bundles that the walk handed to the sink up to the request that
/// follows `responses`, in order.
pub open spec fn emitted(
    start_at: BlockNumber,
    count: BlockNumber,
    justification_interval: u32,
    responses: Seq<Response>,
) -> Seq<BlockInfo>
    decreases responses.len(),
{
    let last = emitted_by(walked(start_at, count, justification_interval, responses).1);
    if responses.len() == 0 {
        last
    } else {
        emitted(start_at, count, justification_interval, responses.drop_last()) + last
    }
}

/// The response answers the request with the block that was asked for: a
/// header that is handed over in answer to a fetch by number carries that
/// number.
pub open spec fn answers(request: Request, response: Response) -> bool {
    match (request, response) {
        (Request::FetchBlock { number }, Response::Block { header, .. }) => header.number == number,
        (Request::FetchHeader { number }, Response::Header { header, .. }) => header.number
            == number,
        _ => true,
    }
}

/// Every response answers the request that the walk made before it with the
/// block that was asked for.
pub open spec fn faithful(
    start_at: BlockNumber,
    count: BlockNumber,
    justification_interval: u32,
    responses: Seq<Response>,
) -> bool
    decreases responses.len(),
{
    responses.len() > 0 ==> {
        &&& faithful(start_at, count, justification_interval, responses.drop_last())
        &&& answers(
            walked(start_at, count, justification_interval, responses.drop_last()).1,
            responses.last(),
        )
    }
}

/// Wherever the walk came to ask for a new authority set, the
/// justifications that it held of that block hold one of GRANDPA.
pub open spec fn changes_proven(
    start_at: BlockNumber,
    count: BlockNumber,
    justification_interval: u32,
    responses: Seq<Response>,
) -> bool
    decreases responses.len(),
{
    &&& change_proven(walked(start_at, count, justification_interval, responses).0)
    &&& responses.len() > 0 ==> changes_proven(
        start_at,
        count,
        justification_interval,
        responses.drop_last(),
    )
}

/// A walk that waits for a new authority set holds justifications with one
/// of GRANDPA among them.
pub open spec fn change_proven(walk: Walk) -> bool {
    walk.phase matches Phase::AuthorityProof { justifications, .. } ==> justifications.grandpa()
        is Some
}

/// Every bundle carries a parachain header and a justification, or
/// neither.
pub open spec fn paired(records: Seq<BlockInfo>) -> bool {
    forall|i: int|
        0 <= i < records.len() ==> ((#[trigger] records[i]).para_header is Some
            <==> records[i].justification is Some)
}

/// No bundle carries a change of the authority set without a justification.
pub open spec fn certified(records: Seq<BlockInfo>) -> bool {
    forall|i: int|
        0 <= i < records.len() && (#[trigger] records[i]).authority_set_change is Some
            ==> records[i].justification is Some
}

/// The headers of the bundles carry the numbers `start_at`, `start_at + 1`
/// and so on.
pub open spec fn numbered(records: Seq<BlockInfo>, start_at: BlockNumber) -> bool {
    forall|i: int| 0 <= i < records.len() ==> (#[trigger] records[i]).header.number == start_at + i
}

/// Behind a bundle with a justification, the next `interval` bundles carry
/// none, but for those at which the authority set changed.
pub open spec fn spaced(records: Seq<BlockInfo>, interval: u32) -> bool {
    forall|i: int, j: int|
        0 <= i < j < records.len() && j - i <= interval && (#[trigger] records[i]).justification is Some
            && (#[trigger] records[j]).authority_set_change is None
            ==> records[j].justification is None
}

/// The counter of blocks to skip is no lower than the bundles with a
/// justification allow: behind each of them it has gone down by at most one
/// for each bundle since.
spec fn skip_covers(records: Seq<BlockInfo>, interval: u32, skip: u32) -> bool {
    forall|i: int|
        0 <= i < records.len() && (#[trigger] records[i]).justification is Some ==> skip >= interval
            - (records.len() - 1 - i)
}

/// Every bundle with a justification lies more than `interval` bundles
/// back.
spec fn captures_far(records: Seq<BlockInfo>, interval: u32) -> bool {
    forall|i: int|
        0 <= i < records.len() && (#[trigger] records[i]).justification is Some ==> records.len() - i
            > interval
}

/// The walk works on the block behind the bundles it handed out.
spec fn at_work(progress: Progress, records: Seq<BlockInfo>) -> bool {
    &&& progress.start_at > 0
    &&& records.len() == progress.grabbed
    &&& progress.grabbed < progress.count
    &&& progress.block_number == progress.start_at + progress.grabbed
    &&& skip_covers(records, progress.justification_interval, progress.skip_justification)
}

/// What holds of a walk and the bundles it handed out, whatever the driver
/// reported.
spec fn steady(walk: Walk, request: Request, records: Seq<BlockInfo>) -> bool {
    let progress = walk.progress;
    &&& paired(records)
    &&& spaced(records, progress.justification_interval)
    &&& records.len() <= progress.count
    &&& match walk.phase {
        Phase::StartHash | Phase::StartSetId | Phase::ParaId => {
            &&& at_work(progress, records)
            &&& progress.grabbed == 0
        },
        Phase::Fetch => {
            &&& at_work(progress, records)
            &&& request == Walk::fetching(progress).1
        },
        Phase::SetId { justifications, .. } => {
            &&& at_work(progress, records)
            &&& justifications is Some ==> progress.skip_justification == 0
        },
        Phase::Justifications { .. } => at_work(progress, records),
        Phase::AuthorityProof { .. } => at_work(progress, records),
        Phase::ParaHeader { authority_set_change, .. } => {
            &&& at_work(progress, records)
            &&& progress.skip_justification == progress.justification_interval
            &&& authority_set_change is None ==> captures_far(
                records,
                progress.justification_interval,
            )
        },
        Phase::Emit => {
            &&& progress.start_at > 0
            &&& records.len() == progress.grabbed + 1
            &&& progress.grabbed < progress.count
            &&& progress.block_number == progress.start_at + progress.grabbed
            &&& skip_covers(records, progress.justification_interval, progress.skip_justification)
        },
        Phase::Done => records.len() == progress.grabbed && request == (Request::Done {
            grabbed: progress.grabbed,
        }),
        Phase::Failed { error } => {
            &&& request == (Request::Failed { error, block_number: progress.block_number })
            &&& if progress.start_at == 0 {
                error == Error::InvalidRange && records.len() == 0
            } else {
                &&& error != Error::InvalidRange
                &&& progress.grabbed < progress.count
                &&& progress.block_number == progress.start_at + progress.grabbed
                &&& records.len() == if error == Error::SinkWriteFailed {
                    progress.grabbed + 1
                } else {
                    progress.grabbed as int
                }
            }
        },
    }
}

/// What holds besides where every response answered its request with the
/// block that was asked for.
spec fn in_order(walk: Walk, records: Seq<BlockInfo>) -> bool {
    &&& numbered(records, walk.progress.start_at)
    &&& match walk.phase {
        Phase::SetId { header, .. } => header.number == walk.progress.block_number,
        Phase::Justifications { header, .. } => header.number == walk.progress.block_number,
        Phase::AuthorityProof { header, .. } => header.number == walk.progress.block_number,
        Phase::ParaHeader { header, .. } => header.number == walk.progress.block_number,
        _ => true,
    }
}

/// The bundles handed out with `request` stand behind those handed out
/// before, which stay as they were.
proof fn lemma_appended(records: Seq<BlockInfo>, request: Request)
    ensures
        forall|i: int|
            0 <= i < records.len() ==> #[trigger] (records + emitted_by(request))[i] == records[i],
        request matches Request::Emit { info } ==> (records + emitted_by(request)).len()
            == records.len() + 1 && (records + emitted_by(request))[records.len() as int] == info,
        !(request is Emit) ==> records + emitted_by(request) == records,
{
    if !(request is Emit) {
        assert(records + emitted_by(request) =~= records);
    }
}

proof fn lemma_steady_step(walk: Walk, request: Request, records: Seq<BlockInfo>, response: Response)
    requires
        steady(walk, request, records),
    ensures
        steady(
            walk.stepped(response).0,
            walk.stepped(response).1,
            records + emitted_by(walk.stepped(response).1),
        ),
        walk.stepped(response).0.progress.start_at == walk.progress.start_at,
        walk.stepped(response).0.progress.count == walk.progress.count,
        walk.stepped(response).0.progress.justification_interval
            == walk.progress.justification_interval,
{
    lemma_appended(records, walk.stepped(response).1);
}

proof fn lemma_in_order_step(
    walk: Walk,
    request: Request,
    records: Seq<BlockInfo>,
    response: Response,
)
    requires
        steady(walk, request, records),
        in_order(walk, records),
        answers(request, response),
    ensures
        in_order(walk.stepped(response).0, records + emitted_by(walk.stepped(response).1)),
{
    lemma_appended(records, walk.stepped(response).1);
}

proof fn lemma_certified_step(
    walk: Walk,
    request: Request,
    records: Seq<BlockInfo>,
    response: Response,
)
    requires
        steady(walk, request, records),
        certified(records),
        change_proven(walk),
    ensures
        certified(records + emitted_by(walk.stepped(response).1)),
{
    lemma_appended(records, walk.stepped(response).1);
}

/// All that is said of walks here, of one walk and the reports it got.
proof fn lemma_walk(
    start_at: BlockNumber,
    count: BlockNumber,
    justification_interval: u32,
    responses: Seq<Response>,
)
    ensures
        ({
            let (walk, request) = walked(start_at, count, justification_interval, responses);
            let records = emitted(start_at, count, justification_interval, responses);
            &&& walk.progress.start_at == start_at
            &&& walk.progress.count == count
            &&& walk.progress.justification_interval == justification_interval
            &&& steady(walk, request, records)
            &&& faithful(start_at, count, justification_interval, responses) ==> in_order(
                walk,
                records,
            )
            &&& changes_proven(start_at, count, justification_interval, responses) ==> certified(
                records,
            )
        }),
    decreases responses.len(),
{
    if responses.len() > 0 {
        let before = responses.drop_last();
        lemma_walk(start_at, count, justification_interval, before);
        let (walk, request) = walked(start_at, count, justification_interval, before);
        let records = emitted(start_at, count, justification_interval, before);
        lemma_steady_step(walk, request, records, responses.last());
        if faithful(start_at, count, justification_interval, responses) {
            lemma_in_order_step(walk, request, records, responses.last());
        }
        if changes_proven(start_at, count, justification_interval, responses) {
            assert(changes_proven(start_at, count, justification_interval, before));
            assert(change_proven(walk));
            lemma_certified_step(walk, request, records, responses.last());
        }
    }
}

/// A walk that is over has grabbed as many blocks as it handed bundles to
/// the sink, and every one of them was taken.
pub proof fn lemma_done_counts_the_bundles(
    start_at: BlockNumber,
    count: BlockNumber,
    justification_interval: u32,
    responses: Seq<Response>,
)
    ensures
        walked(start_at, count, justification_interval, responses).1 matches Request::Done {
            grabbed,
        } ==> grabbed == emitted(start_at, count, justification_interval, responses).len(),
{
    lemma_walk(start_at, count, justification_interval, responses);
}

/// A walk that gave up names the block at which to take it up again: the
/// first block behind those whose bundles the sink took. A failure of the
/// sink leaves one bundle handed out and not taken; any other failure
/// leaves none.
pub proof fn lemma_failure_names_the_block_to_resume_at(
    start_at: BlockNumber,
    count: BlockNumber,
    justification_interval: u32,
    responses: Seq<Response>,
)
    requires
        start_at > 0,
    ensures
        walked(start_at, count, justification_interval, responses).1 matches Request::Failed {
            error,
            block_number,
        } ==> error != Error::InvalidRange && emitted(
            start_at,
            count,
            justification_interval,
            responses,
        ).len() == block_number - start_at + if error == Error::SinkWriteFailed {
            1int
        } else {
            0int
        },
{
    lemma_walk(start_at, count, justification_interval, responses);
}

/// A walk hands at most `count` bundles to the sink.
pub proof fn lemma_emits_at_most_count(
    start_at: BlockNumber,
    count: BlockNumber,
    justification_interval: u32,
    responses: Seq<Response>,
)
    ensures
        emitted(start_at, count, justification_interval, responses).len() <= count,
{
    lemma_walk(start_at, count, justification_interval, responses);
}

/// Where the chain answers each fetch with the block that was asked for, the
/// bundles that a walk hands out carry the block numbers `start_at`,
/// `start_at + 1` and so on, without gap or repeat.
pub proof fn lemma_emits_contiguous_run(
    start_at: BlockNumber,
    count: BlockNumber,
    justification_interval: u32,
    responses: Seq<Response>,
)
    requires
        faithful(start_at, count, justification_interval, responses),
    ensures
        numbered(emitted(start_at, count, justification_interval, responses), start_at),
{
    lemma_walk(start_at, count, justification_interval, responses);
}

/// Where the justifications of every block at which the authority set
/// changed hold one of GRANDPA, a bundle that carries a change of the
/// authority set carries a justification too. A block whose justifications
/// are all of other engines gets a bundle with the change and without a
/// justification.
pub proof fn lemma_change_comes_with_justification(
    start_at: BlockNumber,
    count: BlockNumber,
    justification_interval: u32,
    responses: Seq<Response>,
)
    requires
        changes_proven(start_at, count, justification_interval, responses),
    ensures
        certified(emitted(start_at, count, justification_interval, responses)),
{
    lemma_walk(start_at, count, justification_interval, responses);
}

/// A bundle carries a parachain header exactly where it carries a
/// justification.
pub proof fn lemma_para_header_comes_with_justification(
    start_at: BlockNumber,
    count: BlockNumber,
    justification_interval: u32,
    responses: Seq<Response>,
)
    ensures
        paired(emitted(start_at, count, justification_interval, responses)),
{
    lemma_walk(start_at, count, justification_interval, responses);
}

/// Behind a bundle with a justification, the next `justification_interval`
/// bundles carry none, but for those at which the authority set changed.
pub proof fn lemma_justifications_are_spaced(
    start_at: BlockNumber,
    count: BlockNumber,
    justification_interval: u32,
    responses: Seq<Response>,
)
    ensures
        spaced(emitted(start_at, count, justification_interval, responses), justification_interval),
{
    lemma_walk(start_at, count, justification_interval, responses);
}

} // verus!
