use headers_cache::error::Error;
use headers_cache::sync::{
    fetch_genesis_info, get_set_id, GenesisCapture, GenesisPhase, GenesisStep, Phase, Request,
    Response, Walk,
};
use headers_cache::types::{
    AuthoritySet, AuthoritySetChange, BlockHash, BlockInfo, GenesisBlockInfo, Header,
    Justifications, ParaHeader, GRANDPA_ENGINE_ID,
};

fn hash_of(number: u32) -> BlockHash {
    let mut hash = [0u8; 32];
    hash[..4].copy_from_slice(&number.to_be_bytes());
    hash[31] = 0xaa;
    hash
}

fn number_of(hash: &BlockHash) -> u32 {
    u32::from_be_bytes([hash[0], hash[1], hash[2], hash[3]])
}

fn header_of(number: u32) -> Header {
    Header { number, encoded: vec![number as u8, 1, 2, 3] }
}

fn grandpa(number: u32) -> Justifications {
    Justifications {
        entries: vec![([b'B', b'E', b'E', b'F'], vec![0]), (GRANDPA_ENGINE_ID, vec![number as u8, 9])],
    }
}

fn foreign(number: u32) -> Justifications {
    Justifications { entries: vec![([b'B', b'E', b'E', b'F'], vec![number as u8])] }
}

fn change_at(number: u32) -> AuthoritySetChange {
    AuthoritySetChange {
        authority_set: AuthoritySet { encoded: vec![number as u8, 7] },
        authority_proof: vec![vec![1], vec![2, number as u8]],
    }
}

/// A chain as the tests script it.
struct Chain {
    tip: u32,
    /// The set id is `first_set_id` below `change_at`, and one more from there on.
    first_set_id: u64,
    change_at: Option<u32>,
    /// Blocks that come with a GRANDPA justification when fetched whole.
    justified: Vec<u32>,
    /// Blocks that come with a justification of another engine only.
    foreign: Vec<u32>,
    /// Blocks whose justifications show only when asked for by hash.
    late_justified: Vec<u32>,
    /// Blocks as of which the parachain has no finalized header.
    no_para: Vec<u32>,
    /// The request with this index fails.
    fail_at: Option<usize>,
    /// The sink takes so many bundles.
    sink_takes: usize,
}

impl Chain {
    fn new(tip: u32) -> Self {
        Chain {
            tip,
            first_set_id: 3,
            change_at: None,
            justified: Vec::new(),
            foreign: Vec::new(),
            late_justified: Vec::new(),
            no_para: Vec::new(),
            fail_at: None,
            sink_takes: usize::MAX,
        }
    }

    fn set_id(&self, number: u32) -> u64 {
        match self.change_at {
            Some(at) if number >= at => self.first_set_id + 1,
            _ => self.first_set_id,
        }
    }

    fn justifications(&self, number: u32) -> Option<Justifications> {
        if self.justified.contains(&number) {
            Some(grandpa(number))
        } else if self.foreign.contains(&number) {
            Some(foreign(number))
        } else {
            None
        }
    }

    fn answer(&self, request: &Request, taken: usize) -> Response {
        match request {
            Request::ResolveHash { number } => Response::Hash { hash: hash_of(*number) },
            Request::QuerySetId { hash } => Response::SetId { set_id: self.set_id(number_of(hash)) },
            Request::QueryParaId => Response::ParaId { para_id: 2004 },
            Request::FetchBlock { number } => {
                if *number > self.tip {
                    Response::NotFound
                } else {
                    Response::Block {
                        header: header_of(*number),
                        hash: hash_of(*number),
                        justifications: self.justifications(*number),
                    }
                }
            },
            Request::FetchHeader { number } => {
                if *number > self.tip {
                    Response::NotFound
                } else {
                    Response::Header { header: header_of(*number), hash: hash_of(*number) }
                }
            },
            Request::FetchJustifications { hash } => {
                let number = number_of(hash);
                let justifications = if self.late_justified.contains(&number) {
                    Some(grandpa(number))
                } else {
                    self.justifications(number)
                };
                Response::Justifications { justifications }
            },
            Request::FetchAuthorityProof { hash } => {
                Response::AuthorityProof { change: change_at(number_of(hash)) }
            },
            Request::FetchParaHeader { para_id, hash } => {
                assert_eq!(*para_id, 2004);
                let number = number_of(hash);
                if self.no_para.contains(&number) {
                    Response::ParaHeader { finalized: None }
                } else {
                    Response::ParaHeader {
                        finalized: Some((header_of(number / 2), vec![vec![number as u8]])),
                    }
                }
            },
            Request::Emit { .. } => {
                if taken < self.sink_takes {
                    Response::Emitted
                } else {
                    Response::Failure
                }
            },
            Request::Done { .. } | Request::Failed { .. } => unreachable!(),
        }
    }
}

/// Runs a walk against the chain: the requests it made, the bundles the
/// sink took, and its last word.
fn drive(chain: &Chain, start_at: u32, count: u32, interval: u32) -> (Vec<Request>, Vec<BlockInfo>, Request) {
    let (mut walk, mut request) = Walk::start(start_at, count, interval);
    let mut requests = Vec::new();
    let mut taken = Vec::new();
    loop {
        if matches!(request, Request::Done { .. } | Request::Failed { .. }) {
            return (requests, taken, request);
        }
        let response = if chain.fail_at == Some(requests.len()) {
            Response::Failure
        } else {
            chain.answer(&request, taken.len())
        };
        if let (Request::Emit { info }, Response::Emitted) = (&request, &response) {
            taken.push(info.clone());
        }
        requests.push(request);
        let next = walk.step(response);
        walk = next.0;
        request = next.1;
    }
}

#[test]
fn walk_of_no_blocks_is_over_at_once() {
    let (walk, request) = Walk::start(1, 0, 5);
    assert_eq!(request, Request::Done { grabbed: 0 });
    assert_eq!(walk.phase, Phase::Done);
    let (requests, taken, last) = drive(&Chain::new(100), 1, 0, 5);
    assert!(requests.is_empty());
    assert!(taken.is_empty());
    assert_eq!(last, Request::Done { grabbed: 0 });
}

#[test]
fn walk_from_block_zero_is_refused() {
    let (walk, request) = Walk::start(0, 10, 5);
    assert_eq!(request, Request::Failed { error: Error::InvalidRange, block_number: 0 });
    assert_eq!(walk.phase, Phase::Failed { error: Error::InvalidRange });
    let (_, request) = Walk::start(0, 0, 5);
    assert_eq!(request, Request::Failed { error: Error::InvalidRange, block_number: 0 });
}

#[test]
fn walk_begins_with_the_block_before_the_first() {
    let (walk, request) = Walk::start(95, 50, 7);
    assert_eq!(request, Request::ResolveHash { number: 94 });
    assert_eq!(walk.phase, Phase::StartHash);
    assert_eq!(walk.progress.block_number, 95);
    assert_eq!(walk.progress.skip_justification, 7);
    assert_eq!(walk.progress.grabbed, 0);
    let (walk, request) = walk.step(Response::Hash { hash: hash_of(94) });
    assert_eq!(request, Request::QuerySetId { hash: hash_of(94) });
    let (walk, request) = walk.step(Response::SetId { set_id: 12 });
    assert_eq!(request, Request::QueryParaId);
    assert_eq!(walk.progress.last_set_id, 12);
    let (walk, request) = walk.step(Response::ParaId { para_id: 2035 });
    assert_eq!(request, Request::FetchHeader { number: 95 });
    assert_eq!(walk.progress.para_id, 2035);
    assert_eq!(walk.phase, Phase::Fetch);
}

#[test]
fn walk_ends_at_the_chain_tip() {
    let (requests, taken, last) = drive(&Chain::new(100), 95, 50, 1000);
    assert_eq!(last, Request::Done { grabbed: 6 });
    let numbers: Vec<u32> = taken.iter().map(|info| info.header.number).collect();
    assert_eq!(numbers, vec![95, 96, 97, 98, 99, 100]);
    assert_eq!(requests.last(), Some(&Request::FetchHeader { number: 101 }));
}

#[test]
fn walk_ends_when_count_is_reached() {
    let (requests, taken, last) = drive(&Chain::new(100), 10, 3, 1000);
    assert_eq!(last, Request::Done { grabbed: 3 });
    let numbers: Vec<u32> = taken.iter().map(|info| info.header.number).collect();
    assert_eq!(numbers, vec![10, 11, 12]);
    assert!(!requests.contains(&Request::FetchHeader { number: 13 }));
    assert!(taken.iter().all(|info| info.justification.is_none()
        && info.para_header.is_none()
        && info.authority_set_change.is_none()));
    assert_eq!(taken[0].header, header_of(10));
}

#[test]
fn walk_ends_behind_the_last_block_number() {
    let (requests, taken, last) = drive(&Chain::new(u32::MAX), u32::MAX - 1, 10, 1000);
    assert_eq!(last, Request::Done { grabbed: 2 });
    let numbers: Vec<u32> = taken.iter().map(|info| info.header.number).collect();
    assert_eq!(numbers, vec![u32::MAX - 1, u32::MAX]);
    assert_eq!(requests[0], Request::ResolveHash { number: u32::MAX - 2 });
}

#[test]
fn walk_on_an_empty_range_grabs_nothing() {
    let (requests, taken, last) = drive(&Chain::new(100), 101, 5, 3);
    assert_eq!(last, Request::Done { grabbed: 0 });
    assert!(taken.is_empty());
    assert_eq!(
        requests,
        vec![
            Request::ResolveHash { number: 100 },
            Request::QuerySetId { hash: hash_of(100) },
            Request::QueryParaId,
            Request::FetchHeader { number: 101 },
        ]
    );
}

#[test]
fn justifications_are_fetched_once_per_interval() {
    let mut chain = Chain::new(1000);
    chain.justified = (1..=1000).collect();
    let (requests, taken, last) = drive(&chain, 1, 12, 3);
    assert_eq!(last, Request::Done { grabbed: 12 });
    let with: Vec<u32> = taken
        .iter()
        .filter(|info| info.justification.is_some())
        .map(|info| info.header.number)
        .collect();
    assert_eq!(with, vec![4, 8, 12]);
    let whole: Vec<u32> = requests
        .iter()
        .filter_map(|r| match r {
            Request::FetchBlock { number } => Some(*number),
            _ => None,
        })
        .collect();
    assert_eq!(whole, vec![4, 8, 12]);
    assert_eq!(taken[3].justification, Some(vec![4, 9]));
    assert_eq!(
        taken[3].para_header,
        Some(ParaHeader { fin_header_num: 2, proof: vec![vec![4]] })
    );
    assert_eq!(taken[3].authority_set_change, None);
}

#[test]
fn interval_of_zero_fetches_every_block_whole() {
    let mut chain = Chain::new(1000);
    chain.justified = vec![2, 3];
    let (requests, taken, _) = drive(&chain, 1, 4, 0);
    let whole: Vec<u32> = requests
        .iter()
        .filter_map(|r| match r {
            Request::FetchBlock { number } => Some(*number),
            _ => None,
        })
        .collect();
    assert_eq!(whole, vec![1, 2, 3, 4]);
    let with: Vec<bool> = taken.iter().map(|info| info.justification.is_some()).collect();
    assert_eq!(with, vec![false, true, true, false]);
}

#[test]
fn interval_starts_again_only_after_a_capture() {
    let mut chain = Chain::new(1000);
    chain.justified = vec![6, 7, 8, 9, 10, 11, 12];
    chain.foreign = vec![3, 4];
    let (requests, taken, _) = drive(&chain, 1, 10, 2);
    let whole: Vec<u32> = requests
        .iter()
        .filter_map(|r| match r {
            Request::FetchBlock { number } => Some(*number),
            _ => None,
        })
        .collect();
    assert_eq!(whole, vec![3, 4, 5, 6, 9]);
    let with: Vec<u32> = taken
        .iter()
        .filter(|info| info.justification.is_some())
        .map(|info| info.header.number)
        .collect();
    assert_eq!(with, vec![6, 9]);
}

#[test]
fn set_change_forces_a_fetch_of_justifications() {
    let mut chain = Chain::new(100);
    chain.change_at = Some(50);
    chain.justified = vec![50];
    let (requests, taken, last) = drive(&chain, 48, 4, 1000);
    assert_eq!(last, Request::Done { grabbed: 4 });
    assert!(requests.contains(&Request::FetchJustifications { hash: hash_of(50) }));
    assert!(requests.contains(&Request::FetchAuthorityProof { hash: hash_of(50) }));
    assert!(!requests.contains(&Request::FetchJustifications { hash: hash_of(49) }));
    assert!(!requests.contains(&Request::FetchJustifications { hash: hash_of(51) }));
    assert_eq!(taken[2].header.number, 50);
    assert_eq!(taken[2].justification, Some(vec![50, 9]));
    assert_eq!(taken[2].authority_set_change, Some(change_at(50)));
    assert_eq!(
        taken[2].para_header,
        Some(ParaHeader { fin_header_num: 25, proof: vec![vec![50]] })
    );
    assert_eq!(taken[1].authority_set_change, None);
    assert_eq!(taken[3].authority_set_change, None);
    assert_eq!(taken[3].justification, None);
}

#[test]
fn set_change_without_justification_is_fatal() {
    let mut chain = Chain::new(100);
    chain.change_at = Some(50);
    let (requests, taken, last) = drive(&chain, 48, 10, 0);
    assert_eq!(last, Request::Failed { error: Error::MissingTransitionProof, block_number: 50 });
    let numbers: Vec<u32> = taken.iter().map(|info| info.header.number).collect();
    assert_eq!(numbers, vec![48, 49]);
    assert!(requests.contains(&Request::FetchBlock { number: 50 }));
    assert_eq!(requests.last(), Some(&Request::FetchJustifications { hash: hash_of(50) }));
}

#[test]
fn set_change_takes_justifications_that_show_late() {
    let mut chain = Chain::new(100);
    chain.change_at = Some(50);
    chain.late_justified = vec![50];
    let (requests, taken, last) = drive(&chain, 50, 1, 0);
    assert_eq!(last, Request::Done { grabbed: 1 });
    assert!(requests.contains(&Request::FetchBlock { number: 50 }));
    assert!(requests.contains(&Request::FetchJustifications { hash: hash_of(50) }));
    assert_eq!(taken[0].justification, Some(vec![50, 9]));
    assert_eq!(taken[0].authority_set_change, Some(change_at(50)));
}

#[test]
fn set_change_with_justifications_at_hand_asks_for_no_more() {
    let mut chain = Chain::new(100);
    chain.change_at = Some(50);
    chain.justified = vec![50];
    let (requests, taken, _) = drive(&chain, 50, 1, 0);
    assert!(!requests.contains(&Request::FetchJustifications { hash: hash_of(50) }));
    assert!(requests.contains(&Request::FetchAuthorityProof { hash: hash_of(50) }));
    assert_eq!(taken[0].justification, Some(vec![50, 9]));
    assert_eq!(taken[0].authority_set_change, Some(change_at(50)));
}

#[test]
fn set_change_with_a_foreign_justification_carries_none() {
    let mut chain = Chain::new(100);
    chain.change_at = Some(50);
    chain.foreign = vec![50];
    let (_, taken, last) = drive(&chain, 50, 2, 5);
    assert_eq!(last, Request::Done { grabbed: 2 });
    assert_eq!(taken[0].justification, None);
    assert_eq!(taken[0].para_header, None);
    assert_eq!(taken[0].authority_set_change, Some(change_at(50)));
}

#[test]
fn forced_capture_starts_the_interval_again() {
    let mut chain = Chain::new(100);
    chain.change_at = Some(12);
    chain.justified = (1..=100).collect();
    let (requests, taken, _) = drive(&chain, 10, 9, 3);
    let with: Vec<u32> = taken
        .iter()
        .filter(|info| info.justification.is_some())
        .map(|info| info.header.number)
        .collect();
    assert_eq!(with, vec![12, 16]);
    let whole: Vec<u32> = requests
        .iter()
        .filter_map(|r| match r {
            Request::FetchBlock { number } => Some(*number),
            _ => None,
        })
        .collect();
    assert_eq!(whole, vec![16]);
}

#[test]
fn justification_without_parachain_header_ends_the_walk() {
    let mut chain = Chain::new(100);
    chain.justified = vec![1, 2, 3];
    chain.no_para = vec![2];
    let (requests, taken, last) = drive(&chain, 1, 3, 0);
    assert_eq!(last, Request::Failed { error: Error::ChainQueryFailed, block_number: 2 });
    assert_eq!(taken.len(), 1);
    assert_eq!(taken[0].justification, Some(vec![1, 9]));
    assert_eq!(taken[0].para_header, Some(ParaHeader { fin_header_num: 0, proof: vec![vec![1]] }));
    assert_eq!(
        requests.last(),
        Some(&Request::FetchParaHeader { para_id: 2004, hash: hash_of(2) })
    );
}

#[test]
fn every_bundle_has_parachain_header_and_justification_or_neither() {
    let mut chain = Chain::new(300);
    chain.justified = (1..=300).filter(|n| n % 3 != 0).collect();
    chain.foreign = (1..=300).filter(|n| n % 3 == 0).collect();
    chain.change_at = Some(77);
    let (_, taken, last) = drive(&chain, 1, 200, 4);
    assert_eq!(last, Request::Done { grabbed: 200 });
    let mut with: u32 = 0;
    for (i, info) in taken.iter().enumerate() {
        assert_eq!(info.header.number, 1 + i as u32);
        assert_eq!(info.para_header.is_some(), info.justification.is_some());
        if info.authority_set_change.is_some() {
            assert_eq!(info.header.number, 77);
            assert!(info.justification.is_some());
        }
        if info.justification.is_some() {
            with += 1;
        }
    }
    assert!(with > 20);
    for i in 0..taken.len() {
        if taken[i].justification.is_some() {
            for j in i + 1..taken.len().min(i + 5) {
                if taken[j].authority_set_change.is_none() {
                    assert!(taken[j].justification.is_none());
                }
            }
        }
    }
}

#[test]
fn failed_query_ends_the_walk() {
    for at in 0..9 {
        let mut chain = Chain::new(100);
        chain.change_at = Some(20);
        chain.justified = vec![20];
        chain.fail_at = Some(at);
        let (requests, taken, last) = drive(&chain, 20, 5, 1000);
        let expected = if at == 8 { Error::SinkWriteFailed } else { Error::ChainQueryFailed };
        assert_eq!(last, Request::Failed { error: expected, block_number: 20 });
        assert_eq!(requests.len(), at + 1);
        assert!(taken.is_empty());
    }
}

#[test]
fn refused_write_ends_the_walk() {
    let mut chain = Chain::new(100);
    chain.sink_takes = 2;
    let (_, taken, last) = drive(&chain, 5, 10, 1000);
    assert_eq!(last, Request::Failed { error: Error::SinkWriteFailed, block_number: 7 });
    assert_eq!(taken.len(), 2);
}

#[test]
fn report_of_another_request_counts_as_failed_query() {
    let (walk, _) = Walk::start(5, 1, 0);
    let (walk, request) = walk.step(Response::SetId { set_id: 1 });
    assert_eq!(request, Request::Failed { error: Error::ChainQueryFailed, block_number: 5 });
    assert_eq!(walk.phase, Phase::Failed { error: Error::ChainQueryFailed });

    let (walk, _) = Walk::start(5, 1, 0);
    let (walk, _) = walk.step(Response::Hash { hash: hash_of(4) });
    let (walk, _) = walk.step(Response::SetId { set_id: 1 });
    let (walk, request) = walk.step(Response::ParaId { para_id: 1 });
    assert_eq!(request, Request::FetchBlock { number: 5 });
    let (_, request) = walk.step(Response::Header { header: header_of(5), hash: hash_of(5) });
    assert_eq!(request, Request::Failed { error: Error::ChainQueryFailed, block_number: 5 });

    let (walk, _) = Walk::start(5, 1, 9);
    let (walk, _) = walk.step(Response::Hash { hash: hash_of(4) });
    let (walk, _) = walk.step(Response::SetId { set_id: 1 });
    let (walk, request) = walk.step(Response::ParaId { para_id: 1 });
    assert_eq!(request, Request::FetchHeader { number: 5 });
    let (_, request) = walk.step(Response::Block {
        header: header_of(5),
        hash: hash_of(5),
        justifications: None,
    });
    assert_eq!(request, Request::Failed { error: Error::ChainQueryFailed, block_number: 5 });
}

#[test]
fn missing_block_before_the_first_is_a_failed_query() {
    let (walk, _) = Walk::start(5, 1, 0);
    let (_, request) = walk.step(Response::NotFound);
    assert_eq!(request, Request::Failed { error: Error::ChainQueryFailed, block_number: 5 });
}

#[test]
fn finished_walk_repeats_its_last_word() {
    let (walk, _) = Walk::start(0, 1, 1);
    let (walk, request) = walk.step(Response::Emitted);
    assert_eq!(request, Request::Failed { error: Error::InvalidRange, block_number: 0 });
    let (_, request) = walk.step(Response::NotFound);
    assert_eq!(request, Request::Failed { error: Error::InvalidRange, block_number: 0 });

    let (walk, _) = Walk::start(3, 0, 1);
    let (walk, request) = walk.step(Response::Failure);
    assert_eq!(request, Request::Done { grabbed: 0 });
    assert_eq!(walk.phase, Phase::Done);
}

#[test]
fn into_justification_takes_the_first_of_the_engine() {
    let bundle = Justifications {
        entries: vec![
            ([1, 2, 3, 4], vec![10]),
            (GRANDPA_ENGINE_ID, vec![20]),
            ([1, 2, 3, 4], vec![30]),
            (GRANDPA_ENGINE_ID, vec![40]),
        ],
    };
    assert_eq!(bundle.clone().into_justification(GRANDPA_ENGINE_ID), Some(vec![20]));
    assert_eq!(bundle.clone().into_justification([1, 2, 3, 4]), Some(vec![10]));
    assert_eq!(bundle.into_justification([1, 2, 3, 5]), None);
    assert_eq!(Justifications { entries: vec![] }.into_justification(GRANDPA_ENGINE_ID), None);
    assert_eq!(GRANDPA_ENGINE_ID, *b"FRNK");
}

#[test]
fn set_id_comes_with_the_presence_of_justifications() {
    assert_eq!(get_set_id(9, &None), (9, false));
    assert_eq!(get_set_id(0, &Some(foreign(1))), (0, true));
    assert_eq!(get_set_id(u64::MAX, &Some(Justifications { entries: vec![] })), (u64::MAX, true));
}

#[test]
fn genesis_info_is_header_set_and_proof() {
    let info = fetch_genesis_info(header_of(8), change_at(8));
    assert_eq!(
        info,
        GenesisBlockInfo {
            block_header: header_of(8),
            authority_set: AuthoritySet { encoded: vec![8, 7] },
            proof: vec![vec![1], vec![2, 8]],
        }
    );
}

#[test]
fn genesis_capture_fetches_block_hash_and_proof() {
    let (capture, step) = GenesisCapture::start(8);
    assert_eq!(step, GenesisStep::Ask { request: Request::FetchBlock { number: 8 } });
    let (capture, step) = capture.step(Response::Block {
        header: header_of(8),
        hash: hash_of(1),
        justifications: Some(grandpa(8)),
    });
    assert_eq!(step, GenesisStep::Ask { request: Request::ResolveHash { number: 8 } });
    let (capture, step) = capture.step(Response::Hash { hash: hash_of(8) });
    assert_eq!(step, GenesisStep::Ask { request: Request::FetchAuthorityProof { hash: hash_of(8) } });
    let (capture, step) = capture.step(Response::AuthorityProof { change: change_at(8) });
    assert_eq!(
        step,
        GenesisStep::Done {
            info: GenesisBlockInfo {
                block_header: header_of(8),
                authority_set: AuthoritySet { encoded: vec![8, 7] },
                proof: vec![vec![1], vec![2, 8]],
            }
        }
    );
    assert_eq!(capture.phase, GenesisPhase::Over);
    let (_, step) = capture.step(Response::Emitted);
    assert_eq!(step, GenesisStep::Failed { error: Error::ChainQueryFailed });
}

#[test]
fn genesis_capture_gives_up_on_any_failure() {
    let reports = [
        Response::Block { header: header_of(8), hash: hash_of(8), justifications: None },
        Response::Hash { hash: hash_of(8) },
        Response::AuthorityProof { change: change_at(8) },
    ];
    for failing in 0..3 {
        for bad in [Response::Failure, Response::NotFound, Response::SetId { set_id: 1 }] {
            let (mut capture, mut step) = GenesisCapture::start(8);
            for (i, report) in reports.iter().enumerate() {
                assert!(matches!(step, GenesisStep::Ask { .. }));
                let response = if i == failing { bad.clone() } else { report.clone() };
                let next = capture.step(response);
                capture = next.0;
                step = next.1;
                if i == failing {
                    break;
                }
            }
            assert_eq!(step, GenesisStep::Failed { error: Error::ChainQueryFailed });
            assert_eq!(capture.phase, GenesisPhase::Over);
        }
    }
}
