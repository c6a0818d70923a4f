//! The miner, from the best block to the importer.
use sc_pow::algorithm::PowAlgorithm;
use sc_pow::auxiliary::{aux_key, PowAux};
use sc_pow::error::Error;
use sc_pow::header::{BlakeTwo256, BlockHash, BlockId, DigestItem, Hashing, Header, Seal};
use sc_pow::import::{BlockOrigin, ForkChoiceStrategy, POW_ENGINE_ID};
use sc_pow::inherents::register_pow_inherent_data_provider;
use sc_pow::mining::{
    create_inherents, inherent_digest, start, step, BestHeader, MineAction, MineEvent, MineState,
    Proposal, PAUSE_SECS,
};
use sp_inherents::{InherentData, InherentDataProviders};

type State = MineState<u128, u8>;
type Action = MineAction<u32, u8>;

fn header(number: u64) -> Header {
    Header {
        parent_hash: [1; 32],
        number,
        state_root: [2; 32],
        extrinsics_root: [3; 32],
        digest: vec![],
    }
}

fn go(state: State, event: MineEvent<u8>) -> (State, Action) {
    assert!(event.is_encodable());
    step::<BlakeTwo256, u32, u128, u8>(&Some(vec![5]), state, event)
}

fn stored() -> PowAux<u128> {
    PowAux { difficulty: 10, total_difficulty: 30, policy: Some(vec![4]), steps: None }
}

/// The miner once it knows its best block.
fn reading() -> State {
    let best = MineEvent::Best(BestHeader::Client([8; 32], Ok(Some(header(3)))));
    let (state, action) = go(MineState::FindingBest, best);
    assert!(matches!(action, MineAction::AskAuthor(BlockId::Hash(h)) if h == [8; 32]));
    let (state, action) = go(state, MineEvent::Authorised(true));
    assert!(matches!(action, MineAction::ReadAux(key) if key == aux_key(&[8; 32])));
    state
}

/// The miner while it waits for a proposer.
fn initialising() -> State {
    let (state, action) = go(reading(), MineEvent::Stored(Ok(Some(stored().encode()))));
    assert!(matches!(action, MineAction::InitProposer(h) if h.number == 3));
    state
}

/// The miner while it waits for a block.
fn proposing() -> State {
    let (state, action) = go(initialising(), MineEvent::Initialised(Ok(())));
    assert!(matches!(action, MineAction::CreateInherents));
    let (state, action) = go(state, MineEvent::InherentsCreated(Ok(InherentData::new())));
    match action {
        MineAction::Propose(data, digest) => {
            assert_eq!(data.len(), 0);
            assert_eq!(digest.len(), 1);
            assert!(matches!(&digest[0], DigestItem::PreRuntime(id, data)
                if id == &POW_ENGINE_ID && data == &vec![5]));
        },
        _ => panic!("a block has to be proposed"),
    }
    state
}

/// The miner while it searches.
fn mining() -> State {
    let proposal = Proposal { header: header(4), storage_changes: 99 };
    let (state, action) = go(proposing(), MineEvent::Proposed(Ok(proposal)));
    assert!(matches!(action, MineAction::Mine));
    state
}

/// The miner once it has a seal.
fn sealing() -> State {
    let (state, action) = go(mining(), MineEvent::Mined(Ok(Some((vec![7, 7], vec![6])))));
    assert!(matches!(action, MineAction::ReadAux(key) if key == aux_key(&[8; 32])));
    state
}

fn sealed_hash() -> BlockHash {
    let mut header = header(4);
    header.push_digest(DigestItem::Seal(POW_ENGINE_ID, vec![7, 7]));
    BlakeTwo256::hash(&header)
}

fn error_of(step: (State, Action)) -> String {
    match step {
        (MineState::Stopped, MineAction::Stop(e)) => e.to_string(),
        _ => panic!("the miner goes on"),
    }
}

fn starts_over(step: (State, Action)) -> bool {
    matches!(step, (MineState::Idle, MineAction::AskSyncing))
}

#[test]
fn the_miner_starts_by_asking_whether_the_node_is_syncing() {
    assert!(starts_over(start()));
    let (state, action) = go(MineState::Idle, MineEvent::Syncing(false));
    assert!(matches!(state, MineState::FindingBest) && matches!(action, MineAction::FindBest));
}

#[test]
fn the_miner_waits_while_it_cannot_mine() {
    let waits = |step: (State, Action)| {
        matches!(step, (MineState::Idle, MineAction::PauseThenAskSyncing(PAUSE_SECS)))
    };
    assert!(waits(go(MineState::Idle, MineEvent::Syncing(true))));
    let authorising = MineState::Authorising([8; 32], header(3));
    assert!(waits(go(authorising, MineEvent::Authorised(false))));
}

#[test]
fn the_best_block_may_come_from_the_chain_selection() {
    let best = MineEvent::Best(BestHeader::SelectChain(Ok(header(3))));
    match go(MineState::FindingBest, best) {
        (MineState::Authorising(hash, h), MineAction::AskAuthor(BlockId::Hash(asked))) => {
            assert_eq!(hash, BlakeTwo256::hash(&header(3)));
            assert_eq!(asked, hash);
            assert_eq!(h.number, 3);
        },
        _ => panic!("the miner has to ask whether it can author"),
    }
}

#[test]
fn failures_stop_the_miner() {
    let best = |b| error_of(go(MineState::FindingBest, MineEvent::Best(b)));
    assert_eq!(
        best(BestHeader::SelectChain(Err("E".to_string()))),
        "Fetching best header failed using select chain: E",
    );
    assert_eq!(best(BestHeader::Client([8; 32], Ok(None))), "Best header does not exist");
    assert_eq!(
        best(BestHeader::Client([8; 32], Err("E".to_string()))),
        "Fetching best header failed: E",
    );
    let failed = || Err("E".to_string());
    assert_eq!(error_of(go(reading(), MineEvent::Stored(failed().map(|_: ()| None)))), "E");
    assert_eq!(error_of(go(initialising(), MineEvent::Initialised(failed()))), "E");
    let (creating, _) = go(initialising(), MineEvent::Initialised(Ok(())));
    let no_data = Err("E".to_string());
    assert_eq!(
        error_of(go(creating, MineEvent::InherentsCreated(no_data))),
        "Creating inherents failed: E",
    );
    let no_block = Err("E".to_string());
    assert_eq!(
        error_of(go(proposing(), MineEvent::Proposed(no_block))),
        "Block proposing error: \"proposal E\"",
    );
    let no_seal = Err(Error::Environment("E".to_string()));
    assert_eq!(error_of(go(mining(), MineEvent::Mined(no_seal))), "E");
    assert_eq!(
        error_of(go(sealing(), MineEvent::Stored(Ok(Some(vec![]))))),
        "Error decoding field PowAux.difficulty",
    );
    let importing = MineState::Importing([0; 32]);
    assert_eq!(
        error_of(go(importing, MineEvent::Imported(failed()))),
        format!("Error with block built on 0x{}: E", "00".repeat(32)),
    );
}

#[test]
fn the_search_goes_on_while_the_best_block_stays() {
    let compare = |best| {
        let (state, action) = go(mining(), MineEvent::Mined(Ok(None)));
        assert!(matches!(action, MineAction::AskBest));
        go(state, MineEvent::BestNow(best))
    };
    match compare([8; 32]) {
        (MineState::Mining(job), MineAction::Mine) => assert_eq!(job.header.number, 4),
        _ => panic!("the search has to go on"),
    }
    assert!(starts_over(compare([9; 32])));
}

#[test]
fn a_sealed_block_is_imported_as_the_best() {
    let (state, action) = go(sealing(), MineEvent::Stored(Ok(Some(stored().encode()))));
    assert!(matches!(state, MineState::Importing(hash) if hash == [8; 32]));
    let params = match action {
        MineAction::Import(params) => params,
        _ => panic!("the block has to be imported"),
    };
    assert_eq!(params.origin, BlockOrigin::Own);
    assert_eq!(params.fork_choice, Some(ForkChoiceStrategy::Custom(true)));
    assert_eq!(params.storage_changes, Some(99));
    assert!(params.justification.is_none() && params.body.is_none() && !params.finalized);
    assert_eq!(BlakeTwo256::hash(&params.header), BlakeTwo256::hash(&header(4)));
    assert!(matches!(&params.post_digests[..], [DigestItem::Seal(id, seal)]
        if id == &POW_ENGINE_ID && seal == &vec![7, 7]));
    assert_eq!(params.auxiliary[0].0, aux_key(&sealed_hash()));
    let aux = PowAux::<u128>::read(Ok(params.auxiliary[0].1.clone())).unwrap();
    assert_eq!((aux.difficulty, aux.total_difficulty), (10, 40));
    assert_eq!((aux.policy, aux.steps), (Some(vec![6]), None));
    assert!(starts_over(go(state, MineEvent::Imported(Ok(())))));
}

#[test]
fn a_lighter_block_is_dropped() {
    let best = |total| {
        let aux = PowAux { total_difficulty: total, ..stored() };
        go(sealing(), MineEvent::Stored(Ok(Some(aux.encode()))))
    };
    assert!(starts_over(best(41)));
    assert!(matches!(best(40), (MineState::Importing(_), MineAction::Import(_))));
}

#[test]
fn blocks_start_without_a_digest_by_default() {
    assert!(inherent_digest(&None).is_empty());
}

#[test]
fn inherent_data_is_created_by_the_providers() {
    let providers = InherentDataProviders::new();
    register_pow_inherent_data_provider(&providers).unwrap();
    match create_inherents::<u8>(&providers) {
        MineEvent::InherentsCreated(Ok(data)) => assert_eq!(data.len(), 1),
        _ => panic!("the inherent data has to be created"),
    }
}

/// Returns what it is asked with as a seal.
struct Echo;

impl PowAlgorithm for Echo {
    type Difficulty = u128;

    fn difficulty(&self, _parent: &BlockId) -> Result<u128, Error> {
        Err(Error::InvalidSeal)
    }

    fn policy(&self, _parent: &BlockId) -> Result<Option<Vec<u8>>, Error> {
        Err(Error::InvalidSeal)
    }

    fn verify(
        &self,
        _parent: &BlockId,
        _pre_hash: &BlockHash,
        _seal: &Seal,
        _difficulty: u128,
        _policy: Option<Vec<u8>>,
    ) -> Result<bool, Error> {
        Err(Error::InvalidSeal)
    }

    fn mine(
        &self,
        parent: &BlockId,
        pre_hash: &BlockHash,
        difficulty: u128,
        policy: Option<Vec<u8>>,
        round: usize,
    ) -> Result<Option<Seal>, Error> {
        let mut seal = pre_hash.to_vec();
        if let BlockId::Hash(hash) = parent {
            seal.push(hash[0]);
        }
        seal.push(difficulty as u8);
        seal.extend(policy.unwrap());
        seal.push(round as u8);
        Ok(Some(seal))
    }
}

#[test]
fn the_algorithm_searches_for_what_is_stored_for_the_best_block() {
    let job = match mining() {
        MineState::Mining(job) => job,
        _ => panic!("the miner searches"),
    };
    let mut expected = BlakeTwo256::hash(&header(4)).to_vec();
    expected.extend(vec![8, 10, 4, 77]);
    assert_eq!(job.mine(&Echo, 77).unwrap().unwrap(), expected);
}
