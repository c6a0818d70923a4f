//! Blocks from elsewhere, from their header to the importer.
use sc_pow::algorithm::PowAlgorithm;
use sc_pow::auxiliary::{aux_key, PowAux};
use sc_pow::error::Error;
use sc_pow::header::{BlakeTwo256, BlockHash, BlockId, DigestItem, Hashing, Header, Seal};
use sc_pow::import::{BlockImportParams, BlockOrigin, ForkChoiceStrategy, POW_ENGINE_ID};
use sc_pow::inherents::{register_pow_inherent_data_provider, InherentsVerdict, TIMESTAMP_IDENTIFIER};
use sc_pow::mining::Job;
use sc_pow::verification::{
    unseal, BestBlock, Candidate, InherentsStep, PowVerifier, Verification,
};
use sp_inherents::{CheckInherentsResult, InherentData, InherentDataProviders};

/// Accepts the seal that is the first byte of the hash, then the difficulty, then the policy.
struct Toy {
    difficulty: Option<u128>,
    policy: Option<Vec<u8>>,
}

fn toy_seal(pre_hash: &BlockHash, difficulty: u128, policy: &Option<Vec<u8>>) -> Seal {
    let mut seal = vec![pre_hash[0], difficulty as u8];
    if let Some(p) = policy {
        seal.extend(p);
    }
    seal
}

impl PowAlgorithm for Toy {
    type Difficulty = u128;

    fn difficulty(&self, parent: &BlockId) -> Result<u128, Error> {
        assert!(matches!(parent, BlockId::Hash(h) if h == &[1; 32]));
        self.difficulty.ok_or(Error::Environment("no difficulty".to_string()))
    }

    fn policy(&self, _parent: &BlockId) -> Result<Option<Vec<u8>>, Error> {
        match &self.policy {
            Some(p) if p.is_empty() => Err(Error::Environment("no policy".to_string())),
            other => Ok(other.clone()),
        }
    }

    fn verify(
        &self,
        _parent: &BlockId,
        pre_hash: &BlockHash,
        seal: &Seal,
        difficulty: u128,
        policy: Option<Vec<u8>>,
    ) -> Result<bool, Error> {
        if seal.is_empty() {
            return Err(Error::Runtime("no seal".to_string()));
        }
        Ok(seal == &toy_seal(pre_hash, difficulty, &policy))
    }

    fn mine(
        &self,
        _parent: &BlockId,
        pre_hash: &BlockHash,
        difficulty: u128,
        policy: Option<Vec<u8>>,
        _round: usize,
    ) -> Result<Option<Seal>, Error> {
        Ok(Some(toy_seal(pre_hash, difficulty, &policy)))
    }
}

fn toy() -> Toy {
    Toy { difficulty: Some(10), policy: Some(vec![4]) }
}

fn checker(algorithm: Toy) -> PowVerifier<BlakeTwo256, Toy> {
    PowVerifier::new(algorithm, 5, InherentDataProviders::new())
}

fn header(number: u64) -> Header {
    Header {
        parent_hash: [1; 32],
        number,
        state_root: [2; 32],
        extrinsics_root: [3; 32],
        digest: vec![DigestItem::PreRuntime(POW_ENGINE_ID, vec![1])],
    }
}

fn sealed(number: u64) -> Header {
    let mut header = header(number);
    let seal = toy_seal(&BlakeTwo256::hash(&header), 10, &Some(vec![4]));
    header.push_digest(DigestItem::Seal(POW_ENGINE_ID, seal));
    header
}

fn data(now: u64) -> InherentData {
    let mut data = InherentData::new();
    data.put_data(TIMESTAMP_IDENTIFIER, &now).unwrap();
    data
}

fn stored(total: u128) -> Option<Vec<u8>> {
    let aux = PowAux { difficulty: 1, total_difficulty: total, policy: None, steps: Some(8) };
    Some(aux.encode())
}

fn begun(header: Header, body: Option<Vec<u32>>) -> Verification<u32> {
    Verification::begin(
        BlockOrigin::NetworkBroadcast,
        header,
        Some(vec![6]),
        body,
        Ok(data(1000)),
    )
    .unwrap()
}

fn candidate(best: u128, parent: u128) -> Candidate<u128> {
    let located = begun(sealed(9), None).best::<BlakeTwo256>(BestBlock::Client([8; 32])).unwrap();
    let checked = checker(toy()).check(located, Ok(stored(best)), Ok(stored(parent))).unwrap();
    match checker(toy()).check_inherents(checked) {
        InherentsStep::Skip(candidate) => candidate,
        InherentsStep::Ask(_, _, _, _) => panic!("there is no body"),
    }
}

#[test]
fn engine_identifier_is_that_of_proof_of_work() {
    assert_eq!(POW_ENGINE_ID, sp_consensus_pow::POW_ENGINE_ID);
}

#[test]
fn unsealing_undoes_sealing() {
    let (pre_header, seal) = unseal::<BlakeTwo256>(sealed(9)).unwrap();
    assert_eq!(BlakeTwo256::hash(&pre_header), BlakeTwo256::hash(&header(9)));
    assert_eq!(seal, toy_seal(&BlakeTwo256::hash(&header(9)), 10, &Some(vec![4])));
}

#[test]
fn headers_without_a_seal_of_the_engine_are_refused() {
    let hash = BlakeTwo256::hash(&header(9));
    match unseal::<BlakeTwo256>(header(9)) {
        Err(Error::HeaderUnsealed(h)) => assert_eq!(h, hash),
        _ => panic!("the header is unsealed"),
    }
    let empty = Header { digest: vec![], ..header(9) };
    assert!(matches!(unseal::<BlakeTwo256>(empty), Err(Error::HeaderUnsealed(_))));
    let mut foreign = header(9);
    foreign.push_digest(DigestItem::Seal(*b"aura", vec![1]));
    match unseal::<BlakeTwo256>(foreign) {
        Err(Error::WrongEngine(id)) => assert_eq!(&id, b"aura"),
        _ => panic!("the header is sealed by another engine"),
    }
}

#[test]
fn a_valid_seal_passes() {
    let (pre_header, difficulty, policy, seal) =
        checker(toy()).check_header(sealed(9), BlockId::Hash([1; 32])).unwrap();
    assert_eq!(BlakeTwo256::hash(&pre_header), BlakeTwo256::hash(&header(9)));
    assert_eq!(difficulty, 10);
    assert_eq!(policy, Some(vec![4]));
    let mut whole = pre_header;
    whole.push_digest(seal);
    assert_eq!(BlakeTwo256::hash(&whole), BlakeTwo256::hash(&sealed(9)));
}

#[test]
fn the_algorithm_decides_on_seals() {
    let check = |algorithm: Toy, header: Header| {
        checker(algorithm).check_header(header, BlockId::Hash([1; 32])).map(|_| ()).unwrap_err()
    };
    let mut wrong = header(9);
    wrong.push_digest(DigestItem::Seal(POW_ENGINE_ID, vec![0, 0, 0]));
    assert!(matches!(check(toy(), wrong), Error::InvalidSeal));
    let mut empty = header(9);
    empty.push_digest(DigestItem::Seal(POW_ENGINE_ID, vec![]));
    assert!(matches!(check(toy(), empty), Error::Runtime(e) if e == "no seal"));
    let harder = Toy { difficulty: Some(11), ..toy() };
    assert!(matches!(check(harder, sealed(9)), Error::InvalidSeal));
    let failing = Toy { difficulty: None, ..toy() };
    assert!(matches!(check(failing, sealed(9)), Error::Environment(e) if e == "no difficulty"));
    let failing = Toy { policy: Some(vec![]), ..toy() };
    assert!(matches!(check(failing, sealed(9)), Error::Environment(e) if e == "no policy"));
}

#[test]
fn preliminary_check_is_not_available_by_default() {
    assert!(matches!(toy().preliminary_verify(&[0; 32], &vec![]), Ok(None)));
}

#[test]
fn a_check_begins_with_the_time() {
    assert_eq!(begun(sealed(9), None).now, 1000);
    let begin = |data| {
        Verification::<u32>::begin(BlockOrigin::File, sealed(9), None, None, data)
            .map(|_| ())
            .unwrap_err()
    };
    assert_eq!(begin(Err("no data".to_string())), "no data");
    assert_eq!(begin(Ok(InherentData::new())), "Timestamp inherent data not found");
    let mut short = InherentData::new();
    short.put_data(TIMESTAMP_IDENTIFIER, &7u32).unwrap();
    assert_eq!(begin(Ok(short)), "Could not decode requested inherent type!");
}

#[test]
fn the_time_comes_from_the_registered_provider() {
    let providers = InherentDataProviders::new();
    let checker = PowVerifier::<BlakeTwo256, Toy>::new(toy(), 5, providers.clone());
    let verify = || checker.verify::<u32>(BlockOrigin::Own, sealed(9), None, None);
    assert_eq!(verify().map(|_| ()).unwrap_err(), "Timestamp inherent data not found");
    register_pow_inherent_data_provider(&providers).unwrap();
    assert!(verify().unwrap().now > 1_600_000_000_000);
}

#[test]
fn the_best_block_is_located() {
    let located = begun(sealed(9), None)
        .best::<BlakeTwo256>(BestBlock::SelectChain(Ok(header(3))))
        .unwrap();
    assert_eq!(located.best_hash, BlakeTwo256::hash(&header(3)));
    assert_eq!(located.best_key(), aux_key(&BlakeTwo256::hash(&header(3))));
    assert_eq!(located.parent_key(), aux_key(&[1; 32]));
    let failed = begun(sealed(9), None)
        .best::<BlakeTwo256>(BestBlock::SelectChain(Err("IoTerminated".to_string())));
    assert_eq!(
        failed.map(|_| ()).unwrap_err(),
        "Fetch best chain failed via select chain: IoTerminated",
    );
}

#[test]
fn unreadable_stored_data_ends_the_check() {
    let check = |best, parent| {
        let located =
            begun(sealed(9), None).best::<BlakeTwo256>(BestBlock::Client([8; 32])).unwrap();
        checker(toy()).check(located, best, parent).map(|_| ()).unwrap_err()
    };
    assert_eq!(check(Err("a".to_string()), Err("b".to_string())), "a");
    assert_eq!(check(Ok(None), Err("b".to_string())), "b");
    assert_eq!(check(Ok(None), Ok(Some(vec![]))), "Error decoding field PowAux.difficulty");
    let located = begun(header(9), None).best::<BlakeTwo256>(BestBlock::Client([8; 32])).unwrap();
    let refused = checker(toy()).check(located, Ok(None), Ok(None)).map(|_| ()).unwrap_err();
    let hash = BlakeTwo256::hash(&header(9));
    assert_eq!(refused, Error::HeaderUnsealed(hash).to_string());
}

#[test]
fn inherents_are_checked_from_the_given_number_on() {
    let step = |number, body| {
        let located =
            begun(sealed(number), body).best::<BlakeTwo256>(BestBlock::Client([8; 32])).unwrap();
        let checked = checker(toy()).check(located, Ok(None), Ok(None)).unwrap();
        checker(toy()).check_inherents(checked)
    };
    assert!(matches!(step(9, None), InherentsStep::Skip(_)));
    assert!(matches!(step(4, Some(vec![1])), InherentsStep::Skip(_)));
    match step(5, Some(vec![1, 2])) {
        InherentsStep::Ask(id, block, data, candidate) => {
            assert!(matches!(id, BlockId::Hash(h) if h == [1; 32]));
            assert_eq!(block.extrinsics, vec![1, 2]);
            assert_eq!(BlakeTwo256::hash(&block.header), BlakeTwo256::hash(&header(5)));
            assert_eq!(data.get_data::<u64>(&TIMESTAMP_IDENTIFIER).unwrap(), Some(1000));
            assert_eq!(candidate.now, 1000);
        },
        InherentsStep::Skip(_) => panic!("the inherents have to be checked"),
    }
}

#[test]
fn answers_of_the_runtime_are_judged() {
    let verdict = candidate(0, 0).judge(Err("api".to_string()));
    assert!(matches!(verdict, InherentsVerdict::Rejected(Error::Client(e)) if e == "api"));
    let verdict = candidate(0, 0).judge(Ok(CheckInherentsResult::new()));
    assert!(matches!(verdict, InherentsVerdict::Accepted));
}

#[test]
fn only_accepted_inherents_lead_to_the_importer() {
    let located = |body| {
        begun(sealed(9), body).best::<BlakeTwo256>(BestBlock::Client([8; 32])).unwrap()
    };
    let checker = checker(toy());
    let end = |body, answer: Result<CheckInherentsResult, String>| {
        let checked = checker.check(located(body), Ok(None), Ok(None)).unwrap();
        let (candidate, inherents) = match checker.check_inherents(checked) {
            InherentsStep::Skip(candidate) => (candidate, Ok(())),
            InherentsStep::Ask(_, _, _, candidate) => {
                let verdict = candidate.judge(answer);
                (candidate, verdict.outcome(&checker.inherent_data_providers))
            },
        };
        candidate.finish::<u32>(inherents).map(|params| params.auxiliary[0].0.clone())
    };
    let timestamp_error = |latest: u64| {
        let mut result = CheckInherentsResult::new();
        let error = sp_timestamp::InherentError::ValidAtTimestamp(latest);
        result.put_error(TIMESTAMP_IDENTIFIER, &error).unwrap();
        Ok(result)
    };
    let key = aux_key(&BlakeTwo256::hash(&sealed(9)));
    assert_eq!(end(None, Err("not asked".to_string())), Ok(key.clone()));
    assert_eq!(end(Some(vec![1]), Ok(CheckInherentsResult::new())), Ok(key.clone()));
    assert_eq!(end(Some(vec![1]), timestamp_error(1060)), Ok(key));
    assert_eq!(
        end(Some(vec![1]), timestamp_error(1061)),
        Err("Rejecting block too far in future".to_string()),
    );
    assert_eq!(end(Some(vec![1]), Err("api".to_string())), Err("api".to_string()));
}

#[test]
fn a_refused_block_does_not_reach_the_importer() {
    let refused = candidate(0, 30).finish::<u32>(Err(Error::CheckInherents("no".to_string())));
    assert_eq!(refused.map(|_| ()).unwrap_err(), "Checking inherents failed: no");
}

#[test]
fn the_importer_gets_the_block_without_its_seal() {
    assert!(candidate(0, 30).is_storable());
    let params: BlockImportParams<u32, ()> = candidate(0, 30).finish(Ok(())).unwrap();
    assert_eq!(params.origin, BlockOrigin::NetworkBroadcast);
    assert_eq!(params.justification, Some(vec![6]));
    assert!(params.body.is_none() && params.storage_changes.is_none() && !params.finalized);
    assert!(!params.allow_missing_state && !params.import_existing);
    assert_eq!(BlakeTwo256::hash(&params.header), BlakeTwo256::hash(&header(9)));
    assert_eq!(params.post_digests.len(), 1);
    let mut whole = params.header.clone();
    whole.push_digest(params.post_digests[0].clone());
    assert_eq!(BlakeTwo256::hash(&whole), BlakeTwo256::hash(&sealed(9)));
    assert_eq!(params.auxiliary.len(), 1);
    assert_eq!(params.auxiliary[0].0, aux_key(&BlakeTwo256::hash(&sealed(9))));
    let aux = PowAux::<u128>::read(Ok(params.auxiliary[0].1.clone())).unwrap();
    assert_eq!((aux.difficulty, aux.total_difficulty), (10, 40));
    assert_eq!((aux.policy, aux.steps), (Some(vec![4]), Some(8)));
}

#[test]
fn only_a_heavier_chain_becomes_the_best() {
    let choice = |best, parent| candidate(best, parent).finish::<u32>(Ok(())).unwrap().fork_choice;
    assert_eq!(choice(39, 30), Some(ForkChoiceStrategy::Custom(true)));
    assert_eq!(choice(40, 30), Some(ForkChoiceStrategy::Custom(false)));
    assert_eq!(choice(41, 30), Some(ForkChoiceStrategy::Custom(false)));
}

#[test]
fn the_stored_total_is_the_work_of_the_chain() {
    let mut parent: Option<Vec<u8>> = None;
    for total in vec![10u128, 20, 30] {
        let located =
            begun(sealed(9), None).best::<BlakeTwo256>(BestBlock::Client([8; 32])).unwrap();
        let checked = checker(toy()).check(located, Ok(None), Ok(parent.clone())).unwrap();
        let params: BlockImportParams<u32, ()> = checked.candidate.finish(Ok(())).unwrap();
        parent = params.auxiliary[0].1.clone();
        let aux = PowAux::<u128>::read(Ok(parent.clone())).unwrap();
        assert_eq!((aux.difficulty, aux.total_difficulty), (10, total));
    }
}

#[test]
fn what_is_mined_on_one_node_is_stored_alike_on_another() {
    let aux = PowAux { difficulty: 10, total_difficulty: 30, policy: Some(vec![4]), steps: None };
    let parent = aux.encode();
    let job = Job {
        best_hash: [1; 32],
        aux,
        header: header(9),
        pre_hash: BlakeTwo256::hash(&header(9)),
        storage_changes: (),
    };
    let seal = job.mine(&toy(), 1).unwrap().unwrap();
    let mined = job.seal::<BlakeTwo256>(seal, vec![4]);
    let mut whole = mined.header.clone();
    whole.push_digest(mined.seal.clone());
    let located = begun(whole, None).best::<BlakeTwo256>(BestBlock::Client([8; 32])).unwrap();
    let checked = checker(toy()).check(located, Ok(None), Ok(Some(parent))).unwrap();
    let there: BlockImportParams<u32, ()> = checked.candidate.finish(Ok(())).unwrap();
    let here: BlockImportParams<u32, ()> = mined.import();
    assert_eq!(here.auxiliary, there.auxiliary);
    assert_eq!(BlakeTwo256::hash(&here.header), BlakeTwo256::hash(&there.header));
}
