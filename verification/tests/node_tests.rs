use hybrid_chain::node::coinbase::{pos_staking_reward, pow_block_reward, HALVING_INTERVAL, INITIAL_BLOCK_REWARD_LAMPORTS};
use hybrid_chain::node::consensus_data::{compute_stake_modifier, leading_zeros_from_weight, pos_kernel_hash, sha256d_block_hash};
use hybrid_chain::consensus::pow::sha256d;
use hybrid_chain::node::announce::{BlockAnnouncement, PeerTipRegistry};
use hybrid_chain::node::banking::ConsumeWorker;
use hybrid_chain::node::block_store::HybridBlockStore;
use hybrid_chain::node::consensus_data::{BlockConsensusData, ConsensusType};
use hybrid_chain::node::engine::{HybridConsensusConfig, HybridConsensusEngine};
use hybrid_chain::node::mempool::Mempool;
use hybrid_chain::node::producer::{merkle_root_of_txs, produce_block};
use hybrid_chain::node::recorder::{BlockRecorder, MAX_PENDING_TXS};
use hybrid_chain::node::replay::{BlockValidationError, PendingBlock, ReplayStage, ReplayStageConfig};
use hybrid_chain::node::scheduler::{TransactionPriorityQueue, MAX_PRIORITY_QUEUE_SIZE};
use hybrid_chain::node::services::{mining_start_nonce, mining_step, minting_round, MiningStep, StakeUtxo};

#[test]
fn test_halving_schedule() {
    assert_eq!(pow_block_reward(0), INITIAL_BLOCK_REWARD_LAMPORTS);
    assert_eq!(pow_block_reward(HALVING_INTERVAL), INITIAL_BLOCK_REWARD_LAMPORTS / 2);
    assert_eq!(pow_block_reward(HALVING_INTERVAL * 2), INITIAL_BLOCK_REWARD_LAMPORTS / 4);
    assert_eq!(pow_block_reward(HALVING_INTERVAL * 64), 0);
}

#[test]
fn test_pos_reward_proportional() {
    let one_year = 31_557_600u64;
    let lamports = 1_000_000_000u64;
    let reward = pos_staking_reward(lamports, one_year);
    assert!(reward >= 49_000_000 && reward <= 51_000_000, "reward={reward}");
    assert_eq!(reward, 50_000_000);
}

#[test]
fn test_zero_reward_after_64_halvings() {
    assert_eq!(pow_block_reward(u64::MAX), 0);
}

#[test]
fn test_sha256d_deterministic() {
    let h1 = sha256d_block_hash(&[1u8; 32], 42, 999, b"data");
    let h2 = sha256d_block_hash(&[1u8; 32], 42, 999, b"data");
    assert_eq!(h1, h2);
    let mut pre = [1u8; 32].to_vec();
    pre.extend_from_slice(&42u64.to_le_bytes());
    pre.extend_from_slice(&999u64.to_le_bytes());
    pre.extend_from_slice(b"data");
    assert_eq!(h1, sha256d(&pre));
}

#[test]
fn kernel_and_modifier() {
    let k = pos_kernel_hash(&[1u8; 32], &[2u8; 32], 3, 4);
    let mut pre = [1u8; 32].to_vec();
    pre.extend_from_slice(&[2u8; 32]);
    pre.extend_from_slice(&3u32.to_le_bytes());
    pre.extend_from_slice(&4u64.to_le_bytes());
    assert_eq!(k, sha256d(&pre));
    let m = compute_stake_modifier(&[1u8; 32], &[2u8; 32]);
    assert_ne!(m, sha256d(&[[1u8; 32], [2u8; 32]].concat()));
}

#[test]
fn weight_bits() {
    assert_eq!(leading_zeros_from_weight(5, 10), 0);
    assert_eq!(leading_zeros_from_weight(10, 10), 0);
    assert_eq!(leading_zeros_from_weight(19, 10), 0);
    assert_eq!(leading_zeros_from_weight(40, 10), 2);
    assert_eq!(leading_zeros_from_weight(u64::MAX, 1), 63);
}

#[test]
fn test_ttl_constant_sane() {
    assert!(hybrid_chain::node::mempool::TTL_SECS >= 30);
}

#[test]
fn test_max_size_sane() {
    assert!(hybrid_chain::node::mempool::MAX_SIZE >= 1000);
}

fn pow_record(bits: u32) -> BlockConsensusData {
    BlockConsensusData {
        consensus_type: ConsensusType::ProofOfWork,
        nonce: 0,
        difficulty_bits: bits,
        stake_modifier: [0u8; 32],
        coin_age_consumed: 0,
    }
}

#[test]
fn transaction_scheduler_test_priority_ordering() {
    let q: TransactionPriorityQueue<u64> = TransactionPriorityQueue::new();
    assert_eq!(q.len(), 0);
    assert!(q.is_empty());
    assert!(MAX_PRIORITY_QUEUE_SIZE >= 1024);
}

#[test]
fn priority_queue_drains_highest_first() {
    let mut q: TransactionPriorityQueue<&str> = TransactionPriorityQueue::new();
    q.push("low", 1);
    q.push("high", 9);
    q.push("mid", 5);
    q.push("high-later", 9);
    assert_eq!(q.drain_top(3), vec!["high", "high-later", "mid"]);
    assert_eq!(q.len(), 1);
    assert_eq!(q.drain_top(10), vec!["low"]);
    assert!(q.is_empty());
}

#[test]
fn mempool_test_priority_ordering() {
    let pool: Mempool<u64> = Mempool::new();
    assert_eq!(pool.len(), 0);
}

#[test]
fn mempool_orders_by_fee_and_drops_expired() {
    let mut pool: Mempool<&str> = Mempool::new();
    pool.insert_at("cheap", 1, 1_000);
    pool.insert_at("rich", 50, 1_000);
    pool.insert_at("old", 99, 800);
    assert_eq!(pool.drain_top_at(2, 1_000), vec!["rich", "cheap"]);
    assert_eq!(pool.len(), 0);
}

#[test]
fn test_merkle_root_empty() {
    let root = merkle_root_of_txs(&[]);
    assert_eq!(root.len(), 32);
}

#[test]
fn merkle_root_hashes_the_concatenation() {
    let root = merkle_root_of_txs(&[b"ab".to_vec(), b"cd".to_vec()]);
    let whole = merkle_root_of_txs(&[b"abcd".to_vec()]);
    assert_eq!(root, whole);
    assert_ne!(root, merkle_root_of_txs(&[b"ab".to_vec()]));
}

#[test]
fn produce_block_seals_and_indexes() {
    let mut recorder: BlockRecorder<u32> = BlockRecorder::new([0u8; 32], 1);
    recorder.record_transaction_at(7, 10);
    recorder.record_transaction_at(8, 11);
    recorder.record_transaction_at(9, 12);
    let mut store = HybridBlockStore::new();
    let data = pow_record(4);
    let execute = |txs: &Vec<u32>| -> Vec<bool> { txs.iter().map(|t| *t != 8).collect() };
    let encode = |t: &u32| -> Vec<u8> { vec![*t as u8] };
    let sealed = produce_block(&mut recorder, &mut store, &execute, &encode, [0u8; 32], 1, 100, data)
        .expect("sealed");
    let root = merkle_root_of_txs(&[vec![7u8], vec![9u8]]);
    assert_eq!(sealed.block_hash, sha256d_block_hash(&[0u8; 32], 1, 0, &root));
    assert_eq!(sealed.transactions, vec![7, 9]);
    assert_eq!(recorder.pending_count(), 0);
    assert_eq!(recorder.working_height(), 2);
    assert_eq!(recorder.parent_hash(), sealed.block_hash);
    let rec = store.get_by_hash(&sealed.block_hash).unwrap();
    assert_eq!(rec.cumulative_work, 16);
    assert_eq!(rec.height, 1);
    assert_eq!(store.tip_height(), 1);
}

#[test]
fn test_chain_selection() {
    let engine = HybridConsensusEngine::new(HybridConsensusConfig::standard());
    assert!(engine.is_heavier_chain(1));
    assert!(!engine.is_heavier_chain(0));
}

#[test]
fn test_mining_service_produces_block() {
    let mut config = HybridConsensusConfig::standard();
    config.pow.initial_difficulty_bits = 1;
    let engine = HybridConsensusEngine::new(config);
    let tip = engine.tip();
    let mut nonce = mining_start_nonce(0);
    let mut solved = None;
    for _ in 0..10_000 {
        match mining_step(&tip, tip.height, nonce, 1_000, [0u8; 32]) {
            MiningStep::Solved(b) => {
                solved = Some(b);
                break;
            }
            MiningStep::Next(n) => nonce = n,
            MiningStep::Restart => break,
        }
    }
    let b = solved.expect("solved");
    assert_eq!(b.height, tip.height + 1);
    assert_eq!(b.parent_hash, tip.hash);
    let h = sha256d_block_hash(&tip.hash, b.height, b.nonce, &[]);
    assert!(hybrid_chain::consensus::pow::meets_difficulty(&h, 1));
}

#[test]
fn mining_restarts_when_tip_moves() {
    let engine = HybridConsensusEngine::new(HybridConsensusConfig::standard());
    let tip = engine.tip();
    assert!(matches!(mining_step(&tip, tip.height + 1, 0, 0, [0u8; 32]), MiningStep::Restart));
    assert_eq!(mining_start_nonce(1), u64::MAX / 8);
}

#[test]
fn minting_round_without_outputs_mints_nothing() {
    let engine = HybridConsensusEngine::new(HybridConsensusConfig::standard());
    let tip = engine.tip();
    assert!(minting_round(&engine, &tip, &[], 10_000).is_none());
    let young = StakeUtxo { owner: [1u8; 32], lamports: 1, confirmation_time: 10_000, txout_hash: [2u8; 32], txout_n: 0 };
    assert_eq!(young.held_secs(9_000), 0);
    assert!(minting_round(&engine, &tip, &[young], 10_000).is_none());
}

#[test]
fn test_fork_choice_lighter_chain_rejected() {
    let engine = HybridConsensusEngine::new(HybridConsensusConfig::standard());
    let mut store = HybridBlockStore::new();
    store.insert_block(1, [1u8; 32], [0u8; 32], 1000, pow_record(24), 0);
    let config = ReplayStageConfig { block_store: store, engine };
    let mut block_hash = [0u8; 32];
    block_hash[0] = 0x00;
    let light_block = PendingBlock {
        height: 1,
        block_hash,
        parent_hash: [0u8; 32],
        block_time: 2000,
        parent_time: 1000,
        consensus_data: pow_record(1),
        extra_data: vec![],
    };
    let result = ReplayStage::validate_and_apply(&config, &light_block, Ok(()));
    assert!(result.is_err());
    assert_eq!(result, Err(BlockValidationError::PowHashInvalid { difficulty_bits: 1 }));
}

#[test]
fn fork_choice_keeps_heavier_and_passes_verdict_on() {
    let engine = HybridConsensusEngine::new(HybridConsensusConfig::standard());
    let mut store = HybridBlockStore::new();
    store.insert_block(1, [1u8; 32], [0u8; 32], 1000, pow_record(4), 0);
    let config = ReplayStageConfig { block_store: store, engine };
    let heavy = PendingBlock {
        height: 2,
        block_hash: [2u8; 32],
        parent_hash: [1u8; 32],
        block_time: 2000,
        parent_time: 1000,
        consensus_data: pow_record(4),
        extra_data: vec![],
    };
    assert_eq!(ReplayStage::validate_and_apply(&config, &heavy, Ok(())), Ok(()));
    let refused = Err(BlockValidationError::PowHashInvalid { difficulty_bits: 7 });
    assert_eq!(ReplayStage::validate_and_apply(&config, &heavy, refused), refused);
}

#[test]
fn test_registry_best_tip() {
    let mut reg = PeerTipRegistry::new();
    let peer_a = [1u8; 32];
    let peer_b = [2u8; 32];
    let ann_a = BlockAnnouncement::new_pow(10, [1u8; 32], [0u8; 32], 1000, 20, peer_a, 1_000_000);
    let ann_b = BlockAnnouncement::new_pow(11, [2u8; 32], [1u8; 32], 1060, 20, peer_b, 2_000_000);
    reg.update(peer_a, ann_a);
    reg.update(peer_b, ann_b);
    assert_eq!(reg.best_tip().unwrap().cumulative_work, 2_000_000);
}

#[test]
fn test_insert_and_lookup() {
    let mut store = HybridBlockStore::new();
    let hash = [1u8; 32];
    store.insert_block(1, hash, [0u8; 32], 1000, pow_record(20), 0);
    let rec = store.get_by_height(1).unwrap();
    assert_eq!(rec.height, 1);
    assert_eq!(rec.cumulative_work, 1u128 << 20);
}

#[test]
fn test_heavier_chain_selection() {
    let mut store = HybridBlockStore::new();
    let hash_a = [1u8; 32];
    let hash_b = [2u8; 32];
    store.insert_block(1, hash_a, [0u8; 32], 1000, pow_record(20), 0);
    store.insert_block(1, hash_b, [0u8; 32], 1000, pow_record(24), 0);
    let winner = store.heavier_tip(&hash_a, &hash_b).unwrap();
    assert_eq!(winner, hash_b);
}

#[test]
fn test_coin_age_spent() {
    let mut store = HybridBlockStore::new();
    let txhash = [9u8; 32];
    assert!(!store.is_coin_age_spent(&txhash, 0));
    store.mark_coin_age_spent(txhash, 0);
    assert!(store.is_coin_age_spent(&txhash, 0));
}

#[test]
fn test_record_and_drain() {
    let mut recorder: BlockRecorder<u64> = BlockRecorder::new([0u8; 32], 1);
    assert_eq!(recorder.pending_count(), 0);
    assert_eq!(recorder.drain_transactions(10).len(), 0);
}

#[test]
fn recorder_drains_oldest_first() {
    let mut recorder: BlockRecorder<u64> = BlockRecorder::new([0u8; 32], 1);
    recorder.record_transaction_at(1, 10);
    recorder.record_transaction_at(2, 11);
    recorder.record_transaction_at(3, 12);
    assert_eq!(recorder.drain_transactions(2), vec![1, 2]);
    assert_eq!(recorder.pending_count(), 1);
}

#[test]
fn test_seal_advances_height() {
    let mut recorder: BlockRecorder<u64> = BlockRecorder::new([0u8; 32], 5);
    assert_eq!(recorder.working_height(), 5);
    recorder.seal_block([1u8; 32]);
    assert_eq!(recorder.working_height(), 6);
    assert_eq!(recorder.parent_hash(), [1u8; 32]);
}

#[test]
fn test_queue_cap() {
    let _recorder: BlockRecorder<u64> = BlockRecorder::new([0u8; 32], 1);
    assert!(MAX_PENDING_TXS >= 1024);
}

#[test]
fn consume_worker_moves_top_of_queue() {
    let recorder: BlockRecorder<&str> = BlockRecorder::new([0u8; 32], 1);
    let mut queue: TransactionPriorityQueue<&str> = TransactionPriorityQueue::new();
    queue.push("a", 1);
    queue.push("b", 3);
    queue.push("c", 2);
    let mut worker = ConsumeWorker::new(recorder, queue);
    worker.consume_at(2, 50);
    assert_eq!(worker.queue_len(), 1);
}
