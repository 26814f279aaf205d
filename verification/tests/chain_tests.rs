use hybrid_chain::chain::block::{Block, BlockType};
use hybrid_chain::chain::blockchain::Blockchain;
use hybrid_chain::chain::pool::{DefaultPool, SubmitError};
use hybrid_chain::chain::transaction::Transaction;
use hybrid_chain::consensus::pow::meets_difficulty;
use hybrid_chain::notes::commitment::{blinding_from_seed, PedersenGenerators, ValueCommitment};
use hybrid_chain::notes::payout::SealedPayout;
use hybrid_chain::notes::keys::SpendKey;
use hybrid_chain::notes::spend::{emission_bundle, transfer_window_bundle};
use hybrid_chain::notes::spend_proof::commit_with_asset;
use curve25519_dalek::scalar::Scalar;
use hybrid_chain::notes::stake::StakeProof;
use hybrid_chain::params::{MIN_STAKE, POS_COIN_AGE_MIN, POW_BLOCK_REWARD};

fn reward_for(coins: u64, secs: u64) -> u64 {
    let years = secs as f64 / 31_557_600.0;
    (coins as f64 * 0.05 * years) as u64
}

#[test]
fn genesis_and_pow_bind_live_root() {
    let mut chain = Blockchain::new();
    // A low difficulty keeps mining quick.
    chain.current_difficulty = 12;
    let block = chain.mine_pow_block("miner").expect("solved");
    assert_eq!(block.header.height, 1);
    assert_eq!(block.header.notes_root, chain.launch.commitment());
    assert_eq!(block.header.tags_root, chain.tags.root());
    assert!(meets_difficulty(&block.hash(), block.header.difficulty));
    assert_eq!(block.header.prev_hash, chain.blocks[0].hash());
    assert_eq!(chain.height(), 2);
    assert_eq!(chain.total_supply, 2 * POW_BLOCK_REWARD);
}

#[test]
fn rebuild_matches_live_root() {
    let mut chain = Blockchain::new();
    // A low difficulty keeps mining quick.
    chain.current_difficulty = 12;
    let _ = chain.mine_pow_block("miner");
    let live = chain.launch.commitment();
    chain.rebuild_notes().expect("rebuild");
    assert_eq!(chain.launch.commitment(), live);
}

#[test]
fn extra_emission_rejected() {
    let mut chain = Blockchain::new();
    let sealed = SealedPayout::from_wallet_seed(b"sneak", 1);
    let extra = emission_bundle(&sealed.spend, &sealed.scan, 1, POW_BLOCK_REWARD, [0u8; 16]);
    assert_eq!(chain.apply_transfer(&extra), Err("use emission path for coinbase"));
}

#[test]
fn genesis_holds_one_emission() {
    let chain = Blockchain::new();
    assert_eq!(chain.blocks.len(), 1);
    assert_eq!(chain.blocks[0].compact.len(), 1);
    assert!(chain.blocks[0].compact[0].is_emission());
    assert_eq!(chain.blocks[0].header.merkle_root, Block::compute_merkle_root(&chain.blocks[0].compact));
    assert_eq!(chain.notes.len(), 2);
    assert_eq!(chain.block_index[0], chain.blocks[0].hash());
    assert_eq!(chain.tip_hash(), chain.blocks[0].hash());
    assert_eq!(chain.current_pow_reward(), POW_BLOCK_REWARD);
}

#[test]
fn rebuild_rejects_tampered_root() {
    let mut chain = Blockchain::new();
    chain.blocks[0].header.notes_root = [9u8; 32];
    assert_eq!(chain.rebuild_notes(), Err("notes_root mismatch"));
}

#[test]
fn snapshot_roundtrip_keeps_live_root() {
    let mut chain = Blockchain::new();
    // A low difficulty keeps mining quick.
    chain.current_difficulty = 12;
    let _ = chain.mine_pow_block("pool-ticket").expect("solved");
    chain.revalidate().expect("valid");
    let snap = chain.snapshot();
    let loaded = Blockchain::from_snapshot(snap).expect("load");
    assert_eq!(loaded.launch.commitment(), chain.launch.commitment());
    assert_eq!(loaded.height(), chain.height());
    assert_eq!(loaded.block_index, chain.block_index);
}

#[test]
fn revalidate_rejects_broken_link() {
    let mut chain = Blockchain::new();
    chain.blocks[0].header.height = 5;
    assert!(chain.revalidate().is_err());
    let snap = chain.snapshot();
    assert!(Blockchain::from_snapshot(snap).is_err());
}

#[test]
fn default_pool_accepts_mined_pow_block() {
    let mut chain = Blockchain::new();
    // A low difficulty keeps mining quick.
    chain.current_difficulty = 12;
    let block = chain.mine_pow_block("pool-miner").expect("solved");
    let mut pool = DefaultPool::new();
    let share = pool.submit_block("pool-miner", &block).expect("share accepted");
    assert_eq!(share.height, 1);
    assert_eq!(pool.accepted_count(), 1);
    assert_eq!(pool.rejected_count(), 0);
    assert_eq!(DefaultPool::name(), "hybrid-default-pool");
}

#[test]
fn default_pool_rejects_unsolved_header() {
    let chain = Blockchain::new();
    let mut block = chain.blocks[0].clone();
    let mut pool = DefaultPool::new();
    // Find a nonce that does not meet the difficulty.
    loop {
        block.header.nonce = block.header.nonce.wrapping_add(1);
        if !meets_difficulty(&block.hash(), block.header.difficulty) {
            break;
        }
    }
    assert!(pool.submit_block("pool-miner", &block).is_err());
    assert_eq!(pool.rejected_count(), 1);
}

#[test]
fn pool_rejects_pos_block() {
    let chain = Blockchain::new();
    let mut block = chain.blocks[0].clone();
    block.header.block_type = BlockType::PoS;
    let mut pool = DefaultPool::new();
    assert_eq!(pool.submit_block("m", &block).unwrap_err(), SubmitError::WrongBlockType);
}

#[test]
fn pos_uses_stake_proof_not_naked_coins() {
    let mut chain = Blockchain::new();
    // A low difficulty keeps mining quick.
    chain.current_difficulty = 12;
    let _ = chain.mine_pow_block("miner").expect("solved");
    let r = blinding_from_seed(b"stake-open");
    let coins = MIN_STAKE;
    let c = ValueCommitment::commit(coins, &r, &PedersenGenerators::default());
    chain.launch.append(c.commitment);
    let secs = POS_COIN_AGE_MIN + 3600;
    let proof = StakeProof::create(&chain.launch, coins, &r, secs).expect("stake");
    let block = chain.mint_pos_block("staker", &proof, reward_for(proof.coins(), proof.seconds_held)).expect("pos");
    assert_eq!(block.header.block_type, BlockType::PoS);
    assert_eq!(block.compact.len(), 1);
    assert_eq!(block.header.prev_hash, chain.blocks[1].hash());
    assert_eq!(block.header.height, 2);
}

#[test]
fn revalidate_rejects_off_schedule_emission() {
    let mut chain = Blockchain::new();
    let sealed = SealedPayout::from_wallet_seed(b"genesis", 0);
    chain.blocks[0].compact[0] = emission_bundle(&sealed.spend, &sealed.scan, 0, POW_BLOCK_REWARD + 1, [0u8; 16]);
    chain.blocks[0].header.merkle_root = Block::compute_merkle_root(&chain.blocks[0].compact);
    match chain.revalidate() {
        Err(hybrid_chain::chain::store::StoreError::Invalid(m)) => {
            assert!(m.starts_with("emission off the reward schedule"), "{m}")
        }
        other => panic!("unexpected {:?}", other),
    }
}

#[test]
fn zero_pos_reward_refused() {
    let mut chain = Blockchain::new();
    let r = blinding_from_seed(b"x");
    let c = ValueCommitment::commit(MIN_STAKE, &r, &PedersenGenerators::default());
    chain.launch.append(c.commitment);
    let proof = StakeProof::create(&chain.launch, MIN_STAKE, &r, POS_COIN_AGE_MIN).expect("stake");
    assert_eq!(chain.mint_pos_block("s", &proof, 0).unwrap_err(), "zero pos reward");
}

#[test]
fn stake_needs_live_note() {
    let chain = Blockchain::new();
    let r = blinding_from_seed(b"absent");
    assert_eq!(StakeProof::create(&chain.launch, MIN_STAKE, &r, POS_COIN_AGE_MIN).unwrap_err(), "stake note not in living set");
    assert_eq!(StakeProof::create(&chain.launch, 1, &r, POS_COIN_AGE_MIN).unwrap_err(), "Insufficient stake: below minimum");
}

#[test]
fn coinbase_and_coinstake_shapes() {
    let cb = Transaction::coinbase(7, 50, b"dest");
    assert_eq!(cb.inputs[0].prev_vout, 0xFFFF_FFFF);
    assert_eq!(cb.inputs[0].script_sig, 7u64.to_le_bytes().to_vec());
    assert_eq!(cb.outputs[0].value, 0);
    assert_eq!(cb.outputs[0].script_pubkey, b"dest".to_vec());
    let cs = Transaction::coinstake(1, 2, b"d");
    assert!(cs.is_coinstake);
    assert_eq!(cs.outputs.len(), 2);
    assert_eq!(cs.outputs[1].script_pubkey, b"d".to_vec());
    assert_ne!(cb.txid(), cs.txid());
}

fn scalar_sub(a: &[u8; 32], b: &[u8; 32]) -> [u8; 32] {
    (Scalar::from_bytes_mod_order(*a) - Scalar::from_bytes_mod_order(*b)).to_bytes()
}

#[test]
fn hidden_spend_does_not_replay_note_cm() {
    let mut chain = Blockchain::new();
    // A low difficulty keeps mining quick.
    chain.current_difficulty = 12;
    let _ = chain.mine_pow_block("miner").expect("solved");
    let height = 1u64;
    let sealed = SealedPayout::from_wallet_seed(b"miner", height);
    let reward = POW_BLOCK_REWARD;
    let mut seed = b"emit-r".to_vec();
    seed.extend_from_slice(&sealed.spend.sk);
    seed.extend_from_slice(&height.to_le_bytes());
    let in_blind = blinding_from_seed(&seed);
    let note = commit_with_asset(reward, &in_blind, &[0u8; 32]);
    let r_out = blinding_from_seed(b"wout");
    let r_fee = scalar_sub(&in_blind, &r_out);
    let bundle = transfer_window_bundle(
        &sealed.spend,
        &sealed.scan,
        &chain.launch,
        note.commitment,
        reward,
        &in_blind,
        &SpendKey::from_wallet_seed(b"recv-scan"),
        reward - 1,
        &r_out,
        1,
        &r_fee,
        [0u8; 16],
        height + 1,
    )
    .expect("window transfer");
    assert_ne!(bundle.real_spends()[0].rerand.commitment, note.commitment);
    let block = chain.mine_pow_with_bundles("miner2", vec![bundle.clone()]).expect("solved");
    assert!(block.compact.len() >= 2);
    assert!(chain.apply_transfer(&bundle).is_err());
}
