use hybrid_chain::consensus::pow::sha256d;
use hybrid_chain::notes::asset::{normalize_symbol, orth_id, ticker_id, AssetBook, TickerRecord};
use hybrid_chain::notes::keys::SpendPk;
use hybrid_chain::notes::market::{path_for_user, preview_buy, preview_sell, BoardIntent, IntentBoard, LaunchKind, LaunchPreset, MarketPath};
use hybrid_chain::notes::pred::{id_after, id_pk_n, known_id, pred_pk, verify_pred, PredContext, PredHeader, PredWitness, Predicate};
use hybrid_chain::notes::ticker::CurveSpec;

fn pk(b: u8) -> SpendPk {
    SpendPk { bytes: [b; 32] }
}

#[test]
fn orth_reserved() {
    let orth = orth_id();
    assert_eq!(orth, [0u8; 32]);
    assert!(AssetBook::is_orth(&orth));
    assert!(normalize_symbol("ORTH").is_err());
    assert!(ticker_id("ORTH").is_err());
}

#[test]
fn same_symbol_same_id() {
    assert_eq!(ticker_id("MEME").unwrap(), ticker_id("MEME").unwrap());
    assert_ne!(ticker_id("MEME").unwrap(), ticker_id("PEPE").unwrap());
}

#[test]
fn normalize_symbol_rules() {
    assert_eq!(normalize_symbol("  MEME "), Ok("MEME"));
    assert_eq!(normalize_symbol(""), Err("symbol 1..=12"));
    assert_eq!(normalize_symbol("ABCDEFGHIJKLM"), Err("symbol 1..=12"));
    assert_eq!(normalize_symbol("meme"), Err("symbol A-Z0-9"));
    assert_eq!(normalize_symbol("ORTH"), Err("ORTH is native"));
    let mut pre = b"orthal-ticker".to_vec();
    pre.extend_from_slice(b"MEME");
    assert_eq!(ticker_id(" MEME").unwrap(), sha256d(&pre));
}

#[test]
fn symbol_cannot_be_reissued() {
    let mut book = AssetBook::new();
    let id = ticker_id("MEME").unwrap();
    let rec = TickerRecord { asset: id, symbol: "MEME".into(), creator: pk(3), height: 1 };
    assert!(book.register(rec.clone()).is_ok());
    assert!(book.symbol_taken("MEME"));
    assert!(book.symbol_taken("ORTH"));
    assert!(!book.symbol_taken("PEPE"));
    assert_eq!(book.register(rec).unwrap_err(), "ticker id taken");
    assert_eq!(book.len(), 1);
    assert_eq!(book.get(&id).unwrap().height, 1);
    assert_eq!(book.by_symbol("MEME").unwrap().asset, id);
}

#[test]
fn forged_id_rejected() {
    let mut book = AssetBook::new();
    let rec = TickerRecord { asset: [9u8; 32], symbol: "MEME".into(), creator: pk(3), height: 1 };
    assert_eq!(book.register(rec).unwrap_err(), "asset id must be hash(symbol)");
    let orth = TickerRecord { asset: [0u8; 32], symbol: "MEME".into(), creator: pk(3), height: 1 };
    assert_eq!(book.register(orth).unwrap_err(), "ORTH is not issued");
}

#[test]
fn curve_is_conservative() {
    let spec = CurveSpec::new([7u8; 32], 1_000_000, 10_000, 50_000, 0);
    let a = spec.tokens_out(1_000).unwrap();
    assert!(spec.tokens_out(2_000).unwrap() > a);
    let (n, got) = spec.after_buy(1_000).unwrap();
    assert_eq!(got, a);
    assert_eq!(n.quote_raised, 1_000);
}

#[test]
fn curve_exact_values() {
    let spec = CurveSpec::new([7u8; 32], 1_000_000, 10_000, 50_000, 0);
    assert_eq!(spec.tokens_out(1_000), Ok(90_909));
    assert_eq!(spec.tokens_out(0), Err("zero buy"));
    let tiny = CurveSpec::new([7u8; 32], 1, 10_000, 50_000, 0);
    assert_eq!(tiny.tokens_out(1), Err("curve empty"));
    let huge = CurveSpec::new([7u8; 32], 1, u64::MAX, 50_000, 0);
    assert_eq!(huge.tokens_out(1), Err("curve den"));
    assert!(!spec.graduated());
}

#[test]
fn buy_then_sell_roundtrip_direction() {
    let spec = CurveSpec::new([7u8; 32], 1_000_000, 10_000, 80_000, 0);
    let q = preview_buy(&spec, 1_000).unwrap();
    let (next, _) = spec.after_buy(1_000).unwrap();
    let back = preview_sell(&next, q.tokens_out).unwrap();
    assert!(back > 0 && back <= 1_000);
}

#[test]
fn sell_errors() {
    let spec = CurveSpec::new([7u8; 32], 1_000_000, 10_000, 80_000, 0);
    assert_eq!(preview_sell(&spec, 1), Err("sell exceeds sold"));
    let (next, got) = spec.after_buy(1_000).unwrap();
    assert_eq!(preview_sell(&next, got + 1), Err("sell exceeds sold"));
    assert_eq!(preview_sell(&next, 0), Err("sell exceeds sold"));
}

#[test]
fn board_requires_orth_leg() {
    let mut b = IntentBoard::new();
    assert!(b.post(BoardIntent { id: [1u8; 32], want: [2u8; 32], pay: [3u8; 32], expire_height: 9 }).is_err());
    assert!(b.post(BoardIntent { id: [1u8; 32], want: [2u8; 32], pay: orth_id(), expire_height: 9 }).is_ok());
}

#[test]
fn board_post_and_take() {
    let mut b = IntentBoard::new();
    let it = BoardIntent { id: [1u8; 32], want: [2u8; 32], pay: orth_id(), expire_height: 9 };
    assert_eq!(b.post(BoardIntent { id: [4u8; 32], want: [2u8; 32], pay: [2u8; 32], expire_height: 9 }), Err("want == pay"));
    assert!(b.post(it).is_ok());
    assert_eq!(b.post(it), Err("dup intent"));
    assert_eq!(b.take([1u8; 32]), Some(it));
    assert_eq!(b.take([1u8; 32]), None);
    assert!(b.open.is_empty());
}

#[test]
fn new_user_is_told_to_mine() {
    assert_eq!(path_for_user(false, false, None, 0, 0), vec![MarketPath::MineOrth]);
}

#[test]
fn user_paths() {
    assert_eq!(path_for_user(true, false, None, 0, 0), vec![MarketPath::BirthTicker, MarketPath::BuyOnCurve]);
    let mut spec = CurveSpec::new([7u8; 32], 100, 10, 5, 0);
    spec.quote_raised = 5;
    assert_eq!(
        path_for_user(true, true, Some(&spec), 10, 10),
        vec![MarketPath::BuyOnCurve, MarketPath::SellOnCurve, MarketPath::TransferNote, MarketPath::GraduateLp, MarketPath::TeamUnlock]
    );
    assert_eq!(MarketPath::GraduateLp.label(), "graduate to LP note");
    let p = LaunchPreset::deep();
    assert_eq!(p.kind, LaunchKind::Deep);
    assert_eq!(LaunchPreset::fair().team_value, 0);
    assert_eq!(LaunchPreset::locked_team().team_unlock_delta, 10_000);
}

#[test]
fn after_respects_height() {
    let p = Predicate::After { height: 10 };
    let h = PredHeader::from_pred(&p);
    let w = PredWitness::none();
    let dests: Vec<SpendPk> = vec![];
    let early = PredContext { height: 9, claimed: &p, header: &h, witness: &w, out_dests: &dests };
    assert_eq!(verify_pred(early).unwrap_err(), "after: too early");
    let ok = PredContext { height: 10, claimed: &p, header: &h, witness: &w, out_dests: &dests };
    assert!(verify_pred(ok).is_ok());
}

#[test]
fn after_spend_ok_at_height() {
    let pred = Predicate::After { height: 3 };
    let header = PredHeader::from_pred(&pred);
    let w = PredWitness::none();
    let dests = vec![];
    let ctx = PredContext { height: 3, claimed: &pred, header: &header, witness: &w, out_dests: &dests };
    assert!(verify_pred(ctx).is_ok());
}

#[test]
fn pkn_threshold() {
    let dests = vec![pk(1), pk(2), pk(3)];
    let p = Predicate::PkN { dests: dests.clone(), n: 2 };
    let h = PredHeader::from_pred(&p);
    let outs: Vec<SpendPk> = vec![];
    let short = PredWitness { keys: vec![0], fill: vec![] };
    let ctx = PredContext { height: 1, claimed: &p, header: &h, witness: &short, out_dests: &outs };
    assert!(verify_pred(ctx).is_err());
    let ok = PredWitness { keys: vec![0, 2], fill: vec![] };
    let ctx = PredContext { height: 1, claimed: &p, header: &h, witness: &ok, out_dests: &outs };
    assert!(verify_pred(ctx).is_ok());
    let dup = PredWitness { keys: vec![0, 0], fill: vec![] };
    let ctx = PredContext { height: 1, claimed: &p, header: &h, witness: &dup, out_dests: &outs };
    assert_eq!(verify_pred(ctx), Err("bad pk-n witness"));
}

#[test]
fn pred_mismatches_and_combinators() {
    let p = Predicate::After { height: 10 };
    let w = PredWitness::none();
    let outs: Vec<SpendPk> = vec![pk(7)];
    let wrong_id = PredHeader::pk();
    let ctx = PredContext { height: 20, claimed: &p, header: &wrong_id, witness: &w, out_dests: &outs };
    assert_eq!(verify_pred(ctx), Err("pred id mismatch"));
    let wrong_commit = PredHeader { id: id_after(), commit: [1u8; 32] };
    let ctx = PredContext { height: 20, claimed: &p, header: &wrong_commit, witness: &w, out_dests: &outs };
    assert_eq!(verify_pred(ctx), Err("pred commit mismatch"));
    let or = Predicate::Or {
        left: Box::new(Predicate::After { height: 100 }),
        right: Box::new(Predicate::Rate { dest: pk(7), max_per_window: 1, window: 1 }),
    };
    let h = PredHeader::from_pred(&or);
    let ctx = PredContext { height: 20, claimed: &or, header: &h, witness: &w, out_dests: &outs };
    assert!(verify_pred(ctx).is_ok());
    let and = Predicate::And {
        left: Box::new(Predicate::After { height: 100 }),
        right: Box::new(Predicate::Swap { want_asset: [1u8; 32], pay_asset: [0u8; 32], max_in: 1, min_out: 1 }),
    };
    let h = PredHeader::from_pred(&and);
    let ctx = PredContext { height: 20, claimed: &and, header: &h, witness: &w, out_dests: &outs };
    assert_eq!(verify_pred(ctx), Err("after: too early"));
}

#[test]
fn unknown_id_is_not_listed() {
    assert!(!known_id(&[1u8; 32]));
    assert!(known_id(&pred_pk()));
    assert!(known_id(&id_after()));
    assert!(known_id(&id_pk_n()));
}

#[test]
fn commit_binds_params() {
    let a = Predicate::After { height: 1 };
    let b = Predicate::After { height: 2 };
    assert_ne!(a.commit(), b.commit());
    assert_eq!(a.id(), b.id());
    let mut bytes = 2u32.to_le_bytes().to_vec();
    bytes.extend_from_slice(&1u64.to_le_bytes());
    assert_eq!(a.commit(), sha256d(&bytes));
    let mut pre = b"orthal-pred-id".to_vec();
    pre.extend_from_slice(b"after");
    assert_eq!(id_after(), sha256d(&pre));
}
