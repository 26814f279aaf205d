//! Ticker market: presets, quote preview, the intent board and the user path.

use vstd::prelude::*;
use crate::notes::asset::{orth_id, orth_spec};
use crate::notes::ticker::{CurveSpec, tokens_out_spec, after_buy_spec, tokens_out_error};
use crate::bytes::bytes32_eq;

verus! {

/// The kind of a launch preset.
#[derive(Clone, Copy, Debug, PartialEq, Eq)]
pub enum LaunchKind {
    Fair,
    LockedTeam,
    Deep,
}

/// Curve and team parameters of a launch.
#[derive(Clone, Copy, Debug)]
pub struct LaunchPreset {
    pub kind: LaunchKind,
    pub cap: u64,
    pub virtual_quote: u64,
    pub graduate_quote: u64,
    pub team_value: u64,
    pub team_unlock_delta: u64,
}

impl LaunchPreset {
    /// No team allocation.
    pub fn fair() -> (p: Self)
        ensures
            p == (LaunchPreset { kind: LaunchKind::Fair, cap: 1_000_000_0000, virtual_quote: 50_0000_0000,
                graduate_quote: 200_0000_0000, team_value: 0, team_unlock_delta: 0 }),
    {
        LaunchPreset { kind: LaunchKind::Fair, cap: 1_000_000_0000, virtual_quote: 50_0000_0000, graduate_quote: 200_0000_0000, team_value: 0, team_unlock_delta: 0 }
    }

    /// A team allocation locked for a while.
    pub fn locked_team() -> (p: Self)
        ensures
            p == (LaunchPreset { kind: LaunchKind::LockedTeam, cap: 1_000_000_0000, virtual_quote: 50_0000_0000,
                graduate_quote: 200_0000_0000, team_value: 50_000_0000, team_unlock_delta: 10_000 }),
    {
        LaunchPreset { kind: LaunchKind::LockedTeam, cap: 1_000_000_0000, virtual_quote: 50_0000_0000, graduate_quote: 200_0000_0000, team_value: 50_000_0000, team_unlock_delta: 10_000 }
    }

    /// A deeper curve with a larger locked team allocation.
    pub fn deep() -> (p: Self)
        ensures
            p == (LaunchPreset { kind: LaunchKind::Deep, cap: 2_000_000_0000, virtual_quote: 200_0000_0000,
                graduate_quote: 800_0000_0000, team_value: 80_000_0000, team_unlock_delta: 20_000 }),
    {
        LaunchPreset { kind: LaunchKind::Deep, cap: 2_000_000_0000, virtual_quote: 200_0000_0000, graduate_quote: 800_0000_0000, team_value: 80_000_0000, team_unlock_delta: 20_000 }
    }
}

/// Preview of a buy.
#[derive(Clone, Copy, Debug, PartialEq, Eq)]
pub struct Quote {
    pub quote_in: u64,
    pub tokens_out: u64,
    pub quote_raised_after: u64,
    pub cap_remaining_after: u64,
    pub graduates: bool,
}

/// The quote of an accepted buy.
pub open spec fn quote_spec(spec: CurveSpec, quote_in: u64) -> Quote {
    let got = tokens_out_spec(spec, quote_in) as u64;
    let next = after_buy_spec(spec, quote_in, got);
    Quote {
        quote_in,
        tokens_out: got,
        quote_raised_after: next.quote_raised,
        cap_remaining_after: next.cap_remaining,
        graduates: next.quote_raised >= next.graduate_quote,
    }
}

/// Previews a buy on the curve.
pub fn preview_buy(spec: &CurveSpec, quote_in: u64) -> (r: Result<Quote, &'static str>)
    ensures
        r is Ok <==> (quote_in != 0 && spec.virtual_quote + spec.quote_raised + quote_in <= u64::MAX
            && tokens_out_spec(*spec, quote_in) > 0),
        r matches Ok(q) ==> q == quote_spec(*spec, quote_in),
        r matches Err(e) ==> e@ == tokens_out_error(*spec, quote_in),
{
    let (next, tokens) = match spec.after_buy(quote_in) {
        Ok(x) => x,
        Err(e) => return Err(e),
    };
    Ok(Quote {
        quote_in,
        tokens_out: tokens,
        quote_raised_after: next.quote_raised,
        cap_remaining_after: next.cap_remaining,
        graduates: next.graduated(),
    })
}

/// Quote returned for selling `tokens_in` back, before the checks on it.
pub open spec fn sell_out_spec(spec: CurveSpec, tokens_in: u64) -> int {
    let q = if spec.virtual_quote + spec.quote_raised <= u64::MAX { spec.virtual_quote + spec.quote_raised } else { u64::MAX as int };
    let den = if spec.cap_remaining + tokens_in <= u64::MAX { spec.cap_remaining + tokens_in } else { u64::MAX as int };
    q * tokens_in / den
}

/// Tokens sold so far.
pub open spec fn sold_spec(spec: CurveSpec) -> int {
    if spec.cap >= spec.cap_remaining { spec.cap - spec.cap_remaining } else { 0 }
}

/// Previews selling tokens back to the curve: `(virtual + raised) * tokens_in / (remaining + tokens_in)`.
pub fn preview_sell(spec: &CurveSpec, tokens_in: u64) -> (r: Result<u64, &'static str>)
    ensures
        (tokens_in == 0 || tokens_in > sold_spec(*spec)) ==> (r matches Err(e) && e@ == "sell exceeds sold"@),
        !(tokens_in == 0 || tokens_in > sold_spec(*spec)) && (sell_out_spec(*spec, tokens_in) == 0
            || sell_out_spec(*spec, tokens_in) > spec.quote_raised) ==> (r matches Err(e) && e@ == "sell empty"@),
        r is Ok <==> (tokens_in != 0 && tokens_in <= sold_spec(*spec) && sell_out_spec(*spec, tokens_in) != 0
            && sell_out_spec(*spec, tokens_in) <= spec.quote_raised),
        r matches Ok(out) ==> out == sell_out_spec(*spec, tokens_in),
{
    let sold = spec.cap.saturating_sub(spec.cap_remaining);
    if tokens_in == 0 || tokens_in > sold {
        return Err("sell exceeds sold");
    }
    let q = spec.virtual_quote.saturating_add(spec.quote_raised);
    let den = spec.cap_remaining.saturating_add(tokens_in);
    if den == 0 {
        return Err("sell den");
    }
    let q128 = q as u128;
    let t128 = tokens_in as u128;
    assert(q128 * t128 <= u128::MAX) by (nonlinear_arith)
        requires
            q128 <= u64::MAX,
            t128 <= u64::MAX,
    ;
    proof {
        let qi = q as int;
        let ti = tokens_in as int;
        let di = den as int;
        assert(qi * ti / di <= qi) by (nonlinear_arith)
            requires
                qi >= 0,
                ti >= 1,
                di >= ti,
        ;
    }
    let out = (q128 * t128 / (den as u128)) as u64;
    if out == 0 || out > spec.quote_raised {
        return Err("sell empty");
    }
    Ok(out)
}

/// Law: selling back the tokens a buy just received never returns more than
/// the buy paid (no round-trip profit), while nothing saturated.
pub proof fn lemma_buy_then_sell_no_profit(spec: CurveSpec, quote_in: u64)
    requires
        quote_in != 0,
        spec.virtual_quote + spec.quote_raised + quote_in <= u64::MAX,
        tokens_out_spec(spec, quote_in) > 0,
        spec.cap_remaining <= spec.cap,
    ensures
        ({
            let got = tokens_out_spec(spec, quote_in) as u64;
            sell_out_spec(after_buy_spec(spec, quote_in, got), got) <= quote_in
        }),
{
    let c = spec.cap_remaining as int;
    let b = spec.virtual_quote as int + spec.quote_raised as int;
    let q = quote_in as int;
    let t = tokens_out_spec(spec, quote_in);
    assert(t * (b + q) <= c * q) by (nonlinear_arith)
        requires
            t == c * q / (b + q),
            b + q > 0,
            c >= 0,
            q >= 0,
    ;
    assert(t <= c) by (nonlinear_arith)
        requires
            t == c * q / (b + q),
            b >= 0,
            q >= 1,
            c >= 0,
    ;
    let next = after_buy_spec(spec, quote_in, t as u64);
    assert(next.cap_remaining as int + t == c);
    assert((b + q) * t / c <= q) by (nonlinear_arith)
        requires
            t * (b + q) <= c * q,
            c > 0,
            t >= 0,
            b + q > 0,
    ;
}

/// An open swap intent on the board.
#[derive(Clone, Copy, Debug, PartialEq, Eq)]
pub struct BoardIntent {
    pub id: [u8; 32],
    pub want: [u8; 32],
    pub pay: [u8; 32],
    pub expire_height: u64,
}

/// Open intents, in posting order.
#[derive(Clone, Debug)]
pub struct IntentBoard {
    pub open: Vec<BoardIntent>,
}

/// Whether some open intent has this id.
pub open spec fn has_intent(open: Seq<BoardIntent>, id: [u8; 32]) -> bool {
    exists|i: int| 0 <= i < open.len() && #[trigger] open[i].id == id
}

/// Index of the first open intent with this id.
pub open spec fn first_intent(open: Seq<BoardIntent>, id: [u8; 32]) -> int {
    choose|i: int| 0 <= i < open.len() && open[i].id == id && (forall|j: int| 0 <= j < i ==> open[j].id != id)
}

fn find_intent(open: &Vec<BoardIntent>, id: &[u8; 32]) -> (r: Option<usize>)
    ensures
        r is None <==> !has_intent(open@, *id),
        r matches Some(i) ==> i < open@.len() && open@[i as int].id == *id
            && (forall|j: int| 0 <= j < i ==> open@[j].id != *id),
{
    let mut i: usize = 0;
    while i < open.len()
        invariant
            0 <= i <= open@.len(),
            forall|j: int| 0 <= j < i ==> open@[j].id != *id,
        decreases open@.len() - i,
    {
        if bytes32_eq(&open[i].id, id) {
            return Some(i);
        }
        i = i + 1;
    }
    None
}

impl IntentBoard {
    /// An empty board.
    pub fn new() -> (b: Self)
        ensures
            b.open@ == Seq::<BoardIntent>::empty(),
    {
        IntentBoard { open: Vec::new() }
    }

    /// Posts an intent: the legs must differ, one must be ORTH, and the id must be new.
    pub fn post(&mut self, it: BoardIntent) -> (r: Result<(), &'static str>)
        ensures
            it.want == it.pay ==> (r matches Err(e) && e@ == "want == pay"@),
            it.want != it.pay && it.pay != orth_spec() && it.want != orth_spec() ==> (r matches Err(e) && e@ == "one leg must be ORTH"@),
            it.want != it.pay && (it.pay == orth_spec() || it.want == orth_spec()) && has_intent(old(self).open@, it.id)
                ==> (r matches Err(e) && e@ == "dup intent"@),
            r is Ok <==> (it.want != it.pay && (it.pay == orth_spec() || it.want == orth_spec()) && !has_intent(old(self).open@, it.id)),
            r is Ok ==> final(self).open@ == old(self).open@.push(it),
            r is Err ==> final(self).open@ == old(self).open@,
    {
        if bytes32_eq(&it.want, &it.pay) {
            return Err("want == pay");
        }
        let orth = orth_id();
        if !bytes32_eq(&it.pay, &orth) && !bytes32_eq(&it.want, &orth) {
            return Err("one leg must be ORTH");
        }
        if find_intent(&self.open, &it.id).is_some() {
            return Err("dup intent");
        }
        self.open.push(it);
        Ok(())
    }

    /// Removes and returns the first intent with this id.
    pub fn take(&mut self, id: [u8; 32]) -> (r: Option<BoardIntent>)
        ensures
            r is None <==> !has_intent(old(self).open@, id),
            r is None ==> final(self).open@ == old(self).open@,
            r matches Some(it) ==> ({
                let i = first_intent(old(self).open@, id);
                &&& it == old(self).open@[i]
                &&& final(self).open@ == old(self).open@.remove(i)
            }),
    {
        match find_intent(&self.open, &id) {
            None => None,
            Some(i) => {
                let ghost before = self.open@;
                proof {
                    let k = first_intent(before, id);
                    assert(0 <= i < before.len() && before[i as int].id == id && (forall|j: int| 0 <= j < i ==> before[j].id != id));
                    assert(k == i as int) by {
                        if k < i {
                            assert(before[k].id != id);
                        } else if k > i {
                            assert(before[i as int].id != id);
                        }
                    }
                }
                Some(self.open.remove(i))
            },
        }
    }
}

/// Law: an intent accepted by `post` is what `take` of its id gives back.
pub proof fn lemma_post_then_take(before: Seq<BoardIntent>, it: BoardIntent)
    requires
        !has_intent(before, it.id),
    ensures
        has_intent(before.push(it), it.id),
        before.push(it)[first_intent(before.push(it), it.id)] == it,
{
    let after = before.push(it);
    assert(after[before.len() as int].id == it.id);
    let k = first_intent(after, it.id);
    assert(0 <= k < after.len() && after[k].id == it.id);
    if k < before.len() {
        assert(before[k].id == it.id);
    }
}

/// A step the user can take next.
#[derive(Clone, Copy, Debug, PartialEq, Eq)]
pub enum MarketPath {
    MineOrth,
    BirthTicker,
    BuyOnCurve,
    SellOnCurve,
    GraduateLp,
    TransferNote,
    TeamUnlock,
}

/// The label of a market step.
pub open spec fn label_spec(p: MarketPath) -> Seq<char> {
    match p {
        MarketPath::MineOrth => "mine ORTH"@,
        MarketPath::BirthTicker => "birth ticker"@,
        MarketPath::BuyOnCurve => "buy on curve"@,
        MarketPath::SellOnCurve => "sell on curve"@,
        MarketPath::GraduateLp => "graduate to LP note"@,
        MarketPath::TransferNote => "transfer compact note"@,
        MarketPath::TeamUnlock => "spend After team note"@,
    }
}

impl MarketPath {
    /// A human-readable label.
    pub fn label(self) -> (r: &'static str)
        ensures
            r@ == label_spec(self),
    {
        match self {
            MarketPath::MineOrth => "mine ORTH",
            MarketPath::BirthTicker => "birth ticker",
            MarketPath::BuyOnCurve => "buy on curve",
            MarketPath::SellOnCurve => "sell on curve",
            MarketPath::GraduateLp => "graduate to LP note",
            MarketPath::TransferNote => "transfer compact note",
            MarketPath::TeamUnlock => "spend After team note",
        }
    }
}

/// The steps offered to a user.
pub open spec fn path_for_user_spec(has_orth: bool, has_ticker: bool, spec: Option<CurveSpec>, height: u64, team_unlock: u64) -> Seq<MarketPath> {
    if !has_orth {
        seq![MarketPath::MineOrth]
    } else if !has_ticker {
        seq![MarketPath::BirthTicker, MarketPath::BuyOnCurve]
    } else {
        let base = seq![MarketPath::BuyOnCurve, MarketPath::SellOnCurve, MarketPath::TransferNote];
        let g = match spec { Some(s) => s.quote_raised >= s.graduate_quote, None => false };
        let with_lp = if g { base.push(MarketPath::GraduateLp) } else { base };
        if height >= team_unlock && team_unlock > 0 { with_lp.push(MarketPath::TeamUnlock) } else { with_lp }
    }
}

/// What a user can do next, given what they hold.
pub fn path_for_user(has_orth: bool, has_ticker: bool, spec: Option<&CurveSpec>, height: u64, team_unlock: u64) -> (r: Vec<MarketPath>)
    ensures
        r@ == path_for_user_spec(has_orth, has_ticker, match spec { Some(s) => Some(*s), None => None }, height, team_unlock),
{
    if !has_orth {
        let mut v = Vec::new();
        v.push(MarketPath::MineOrth);
        assert(v@ =~= seq![MarketPath::MineOrth]);
        return v;
    }
    if !has_ticker {
        let mut v = Vec::new();
        v.push(MarketPath::BirthTicker);
        v.push(MarketPath::BuyOnCurve);
        assert(v@ =~= seq![MarketPath::BirthTicker, MarketPath::BuyOnCurve]);
        return v;
    }
    let mut p = Vec::new();
    p.push(MarketPath::BuyOnCurve);
    p.push(MarketPath::SellOnCurve);
    p.push(MarketPath::TransferNote);
    assert(p@ =~= seq![MarketPath::BuyOnCurve, MarketPath::SellOnCurve, MarketPath::TransferNote]);
    let graduated = match spec {
        Some(s) => s.graduated(),
        None => false,
    };
    if graduated {
        p.push(MarketPath::GraduateLp);
    }
    if height >= team_unlock && team_unlock > 0 {
        p.push(MarketPath::TeamUnlock);
    }
    p
}

} // verus!
