//! Bonding curve of an issued ticker.

use vstd::prelude::*;

verus! {

/// State of a ticker's bonding curve.
#[derive(Clone, Copy, Debug, PartialEq, Eq)]
pub struct CurveSpec {
    pub asset: [u8; 32],
    pub cap: u64,
    pub virtual_quote: u64,
    pub graduate_quote: u64,
    pub start_height: u64,
    pub quote_raised: u64,
    pub cap_remaining: u64,
}

/// Tokens a buy of `quote_in` receives, when the buy is accepted.
pub open spec fn tokens_out_spec(spec: CurveSpec, quote_in: u64) -> int {
    (spec.cap_remaining as int * quote_in as int) / (spec.virtual_quote as int + spec.quote_raised as int + quote_in as int)
}

/// The reason a buy of `quote_in` is refused.
pub open spec fn tokens_out_error(spec: CurveSpec, quote_in: u64) -> Seq<char> {
    if quote_in == 0 {
        "zero buy"@
    } else if spec.virtual_quote + spec.quote_raised + quote_in > u64::MAX {
        "curve den"@
    } else {
        "curve empty"@
    }
}

/// The curve after a buy of `quote_in` that received `got` tokens.
pub open spec fn after_buy_spec(spec: CurveSpec, quote_in: u64, got: u64) -> CurveSpec {
    CurveSpec {
        quote_raised: if spec.quote_raised + quote_in <= u64::MAX { (spec.quote_raised + quote_in) as u64 } else { u64::MAX },
        cap_remaining: if spec.cap_remaining >= got { (spec.cap_remaining - got) as u64 } else { 0 },
        ..spec
    }
}

impl CurveSpec {
    /// A fresh curve with the whole cap remaining and nothing raised.
    pub fn new(asset: [u8; 32], cap: u64, virtual_quote: u64, graduate_quote: u64, start: u64) -> (c: Self)
        ensures
            c == (CurveSpec { asset, cap, virtual_quote, graduate_quote, start_height: start, quote_raised: 0, cap_remaining: cap }),
    {
        CurveSpec { asset, cap, virtual_quote, graduate_quote, start_height: start, quote_raised: 0, cap_remaining: cap }
    }

    /// Tokens received for `quote_in`: `cap_remaining * quote_in / (virtual + raised + quote_in)`.
    pub fn tokens_out(&self, quote_in: u64) -> (r: Result<u64, &'static str>)
        ensures
            r matches Err(e) ==> e@ == tokens_out_error(*self, quote_in),
            r is Ok <==> (quote_in != 0 && self.virtual_quote + self.quote_raised + quote_in <= u64::MAX
                && tokens_out_spec(*self, quote_in) > 0),
            r matches Ok(out) ==> out == tokens_out_spec(*self, quote_in) && out <= self.cap_remaining,
    {
        if quote_in == 0 {
            return Err("zero buy");
        }
        let den = match self.virtual_quote.checked_add(self.quote_raised) {
            Some(x) => match x.checked_add(quote_in) {
                Some(y) => y,
                None => return Err("curve den"),
            },
            None => return Err("curve den"),
        };
        let c128 = self.cap_remaining as u128;
        let q128 = quote_in as u128;
        assert(c128 * q128 <= u128::MAX) by (nonlinear_arith)
            requires
                c128 <= u64::MAX,
                q128 <= u64::MAX,
        ;
        let num: u128 = c128 * q128;
        let q: u128 = num / (den as u128);
        proof {
            let c = self.cap_remaining as int;
            let qi = quote_in as int;
            let d = den as int;
            assert(c * qi / d <= c) by (nonlinear_arith)
                requires
                    c >= 0,
                    qi >= 1,
                    d >= qi,
            ;
        }
        let out = q as u64;
        if out == 0 || out > self.cap_remaining {
            return Err("curve empty");
        }
        Ok(out)
    }

    /// The curve after a buy, and the tokens it received.
    pub fn after_buy(&self, quote_in: u64) -> (r: Result<(Self, u64), &'static str>)
        ensures
            r is Ok <==> (quote_in != 0 && self.virtual_quote + self.quote_raised + quote_in <= u64::MAX
                && tokens_out_spec(*self, quote_in) > 0),
            r matches Ok((next, got)) ==> got == tokens_out_spec(*self, quote_in)
                && next == after_buy_spec(*self, quote_in, got),
            r matches Err(e) ==> e@ == tokens_out_error(*self, quote_in),
    {
        let got = match self.tokens_out(quote_in) {
            Ok(g) => g,
            Err(e) => return Err(e),
        };
        let mut n = *self;
        n.quote_raised = n.quote_raised.saturating_add(quote_in);
        n.cap_remaining = n.cap_remaining.saturating_sub(got);
        Ok((n, got))
    }

    /// Whether the raised quote has reached the graduation threshold.
    pub fn graduated(&self) -> (r: bool)
        ensures
            r == (self.quote_raised >= self.graduate_quote),
    {
        self.quote_raised >= self.graduate_quote
    }
}

/// Law: a bigger buy never receives fewer tokens.
pub proof fn lemma_tokens_out_monotone(spec: CurveSpec, q1: u64, q2: u64)
    requires
        1 <= q1 <= q2,
    ensures
        tokens_out_spec(spec, q1) <= tokens_out_spec(spec, q2),
{
    let c = spec.cap_remaining as int;
    let b = spec.virtual_quote as int + spec.quote_raised as int;
    let a1 = q1 as int;
    let a2 = q2 as int;
    assert(c * a1 * (b + a2) <= c * a2 * (b + a1)) by (nonlinear_arith)
        requires c >= 0, b >= 0, 1 <= a1 <= a2;
    lemma_div_cross(c * a1, b + a1, c * a2, b + a2);
}

proof fn lemma_div_cross(x1: int, d1: int, x2: int, d2: int)
    requires
        x1 >= 0,
        x2 >= 0,
        d1 > 0,
        d2 > 0,
        x1 * d2 <= x2 * d1,
        d1 <= d2,
    ensures
        x1 / d1 <= x2 / d2,
{
    let q1 = x1 / d1;
    let q2 = x2 / d2;
    assert(q1 * d1 <= x1) by (nonlinear_arith) requires d1 > 0, q1 == x1 / d1, x1 >= 0;
    assert(x2 < (q2 + 1) * d2) by (nonlinear_arith) requires d2 > 0, q2 == x2 / d2, x2 >= 0;
    assert(q1 * d1 * d2 <= x1 * d2) by (nonlinear_arith) requires q1 * d1 <= x1, d2 > 0;
    assert(x2 * d1 < (q2 + 1) * d2 * d1) by (nonlinear_arith) requires x2 < (q2 + 1) * d2, d1 > 0;
    assert(q1 * d1 * d2 < (q2 + 1) * d1 * d2) by (nonlinear_arith)
        requires q1 * d1 * d2 <= x1 * d2, x1 * d2 <= x2 * d1, x2 * d1 < (q2 + 1) * d2 * d1;
    assert(q1 < q2 + 1) by (nonlinear_arith)
        requires q1 * d1 * d2 < (q2 + 1) * d1 * d2, d1 > 0, d2 > 0;
}

} // verus!
