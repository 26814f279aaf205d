//! Listed predicates on notes. Policy is born with the output and spent
//! only against the same-policy slice of the living set.
//! Unknown predicate ids fail closed.

use vstd::prelude::*;
use vstd::bytes::{spec_u32_to_le_bytes, spec_u64_to_le_bytes};
use vstd::string::StringSliceAdditionalSpecFns;
use crate::notes::keys::SpendPk;
use crate::notes::tree::zero32;
use crate::hash::{sha256d, sha256d_spec};
use crate::bytes::{bytes32_eq, push_bytes, copy_bytes};
use crate::encode::{put_u32, put_u64, put_u8, put32};

verus! {

/// Id of the default predicate (plain spend key): all zero.
pub open spec fn pred_pk_spec() -> [u8; 32] {
    zero32()
}

/// Id of the default predicate (plain spend key): all zero.
pub fn pred_pk() -> (r: [u8; 32])
    ensures
        r == pred_pk_spec(),
{
    [0u8; 32]
}

/// Id of a listed predicate: SHA256d of `"orthal-pred-id" || label`.
pub open spec fn pred_tag_spec(label: Seq<u8>) -> [u8; 32] {
    sha256d_spec("orthal-pred-id".spec_bytes() + label)
}

fn tag(label: &str) -> (r: [u8; 32])
    ensures
        r == pred_tag_spec(label.spec_bytes()),
{
    let mut buf: Vec<u8> = Vec::new();
    push_bytes(&mut buf, "orthal-pred-id".as_bytes());
    push_bytes(&mut buf, label.as_bytes());
    sha256d(buf.as_slice())
}

/// Id of the k-of-n keys predicate.
pub open spec fn id_pk_n_spec() -> [u8; 32] { pred_tag_spec("pk-n".spec_bytes()) }
/// Id of the height lock predicate.
pub open spec fn id_after_spec() -> [u8; 32] { pred_tag_spec("after".spec_bytes()) }
/// Id of the conjunction.
pub open spec fn id_and_spec() -> [u8; 32] { pred_tag_spec("and".spec_bytes()) }
/// Id of the disjunction.
pub open spec fn id_or_spec() -> [u8; 32] { pred_tag_spec("or".spec_bytes()) }
/// Id of the rate limit predicate.
pub open spec fn id_rate_spec() -> [u8; 32] { pred_tag_spec("rate".spec_bytes()) }
/// Id of the swap predicate.
pub open spec fn id_swap_spec() -> [u8; 32] { pred_tag_spec("swap".spec_bytes()) }
/// Id of the pool LP predicate.
pub open spec fn id_pool_lp_spec() -> [u8; 32] { pred_tag_spec("pool-lp".spec_bytes()) }

/// Id of the k-of-n keys predicate.
pub fn id_pk_n() -> (r: [u8; 32]) ensures r == id_pk_n_spec() { tag("pk-n") }
/// Id of the height lock predicate.
pub fn id_after() -> (r: [u8; 32]) ensures r == id_after_spec() { tag("after") }
/// Id of the conjunction.
pub fn id_and() -> (r: [u8; 32]) ensures r == id_and_spec() { tag("and") }
/// Id of the disjunction.
pub fn id_or() -> (r: [u8; 32]) ensures r == id_or_spec() { tag("or") }
/// Id of the rate limit predicate.
pub fn id_rate() -> (r: [u8; 32]) ensures r == id_rate_spec() { tag("rate") }
/// Id of the swap predicate.
pub fn id_swap() -> (r: [u8; 32]) ensures r == id_swap_spec() { tag("swap") }
/// Id of the pool LP predicate.
pub fn id_pool_lp() -> (r: [u8; 32]) ensures r == id_pool_lp_spec() { tag("pool-lp") }

/// A spending policy.
#[derive(Debug)]
pub enum Predicate {
    Pk,
    PkN { dests: Vec<SpendPk>, n: u8 },
    After { height: u64 },
    And { left: Box<Predicate>, right: Box<Predicate> },
    Or { left: Box<Predicate>, right: Box<Predicate> },
    Rate { dest: SpendPk, max_per_window: u64, window: u64 },
    Swap { want_asset: [u8; 32], pay_asset: [u8; 32], max_in: u64, min_out: u64 },
    PoolLp { pool: [u8; 32], asset_a: [u8; 32], asset_b: [u8; 32] },
}

fn clone_pks(v: &Vec<SpendPk>) -> (r: Vec<SpendPk>)
    ensures
        r@ == v@,
{
    let mut r: Vec<SpendPk> = Vec::new();
    let mut k: usize = 0;
    while k < v.len()
        invariant
            0 <= k <= v@.len(),
            r@ == v@.subrange(0, k as int),
        decreases v@.len() - k,
    {
        r.push(v[k]);
        k = k + 1;
        assert(r@ =~= v@.subrange(0, k as int));
    }
    assert(v@.subrange(0, v@.len() as int) =~= v@);
    r
}

impl Clone for Predicate {
    fn clone(&self) -> (r: Self)
        ensures
            pred_bytes(r) == pred_bytes(*self),
            pred_id_spec(r) == pred_id_spec(*self),
        decreases self,
    {
        match self {
            Predicate::Pk => Predicate::Pk,
            Predicate::PkN { dests, n } => Predicate::PkN { dests: clone_pks(dests), n: *n },
            Predicate::After { height } => Predicate::After { height: *height },
            Predicate::And { left, right } => Predicate::And {
                left: Box::new((**left).clone()),
                right: Box::new((**right).clone()),
            },
            Predicate::Or { left, right } => Predicate::Or {
                left: Box::new((**left).clone()),
                right: Box::new((**right).clone()),
            },
            Predicate::Rate { dest, max_per_window, window } => Predicate::Rate { dest: *dest, max_per_window: *max_per_window, window: *window },
            Predicate::Swap { want_asset, pay_asset, max_in, min_out } => Predicate::Swap {
                want_asset: *want_asset, pay_asset: *pay_asset, max_in: *max_in, min_out: *min_out,
            },
            Predicate::PoolLp { pool, asset_a, asset_b } => Predicate::PoolLp { pool: *pool, asset_a: *asset_a, asset_b: *asset_b },
        }
    }
}

/// The id of a predicate's kind.
pub open spec fn pred_id_spec(p: Predicate) -> [u8; 32] {
    match p {
        Predicate::Pk => pred_pk_spec(),
        Predicate::PkN { .. } => id_pk_n_spec(),
        Predicate::After { .. } => id_after_spec(),
        Predicate::And { .. } => id_and_spec(),
        Predicate::Or { .. } => id_or_spec(),
        Predicate::Rate { .. } => id_rate_spec(),
        Predicate::Swap { .. } => id_swap_spec(),
        Predicate::PoolLp { .. } => id_pool_lp_spec(),
    }
}

/// Bytes of a list of keys: `u64` count then each key.
pub open spec fn pks_bytes(ks: Seq<SpendPk>) -> Seq<u8>
    decreases ks.len(),
{
    if ks.len() == 0 { Seq::empty() } else { pks_bytes(ks.drop_last()) + ks.last().bytes@ }
}

/// The canonical bytes of a predicate: a `u32` tag for the kind, then its fields.
pub open spec fn pred_bytes(p: Predicate) -> Seq<u8>
    decreases p,
{
    match p {
        Predicate::Pk => spec_u32_to_le_bytes(0),
        Predicate::PkN { dests, n } => spec_u32_to_le_bytes(1) + spec_u64_to_le_bytes(dests@.len() as u64)
            + pks_bytes(dests@) + seq![n],
        Predicate::After { height } => spec_u32_to_le_bytes(2) + spec_u64_to_le_bytes(height),
        Predicate::And { left, right } => spec_u32_to_le_bytes(3) + pred_bytes(*left) + pred_bytes(*right),
        Predicate::Or { left, right } => spec_u32_to_le_bytes(4) + pred_bytes(*left) + pred_bytes(*right),
        Predicate::Rate { dest, max_per_window, window } => spec_u32_to_le_bytes(5) + dest.bytes@
            + spec_u64_to_le_bytes(max_per_window) + spec_u64_to_le_bytes(window),
        Predicate::Swap { want_asset, pay_asset, max_in, min_out } => spec_u32_to_le_bytes(6) + want_asset@
            + pay_asset@ + spec_u64_to_le_bytes(max_in) + spec_u64_to_le_bytes(min_out),
        Predicate::PoolLp { pool, asset_a, asset_b } => spec_u32_to_le_bytes(7) + pool@ + asset_a@ + asset_b@,
    }
}

fn put_pks(out: &mut Vec<u8>, ks: &Vec<SpendPk>)
    ensures
        final(out)@ == old(out)@ + spec_u64_to_le_bytes(ks@.len() as u64) + pks_bytes(ks@),
{
    put_u64(out, ks.len() as u64);
    let ghost start = out@;
    let mut k: usize = 0;
    while k < ks.len()
        invariant
            0 <= k <= ks@.len(),
            out@ == start + pks_bytes(ks@.subrange(0, k as int)),
        decreases ks@.len() - k,
    {
        put32(out, &ks[k].bytes);
        proof {
            let s = ks@.subrange(0, k as int + 1);
            assert(s.drop_last() =~= ks@.subrange(0, k as int));
        }
        k = k + 1;
    }
    assert(ks@.subrange(0, ks@.len() as int) =~= ks@);
}

/// Appends the canonical bytes of a predicate.
pub fn put_pred(out: &mut Vec<u8>, p: &Predicate)
    ensures
        final(out)@ == old(out)@ + pred_bytes(*p),
    decreases p,
{
    let ghost start = out@;
    match p {
        Predicate::Pk => {
            put_u32(out, 0);
        },
        Predicate::PkN { dests, n } => {
            put_u32(out, 1);
            put_pks(out, dests);
            put_u8(out, *n);
            assert(out@ =~= start + pred_bytes(*p));
        },
        Predicate::After { height } => {
            put_u32(out, 2);
            put_u64(out, *height);
            assert(out@ =~= start + pred_bytes(*p));
        },
        Predicate::And { left, right } => {
            put_u32(out, 3);
            put_pred(out, left);
            put_pred(out, right);
            assert(out@ =~= start + pred_bytes(*p));
        },
        Predicate::Or { left, right } => {
            put_u32(out, 4);
            put_pred(out, left);
            put_pred(out, right);
            assert(out@ =~= start + pred_bytes(*p));
        },
        Predicate::Rate { dest, max_per_window, window } => {
            put_u32(out, 5);
            put32(out, &dest.bytes);
            put_u64(out, *max_per_window);
            put_u64(out, *window);
            assert(out@ =~= start + pred_bytes(*p));
        },
        Predicate::Swap { want_asset, pay_asset, max_in, min_out } => {
            put_u32(out, 6);
            put32(out, want_asset);
            put32(out, pay_asset);
            put_u64(out, *max_in);
            put_u64(out, *min_out);
            assert(out@ =~= start + pred_bytes(*p));
        },
        Predicate::PoolLp { pool, asset_a, asset_b } => {
            put_u32(out, 7);
            put32(out, pool);
            put32(out, asset_a);
            put32(out, asset_b);
            assert(out@ =~= start + pred_bytes(*p));
        },
    }
}

impl Predicate {
    /// The id of this predicate's kind.
    pub fn id(&self) -> (r: [u8; 32])
        ensures
            r == pred_id_spec(*self),
    {
        match self {
            Predicate::Pk => pred_pk(),
            Predicate::PkN { .. } => id_pk_n(),
            Predicate::After { .. } => id_after(),
            Predicate::And { .. } => id_and(),
            Predicate::Or { .. } => id_or(),
            Predicate::Rate { .. } => id_rate(),
            Predicate::Swap { .. } => id_swap(),
            Predicate::PoolLp { .. } => id_pool_lp(),
        }
    }

    /// Commitment to the predicate and its parameters: SHA256d of its canonical bytes.
    pub fn commit(&self) -> (r: [u8; 32])
        ensures
            r == sha256d_spec(pred_bytes(*self)),
    {
        let mut out: Vec<u8> = Vec::new();
        put_pred(&mut out, self);
        assert(out@ =~= pred_bytes(*self));
        sha256d(out.as_slice())
    }

    /// Whether this is the default predicate.
    pub fn is_default(&self) -> (r: bool)
        ensures
            r == (*self is Pk),
    {
        match self {
            Predicate::Pk => true,
            _ => false,
        }
    }
}

/// Witness data a spend supplies for its predicate.
#[derive(Debug)]
pub struct PredWitness {
    pub keys: Vec<u8>,
    pub fill: Vec<u8>,
}

impl Clone for PredWitness {
    fn clone(&self) -> (r: Self)
        ensures
            r.keys@ == self.keys@,
            r.fill@ == self.fill@,
    {
        PredWitness { keys: copy_bytes(self.keys.as_slice()), fill: copy_bytes(self.fill.as_slice()) }
    }
}

impl PredWitness {
    /// No keys and no fill.
    pub fn none() -> (w: Self)
        ensures
            w.keys@ == Seq::<u8>::empty(),
            w.fill@ == Seq::<u8>::empty(),
    {
        PredWitness { keys: Vec::new(), fill: Vec::new() }
    }
}

/// Predicate id and commitment carried on a note.
#[derive(Clone, Copy, Debug)]
pub struct PredHeader {
    pub id: [u8; 32],
    pub commit: [u8; 32],
}

impl PredHeader {
    /// Header of the default predicate: all-zero id and commitment.
    pub fn pk() -> (h: Self)
        ensures
            h.id == pred_pk_spec(),
            h.commit == zero32(),
    {
        PredHeader { id: pred_pk(), commit: [0u8; 32] }
    }

    /// The header of a predicate: the default header for `Pk`, else its id and commitment.
    pub fn from_pred(p: &Predicate) -> (h: Self)
        ensures
            *p is Pk ==> h.id == pred_pk_spec() && h.commit == zero32(),
            !(*p is Pk) ==> h.id == pred_id_spec(*p) && h.commit == sha256d_spec(pred_bytes(*p)),
    {
        if p.is_default() {
            Self::pk()
        } else {
            PredHeader { id: p.id(), commit: p.commit() }
        }
    }

    /// Whether this is the default header.
    pub fn is_default(&self) -> (r: bool)
        ensures
            r == (self.id == pred_pk_spec() && self.commit == zero32()),
    {
        let z = pred_pk();
        let z2: [u8; 32] = [0u8; 32];
        bytes32_eq(&self.id, &z) && bytes32_eq(&self.commit, &z2)
    }
}

/// What a predicate is checked against.
pub struct PredContext<'a> {
    pub height: u64,
    pub claimed: &'a Predicate,
    pub header: &'a PredHeader,
    pub witness: &'a PredWitness,
    pub out_dests: &'a [SpendPk],
}

/// Whether the k-of-n witness names distinct in-range keys.
pub open spec fn pkn_keys_ok(keys: Seq<u8>, ndests: int) -> bool {
    &&& forall|i: int| 0 <= i < keys.len() ==> (#[trigger] keys[i] as int) < ndests
    &&& forall|i: int, j: int| 0 <= i < j < keys.len() ==> keys[i] != keys[j]
}

/// Whether some output goes to `dest`.
pub open spec fn has_dest(out_dests: Seq<SpendPk>, dest: SpendPk) -> bool {
    exists|i: int| 0 <= i < out_dests.len() && #[trigger] out_dests[i].bytes == dest.bytes
}

/// Evaluation of a predicate: `None` when it holds, else why not.
pub open spec fn eval_spec(p: Predicate, height: u64, keys: Seq<u8>, fill: Seq<u8>, out_dests: Seq<SpendPk>) -> Option<Seq<char>>
    decreases p,
{
    match p {
        Predicate::Pk => None,
        Predicate::PkN { dests, n } => {
            if n == 0 || dests@.len() == 0 {
                Some("empty pk-n"@)
            } else if !pkn_keys_ok(keys, dests@.len() as int) {
                Some("bad pk-n witness"@)
            } else if keys.len() < n {
                Some("pk-n threshold"@)
            } else {
                None
            }
        },
        Predicate::After { height: h } => if height >= h { None } else { Some("after: too early"@) },
        Predicate::And { left, right } => {
            let l = eval_spec(*left, height, keys, fill, out_dests);
            if l is Some { l } else { eval_spec(*right, height, keys, fill, out_dests) }
        },
        Predicate::Or { left, right } => {
            if eval_spec(*left, height, keys, fill, out_dests) is None || eval_spec(*right, height, keys, fill, out_dests) is None {
                None
            } else {
                Some("or: neither"@)
            }
        },
        Predicate::Rate { dest, .. } => if has_dest(out_dests, dest) { None } else { Some("rate dest missing"@) },
        Predicate::Swap { .. } => if fill.len() == 0 { Some("swap needs fill"@) } else { None },
        Predicate::PoolLp { .. } => if fill.len() == 0 { Some("lp needs fill"@) } else { None },
    }
}

/// The spend's result: `Ok` exactly when `err` is `None`, with the message otherwise.
pub open spec fn result_matches(r: Result<(), &'static str>, err: Option<Seq<char>>) -> bool {
    match r {
        Ok(_) => err is None,
        Err(e) => err == Some(e@),
    }
}

fn check_pkn_keys(keys: &Vec<u8>, ndests: usize) -> (r: bool)
    ensures
        r == pkn_keys_ok(keys@, ndests as int),
{
    let mut seen: Vec<bool> = Vec::new();
    let mut j: usize = 0;
    while j < ndests
        invariant
            0 <= j <= ndests,
            seen@.len() == j,
            forall|k: int| 0 <= k < j ==> !seen@[k],
        decreases ndests - j,
    {
        seen.push(false);
        j = j + 1;
    }
    let mut i: usize = 0;
    while i < keys.len()
        invariant
            0 <= i <= keys@.len(),
            seen@.len() == ndests,
            forall|k: int| 0 <= k < i ==> (#[trigger] keys@[k] as int) < ndests,
            forall|a: int, b: int| 0 <= a < b < i ==> keys@[a] != keys@[b],
            forall|v: int| 0 <= v < ndests ==> (#[trigger] seen@[v] <==> exists|k: int| 0 <= k < i && keys@[k] as int == v),
        decreases keys@.len() - i,
    {
        let k = keys[i] as usize;
        if k >= ndests {
            return false;
        }
        if seen[k] {
            proof {
                let a = choose|a: int| 0 <= a < i && keys@[a] as int == k as int;
                assert(keys@[a] == keys@[i as int]);
            }
            return false;
        }
        seen.set(k, true);
        i = i + 1;
    }
    true
}

fn has_dest_exec(out_dests: &[SpendPk], dest: &SpendPk) -> (r: bool)
    ensures
        r == has_dest(out_dests@, *dest),
{
    let mut i: usize = 0;
    while i < out_dests.len()
        invariant
            0 <= i <= out_dests@.len(),
            forall|k: int| 0 <= k < i ==> out_dests@[k].bytes != dest.bytes,
        decreases out_dests@.len() - i,
    {
        if bytes32_eq(&out_dests[i].bytes, &dest.bytes) {
            return true;
        }
        i = i + 1;
    }
    false
}

fn eval(p: &Predicate, ctx: &PredContext<'_>) -> (r: Result<(), &'static str>)
    ensures
        result_matches(r, eval_spec(*p, ctx.height, ctx.witness.keys@, ctx.witness.fill@, ctx.out_dests@)),
        ({
            let (keys, fill, outs) = (ctx.witness.keys@, ctx.witness.fill@, ctx.out_dests@);
            match *p {
                Predicate::Pk => r is Ok,
                Predicate::PkN { dests, n } => r is Ok <==> (n > 0 && dests@.len() > 0
                    && pkn_keys_ok(keys, dests@.len() as int) && keys.len() >= n),
                Predicate::After { height: h } => r is Ok <==> ctx.height >= h,
                Predicate::And { left, right } => r is Ok <==> (eval_spec(*left, ctx.height, keys, fill, outs) is None
                    && eval_spec(*right, ctx.height, keys, fill, outs) is None),
                Predicate::Or { left, right } => r is Ok <==> (eval_spec(*left, ctx.height, keys, fill, outs) is None
                    || eval_spec(*right, ctx.height, keys, fill, outs) is None),
                Predicate::Rate { dest, .. } => r is Ok <==> has_dest(outs, dest),
                Predicate::Swap { .. } => r is Ok <==> fill.len() > 0,
                Predicate::PoolLp { .. } => r is Ok <==> fill.len() > 0,
            }
        }),
    decreases p,
{
    proof {
        lemma_eval_connectives(*p, ctx.height, ctx.witness.keys@, ctx.witness.fill@, ctx.out_dests@);
    }
    match p {
        Predicate::Pk => Ok(()),
        Predicate::PkN { dests, n } => {
            if *n as usize == 0 || dests.len() == 0 {
                return Err("empty pk-n");
            }
            if !check_pkn_keys(&ctx.witness.keys, dests.len()) {
                return Err("bad pk-n witness");
            }
            if ctx.witness.keys.len() < *n as usize {
                return Err("pk-n threshold");
            }
            Ok(())
        },
        Predicate::After { height } => {
            if ctx.height >= *height { Ok(()) } else { Err("after: too early") }
        },
        Predicate::And { left, right } => {
            match eval(left, ctx) {
                Err(e) => Err(e),
                Ok(()) => eval(right, ctx),
            }
        },
        Predicate::Or { left, right } => {
            if eval(left, ctx).is_ok() || eval(right, ctx).is_ok() { Ok(()) } else { Err("or: neither") }
        },
        Predicate::Rate { dest, .. } => {
            if has_dest_exec(ctx.out_dests, dest) { Ok(()) } else { Err("rate dest missing") }
        },
        Predicate::Swap { .. } => {
            if ctx.witness.fill.len() == 0 { Err("swap needs fill") } else { Ok(()) }
        },
        Predicate::PoolLp { .. } => {
            if ctx.witness.fill.len() == 0 { Err("lp needs fill") } else { Ok(()) }
        },
    }
}

/// What `verify_pred` decides: the header must name the claimed predicate's
/// kind and (unless default) its commitment, and the predicate must hold.
pub open spec fn verify_pred_spec(claimed: Predicate, header: PredHeader, height: u64, keys: Seq<u8>, fill: Seq<u8>, out_dests: Seq<SpendPk>) -> Option<Seq<char>> {
    if header.id != pred_id_spec(claimed) {
        Some("pred id mismatch"@)
    } else if !(claimed is Pk) && header.commit != sha256d_spec(pred_bytes(claimed)) {
        Some("pred commit mismatch"@)
    } else {
        eval_spec(claimed, height, keys, fill, out_dests)
    }
}

/// Checks a spend's predicate against its header and context.
pub fn verify_pred(ctx: PredContext<'_>) -> (r: Result<(), &'static str>)
    ensures
        result_matches(r, verify_pred_spec(*ctx.claimed, *ctx.header, ctx.height, ctx.witness.keys@, ctx.witness.fill@, ctx.out_dests@)),
{
    let id = ctx.claimed.id();
    if !bytes32_eq(&ctx.header.id, &id) {
        return Err("pred id mismatch");
    }
    if !ctx.claimed.is_default() {
        let c = ctx.claimed.commit();
        if !bytes32_eq(&ctx.header.commit, &c) {
            return Err("pred commit mismatch");
        }
    }
    eval(ctx.claimed, &ctx)
}

/// Whether an id is one of the listed predicate kinds.
pub open spec fn known_id_spec(id: [u8; 32]) -> bool {
    id == pred_pk_spec() || id == id_pk_n_spec() || id == id_after_spec() || id == id_and_spec()
        || id == id_or_spec() || id == id_rate_spec() || id == id_swap_spec() || id == id_pool_lp_spec()
}

/// Whether an id is listed; unknown ids fail closed.
pub fn known_id(id: &[u8; 32]) -> (r: bool)
    ensures
        r == known_id_spec(*id),
{
    bytes32_eq(id, &pred_pk()) || bytes32_eq(id, &id_pk_n()) || bytes32_eq(id, &id_after())
        || bytes32_eq(id, &id_and()) || bytes32_eq(id, &id_or()) || bytes32_eq(id, &id_rate())
        || bytes32_eq(id, &id_swap()) || bytes32_eq(id, &id_pool_lp())
}

/// Law: the id of every predicate is listed.
pub proof fn lemma_pred_id_known(p: Predicate)
    ensures
        known_id_spec(pred_id_spec(p)),
{
}

/// Law: a predicate holds by its connectives: `And` when both sides hold,
/// `Or` when either does, `Pk` always, a height lock from its height on, a
/// rate limit when some output goes to its destination, and a k-of-n when
/// it has keys and a threshold and the witness names at least `n` distinct
/// in-range keys.
pub proof fn lemma_eval_connectives(p: Predicate, height: u64, keys: Seq<u8>, fill: Seq<u8>, out_dests: Seq<SpendPk>)
    ensures
        ({
            let holds = eval_spec(p, height, keys, fill, out_dests) is None;
            match p {
                Predicate::Pk => holds,
                Predicate::PkN { dests, n } => holds <==> (n > 0 && dests@.len() > 0
                    && pkn_keys_ok(keys, dests@.len() as int) && keys.len() >= n),
                Predicate::After { height: h } => holds <==> height >= h,
                Predicate::And { left, right } => holds <==> (eval_spec(*left, height, keys, fill, out_dests) is None
                    && eval_spec(*right, height, keys, fill, out_dests) is None),
                Predicate::Or { left, right } => holds <==> (eval_spec(*left, height, keys, fill, out_dests) is None
                    || eval_spec(*right, height, keys, fill, out_dests) is None),
                Predicate::Rate { dest, .. } => holds <==> has_dest(out_dests, dest),
                Predicate::Swap { .. } => holds <==> fill.len() > 0,
                Predicate::PoolLp { .. } => holds <==> fill.len() > 0,
            }
        }),
{
}

/// Law: a height lock holds from its height on, and not before.
pub proof fn lemma_after_monotone(h: u64, at: u64, keys: Seq<u8>, fill: Seq<u8>, out_dests: Seq<SpendPk>)
    ensures
        eval_spec(Predicate::After { height: h }, at, keys, fill, out_dests) is None <==> at >= h,
{
}

/// Law: when the header names the claimed predicate (its kind, and unless
/// it is the default its commitment), `verify_pred` decides exactly what the
/// predicate's evaluation decides.
pub proof fn lemma_verify_pred_matching_header(claimed: Predicate, header: PredHeader, height: u64,
    keys: Seq<u8>, fill: Seq<u8>, out_dests: Seq<SpendPk>)
    requires
        header.id == pred_id_spec(claimed),
        claimed is Pk || header.commit == sha256d_spec(pred_bytes(claimed)),
    ensures
        verify_pred_spec(claimed, header, height, keys, fill, out_dests) == eval_spec(claimed, height, keys, fill, out_dests),
{
}

} // verus!
