//! Native ORTH and a first-seen symbol book.
//! A ticker name is taken forever. Asset id is the hash of the symbol.

use vstd::prelude::*;
use vstd::string::StringSliceAdditionalSpecFns;
use vstd::utf8::encode_utf8;
use crate::notes::tree::zero32;
use crate::notes::keys::SpendPk;
use crate::hash::{sha256d, sha256d_spec};
use crate::bytes::{bytes32_eq, push_bytes};

verus! {

/// Asset id of the native coin: all zero.
pub open spec fn orth_spec() -> [u8; 32] {
    zero32()
}

/// Asset id of the native coin: all zero.
pub fn orth_id() -> (r: [u8; 32])
    ensures
        r == orth_spec(),
{
    [0u8; 32]
}

/// Whether a character has the Unicode `White_Space` property: tab to
/// carriage return, space, next line, no-break space, ogham space mark, the
/// spaces from en quad to hair space, line and paragraph separators, narrow
/// no-break space, medium mathematical space and ideographic space.
pub open spec fn is_white_space(c: char) -> bool {
    let n = c as u32;
    ||| 0x09 <= n <= 0x0D
    ||| n == 0x20 || n == 0x85 || n == 0xA0 || n == 0x1680
    ||| 0x2000 <= n <= 0x200A
    ||| n == 0x2028 || n == 0x2029 || n == 0x202F || n == 0x205F || n == 0x3000
}

/// The string without its leading white space.
pub open spec fn trim_start_spec(s: Seq<char>) -> Seq<char>
    decreases s.len(),
{
    if s.len() > 0 && is_white_space(s[0]) { trim_start_spec(s.drop_first()) } else { s }
}

/// The string without its trailing white space.
pub open spec fn trim_end_spec(s: Seq<char>) -> Seq<char>
    decreases s.len(),
{
    if s.len() > 0 && is_white_space(s.last()) { trim_end_spec(s.drop_last()) } else { s }
}

/// The string without leading and trailing white space.
pub open spec fn trim_spec(s: Seq<char>) -> Seq<char> {
    trim_end_spec(trim_start_spec(s))
}

/// `str::trim`: its documentation says the result is the string with
/// leading and trailing white space removed, white space being the Unicode
/// `White_Space` property.
#[verifier::external_body]
fn str_trim(s: &str) -> (r: &str)
    ensures
        r@ == trim_spec(s@),
{
    s.trim()
}

/// Every byte is `A`-`Z` or `0`-`9`.
pub open spec fn upper_alnum(b: Seq<u8>) -> bool {
    forall|i: int| 0 <= i < b.len() ==> (65 <= #[trigger] b[i] <= 90 || 48 <= b[i] <= 57)
}

/// Why a trimmed symbol is refused, if it is.
pub open spec fn symbol_error(t: Seq<char>) -> Option<Seq<char>> {
    let b = encode_utf8(t);
    if t.len() == 0 || b.len() > 12 {
        Some("symbol 1..=12"@)
    } else if !upper_alnum(b) {
        Some("symbol A-Z0-9"@)
    } else if t == "ORTH"@ {
        Some("ORTH is native"@)
    } else {
        None
    }
}

/// Trims a symbol and checks it: 1 to 12 bytes of `A`-`Z0`-`9`, not `ORTH`.
pub fn normalize_symbol(symbol: &str) -> (r: Result<&str, &'static str>)
    ensures
        r matches Ok(s) ==> s@ == trim_spec(symbol@) && symbol_error(trim_spec(symbol@)) is None,
        r matches Err(e) ==> symbol_error(trim_spec(symbol@)) == Some(e@),
{
    let s = str_trim(symbol);
    let bytes = s.as_bytes();
    if s.is_empty() || bytes.len() > 12 {
        return Err("symbol 1..=12");
    }
    let mut i: usize = 0;
    while i < bytes.len()
        invariant
            0 <= i <= bytes@.len(),
            bytes@ == encode_utf8(s@),
            s@ == trim_spec(symbol@),
            s@.len() != 0,
            bytes@.len() <= 12,
            forall|j: int| 0 <= j < i ==> (65 <= #[trigger] bytes@[j] <= 90 || 48 <= bytes@[j] <= 57),
        decreases bytes@.len() - i,
    {
        let b = bytes[i];
        if !((65 <= b && b <= 90) || (48 <= b && b <= 57)) {
            assert(!(65 <= bytes@[i as int] <= 90 || 48 <= bytes@[i as int] <= 57));
            assert(!upper_alnum(encode_utf8(s@)));
            return Err("symbol A-Z0-9");
        }
        i = i + 1;
    }
    let owned = s.to_owned();
    let orth = "ORTH".to_owned();
    if owned == orth {
        return Err("ORTH is native");
    }
    Ok(s)
}

/// The bytes hashed for a ticker's asset id.
pub open spec fn ticker_preimage(sym: Seq<char>) -> Seq<u8> {
    "orthal-ticker".spec_bytes() + encode_utf8(sym)
}

/// Asset id is only the symbol: SHA256d of `"orthal-ticker" || symbol`.
pub fn ticker_id(symbol: &str) -> (r: Result<[u8; 32], &'static str>)
    ensures
        r matches Ok(id) ==> symbol_error(trim_spec(symbol@)) is None && id == sha256d_spec(ticker_preimage(trim_spec(symbol@))),
        r matches Err(e) ==> symbol_error(trim_spec(symbol@)) == Some(e@),
{
    let sym = match normalize_symbol(symbol) {
        Ok(s) => s,
        Err(e) => return Err(e),
    };
    let mut buf: Vec<u8> = Vec::new();
    push_bytes(&mut buf, "orthal-ticker".as_bytes());
    push_bytes(&mut buf, sym.as_bytes());
    Ok(sha256d(buf.as_slice()))
}

/// A registered ticker.
#[derive(Clone, Debug)]
pub struct TickerRecord {
    pub asset: [u8; 32],
    pub symbol: String,
    pub creator: SpendPk,
    pub height: u64,
}

/// Whether some record has this asset id.
pub open spec fn has_asset(recs: Seq<TickerRecord>, asset: [u8; 32]) -> bool {
    exists|i: int| 0 <= i < recs.len() && #[trigger] recs[i].asset == asset
}

/// Whether some record has this symbol.
pub open spec fn has_symbol(recs: Seq<TickerRecord>, sym: Seq<char>) -> bool {
    exists|i: int| 0 <= i < recs.len() && #[trigger] recs[i].symbol@ == sym
}

/// Why `register` refuses a record, if it does.
pub open spec fn register_error(recs: Seq<TickerRecord>, rec: TickerRecord) -> Option<Seq<char>> {
    let t = trim_spec(rec.symbol@);
    let t2 = trim_spec(t);
    if symbol_error(t) is Some {
        symbol_error(t)
    } else if rec.asset == orth_spec() {
        Some("ORTH is not issued"@)
    } else if symbol_error(t2) is Some {
        symbol_error(t2)
    } else if rec.asset != sha256d_spec(ticker_preimage(t2)) {
        Some("asset id must be hash(symbol)"@)
    } else if has_asset(recs, rec.asset) {
        Some("ticker id taken"@)
    } else if has_symbol(recs, t) {
        Some("symbol taken"@)
    } else {
        None
    }
}

/// Tickers registered so far, oldest first.
#[derive(Clone, Debug)]
pub struct AssetBook {
    records: Vec<TickerRecord>,
}

impl View for AssetBook {
    type V = Seq<TickerRecord>;

    closed spec fn view(&self) -> Seq<TickerRecord> {
        self.records@
    }
}

fn find_asset(recs: &Vec<TickerRecord>, asset: &[u8; 32]) -> (r: Option<usize>)
    ensures
        r is None <==> !has_asset(recs@, *asset),
        r matches Some(i) ==> i < recs@.len() && recs@[i as int].asset == *asset
            && forall|j: int| 0 <= j < i ==> recs@[j].asset != *asset,
{
    let mut i: usize = 0;
    while i < recs.len()
        invariant
            0 <= i <= recs@.len(),
            forall|j: int| 0 <= j < i ==> recs@[j].asset != *asset,
        decreases recs@.len() - i,
    {
        if bytes32_eq(&recs[i].asset, asset) {
            return Some(i);
        }
        i = i + 1;
    }
    None
}

fn find_symbol(recs: &Vec<TickerRecord>, sym: &String) -> (r: Option<usize>)
    ensures
        r is None <==> !has_symbol(recs@, sym@),
        r matches Some(i) ==> i < recs@.len() && recs@[i as int].symbol@ == sym@
            && forall|j: int| 0 <= j < i ==> recs@[j].symbol@ != sym@,
{
    let mut i: usize = 0;
    while i < recs.len()
        invariant
            0 <= i <= recs@.len(),
            forall|j: int| 0 <= j < i ==> recs@[j].symbol@ != sym@,
        decreases recs@.len() - i,
    {
        if recs[i].symbol == *sym {
            return Some(i);
        }
        i = i + 1;
    }
    None
}

impl AssetBook {
    /// An empty book.
    pub fn new() -> (b: Self)
        ensures
            b@ == Seq::<TickerRecord>::empty(),
    {
        AssetBook { records: Vec::new() }
    }

    /// The record of an asset id.
    pub fn get(&self, asset: &[u8; 32]) -> (r: Option<&TickerRecord>)
        ensures
            r is None <==> !has_asset(self@, *asset),
            r matches Some(rec) ==> exists|i: int| 0 <= i < self@.len() && self@[i] == *rec && rec.asset == *asset
                && forall|j: int| 0 <= j < i ==> self@[j].asset != *asset,
    {
        match find_asset(&self.records, asset) {
            Some(i) => {
                assert(self@[i as int] == self.records@[i as int]);
                Some(&self.records[i])
            },
            None => None,
        }
    }

    /// The record of a symbol, matched exactly.
    pub fn by_symbol(&self, symbol: &str) -> (r: Option<&TickerRecord>)
        ensures
            r is None <==> !has_symbol(self@, symbol@),
            r matches Some(rec) ==> exists|i: int| 0 <= i < self@.len() && self@[i] == *rec && rec.symbol@ == symbol@
                && forall|j: int| 0 <= j < i ==> self@[j].symbol@ != symbol@,
    {
        let s = symbol.to_owned();
        match find_symbol(&self.records, &s) {
            Some(i) => {
                assert(self@[i as int] == self.records@[i as int]);
                Some(&self.records[i])
            },
            None => None,
        }
    }

    /// Whether an asset id is the native coin's.
    pub fn is_orth(asset: &[u8; 32]) -> (r: bool)
        ensures
            r == (*asset == orth_spec()),
    {
        let orth = orth_id();
        bytes32_eq(asset, &orth)
    }

    /// Whether a symbol is ORTH or already registered.
    pub fn symbol_taken(&self, symbol: &str) -> (r: bool)
        ensures
            r == (symbol@ == "ORTH"@ || has_symbol(self@, symbol@)),
    {
        let s = symbol.to_owned();
        let orth = "ORTH".to_owned();
        if s == orth {
            return true;
        }
        find_symbol(&self.records, &s).is_some()
    }

    /// Registers a ticker: the symbol must be valid, the asset id must be the
    /// hash of the symbol, and neither the id nor the symbol may be taken.
    pub fn register(&mut self, rec: TickerRecord) -> (r: Result<(), &'static str>)
        ensures
            r matches Err(e) ==> register_error(old(self)@, rec) == Some(e@) && final(self)@ == old(self)@,
            r is Ok <==> register_error(old(self)@, rec) is None,
            r is Ok ==> final(self)@.len() == old(self)@.len() + 1
                && final(self)@.subrange(0, old(self)@.len() as int) == old(self)@
                && final(self)@.last().asset == rec.asset
                && final(self)@.last().symbol@ == trim_spec(rec.symbol@)
                && final(self)@.last().creator == rec.creator
                && final(self)@.last().height == rec.height,
    {
        let sym = match normalize_symbol(rec.symbol.as_str()) {
            Ok(s) => s.to_owned(),
            Err(e) => return Err(e),
        };
        if AssetBook::is_orth(&rec.asset) {
            return Err("ORTH is not issued");
        }
        let expect = match ticker_id(sym.as_str()) {
            Ok(id) => id,
            Err(e) => return Err(e),
        };
        if !bytes32_eq(&rec.asset, &expect) {
            return Err("asset id must be hash(symbol)");
        }
        if find_asset(&self.records, &rec.asset).is_some() {
            return Err("ticker id taken");
        }
        if find_symbol(&self.records, &sym).is_some() {
            return Err("symbol taken");
        }
        let stored = TickerRecord { asset: rec.asset, symbol: sym, creator: rec.creator, height: rec.height };
        let ghost before = self.records@;
        self.records.push(stored);
        assert(self.records@.subrange(0, before.len() as int) =~= before);
        Ok(())
    }

    /// Number of registered tickers.
    pub fn len(&self) -> (r: usize)
        ensures
            r == self@.len(),
    {
        self.records.len()
    }
}

/// Law: a ticker once registered is found by its id, its symbol is taken,
/// and registering the same record again is refused as "ticker id taken".
pub proof fn lemma_register_is_first_seen(before: Seq<TickerRecord>, after: Seq<TickerRecord>, rec: TickerRecord)
    requires
        register_error(before, rec) is None,
        after.len() == before.len() + 1,
        after.subrange(0, before.len() as int) == before,
        after.last().asset == rec.asset,
        after.last().symbol@ == trim_spec(rec.symbol@),
    ensures
        has_asset(after, rec.asset),
        has_symbol(after, trim_spec(rec.symbol@)),
        register_error(after, rec) == Some("ticker id taken"@),
{
    let k = before.len() as int;
    assert(after[k].asset == rec.asset);
    assert(after[k].symbol@ == trim_spec(rec.symbol@));
}

} // verus!
