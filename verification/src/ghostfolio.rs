use vstd::prelude::*;
use vstd::string::StringExecFns;
use crate::strutil::str_eq;

verus! {

/// The import service's answer to the tracked-asset listing.
#[derive(Debug, PartialEq, Eq)]
pub struct GhostfolioAssets {
    pub count: i64,
    pub market_data: Vec<MarketData>,
}

/// One tracked asset as the import service describes it.
#[derive(Debug, PartialEq, Eq)]
pub struct MarketData {
    pub asset_class: String,
    pub asset_sub_class: String,
    pub comment: Option<String>,
    pub currency: String,
    pub countries_count: i64,
    pub data_source: String,
    pub name: String,
    pub symbol: String,
    pub market_data_item_count: i64,
    pub sectors_count: i64,
    pub activities_count: i64,
}

/// The tracked-asset listing endpoint, for a service at `base_url`.
pub open spec fn market_data_url_spec(base_url: Seq<char>) -> Seq<char> {
    base_url + "/admin/market-data?take=50"@
}

/// Writes the tracked-asset listing URL.
pub fn market_data_url(base_url: &str) -> (r: String)
    ensures
        r@ == market_data_url_spec(base_url@),
{
    let mut out = base_url.to_owned();
    out.append("/admin/market-data?take=50");
    out
}

/// The endpoint that creates a manually tracked asset for a symbol.
pub open spec fn profile_data_url_spec(base_url: Seq<char>, symbol: Seq<char>) -> Seq<char> {
    base_url + "/api/v1/admin/profile-data/MANUAL/"@ + symbol
}

/// Writes the manual profile-data URL for a symbol.
pub fn profile_data_url(base_url: &str, symbol: &str) -> (r: String)
    ensures
        r@ == profile_data_url_spec(base_url@, symbol@),
{
    let mut out = base_url.to_owned();
    out.append("/api/v1/admin/profile-data/MANUAL/");
    out.append(symbol);
    proof {
        assert(out@ =~= profile_data_url_spec(base_url@, symbol@));
    }
    out
}

/// The account listing endpoint.
pub open spec fn account_url_spec(base_url: Seq<char>) -> Seq<char> {
    base_url + "/api/v1/account"@
}

/// Writes the account listing URL.
pub fn account_url(base_url: &str) -> (r: String)
    ensures
        r@ == account_url_spec(base_url@),
{
    let mut out = base_url.to_owned();
    out.append("/api/v1/account");
    out
}

/// The symbols of the tracked assets, in listing order: the choices an
/// interactive selection offers.
pub fn asset_symbols(assets: &Vec<MarketData>) -> (r: Vec<String>)
    ensures
        r.deep_view() == Seq::new(assets@.len(), |k: int| assets@[k].symbol@),
{
    let len = assets.len();
    let mut out: Vec<String> = Vec::new();
    let mut i: usize = 0;
    while i < len
        invariant
            0 <= i <= len,
            len == assets@.len(),
            out@.len() == i,
            forall|k: int| 0 <= k < i ==> #[trigger] out@[k]@ == assets@[k].symbol@,
        decreases len - i,
    {
        out.push(assets[i].symbol.clone());
        i += 1;
    }
    proof {
        assert(out.deep_view() =~= Seq::new(assets@.len(), |k: int| assets@[k].symbol@));
    }
    out
}

/// Whether the option at position `k` equals the operator's answer.
pub open spec fn option_matches(options: Seq<String>, answer: Seq<char>, k: int) -> bool {
    0 <= k < options.len() && options[k]@ == answer
}

/// The position of the first option equal to the operator's answer, or
/// nothing when no option matches: how an interactive selection's answer
/// is carried back to the item it names.
pub fn position_of(options: &Vec<String>, answer: &str) -> (r: Option<usize>)
    ensures
        match r {
            Some(k) => option_matches(options@, answer@, k as int) && forall|j: int|
                0 <= j < k ==> !option_matches(options@, answer@, j),
            None => forall|k: int| !option_matches(options@, answer@, k),
        },
{
    let len = options.len();
    let mut i: usize = 0;
    while i < len
        invariant
            0 <= i <= len,
            len == options@.len(),
            forall|j: int| 0 <= j < i ==> !option_matches(options@, answer@, j),
        decreases len - i,
    {
        if str_eq(options[i].as_str(), answer) {
            return Some(i);
        }
        i += 1;
    }
    None
}

} // verus!
