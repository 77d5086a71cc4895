use vstd::prelude::*;
use crate::strutil::str_eq;

verus! {

/// The instrument kinds the tool distinguishes. The import service's
/// wire names are "STOCK" and "FUND".
#[derive(Debug, Clone, Copy, PartialEq, Eq, Structural)]
pub enum SymbolType {
    STOCK,
    MUTUALFUND,
}

/// Whether `s` is one of the two wire names.
pub open spec fn known_symbol_type(s: Seq<char>) -> bool {
    s == "STOCK"@ || s == "FUND"@
}

/// The kind a wire name denotes.
pub open spec fn symbol_type_of(s: Seq<char>) -> SymbolType {
    if s == "STOCK"@ {
        SymbolType::STOCK
    } else {
        SymbolType::MUTUALFUND
    }
}

impl SymbolType {
    /// Reads a wire name that is already known to be one of the two.
    pub fn from_str(s: &str) -> (r: Self)
        requires
            known_symbol_type(s@),
        ensures
            r == symbol_type_of(s@),
    {
        if str_eq(s, "STOCK") {
            SymbolType::STOCK
        } else {
            SymbolType::MUTUALFUND
        }
    }

    /// Reads a wire name, refusing anything outside the two.
    pub fn try_from_str(s: &str) -> (r: Option<Self>)
        ensures
            r is Some <==> known_symbol_type(s@),
            r is Some ==> r->0 == symbol_type_of(s@),
    {
        if str_eq(s, "STOCK") {
            Some(SymbolType::STOCK)
        } else if str_eq(s, "FUND") {
            Some(SymbolType::MUTUALFUND)
        } else {
            None
        }
    }

    pub open spec fn to_str_spec(self) -> Seq<char> {
        match self {
            SymbolType::STOCK => "STOCK"@,
            SymbolType::MUTUALFUND => "FUND"@,
        }
    }

    /// The wire name of the kind.
    pub fn to_str(&self) -> (r: &'static str)
        ensures
            r@ == self.to_str_spec(),
    {
        match self {
            SymbolType::STOCK => "STOCK",
            SymbolType::MUTUALFUND => "FUND",
        }
    }
}

/// The tool's subcommands, as plain data. Dates are `YYYY-MM-DD` strings;
/// a missing bound falls back to one year ago / today.
#[derive(Debug, PartialEq, Eq)]
pub enum Commands {
    Import { name: String, from: Option<String>, to: Option<String> },
    ParseTransactions { file: String },
    GetScraperConfiguration { name: String },
    GetSectors { name: String },
    GetCountries { name: String },
    Test,
}

/// The parsed command line: a debug verbosity count and the chosen
/// subcommand, if any.
#[derive(Debug)]
pub struct Cli {
    pub debug: u8,
    pub command: Option<Commands>,
}

} // verus!
