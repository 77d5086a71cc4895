use vstd::prelude::*;
use vstd::string::StrSliceExecFns;
use vstd::string::StringExecFns;
use crate::date::is_digit;
use crate::error::Error;
use crate::strutil::{push_char, str_eq};

verus! {

/// The destination taxonomy of the portfolio tracker's import format.
#[derive(Debug, Clone, Copy, PartialEq, Eq, Structural)]
#[allow(clippy::upper_case_acronyms)]
pub enum GhostfolioType {
    BUY,
    DIVIDEND,
    FEE,
    INTEREST,
    ITEM,
    LIABILITY,
    SELL,
    OTHER,
}

/// The closed set of source transaction-type labels the export uses.
pub open spec fn known_label(s: Seq<char>) -> bool {
    ||| s == "Köp"@
    ||| s == "Utdelning"@
    ||| s == "Sälj"@
    ||| s == "Utländsk källskatt"@
    ||| s == "Övrigt"@
}

/// The destination type a known source label maps to, before the
/// sign/magnitude reclassification of `Övrigt` rows.
pub open spec fn label_type(s: Seq<char>) -> GhostfolioType {
    if s == "Köp"@ {
        GhostfolioType::BUY
    } else if s == "Utdelning"@ {
        GhostfolioType::DIVIDEND
    } else if s == "Sälj"@ {
        GhostfolioType::SELL
    } else if s == "Utländsk källskatt"@ {
        GhostfolioType::FEE
    } else {
        GhostfolioType::OTHER
    }
}

impl GhostfolioType {
    /// Maps a source label that is already known to be in the closed set.
    pub fn from_avanza(s: &str) -> (r: Self)
        requires
            known_label(s@),
        ensures
            r == label_type(s@),
    {
        if str_eq(s, "Köp") {
            GhostfolioType::BUY
        } else if str_eq(s, "Utdelning") {
            GhostfolioType::DIVIDEND
        } else if str_eq(s, "Sälj") {
            GhostfolioType::SELL
        } else if str_eq(s, "Utländsk källskatt") {
            GhostfolioType::FEE
        } else {
            GhostfolioType::OTHER
        }
    }

    /// Maps a source label, refusing one outside the closed set — an
    /// unknown label is fatal to the whole parse.
    pub fn try_from_avanza(s: &str) -> (r: Option<Self>)
        ensures
            r is Some <==> known_label(s@),
            r is Some ==> r->0 == label_type(s@),
    {
        if str_eq(s, "Köp") {
            Some(GhostfolioType::BUY)
        } else if str_eq(s, "Utdelning") {
            Some(GhostfolioType::DIVIDEND)
        } else if str_eq(s, "Sälj") {
            Some(GhostfolioType::SELL)
        } else if str_eq(s, "Utländsk källskatt") {
            Some(GhostfolioType::FEE)
        } else if str_eq(s, "Övrigt") {
            Some(GhostfolioType::OTHER)
        } else {
            None
        }
    }
}

/// The numeric normalization the export's number fields go through: the
/// literal `-` stands for zero, and the comma decimal separator becomes a
/// dot. Nothing else changes; the text stays text.
pub open spec fn normalized_number(s: Seq<char>) -> Seq<char> {
    if s == "-"@ {
        "0"@
    } else {
        Seq::new(
            s.len(),
            |i: int|
                if s[i] == ',' {
                    '.'
                } else {
                    s[i]
                },
        )
    }
}

/// Applies the numeric normalization to one field.
pub fn normalize_avanza_number(s: &str) -> (r: String)
    ensures
        r@ == normalized_number(s@),
{
    if str_eq(s, "-") {
        proof {
            reveal_strlit("-");
        }
        return "0".to_owned();
    }
    let len = s.unicode_len();
    let mut out = String::new();
    let mut i: usize = 0;
    while i < len
        invariant
            0 <= i <= len,
            len == s@.len(),
            out@.len() == i,
            forall|j: int|
                0 <= j < i ==> #[trigger] out@[j] == (if s@[j] == ',' {
                    '.'
                } else {
                    s@[j]
                }),
        decreases len - i,
    {
        let c = s.get_char(i);
        if c == ',' {
            push_char(&mut out, '.');
        } else {
            push_char(&mut out, c);
        }
        i += 1;
    }
    proof {
        assert(out@ =~= normalized_number(s@));
    }
    out
}

/// The sign classes the `Övrigt` reclassification distinguishes.
#[derive(Debug, Clone, Copy, PartialEq, Eq, Structural)]
pub enum NumberSign {
    Negative,
    Zero,
    Positive,
}

/// Every character among the first `n` of `b` is a digit or a dot.
pub open spec fn all_numeric(b: Seq<char>, n: int) -> bool {
    forall|j: int| #![trigger b[j]] 0 <= j < n ==> (is_digit(b[j]) || b[j] == '.')
}

/// No two dots among the first `n` characters of `b`.
pub open spec fn no_dup_dot(b: Seq<char>, n: int) -> bool {
    forall|j: int, k: int| #![trigger b[j], b[k]] 0 <= j < k < n && b[j] == '.' ==> b[k] != '.'
}

/// Some digit among the first `n` characters of `b`.
pub open spec fn some_digit(b: Seq<char>, n: int) -> bool {
    exists|j: int| 0 <= j < n && is_digit(#[trigger] b[j])
}

/// Some dot among the first `n` characters of `b`.
pub open spec fn some_dot(b: Seq<char>, n: int) -> bool {
    exists|j: int| #![trigger b[j]] 0 <= j < n && b[j] == '.'
}

/// The numeral's body: the text after a leading minus, if one is there.
pub open spec fn numeral_body(s: Seq<char>) -> Seq<char> {
    if s.len() > 0 && s[0] == '-' {
        s.skip(1)
    } else {
        s
    }
}

/// A plain decimal numeral: an optional leading minus, then digits with at
/// most one dot among them, and at least one digit.
pub open spec fn decimal_shaped(s: Seq<char>) -> bool {
    let b = numeral_body(s);
    &&& b.len() > 0
    &&& all_numeric(b, b.len() as int)
    &&& some_digit(b, b.len() as int)
    &&& no_dup_dot(b, b.len() as int)
}

/// Whether some digit of the text is not zero.
pub open spec fn has_nonzero_digit(s: Seq<char>) -> bool {
    exists|i: int| 0 <= i < s.len() && 49 <= #[trigger] s[i] as u32 <= 57
}

/// The sign class of a normalized number field, as the reclassification
/// reads it: text that is not a plain decimal numeral counts as zero, like
/// the zero fallback the export's stray fields get.
pub open spec fn number_sign(s: Seq<char>) -> NumberSign {
    if !decimal_shaped(s) || !has_nonzero_digit(s) {
        NumberSign::Zero
    } else if s[0] == '-' {
        NumberSign::Negative
    } else {
        NumberSign::Positive
    }
}

/// Classifies a normalized number field by sign.
pub fn classify_number(s: &str) -> (r: NumberSign)
    ensures
        r == number_sign(s@),
{
    let len = s.unicode_len();
    let negative = len > 0 && s.get_char(0) == '-';
    let start: usize = if negative {
        1
    } else {
        0
    };
    let ghost b = numeral_body(s@);
    proof {
        assert(b.len() == len - start);
        assert(forall|j: int| 0 <= j < b.len() ==> #[trigger] b[j] == s@[j + start]);
    }
    if len == start {
        return NumberSign::Zero;
    }
    let mut i: usize = start;
    let mut seen_digit = false;
    let mut seen_nonzero = false;
    let mut seen_dot = false;
    let mut clean = true;
    while i < len
        invariant
            start <= i <= len,
            len == s@.len(),
            start == s@.len() - b.len(),
            b == numeral_body(s@),
            b.len() == len - start,
            forall|j: int| 0 <= j < b.len() ==> #[trigger] b[j] == s@[j + start],
            seen_digit == some_digit(b, i - start),
            seen_dot == some_dot(b, i - start),
            seen_nonzero == (exists|j: int|
                start <= j < i && 49 <= #[trigger] s@[j] as u32 <= 57),
            clean == (all_numeric(b, i - start) && no_dup_dot(b, i - start)),
        decreases len - i,
    {
        let c = s.get_char(i);
        let v = c as u32;
        proof {
            assert(b[i - start] == s@[i as int]);
        }
        if 48 <= v && v <= 57 {
            seen_digit = true;
            proof {
                assert(is_digit(b[i - start]));
            }
            if v != 48 {
                seen_nonzero = true;
            }
        } else if c == '.' {
            if seen_dot {
                clean = false;
            }
            seen_dot = true;
        } else {
            clean = false;
        }
        i += 1;
    }
    let shaped = clean && seen_digit;
    proof {
        assert(shaped == decimal_shaped(s@));
        if negative {
            assert(s@[0] as u32 == 45) by {
                assert(s@[0] == '-');
            }
        }
        assert(seen_nonzero == has_nonzero_digit(s@));
    }
    if !shaped || !seen_nonzero {
        NumberSign::Zero
    } else if negative {
        NumberSign::Negative
    } else {
        NumberSign::Positive
    }
}

/// One normalized transaction row of the export's fixed eleven-column
/// layout, with the destination type already decided and every numeric
/// field normalized.
#[derive(Debug, PartialEq, Eq)]
pub struct Record {
    pub date: String,
    pub account: String,
    pub transaction_type: GhostfolioType,
    pub security: String,
    pub amount: String,
    pub price_per_unit: String,
    pub price: String,
    pub fee: String,
    pub currency: String,
    pub isin: String,
    pub result: String,
}

/// The mathematical shape of a normalized transaction row.
pub struct RecordV {
    pub date: Seq<char>,
    pub account: Seq<char>,
    pub transaction_type: GhostfolioType,
    pub security: Seq<char>,
    pub amount: Seq<char>,
    pub price_per_unit: Seq<char>,
    pub price: Seq<char>,
    pub fee: Seq<char>,
    pub currency: Seq<char>,
    pub isin: Seq<char>,
    pub result: Seq<char>,
}

impl View for Record {
    type V = RecordV;

    open spec fn view(&self) -> RecordV {
        RecordV {
            date: self.date@,
            account: self.account@,
            transaction_type: self.transaction_type,
            security: self.security@,
            amount: self.amount@,
            price_per_unit: self.price_per_unit@,
            price: self.price@,
            fee: self.fee@,
            currency: self.currency@,
            isin: self.isin@,
            result: self.result@,
        }
    }
}

impl DeepView for Record {
    type V = RecordV;

    open spec fn deep_view(&self) -> RecordV {
        self@
    }
}

/// The sign/magnitude reclassification of `Övrigt` rows: a zero amount
/// marks the selling half of a dividend pair; otherwise a negative price
/// is a fee and a positive one interest.
pub open spec fn reclassified_type(
    base: GhostfolioType,
    amount: Seq<char>,
    price: Seq<char>,
) -> GhostfolioType {
    if base != GhostfolioType::OTHER {
        base
    } else if number_sign(amount) is Zero {
        GhostfolioType::SELL
    } else if number_sign(price) is Negative {
        GhostfolioType::FEE
    } else if number_sign(price) is Positive {
        GhostfolioType::INTEREST
    } else {
        GhostfolioType::OTHER
    }
}

/// The row an eleven-field record with a known type label maps to.
pub open spec fn spec_record(f: Seq<Seq<char>>) -> RecordV {
    let amount = normalized_number(f[4]);
    let price = normalized_number(f[6]);
    RecordV {
        date: f[0],
        account: f[1],
        transaction_type: reclassified_type(label_type(f[2]), amount, price),
        security: f[3],
        amount: amount,
        price_per_unit: normalized_number(f[5]),
        price: price,
        fee: normalized_number(f[7]),
        currency: f[8],
        isin: f[9],
        result: normalized_number(f[10]),
    }
}

impl Record {
    /// Maps one eleven-field row: the type label must be in the closed
    /// set, every numeric field is normalized, and an `Övrigt` row is
    /// reclassified by the signs of its amount and price.
    pub fn from_csv_record(fields: &Vec<String>) -> (r: Result<Record, Error>)
        requires
            fields@.len() == 11,
        ensures
            r is Ok <==> known_label(fields@[2]@),
            r is Err ==> r->Err_0 == Error::UnknownTransactionType,
            r is Ok ==> r->Ok_0@ == spec_record(fields.deep_view()),
    {
        let base = match GhostfolioType::try_from_avanza(fields[2].as_str()) {
            None => {
                return Err(Error::UnknownTransactionType);
            },
            Some(t) => t,
        };
        let amount = normalize_avanza_number(fields[4].as_str());
        let price = normalize_avanza_number(fields[6].as_str());
        let transaction_type = if base == GhostfolioType::OTHER {
            match classify_number(amount.as_str()) {
                NumberSign::Zero => GhostfolioType::SELL,
                _ => match classify_number(price.as_str()) {
                    NumberSign::Negative => GhostfolioType::FEE,
                    NumberSign::Positive => GhostfolioType::INTEREST,
                    NumberSign::Zero => GhostfolioType::OTHER,
                },
            }
        } else {
            base
        };
        let rec = Record {
            date: fields[0].clone(),
            account: fields[1].clone(),
            transaction_type,
            security: fields[3].clone(),
            amount,
            price_per_unit: normalize_avanza_number(fields[5].as_str()),
            price,
            fee: normalize_avanza_number(fields[7].as_str()),
            currency: fields[8].clone(),
            isin: fields[9].clone(),
            result: normalize_avanza_number(fields[10].as_str()),
        };
        proof {
            assert(forall|k: int|
                0 <= k < 11 ==> #[trigger] fields.deep_view()[k] == fields@[k]@);
        }
        Ok(rec)
    }
}

/// The two account-level labels whose rows are dropped before mapping.
pub open spec fn is_skip_label(s: Seq<char>) -> bool {
    s == "Insättning"@ || s == "Uttag"@
}

/// Whether the row carries one of the two dropped labels.
pub fn is_skip_type(s: &str) -> (r: bool)
    ensures
        r == is_skip_label(s@),
{
    str_eq(s, "Insättning") || str_eq(s, "Uttag")
}

/// What the record walk yields from position `i` onward: unreadable rows
/// and rows with a dropped label are passed over; a row without the fixed
/// eleven fields, or with an unknown type label, fails the whole parse.
pub open spec fn parse_rows_from(rows: Seq<Option<Seq<Seq<char>>>>, i: int) -> Result<
    Seq<RecordV>,
    Error,
>
    decreases rows.len() - i,
{
    if i < 0 || i >= rows.len() {
        Ok(Seq::empty())
    } else {
        match rows[i] {
            None => parse_rows_from(rows, i + 1),
            Some(f) => if f.len() != 11 {
                Err(Error::MalformedRecord)
            } else if is_skip_label(f[2]) {
                parse_rows_from(rows, i + 1)
            } else if !known_label(f[2]) {
                Err(Error::UnknownTransactionType)
            } else {
                match parse_rows_from(rows, i + 1) {
                    Err(e) => Err(e),
                    Ok(rest) => Ok(seq![spec_record(f)] + rest),
                }
            },
        }
    }
}

/// Maps a whole record set, already split into rows and fields, to the
/// destination rows. Nothing survives a failure: the parse is all or
/// nothing.
pub fn parse_transactions(rows: &Vec<Option<Vec<String>>>) -> (r: Result<Vec<Record>, Error>)
    ensures
        match parse_rows_from(rows.deep_view(), 0) {
            Ok(recs) => r is Ok && r->Ok_0.deep_view() == recs,
            Err(e) => r is Err && r->Err_0 == e,
        },
{
    let ghost rv = rows.deep_view();
    let len = rows.len();
    let mut out: Vec<Record> = Vec::new();
    let ghost mut acc: Seq<RecordV> = Seq::empty();
    let mut i: usize = 0;
    while i < len
        invariant
            0 <= i <= len,
            len == rv.len(),
            rv == rows.deep_view(),
            out@.len() == acc.len(),
            forall|k: int| 0 <= k < acc.len() ==> #[trigger] out@[k]@ == acc[k],
            match parse_rows_from(rv, i as int) {
                Ok(rest) => parse_rows_from(rv, 0) == Ok::<Seq<RecordV>, Error>(acc + rest),
                Err(e) => parse_rows_from(rv, 0) == Err::<Seq<RecordV>, Error>(e),
            },
        decreases len - i,
    {
        proof {
            assert(rv[i as int] == rows@[i as int].deep_view());
        }
        match &rows[i] {
            None => {
                i += 1;
            },
            Some(fields) => {
                if fields.len() != 11 {
                    return Err(Error::MalformedRecord);
                }
                if is_skip_type(fields[2].as_str()) {
                    i += 1;
                } else {
                    match Record::from_csv_record(fields) {
                        Err(e) => {
                            return Err(e);
                        },
                        Ok(rec) => {
                            let ghost rec_v = rec@;
                            out.push(rec);
                            proof {
                                let prev = acc;
                                acc = acc.push(rec_v);
                                assert(fields.deep_view() =~= rv[i as int]->0);
                                match parse_rows_from(rv, i as int + 1) {
                                    Ok(rest) => {
                                        assert(parse_rows_from(rv, i as int) == Ok::<
                                            Seq<RecordV>,
                                            Error,
                                        >(seq![spec_record(rv[i as int]->0)] + rest));
                                        assert(prev + (seq![spec_record(rv[i as int]->0)] + rest)
                                            =~= acc + rest);
                                    },
                                    Err(e) => {},
                                }
                            }
                            i += 1;
                        },
                    }
                }
            },
        }
    }
    proof {
        assert(acc + Seq::<RecordV>::empty() =~= acc);
        match parse_rows_from(rv, 0) {
            Ok(recs) => {
                assert(out.deep_view() =~= recs);
            },
            Err(_) => {},
        }
    }
    Ok(out)
}

/// The record set the csv reader finds in a semicolon-delimited text: the
/// rows after the header row, each readable row as its fields, each
/// unreadable one absent. The value depends on the text alone.
pub uninterp spec fn csv_rows(text: Seq<char>) -> Seq<Option<Seq<Seq<char>>>>;

/// Relies on the csv crate's Reader with a semicolon delimiter (first row
/// taken as the header, uniform field counts enforced): hands back the
/// records after the header, one entry per record, unreadable records as
/// None.
#[verifier::external_body]
fn read_csv_rows(text: &str) -> (r: Vec<Option<Vec<String>>>)
    ensures
        r.deep_view() == csv_rows(text@),
{
    let mut rdr = csv::ReaderBuilder::new().delimiter(b';').from_reader(text.as_bytes());
    let mut out: Vec<Option<Vec<String>>> = Vec::new();
    for result in rdr.records() {
        match result {
            Ok(rec) => out.push(Some(rec.iter().map(|f| f.to_string()).collect())),
            Err(_) => out.push(None),
        }
    }
    out
}

/// Parses a whole semicolon-delimited transaction export, heading row
/// included, into destination rows.
pub fn parse_transactions_text(text: &str) -> (r: Result<Vec<Record>, Error>)
    ensures
        match parse_rows_from(csv_rows(text@), 0) {
            Ok(recs) => r is Ok && r->Ok_0.deep_view() == recs,
            Err(e) => r is Err && r->Err_0 == e,
        },
{
    let rows = read_csv_rows(text);
    parse_transactions(&rows)
}

} // verus!
