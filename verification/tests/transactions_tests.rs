use avanza_ghostfolio::error::Error;
use avanza_ghostfolio::transactions::{
    classify_number, normalize_avanza_number, parse_transactions, parse_transactions_text,
    GhostfolioType, NumberSign, Record,
};

fn row(fields: [&str; 11]) -> Option<Vec<String>> {
    Some(fields.iter().map(|f| f.to_string()).collect())
}

#[test]
fn known_labels_map_to_their_types() {
    assert_eq!(GhostfolioType::try_from_avanza("Köp"), Some(GhostfolioType::BUY));
    assert_eq!(GhostfolioType::try_from_avanza("Utdelning"), Some(GhostfolioType::DIVIDEND));
    assert_eq!(GhostfolioType::try_from_avanza("Sälj"), Some(GhostfolioType::SELL));
    assert_eq!(
        GhostfolioType::try_from_avanza("Utländsk källskatt"),
        Some(GhostfolioType::FEE)
    );
    assert_eq!(GhostfolioType::try_from_avanza("Övrigt"), Some(GhostfolioType::OTHER));
    assert_eq!(GhostfolioType::try_from_avanza("Ränta"), None);
    assert_eq!(GhostfolioType::from_avanza("Köp"), GhostfolioType::BUY);
}

#[test]
fn number_normalization() {
    assert_eq!(normalize_avanza_number("-"), "0");
    assert_eq!(normalize_avanza_number("123,45"), "123.45");
    assert_eq!(normalize_avanza_number("-7,5"), "-7.5");
    assert_eq!(normalize_avanza_number("42"), "42");
    assert_eq!(normalize_avanza_number(""), "");
}

#[test]
fn sign_classification() {
    assert_eq!(classify_number("0"), NumberSign::Zero);
    assert_eq!(classify_number("0.00"), NumberSign::Zero);
    assert_eq!(classify_number("12.5"), NumberSign::Positive);
    assert_eq!(classify_number("-12.5"), NumberSign::Negative);
    assert_eq!(classify_number("-0.0"), NumberSign::Zero);
    // Text that is no plain decimal counts as zero.
    assert_eq!(classify_number(""), NumberSign::Zero);
    assert_eq!(classify_number("abc"), NumberSign::Zero);
    assert_eq!(classify_number("1.2.3"), NumberSign::Zero);
    assert_eq!(classify_number("-"), NumberSign::Zero);
}

#[test]
fn buy_row_passes_amount_through_normalized() {
    // A "Köp" row maps to BUY, the fee "-" becomes 0, and the amount is
    // the numeric-normalized field text.
    let fields: Vec<String> = [
        "2023-01-05",
        "Depå",
        "Köp",
        "Example Fund",
        "123,45",
        "10,5",
        "-1296,23",
        "-",
        "SEK",
        "SE0000000001",
        "-",
    ]
    .iter()
    .map(|f| f.to_string())
    .collect();
    let rec = Record::from_csv_record(&fields).unwrap();
    assert_eq!(rec.transaction_type, GhostfolioType::BUY);
    assert_eq!(rec.amount, "123.45");
    assert_eq!(rec.fee, "0");
    assert_eq!(rec.price, "-1296.23");
    assert_eq!(rec.price_per_unit, "10.5");
    assert_eq!(rec.date, "2023-01-05");
    assert_eq!(rec.security, "Example Fund");
    assert_eq!(rec.currency, "SEK");
    assert_eq!(rec.isin, "SE0000000001");
    assert_eq!(rec.result, "0");
}

#[test]
fn other_rows_are_reclassified_by_sign() {
    let base = [
        "2023-01-05",
        "Depå",
        "Övrigt",
        "x",
        "0",
        "-",
        "0",
        "-",
        "SEK",
        "-",
        "-",
    ];
    // Zero amount: the selling half of a dividend pair.
    let mut f = base;
    f[4] = "0,00";
    let fields: Vec<String> = f.iter().map(|s| s.to_string()).collect();
    assert_eq!(
        Record::from_csv_record(&fields).unwrap().transaction_type,
        GhostfolioType::SELL
    );
    // Nonzero amount with a negative price: a fee.
    let mut f = base;
    f[4] = "5";
    f[6] = "-3,5";
    let fields: Vec<String> = f.iter().map(|s| s.to_string()).collect();
    assert_eq!(
        Record::from_csv_record(&fields).unwrap().transaction_type,
        GhostfolioType::FEE
    );
    // Nonzero amount with a positive price: interest.
    let mut f = base;
    f[4] = "5";
    f[6] = "3,5";
    let fields: Vec<String> = f.iter().map(|s| s.to_string()).collect();
    assert_eq!(
        Record::from_csv_record(&fields).unwrap().transaction_type,
        GhostfolioType::INTEREST
    );
    // Nonzero amount with a zero price: left as it came.
    let mut f = base;
    f[4] = "5";
    f[6] = "0";
    let fields: Vec<String> = f.iter().map(|s| s.to_string()).collect();
    assert_eq!(
        Record::from_csv_record(&fields).unwrap().transaction_type,
        GhostfolioType::OTHER
    );
}

#[test]
fn unknown_label_is_fatal() {
    let fields: Vec<String> = [
        "2023-01-05",
        "Depå",
        "Ränta",
        "x",
        "1",
        "-",
        "1",
        "-",
        "SEK",
        "-",
        "-",
    ]
    .iter()
    .map(|f| f.to_string())
    .collect();
    assert_eq!(Record::from_csv_record(&fields), Err(Error::UnknownTransactionType));
}

#[test]
fn deposits_and_withdrawals_are_dropped() {
    let rows = vec![
        row([
            "2023-01-02",
            "Depå",
            "Insättning",
            "-",
            "-",
            "-",
            "1000",
            "-",
            "SEK",
            "-",
            "-",
        ]),
        row([
            "2023-01-03",
            "Depå",
            "Uttag",
            "-",
            "-",
            "-",
            "-500",
            "-",
            "SEK",
            "-",
            "-",
        ]),
        row([
            "2023-01-05",
            "Depå",
            "Köp",
            "Example Fund",
            "1",
            "10",
            "-10",
            "-",
            "SEK",
            "-",
            "-",
        ]),
    ];
    let recs = parse_transactions(&rows).unwrap();
    assert_eq!(recs.len(), 1);
    assert_eq!(recs[0].transaction_type, GhostfolioType::BUY);
    assert_eq!(recs[0].date, "2023-01-05");
}

#[test]
fn unreadable_rows_are_passed_over() {
    let rows = vec![
        None,
        row([
            "2023-01-05",
            "Depå",
            "Sälj",
            "Example Fund",
            "1",
            "10",
            "10",
            "-",
            "SEK",
            "-",
            "2",
        ]),
    ];
    let recs = parse_transactions(&rows).unwrap();
    assert_eq!(recs.len(), 1);
    assert_eq!(recs[0].transaction_type, GhostfolioType::SELL);
}

#[test]
fn short_rows_are_fatal() {
    let rows = vec![Some(vec!["2023-01-05".to_string(), "Depå".to_string()])];
    assert_eq!(parse_transactions(&rows), Err(Error::MalformedRecord));
}

#[test]
fn whole_export_text_parses() {
    let text = "Datum;Konto;Typ av transaktion;Värdepapper/beskrivning;Antal;Kurs;Belopp;Courtage;Valuta;ISIN;Resultat\n\
2023-01-05;Depå;Köp;Example Fund;123,45;10,5;-1296,23;-;SEK;SE0000000001;-\n\
2023-01-02;Depå;Insättning;-;-;-;1000;-;SEK;-;-\n\
2023-02-01;Depå;Utdelning;Example Fund;2;1,5;3;-;SEK;SE0000000001;-\n";
    let recs = parse_transactions_text(text).unwrap();
    assert_eq!(recs.len(), 2);
    assert_eq!(recs[0].transaction_type, GhostfolioType::BUY);
    assert_eq!(recs[0].amount, "123.45");
    assert_eq!(recs[1].transaction_type, GhostfolioType::DIVIDEND);
    assert_eq!(recs[1].date, "2023-02-01");
}

#[test]
fn export_with_unknown_label_fails_whole_parse() {
    let text = "Datum;Konto;Typ;Värdepapper;Antal;Kurs;Belopp;Courtage;Valuta;ISIN;Resultat\n\
2023-01-05;Depå;Mystery;x;1;1;1;-;SEK;-;-\n";
    assert_eq!(parse_transactions_text(text), Err(Error::UnknownTransactionType));
}
