use vstd::prelude::*;
use vstd::string::StrSliceExecFns;
use vstd::string::StringExecFns;
use crate::date::{
    Date, date_le, date_lt, date_text, millis_date, parse_date, parse_date_spec, days_since,
    date_of_timestamp_millis, format_date, is_date_greater,
};
use crate::error::Error;

verus! {

/// The look-back windows the price-history provider offers, ordered by
/// growing historical coverage. There is nothing after `Max`.
#[derive(Debug, Clone, Copy, PartialEq, Eq, Structural)]
pub enum TimePeriod {
    OneMonth,
    ThreeMonths,
    OneYear,
    ThreeYears,
    FiveYears,
    Max,
}

impl TimePeriod {
    pub open spec fn to_str_spec(self) -> Seq<char> {
        match self {
            TimePeriod::OneMonth => "one_month"@,
            TimePeriod::ThreeMonths => "three_months"@,
            TimePeriod::OneYear => "one_year"@,
            TimePeriod::ThreeYears => "three_years"@,
            TimePeriod::FiveYears => "five_years"@,
            TimePeriod::Max => "max"@,
        }
    }

    /// The name of the window in the provider's query syntax.
    pub fn to_str(&self) -> (r: String)
        ensures
            r@ == self.to_str_spec(),
    {
        match self {
            TimePeriod::OneMonth => "one_month".to_owned(),
            TimePeriod::ThreeMonths => "three_months".to_owned(),
            TimePeriod::OneYear => "one_year".to_owned(),
            TimePeriod::ThreeYears => "three_years".to_owned(),
            TimePeriod::FiveYears => "five_years".to_owned(),
            TimePeriod::Max => "max".to_owned(),
        }
    }

    /// The next larger window, if any.
    pub open spec fn next_spec(self) -> Option<TimePeriod> {
        match self {
            TimePeriod::OneMonth => Some(TimePeriod::ThreeMonths),
            TimePeriod::ThreeMonths => Some(TimePeriod::OneYear),
            TimePeriod::OneYear => Some(TimePeriod::ThreeYears),
            TimePeriod::ThreeYears => Some(TimePeriod::FiveYears),
            TimePeriod::FiveYears => Some(TimePeriod::Max),
            TimePeriod::Max => None,
        }
    }

    pub fn next(&self) -> (r: Option<TimePeriod>)
        ensures
            r == self.next_spec(),
    {
        match self {
            TimePeriod::OneMonth => Some(TimePeriod::ThreeMonths),
            TimePeriod::ThreeMonths => Some(TimePeriod::OneYear),
            TimePeriod::OneYear => Some(TimePeriod::ThreeYears),
            TimePeriod::ThreeYears => Some(TimePeriod::FiveYears),
            TimePeriod::FiveYears => Some(TimePeriod::Max),
            TimePeriod::Max => None,
        }
    }

    /// How many backfill passes can still start from this window, this one
    /// included: walking to the next larger window loses one.
    pub open spec fn passes_left(self) -> nat {
        match self {
            TimePeriod::OneMonth => 6,
            TimePeriod::ThreeMonths => 5,
            TimePeriod::OneYear => 4,
            TimePeriod::ThreeYears => 3,
            TimePeriod::FiveYears => 2,
            TimePeriod::Max => 1,
        }
    }

    /// Position in the coverage order, smallest window first.
    pub open spec fn order(self) -> int {
        match self {
            TimePeriod::OneMonth => 0,
            TimePeriod::ThreeMonths => 1,
            TimePeriod::OneYear => 2,
            TimePeriod::ThreeYears => 3,
            TimePeriod::FiveYears => 4,
            TimePeriod::Max => 5,
        }
    }

    /// The day-distance bound below which the window's coverage suffices;
    /// `Max` has no bound.
    pub open spec fn threshold(self) -> Option<int> {
        match self {
            TimePeriod::OneMonth => Some(30),
            TimePeriod::ThreeMonths => Some(90),
            TimePeriod::OneYear => Some(365),
            TimePeriod::ThreeYears => Some(3int * 365),
            TimePeriod::FiveYears => Some(5int * 365),
            TimePeriod::Max => None,
        }
    }
}

/// The window the first backfill pass uses, given how many days back the
/// requested end date lies from today.
pub open spec fn period_for_days(days: int) -> TimePeriod {
    if days < 30 {
        TimePeriod::OneMonth
    } else if days < 90 {
        TimePeriod::ThreeMonths
    } else if days < 365 {
        TimePeriod::OneYear
    } else if days < 3 * 365 {
        TimePeriod::ThreeYears
    } else if days < 5 * 365 {
        TimePeriod::FiveYears
    } else {
        TimePeriod::Max
    }
}

/// The threshold ladder, on a day count already in hand.
pub fn time_period_from_days(days: i64) -> (p: TimePeriod)
    ensures
        p == period_for_days(days as int),
{
    if days < 30 {
        TimePeriod::OneMonth
    } else if days < 90 {
        TimePeriod::ThreeMonths
    } else if days < 365 {
        TimePeriod::OneYear
    } else if days < 3 * 365 {
        TimePeriod::ThreeYears
    } else if days < 5 * 365 {
        TimePeriod::FiveYears
    } else {
        TimePeriod::Max
    }
}

/// The window for a backfill ending at `to`, sized by `to`'s distance from
/// today's clock date; the clock keeps the result itself from being pinned
/// down, but whatever day count the clock yields goes through the verified
/// ladder `time_period_from_days`.
pub fn time_period_from(to: &Date) -> TimePeriod
    requires
        to.wf(),
{
    time_period_from_days(days_since(to))
}

/// The ladder picks the smallest window whose coverage threshold exceeds
/// the day distance, and falls back to `Max` when none does.
pub proof fn lemma_initial_period_minimal(days: int)
    ensures
        !(period_for_days(days) is Max) ==> period_for_days(days).threshold() is Some && days
            < period_for_days(days).threshold()->0,
        forall|q: TimePeriod|
            q.threshold() is Some && days < q.threshold()->0 ==> period_for_days(days).order()
                <= q.order(),
        period_for_days(days) is Max ==> forall|q: TimePeriod|
            q.threshold() is Some ==> days >= q.threshold()->0,
{
    assert forall|q: TimePeriod|
        q.threshold() is Some && days < q.threshold()->0 implies period_for_days(days).order()
        <= q.order() by {
        match q {
            TimePeriod::OneMonth => {},
            TimePeriod::ThreeMonths => {},
            TimePeriod::OneYear => {},
            TimePeriod::ThreeYears => {},
            TimePeriod::FiveYears => {},
            TimePeriod::Max => {},
        }
    }
    if period_for_days(days) is Max {
        assert forall|q: TimePeriod| q.threshold() is Some implies days >= q.threshold()->0 by {
            match q {
                TimePeriod::OneMonth => {},
                TimePeriod::ThreeMonths => {},
                TimePeriod::OneYear => {},
                TimePeriod::ThreeYears => {},
                TimePeriod::FiveYears => {},
                TimePeriod::Max => {},
            }
        }
    }
}

/// The chart endpoint for one bucket of a symbol's price history.
pub open spec fn history_url_spec(orderbook_id: Seq<char>, period: TimePeriod) -> Seq<char> {
    "https://www.avanza.se/_api/fund-guide/chart/"@ + orderbook_id + "/"@ + period.to_str_spec()
        + "?raw=true"@
}

/// Writes the chart URL for one bucket of a symbol's price history.
pub fn history_url(orderbook_id: &str, time_period: &TimePeriod) -> (r: String)
    ensures
        r@ == history_url_spec(orderbook_id@, *time_period),
{
    let mut out = "https://www.avanza.se/_api/fund-guide/chart/".to_owned();
    out.append(orderbook_id);
    out.append("/");
    let period = time_period.to_str();
    out.append(period.as_str());
    out.append("?raw=true");
    proof {
        assert(out@ =~= history_url_spec(orderbook_id@, *time_period));
    }
    out
}

/// One point of a fetched price series: an epoch-millisecond timestamp and
/// the price as the decimal text it is printed with.
#[derive(Debug, PartialEq, Eq)]
pub struct DataSerie {
    pub timestamp: i64,
    pub price: String,
}

/// One fetched bucket of price history: the points, newest first, and the
/// provider's declared coverage bounds as `YYYY-MM-DD` strings.
#[derive(Debug, PartialEq, Eq)]
pub struct AvanzaHistory {
    pub id: String,
    pub data_serie: Vec<DataSerie>,
    pub name: String,
    pub from_date: String,
    pub to_date: String,
}

/// The mathematical shape of a price point.
pub struct DataSerieV {
    pub timestamp: int,
    pub price: Seq<char>,
}

impl View for DataSerie {
    type V = DataSerieV;

    open spec fn view(&self) -> DataSerieV {
        DataSerieV { timestamp: self.timestamp as int, price: self.price@ }
    }
}

impl DeepView for DataSerie {
    type V = DataSerieV;

    open spec fn deep_view(&self) -> DataSerieV {
        self@
    }
}

/// The mathematical shape of a fetched bucket.
pub struct AvanzaHistoryV {
    pub id: Seq<char>,
    pub data_serie: Seq<DataSerieV>,
    pub name: Seq<char>,
    pub from_date: Seq<char>,
    pub to_date: Seq<char>,
}

impl View for AvanzaHistory {
    type V = AvanzaHistoryV;

    open spec fn view(&self) -> AvanzaHistoryV {
        AvanzaHistoryV {
            id: self.id@,
            data_serie: self.data_serie.deep_view(),
            name: self.name@,
            from_date: self.from_date@,
            to_date: self.to_date@,
        }
    }
}

impl DeepView for AvanzaHistory {
    type V = AvanzaHistoryV;

    open spec fn deep_view(&self) -> AvanzaHistoryV {
        self@
    }
}

/// The fixed first output row.
pub open spec fn header_text() -> Seq<char> {
    "date;marketPrice"@
}

/// One output row: the point's civil date, a semicolon, the price text.
pub open spec fn row_text(d: Date, price: Seq<char>) -> Seq<char> {
    date_text(d) + seq![';'] + price
}

/// Walks one bucket's points from position `i` onward, in provider order,
/// and names the points a pass keeps, each with its civil date:
///
/// - a point strictly newer than the previous pass's watermark is skipped
///   (it duplicates data a smaller bucket already captured);
/// - a kept point whose civil date falls after `to` stops the whole pass;
/// - a kept timestamp outside the representable four-digit-year range makes
///   the pass fail (`None`).
pub open spec fn scan_points(points: Seq<DataSerieV>, i: int, watermark: int, to: Date) -> Option<
    Seq<(DataSerieV, Date)>,
>
    decreases points.len() - i,
{
    if i < 0 || i >= points.len() {
        Some(Seq::empty())
    } else {
        let p = points[i];
        if p.timestamp > watermark {
            scan_points(points, i + 1, watermark, to)
        } else {
            match millis_date(p.timestamp) {
                None => None,
                Some(d) => if !d.wf() {
                    None
                } else if date_lt(to, d) {
                    Some(Seq::empty())
                } else {
                    match scan_points(points, i + 1, watermark, to) {
                        None => None,
                        Some(rest) => Some(seq![(p, d)] + rest),
                    }
                },
            }
        }
    }
}

/// The output rows for a sequence of kept points.
pub open spec fn rows_of(emitted: Seq<(DataSerieV, Date)>) -> Seq<Seq<char>> {
    Seq::new(emitted.len(), |j: int| row_text(emitted[j].1, emitted[j].0.price))
}

/// The mathematical shape of the walk's state.
pub struct BackfillModel {
    pub period: TimePeriod,
    pub watermark: int,
    pub rows: Seq<Seq<char>>,
    pub done: bool,
}

/// State carried across backfill passes: the bucket to fetch next, the
/// oldest-recorded watermark of the previous pass, the accumulated output
/// rows (header first), and whether the walk has stopped.
#[derive(Debug)]
pub struct BackfillState {
    pub period: TimePeriod,
    pub watermark: i64,
    pub rows: Vec<String>,
    pub done: bool,
}

impl View for BackfillState {
    type V = BackfillModel;

    open spec fn view(&self) -> BackfillModel {
        BackfillModel {
            period: self.period,
            watermark: self.watermark as int,
            rows: self.rows.deep_view(),
            done: self.done,
        }
    }
}

/// The state a walk starts from: nothing fetched yet, so the watermark sits
/// at the newest possible timestamp and nothing is skipped on the first
/// pass.
pub open spec fn initial_model(period: TimePeriod) -> BackfillModel {
    BackfillModel {
        period: period,
        watermark: i64::MAX as int,
        rows: seq![header_text()],
        done: false,
    }
}

/// What one pass does to the state, given the fetched bucket: append the
/// kept rows, move the watermark to the bucket's first (newest recorded)
/// timestamp, and either stop — when the bucket's declared coverage already
/// starts on or before the requested start, or when there is no larger
/// bucket — or advance to the next larger bucket. `None` when the pass
/// fails: an unrepresentable kept timestamp, or a bucket `from_date` that
/// is not a readable date.
pub open spec fn spec_step(pre: BackfillModel, h: AvanzaHistoryV, from: Date, to: Date) -> Option<
    BackfillModel,
> {
    let scanned = scan_points(h.data_serie, 0, pre.watermark, to);
    let bucket_from = parse_date_spec(h.from_date);
    if scanned is Some && bucket_from is Some {
        let covered = date_le(bucket_from->0, from);
        Some(
            BackfillModel {
                period: if covered || pre.period is Max {
                    pre.period
                } else {
                    pre.period.next_spec()->0
                },
                watermark: h.data_serie[0].timestamp,
                rows: pre.rows + rows_of(scanned->0),
                done: covered || pre.period is Max,
            },
        )
    } else {
        None
    }
}

impl BackfillState {
    /// A fresh walk: only the header row, a watermark newer than any
    /// timestamp, starting at the given bucket.
    pub fn new(initial_period: TimePeriod) -> (s: BackfillState)
        ensures
            s@ == initial_model(initial_period),
    {
        let mut rows: Vec<String> = Vec::new();
        rows.push("date;marketPrice".to_owned());
        let s = BackfillState { period: initial_period, watermark: i64::MAX, rows, done: false };
        proof {
            assert(s@.rows =~= seq![header_text()]);
        }
        s
    }

    /// One backfill pass over an already-fetched bucket. On failure the
    /// state is left exactly as it was: a failed walk keeps no partial
    /// result.
    pub fn step(&mut self, history: &AvanzaHistory, from: &Date, to: &Date) -> (r: Result<
        (),
        Error,
    >)
        requires
            !old(self)@.done,
            history@.data_serie.len() > 0,
        ensures
            r is Ok ==> spec_step(old(self)@, history@, *from, *to) == Some(final(self)@),
            r is Err ==> spec_step(old(self)@, history@, *from, *to) is None && *final(self)
                == *old(self) && r->Err_0 == Error::UpstreamFailure,
    {
        let ghost pre = *self;
        let ghost pv = history@.data_serie;
        let ghost w_spec = self.watermark as int;
        let points = &history.data_serie;
        let len = points.len();
        let w = self.watermark;
        let mut fresh: Vec<String> = Vec::new();
        let ghost mut emitted: Seq<(DataSerieV, Date)> = Seq::empty();
        let mut i: usize = 0;
        while i < len
            invariant_except_break
                0 <= i <= len,
                len == pv.len(),
                pre == *old(self),
                w == pre.watermark,
                w_spec == w as int,
                pv == points.deep_view(),
                pv == history@.data_serie,
                *self == pre,
                fresh@.len() == emitted.len(),
                forall|j: int|
                    0 <= j < emitted.len() ==> #[trigger] fresh@[j]@ == row_text(
                        emitted[j].1,
                        emitted[j].0.price,
                    ),
                match scan_points(pv, i as int, w_spec, *to) {
                    Some(rest) => scan_points(pv, 0, w_spec, *to) == Some(emitted + rest),
                    None => scan_points(pv, 0, w_spec, *to) is None,
                },
            ensures
                *self == pre,
                pre == *old(self),
                pv == history@.data_serie,
                w_spec == pre.watermark as int,
                scan_points(pv, 0, w_spec, *to) is Some,
                emitted == scan_points(pv, 0, w_spec, *to)->0,
                fresh@.len() == emitted.len(),
                forall|j: int|
                    0 <= j < emitted.len() ==> #[trigger] fresh@[j]@ == row_text(
                        emitted[j].1,
                        emitted[j].0.price,
                    ),
            decreases len - i,
        {
            let ts = points[i].timestamp;
            proof {
                assert(pv[i as int] == points@[i as int]@);
            }
            if ts > w {
                // Newer than the previous pass's watermark: a smaller bucket
                // already captured it.
                proof {
                    assert(scan_points(pv, i as int, w_spec, *to) == scan_points(
                        pv,
                        i as int + 1,
                        w_spec,
                        *to,
                    ));
                }
                i += 1;
            } else {
                match date_of_timestamp_millis(ts) {
                    None => {
                        proof {
                            assert(scan_points(pv, i as int, w_spec, *to) is None);
                            assert(scan_points(pv, 0, w_spec, *to) is None);
                        }
                        return Err(Error::UpstreamFailure);
                    },
                    Some(d) => {
                        if !d.is_valid() {
                            proof {
                                assert(scan_points(pv, i as int, w_spec, *to) is None);
                                assert(scan_points(pv, 0, w_spec, *to) is None);
                            }
                            return Err(Error::UpstreamFailure);
                        }
                        if is_date_greater(&d, to) {
                            proof {
                                assert(scan_points(pv, i as int, w_spec, *to) == Some(
                                    Seq::<(DataSerieV, Date)>::empty(),
                                ));
                                assert(emitted + Seq::<(DataSerieV, Date)>::empty() =~= emitted);
                            }
                            break;
                        }
                        let mut row = format_date(&d);
                        row.append(";");
                        let price = &points[i].price;
                        row.append(price.as_str());
                        proof {
                            reveal_strlit(";");
                            assert(";"@ =~= seq![';']);
                            assert(row@ =~= row_text(d, pv[i as int].price));
                        }
                        let ghost row_view = row@;
                        fresh.push(row);
                        proof {
                            let p = pv[i as int];
                            let prev = emitted;
                            emitted = emitted.push((p, d));
                            assert(emitted[prev.len() as int] == (p, d));
                            assert(fresh@[prev.len() as int]@ == row_view);
                            match scan_points(pv, i as int + 1, w_spec, *to) {
                                Some(rest) => {
                                    assert(scan_points(pv, i as int, w_spec, *to) == Some(
                                        seq![(p, d)] + rest,
                                    ));
                                    assert(prev + (seq![(p, d)] + rest) =~= emitted + rest);
                                },
                                None => {
                                    assert(scan_points(pv, i as int, w_spec, *to) is None);
                                },
                            }
                        }
                        i += 1;
                    },
                }
            }
        }
        let bucket_from = match parse_date(history.from_date.as_str()) {
            None => {
                return Err(Error::UpstreamFailure);
            },
            Some(bf) => bf,
        };
        proof {
            assert(fresh.deep_view() =~= rows_of(emitted));
        }
        self.watermark = points[0].timestamp;
        self.rows.append(&mut fresh);
        let covered = !is_date_greater(&bucket_from, from);
        if covered {
            self.done = true;
        } else {
            match self.period.next() {
                None => {
                    self.done = true;
                },
                Some(np) => {
                    self.period = np;
                },
            }
        }
        proof {
            assert(pv[0] == points@[0]@);
            assert(self@.rows =~= pre@.rows + rows_of(scan_points(pv, 0, w_spec, *to)->0));
        }
        Ok(())
    }
}

/// Every window allows between one and six further passes.
pub proof fn lemma_passes_left_bound(p: TimePeriod)
    ensures
        1 <= p.passes_left() <= 6,
{
    match p {
        TimePeriod::OneMonth => {},
        TimePeriod::ThreeMonths => {},
        TimePeriod::OneYear => {},
        TimePeriod::ThreeYears => {},
        TimePeriod::FiveYears => {},
        TimePeriod::Max => {},
    }
}

/// Advancing to the next larger window uses up exactly one pass.
pub proof fn lemma_next_passes(p: TimePeriod)
    requires
        p.next_spec() is Some,
    ensures
        p.next_spec()->0.passes_left() == p.passes_left() - 1,
{
    match p {
        TimePeriod::OneMonth => {},
        TimePeriod::ThreeMonths => {},
        TimePeriod::OneYear => {},
        TimePeriod::ThreeYears => {},
        TimePeriod::FiveYears => {},
        TimePeriod::Max => {},
    }
}

/// Every point a pass keeps is at least as old as the watermark carried
/// over from the previous (smaller) bucket: only strictly newer points are
/// skipped, so equality can slip through — see `lemma_no_watermark_overlap`
/// for the strict bound.
pub proof fn lemma_emitted_not_newer_than_watermark(
    points: Seq<DataSerieV>,
    i: int,
    watermark: int,
    to: Date,
)
    requires
        scan_points(points, i, watermark, to) is Some,
    ensures
        forall|j: int|
            0 <= j < scan_points(points, i, watermark, to)->0.len() ==> #[trigger] scan_points(
                points,
                i,
                watermark,
                to,
            )->0[j].0.timestamp <= watermark,
    decreases points.len() - i,
{
    if i < 0 || i >= points.len() {
    } else {
        let p = points[i];
        if p.timestamp > watermark {
            lemma_emitted_not_newer_than_watermark(points, i + 1, watermark, to);
        } else {
            match millis_date(p.timestamp) {
                None => {},
                Some(d) => {
                    if !d.wf() {
                    } else if date_lt(to, d) {
                    } else {
                        lemma_emitted_not_newer_than_watermark(points, i + 1, watermark, to);
                        let rest = scan_points(points, i + 1, watermark, to)->0;
                        assert forall|j: int|
                            0 <= j < scan_points(points, i, watermark, to)->0.len() implies scan_points(
                            points,
                            i,
                            watermark,
                            to,
                        )->0[j].0.timestamp <= watermark by {
                            if j > 0 {
                                assert(scan_points(points, i, watermark, to)->0[j] == rest[j - 1]);
                            }
                        }
                    }
                },
            }
        }
    }
}

/// The overlap guard between two buckets: with the smaller bucket's oldest
/// recorded timestamp as the watermark, the larger bucket's pass emits no
/// point with a timestamp at or above that watermark — as long as the
/// larger bucket holds no point whose timestamp equals the watermark
/// exactly (such a point is not strictly newer, so the skip rule would
/// keep it).
pub proof fn lemma_no_watermark_overlap(
    points: Seq<DataSerieV>,
    i: int,
    watermark: int,
    to: Date,
)
    requires
        scan_points(points, i, watermark, to) is Some,
        forall|k: int| 0 <= k < points.len() ==> #[trigger] points[k].timestamp != watermark,
    ensures
        forall|j: int|
            0 <= j < scan_points(points, i, watermark, to)->0.len() ==> #[trigger] scan_points(
                points,
                i,
                watermark,
                to,
            )->0[j].0.timestamp < watermark,
    decreases points.len() - i,
{
    if i < 0 || i >= points.len() {
    } else {
        let p = points[i];
        if p.timestamp > watermark {
            lemma_no_watermark_overlap(points, i + 1, watermark, to);
        } else {
            match millis_date(p.timestamp) {
                None => {},
                Some(d) => {
                    if !d.wf() {
                    } else if date_lt(to, d) {
                    } else {
                        lemma_no_watermark_overlap(points, i + 1, watermark, to);
                        let rest = scan_points(points, i + 1, watermark, to)->0;
                        assert forall|j: int|
                            0 <= j < scan_points(points, i, watermark, to)->0.len() implies scan_points(
                            points,
                            i,
                            watermark,
                            to,
                        )->0[j].0.timestamp < watermark by {
                            if j > 0 {
                                assert(scan_points(points, i, watermark, to)->0[j] == rest[j - 1]);
                            }
                        }
                    }
                },
            }
        }
    }
}

/// The whole walk over a sequence of fetched buckets, one bucket per pass,
/// stopping when a pass stops the walk or the buckets run out.
pub open spec fn spec_run(
    state: BackfillModel,
    responses: Seq<AvanzaHistoryV>,
    from: Date,
    to: Date,
) -> Option<BackfillModel>
    decreases responses.len(),
{
    if state.done || responses.len() == 0 {
        Some(state)
    } else {
        match spec_step(state, responses[0], from, to) {
            None => None,
            Some(next) => spec_run(next, responses.drop_first(), from, to),
        }
    }
}

/// A walk whose window allows at most `n` more passes never looks past the
/// first `n` fetched buckets.
proof fn lemma_run_truncate(
    state: BackfillModel,
    responses: Seq<AvanzaHistoryV>,
    from: Date,
    to: Date,
    n: int,
)
    requires
        0 <= n <= responses.len(),
        state.period.passes_left() <= n,
    ensures
        spec_run(state, responses, from, to) == spec_run(state, responses.take(n), from, to),
    decreases n,
{
    lemma_passes_left_bound(state.period);
    if state.done {
    } else {
        // passes_left is at least one, so n is at least one and a first
        // bucket is there to consume on both sides.
        assert(responses.take(n).len() == n);
        assert(responses.take(n)[0] == responses[0]);
        match spec_step(state, responses[0], from, to) {
            None => {
                assert(spec_run(state, responses, from, to) is None);
                assert(spec_run(state, responses.take(n), from, to) is None);
            },
            Some(next) => {
                assert(spec_run(state, responses, from, to) == spec_run(
                    next,
                    responses.drop_first(),
                    from,
                    to,
                ));
                assert(spec_run(state, responses.take(n), from, to) == spec_run(
                    next,
                    responses.take(n).drop_first(),
                    from,
                    to,
                ));
                if next.done {
                    assert(spec_run(next, responses.drop_first(), from, to) == Some(next));
                    assert(spec_run(next, responses.take(n).drop_first(), from, to) == Some(next));
                } else {
                    lemma_next_passes(state.period);
                    lemma_run_truncate(next, responses.drop_first(), from, to, n - 1);
                    assert(responses.drop_first().take(n - 1) =~= responses.take(n).drop_first());
                }
            },
        }
    }
}

/// Backfill terminates after at most six passes — one per bucket — even
/// when the requested start date is never covered: buckets fetched after
/// the sixth can never be consulted.
pub proof fn lemma_backfill_six_passes(
    period: TimePeriod,
    responses: Seq<AvanzaHistoryV>,
    from: Date,
    to: Date,
)
    requires
        responses.len() >= 6,
    ensures
        spec_run(initial_model(period), responses, from, to) == spec_run(
            initial_model(period),
            responses.take(6),
            from,
            to,
        ),
{
    lemma_passes_left_bound(period);
    lemma_run_truncate(initial_model(period), responses, from, to, 6);
}

/// The rows glued with newline separators, in order.
pub open spec fn joined(rows: Seq<Seq<char>>) -> Seq<char>
    decreases rows.len(),
{
    if rows.len() == 0 {
        Seq::empty()
    } else if rows.len() == 1 {
        rows[0]
    } else {
        joined(rows.drop_last()) + seq!['\n'] + rows.last()
    }
}

/// Joins the accumulated rows with newline separators: the text the sink
/// receives.
pub fn join_rows(rows: &Vec<String>) -> (r: String)
    ensures
        r@ == joined(rows.deep_view()),
{
    let ghost rv = rows.deep_view();
    let len = rows.len();
    let mut out = String::new();
    let mut i: usize = 0;
    while i < len
        invariant
            0 <= i <= len,
            len == rv.len(),
            rv == rows.deep_view(),
            out@ == joined(rv.take(i as int)),
        decreases len - i,
    {
        if i > 0 {
            out.append("\n");
        }
        out.append(rows[i].as_str());
        proof {
            reveal_strlit("\n");
            assert(rv.take(i as int + 1).drop_last() =~= rv.take(i as int));
            assert(rv.take(i as int + 1).last() == rv[i as int]);
            if i == 0 {
                assert(out@ =~= joined(rv.take(1)));
            } else {
                assert("\n"@ =~= seq!['\n']);
                assert(out@ =~= joined(rv.take(i as int)) + seq!['\n'] + rv[i as int]);
            }
        }
        i += 1;
    }
    proof {
        assert(rv.take(len as int) =~= rv);
    }
    out
}

/// A finished or stalled walk: the final state and how many passes ran.
pub struct BackfillRun {
    pub state: BackfillState,
    pub passes: usize,
}

/// Runs a whole backfill against already-fetched bucket responses,
/// consuming them in order, one per pass. The walk takes at most six
/// passes; it ends early when a pass stops it, and stalls when the
/// responses run out first.
pub fn run_backfill(
    responses: &Vec<AvanzaHistory>,
    from: &Date,
    to: &Date,
    initial_period: TimePeriod,
) -> (r: Result<BackfillRun, Error>)
    requires
        forall|k: int| 0 <= k < responses@.len() ==> #[trigger] responses@[k]@.data_serie.len() > 0,
    ensures
        r is Ok ==> Some(r->Ok_0.state@) == spec_run(
            initial_model(initial_period),
            responses.deep_view(),
            *from,
            *to,
        ),
        r is Ok ==> r->Ok_0.passes <= 6 && r->Ok_0.passes <= responses@.len(),
        r is Ok ==> (r->Ok_0.state@.done || r->Ok_0.passes == responses@.len()),
        r is Err ==> spec_run(initial_model(initial_period), responses.deep_view(), *from, *to)
            is None && r->Err_0 == Error::UpstreamFailure,
{
    let ghost rv = responses.deep_view();
    let mut state = BackfillState::new(initial_period);
    proof {
        lemma_passes_left_bound(initial_period);
    }
    let len = responses.len();
    let mut i: usize = 0;
    proof {
        assert(rv.skip(0) =~= rv);
    }
    while i < len
        invariant_except_break
            0 <= i <= len,
            len == rv.len(),
            rv == responses.deep_view(),
            forall|k: int| 0 <= k < rv.len() ==> #[trigger] rv[k].data_serie.len() > 0,
            spec_run(initial_model(initial_period), rv, *from, *to) == spec_run(
                state@,
                rv.skip(i as int),
                *from,
                *to,
            ),
            !state@.done ==> i + state@.period.passes_left() <= 6,
            state@.done ==> i <= 6,
        ensures
            0 <= i <= len,
            len == rv.len(),
            rv == responses.deep_view(),
            spec_run(initial_model(initial_period), rv, *from, *to) == spec_run(
                state@,
                rv.skip(i as int),
                *from,
                *to,
            ),
            state@.done || i == len,
            i <= 6,
        decreases len - i,
    {
        if state.done {
            break;
        }
        proof {
            assert(rv[i as int] == responses@[i as int]@);
            assert(rv.skip(i as int)[0] == rv[i as int]);
        }
        let resp = &responses[i];
        let ghost prev = state@;
        match state.step(resp, from, to) {
            Err(e) => {
                proof {
                    assert(spec_run(prev, rv.skip(i as int), *from, *to) is None);
                }
                return Err(e);
            },
            Ok(()) => {
                proof {
                    assert(spec_step(prev, rv[i as int], *from, *to) == Some(state@));
                    assert(rv.skip(i as int).drop_first() =~= rv.skip(i as int + 1));
                    lemma_passes_left_bound(prev.period);
                    if !state@.done {
                        lemma_next_passes(prev.period);
                    }
                }
                i += 1;
            },
        }
    }
    proof {
        if i == len && !state@.done {
            assert(rv.skip(len as int).len() == 0);
        }
    }
    Ok(BackfillRun { state, passes: i })
}

} // verus!
