use vstd::prelude::*;
use vstd::string::StringExecFns;
use crate::error::Error;
use crate::strutil::str_eq;

verus! {

/// One candidate from the symbol search provider: identity, display name,
/// instrument kind ("STOCK" or "FUND"), currency, and the last traded
/// price as decimal text.
#[derive(Debug, PartialEq, Eq)]
pub struct Hit {
    pub orderbook_id: String,
    pub type_field: String,
    pub link_display: String,
    pub last_price: String,
    pub currency: String,
}

/// The mathematical shape of a search hit.
pub struct HitV {
    pub orderbook_id: Seq<char>,
    pub type_field: Seq<char>,
    pub link_display: Seq<char>,
    pub last_price: Seq<char>,
    pub currency: Seq<char>,
}

impl View for Hit {
    type V = HitV;

    open spec fn view(&self) -> HitV {
        HitV {
            orderbook_id: self.orderbook_id@,
            type_field: self.type_field@,
            link_display: self.link_display@,
            last_price: self.last_price@,
            currency: self.currency@,
        }
    }
}

impl DeepView for Hit {
    type V = HitV;

    open spec fn deep_view(&self) -> HitV {
        self@
    }
}

impl Clone for Hit {
    fn clone(&self) -> (r: Self)
        ensures
            r@ == self@,
    {
        Hit {
            orderbook_id: self.orderbook_id.clone(),
            type_field: self.type_field.clone(),
            link_display: self.link_display.clone(),
            last_price: self.last_price.clone(),
            currency: self.currency.clone(),
        }
    }
}

/// The display string of a hit: `kind - name (price currency)`.
pub open spec fn format_hit_spec(h: HitV) -> Seq<char> {
    h.type_field + " - "@ + h.link_display + " ("@ + h.last_price + " "@ + h.currency + ")"@
}

/// Writes the display string a hit is presented with.
pub fn format_hit(hit: &Hit) -> (r: String)
    ensures
        r@ == format_hit_spec(hit@),
{
    let mut out = String::new();
    out.append(hit.type_field.as_str());
    out.append(" - ");
    out.append(hit.link_display.as_str());
    out.append(" (");
    out.append(hit.last_price.as_str());
    out.append(" ");
    out.append(hit.currency.as_str());
    out.append(")");
    proof {
        assert(out@ =~= format_hit_spec(hit@));
    }
    out
}

/// The resolver's decision on a candidate list that is not empty.
#[derive(Debug)]
pub enum Resolution {
    /// Exactly one candidate: chosen outright, no interaction.
    Sole(Hit),
    /// Several candidates: the operator must pick one of these display
    /// strings.
    Choice(Vec<String>),
}

/// Decides how a candidate list resolves: no candidate fails with
/// `NotFound` and asks nothing of the operator; a single candidate is
/// returned without interaction; several candidates become the list of
/// display strings to choose from.
pub fn resolve_hits(hits: &Vec<Hit>) -> (r: Result<Resolution, Error>)
    ensures
        hits@.len() == 0 <==> r is Err,
        r is Err ==> r->Err_0 == Error::NotFound,
        hits@.len() == 1 ==> r is Ok && r->Ok_0 is Sole && r->Ok_0->Sole_0@ == hits@[0]@,
        hits@.len() > 1 ==> r is Ok && r->Ok_0 is Choice && r->Ok_0->Choice_0.deep_view()
            == Seq::new(hits@.len(), |k: int| format_hit_spec(hits@[k]@)),
{
    if hits.len() == 0 {
        return Err(Error::NotFound);
    }
    if hits.len() == 1 {
        return Ok(Resolution::Sole(hits[0].clone()));
    }
    let mut options: Vec<String> = Vec::new();
    let len = hits.len();
    let mut i: usize = 0;
    while i < len
        invariant
            0 <= i <= len,
            len == hits@.len(),
            options@.len() == i,
            forall|k: int|
                0 <= k < i ==> #[trigger] options@[k]@ == format_hit_spec(hits@[k]@),
        decreases len - i,
    {
        options.push(format_hit(&hits[i]));
        i += 1;
    }
    proof {
        assert(options.deep_view() =~= Seq::new(
            hits@.len(),
            |k: int| format_hit_spec(hits@[k]@),
        ));
    }
    Ok(Resolution::Choice(options))
}

/// Whether the candidate at position `k` displays as `answer`.
pub open spec fn hit_matches(hits: Seq<Hit>, answer: Seq<char>, k: int) -> bool {
    0 <= k < hits.len() && format_hit_spec(hits[k]@) == answer
}

/// The first candidate whose display string equals the operator's answer,
/// or nothing when no candidate displays that way.
pub fn select_hit(hits: &Vec<Hit>, answer: &str) -> (r: Option<Hit>)
    ensures
        match r {
            Some(h) => exists|k: int|
                #[trigger] hit_matches(hits@, answer@, k) && h@ == hits@[k]@ && forall|j: int|
                    0 <= j < k ==> !hit_matches(hits@, answer@, j),
            None => forall|k: int| !hit_matches(hits@, answer@, k),
        },
{
    let len = hits.len();
    let mut i: usize = 0;
    while i < len
        invariant
            0 <= i <= len,
            len == hits@.len(),
            forall|j: int| 0 <= j < i ==> !hit_matches(hits@, answer@, j),
        decreases len - i,
    {
        let display = format_hit(&hits[i]);
        if str_eq(display.as_str(), answer) {
            let chosen = hits[i].clone();
            proof {
                assert(hit_matches(hits@, answer@, i as int));
            }
            return Some(chosen);
        }
        i += 1;
    }
    None
}

} // verus!
