//! A refresh on demand: which sources a list of names asks for.

use crate::domain::models::Source;
use vstd::prelude::*;

verus! {

/// The pieces of a text between its commas, in order: one more than there
/// are commas, and empty where two commas meet or the text begins or ends
/// with one.
pub open spec fn comma_parts(s: Seq<char>) -> Seq<Seq<char>>
    decreases s.len(),
{
    if s.len() == 0 {
        seq![Seq::empty()]
    } else {
        let before = comma_parts(s.drop_last());
        if s.last() == ',' {
            before.push(Seq::empty())
        } else {
            before.drop_last().push(before.last().push(s.last()))
        }
    }
}

/// A text without the white space at its ends.
pub uninterp spec fn trimmed(s: Seq<char>) -> Seq<char>;

/// A text in lower case.
pub uninterp spec fn lowercased(s: Seq<char>) -> Seq<char>;

/// `str::split` at each comma, the pieces as strings: the pieces of the
/// text between its commas, in order.
#[verifier::external_body]
fn split_at_commas(s: &str) -> (out: Vec<String>)
    ensures
        out@.len() == comma_parts(s@).len(),
        forall|i: int| 0 <= i < out@.len() ==> (#[trigger] out@[i])@ == comma_parts(s@)[i],
{
    s.split(',').map(str::to_string).collect()
}

/// `str::trim`.
#[verifier::external_body]
fn trim(s: &str) -> (out: &str)
    ensures
        out@ == trimmed(s@),
{
    s.trim()
}

/// `str::to_lowercase`.
#[verifier::external_body]
fn lowercase(s: &str) -> (out: String)
    ensures
        out@ == lowercased(s@),
{
    s.to_lowercase()
}

/// The sources that a refresh by name reaches: a cached source by its own
/// name, and both solar-event feeds by either of their names or by `donki`.
/// Any other name reaches none.
pub open spec fn refreshed_by(name: Seq<char>) -> Seq<Source> {
    if name == "apod"@ {
        seq![Source::Apod]
    } else if name == "neo"@ {
        seq![Source::Neo]
    } else if name == "donki"@ || name == "flr"@ || name == "cme"@ {
        seq![Source::Flr, Source::Cme]
    } else if name == "spacex"@ {
        seq![Source::Spacex]
    } else {
        Seq::empty()
    }
}

/// The name that a piece of the list stands for: trimmed, in lower case.
pub open spec fn name_of(piece: Seq<char>) -> Seq<char> {
    lowercased(trimmed(piece))
}

/// What the first `n` pieces ask for: each name that reaches a source, with
/// the sources it reaches, in the order of the pieces.
pub open spec fn planned(pieces: Seq<Seq<char>>, n: int) -> Seq<(Seq<char>, Seq<Source>)>
    decreases n,
{
    if n <= 0 {
        Seq::empty()
    } else if refreshed_by(name_of(pieces[n - 1])).len() > 0 {
        planned(pieces, n - 1).push((name_of(pieces[n - 1]), refreshed_by(name_of(pieces[n - 1]))))
    } else {
        planned(pieces, n - 1)
    }
}

/// The plan as names and sources.
pub open spec fn plan_view(plan: Seq<(String, Vec<Source>)>) -> Seq<(Seq<char>, Seq<Source>)> {
    Seq::new(plan.len(), |i: int| (plan[i].0@, plan[i].1@))
}

/// The sources that a refresh by name reaches.
pub fn refresh_targets(name: &str) -> (out: Vec<Source>)
    ensures
        out@ == refreshed_by(name@),
{
    let wanted = name.to_owned();
    let mut out: Vec<Source> = Vec::new();
    if wanted == "apod".to_owned() {
        out.push(Source::Apod);
    } else if wanted == "neo".to_owned() {
        out.push(Source::Neo);
    } else if wanted == "donki".to_owned() || wanted == "flr".to_owned() || wanted
        == "cme".to_owned() {
        out.push(Source::Flr);
        out.push(Source::Cme);
    } else if wanted == "spacex".to_owned() {
        out.push(Source::Spacex);
    }
    assert(out@ =~= refreshed_by(name@));
    out
}

/// What the given pieces ask for.
pub fn plan_pieces(pieces: &Vec<String>) -> (out: Vec<(String, Vec<Source>)>)
    ensures
        plan_view(out@) == planned(
            Seq::new(pieces@.len(), |i: int| pieces@[i]@),
            pieces@.len() as int,
        ),
{
    let ghost all = Seq::new(pieces@.len(), |i: int| pieces@[i]@);
    let mut out: Vec<(String, Vec<Source>)> = Vec::new();
    let mut i: usize = 0;
    while i < pieces.len()
        invariant
            i <= pieces@.len(),
            all == Seq::new(pieces@.len(), |i: int| pieces@[i]@),
            plan_view(out@) == planned(all, i as int),
        decreases pieces@.len() - i,
    {
        let name = lowercase(trim(pieces[i].as_str()));
        let targets = refresh_targets(name.as_str());
        if targets.len() > 0 {
            let ghost before = out@;
            out.push((name, targets));
            assert(plan_view(out@) =~= plan_view(before).push((name@, targets@)));
        }
        i += 1;
    }
    out
}

/// What a list of names asks for: the list is split at its commas, each
/// piece is trimmed and put in lower case, and each name that reaches a
/// source is kept with the sources it reaches. Names that reach none are
/// passed over.
pub fn refresh_plan(list: &str) -> (out: Vec<(String, Vec<Source>)>)
    ensures
        plan_view(out@) == planned(comma_parts(list@), comma_parts(list@).len() as int),
{
    let pieces = split_at_commas(list);
    assert(Seq::new(pieces@.len(), |i: int| pieces@[i]@) =~= comma_parts(list@));
    plan_pieces(&pieces)
}

} // verus!
