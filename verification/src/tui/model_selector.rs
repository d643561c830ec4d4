//! Choosing a model: the list filtered by the search text.
use crate::tui::autocomplete::{lowercase, str_lowercase};
use crate::tui::strs::{chars_contain, seq_contains, str_chars};
use vstd::prelude::*;

verus! {

/// The models whose name contains the query, case aside, in their order;
/// all of them for an empty query.
pub open spec fn models_matching(models: Seq<Seq<char>>, query: Seq<char>) -> Seq<Seq<char>>
    decreases models.len(),
{
    if models.len() == 0 {
        seq![]
    } else {
        let before = models_matching(models.drop_last(), query);
        if query.len() == 0 || seq_contains(lowercase(models.last()), lowercase(query)) {
            before.push(models.last())
        } else {
            before
        }
    }
}

/// The models that match the search text.
pub fn filter_models<'a>(models: &'a [String], query: &str) -> (r: Vec<&'a str>)
    ensures
        r@.map_values(|m: &str| m@) == models_matching(models@.map_values(|m: String| m@), query@),
{
    let ghost mv = models@.map_values(|m: String| m@);
    let q_empty = str_chars(query).len() == 0;
    let lower = str_chars(str_lowercase(query).as_str());
    let mut r: Vec<&'a str> = Vec::new();
    let mut i: usize = 0;
    assert(mv.take(0) =~= Seq::<Seq<char>>::empty());
    assert(r@.map_values(|m: &str| m@) =~= Seq::<Seq<char>>::empty());
    while i < models.len()
        invariant
            i <= models@.len(),
            mv == models@.map_values(|m: String| m@),
            q_empty == (query@.len() == 0),
            lower@ == lowercase(query@),
            r@.map_values(|m: &str| m@) == models_matching(mv.take(i as int), query@),
        decreases models.len() - i,
    {
        let m: &'a str = models[i].as_str();
        proof {
            assert(mv.take(i + 1).drop_last() =~= mv.take(i as int));
            assert(mv.take(i + 1).last() == m@);
        }
        let keep = q_empty || chars_contain(&str_chars(str_lowercase(m).as_str()), &lower);
        if keep {
            let ghost before = r@;
            r.push(m);
            assert(r@.map_values(|x: &str| x@) =~= before.map_values(|x: &str| x@).push(m@));
        }
        i = i + 1;
    }
    assert(mv.take(models@.len() as int) =~= mv);
    r
}

} // verus!
