//! Fuzzy credential lookup: case-insensitive substring matching of a search
//! term against the enumerated credential names.

use vstd::prelude::*;

verus! {

/// What `str::to_lowercase` returns for a string's characters. The mapping
/// depends on the characters alone.
pub uninterp spec fn lower_of(s: Seq<char>) -> Seq<char>;

/// Relies on `str::to_lowercase`: the result is a function of the
/// characters alone.
#[verifier::external_body]
fn to_lowercase(s: &str) -> (r: String)
    ensures
        r@ == lower_of(s@),
{
    s.to_lowercase()
}

/// `needle` occurs somewhere in `hay` as a contiguous run of characters.
pub open spec fn spec_has_substring(hay: Seq<char>, needle: Seq<char>) -> bool {
    exists|i: int|
        0 <= i && i + needle.len() <= hay.len() && #[trigger] hay.subrange(i, i + needle.len())
            == needle
}

/// Relies on `str::contains`: true exactly when the pattern occurs in the
/// string as a substring.
#[verifier::external_body]
fn str_contains(hay: &str, needle: &str) -> (r: bool)
    ensures
        r == spec_has_substring(hay@, needle@),
{
    hay.contains(needle)
}

/// A credential matches a search term when the lowercased name has the
/// lowercased term as a substring.
pub open spec fn spec_matches(cred: Seq<char>, term: Seq<char>) -> bool {
    spec_has_substring(lower_of(cred), lower_of(term))
}

/// The credentials matching the term, kept in their original order.
pub open spec fn spec_matching(creds: Seq<Seq<char>>, term: Seq<char>) -> Seq<Seq<char>>
    decreases creds.len(),
{
    if creds.len() == 0 {
        seq![]
    } else if spec_matches(creds[0], term) {
        seq![creds[0]] + spec_matching(creds.skip(1), term)
    } else {
        spec_matching(creds.skip(1), term)
    }
}

/// Appending one credential extends the matching list by that credential
/// exactly when it matches.
proof fn lemma_matching_push(creds: Seq<Seq<char>>, term: Seq<char>, x: Seq<char>)
    ensures
        spec_matching(creds.push(x), term) == spec_matching(creds, term) + (if spec_matches(
            x,
            term,
        ) {
            seq![x]
        } else {
            Seq::<Seq<char>>::empty()
        }),
    decreases creds.len(),
{
    let whole = creds.push(x);
    if creds.len() == 0 {
        assert(whole[0] == x);
        assert(whole.skip(1) =~= Seq::<Seq<char>>::empty());
        assert(spec_matching(Seq::<Seq<char>>::empty(), term) == Seq::<Seq<char>>::empty());
        if spec_matches(x, term) {
            assert(spec_matching(whole, term) =~= spec_matching(creds, term) + seq![x]);
        } else {
            assert(spec_matching(whole, term) =~= spec_matching(creds, term) + Seq::<
                Seq<char>,
            >::empty());
        }
    } else {
        assert(whole[0] == creds[0]);
        assert(whole.skip(1) =~= creds.skip(1).push(x));
        lemma_matching_push(creds.skip(1), term, x);
        let tail_extra = if spec_matches(x, term) {
            seq![x]
        } else {
            Seq::<Seq<char>>::empty()
        };
        if spec_matches(creds[0], term) {
            assert(seq![creds[0]] + (spec_matching(creds.skip(1), term) + tail_extra) =~= (seq![
                creds[0],
            ] + spec_matching(creds.skip(1), term)) + tail_extra);
        }
    }
}

/// The substring test on one credential, as a value the filter law can name.
pub open spec fn spec_matches_pred(term: Seq<char>) -> spec_fn(Seq<char>) -> bool {
    |c: Seq<char>| spec_matches(c, term)
}

/// Law: the matching list is precisely the credential list filtered by the
/// case-insensitive substring test, in order.
pub proof fn lemma_matching_is_filter(creds: Seq<Seq<char>>, term: Seq<char>)
    ensures
        spec_matching(creds, term) == creds.filter(spec_matches_pred(term)),
    decreases creds.len(),
{
    reveal(Seq::filter);
    let pred = spec_matches_pred(term);
    if creds.len() == 0 {
        assert(spec_matching(creds, term) =~= creds.filter(pred));
    } else {
        lemma_matching_is_filter(creds.drop_last(), term);
        lemma_matching_push(creds.drop_last(), term, creds.last());
        assert(creds =~= creds.drop_last().push(creds.last()));
        assert(pred(creds.last()) == spec_matches(creds.last(), term));
        assert(creds.filter(pred) == (if pred(creds.last()) {
            creds.drop_last().filter(pred).push(creds.last())
        } else {
            creds.drop_last().filter(pred)
        }));
        if spec_matches(creds.last(), term) {
            assert(spec_matching(creds.drop_last(), term) + seq![creds.last()] =~= spec_matching(
                creds.drop_last(),
                term,
            ).push(creds.last()));
        } else {
            assert(spec_matching(creds.drop_last(), term) + Seq::<Seq<char>>::empty()
                =~= spec_matching(creds.drop_last(), term));
        }
    }
}

/// Keeps exactly the credentials whose lowercased name contains the
/// lowercased search term, in their original order.
pub fn filter_matching(creds: &Vec<String>, term: &str) -> (matched: Vec<String>)
    ensures
        matched.deep_view() == spec_matching(creds.deep_view(), term@),
{
    let term_lower = to_lowercase(term);
    let mut matched: Vec<String> = Vec::new();
    let mut i: usize = 0;
    proof {
        assert(creds.deep_view().skip(0) =~= creds.deep_view());
        assert(matched.deep_view() =~= Seq::<Seq<char>>::empty());
    }
    while i < creds.len()
        invariant
            i <= creds@.len(),
            creds.deep_view().len() == creds@.len(),
            term_lower@ == lower_of(term@),
            spec_matching(creds.deep_view(), term@) == matched.deep_view() + spec_matching(
                creds.deep_view().skip(i as int),
                term@,
            ),
        decreases creds@.len() - i,
    {
        let ghost rest = creds.deep_view().skip(i as int);
        proof {
            assert(rest[0] == creds.deep_view()[i as int]);
            assert(rest.skip(1) =~= creds.deep_view().skip(i as int + 1));
        }
        let cred_lower = to_lowercase(creds[i].as_str());
        let ghost old_matched = matched.deep_view();
        if str_contains(cred_lower.as_str(), term_lower.as_str()) {
            matched.push(creds[i].clone());
            proof {
                assert(matched.deep_view() =~= old_matched + seq![creds.deep_view()[i as int]]);
                assert(matched.deep_view() + spec_matching(rest.skip(1), term@) =~= old_matched
                    + spec_matching(rest, term@));
            }
        }
        i = i + 1;
    }
    proof {
        assert(spec_matching(creds.deep_view().skip(i as int), term@) =~= Seq::<
            Seq<char>,
        >::empty());
        assert(matched.deep_view() + Seq::<Seq<char>>::empty() =~= matched.deep_view());
    }
    matched
}

} // verus!
