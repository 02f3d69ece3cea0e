//! What a probe asks for: one of the candidate domains, picked at random for
//! each query, in the form of a DNS name.

use rand::seq::SliceRandom;
use trust_dns_client::rr::Name;
use vstd::prelude::*;

verus! {

/// The DNS name type of `trust_dns_client`. The library carries such a name
/// from the parser to the caller that sends the query, and never looks into
/// it.
#[verifier::external_type_specification]
#[verifier::external_body]
pub struct ExName(trust_dns_client::rr::Name);

/// What `Name::from_ascii` of `trust_dns_client` makes of a text: the DNS
/// name that it reads, or nothing where it refuses the text. The parser goes
/// by the text alone (its labels, their lengths, the escapes in them).
pub uninterp spec fn parsed_name(domain: Seq<char>) -> Option<Name>;

/// The text can be read as a DNS name.
pub open spec fn is_dns_name(domain: Seq<char>) -> bool {
    parsed_name(domain) is Some
}

/// Calls `Name::from_ascii` of `trust_dns_client` and drops the reason of a
/// refusal. Trusted: that the outcome is a function of the text alone, which
/// `parsed_name` stands for. Nothing is claimed of which texts are names.
#[verifier::external_body]
fn parse_name(domain: &str) -> (name: Option<Name>)
    ensures
        name == parsed_name(domain@),
{
    Name::from_ascii(domain).ok()
}

/// Calls `SliceRandom::choose` of `rand` on the candidates, with the thread's
/// own generator (`rand::thread_rng`, which the system seeds, and which
/// gives up only where the system has no randomness to give). Trusted: that
/// nothing is chosen from an empty list and that otherwise one of the
/// candidates is. Which one is left open: two calls may differ.
#[verifier::external_body]
fn choose_domain(domains: &Vec<String>) -> (chosen: Option<&String>)
    ensures
        domains@.len() == 0 <==> chosen is None,
        chosen matches Some(domain) ==> domains@.contains(*domain),
{
    domains.choose(&mut rand::thread_rng())
}

/// The name to ask for once a domain was chosen: what the parser makes of
/// that domain.
pub open spec fn name_of(chosen: Option<&String>) -> Option<Name> {
    match chosen {
        Some(domain) => parsed_name(domain@),
        None => None,
    }
}

/// Reads the chosen domain as a DNS name. `None` if no domain was chosen or
/// if the chosen one is not a DNS name.
pub fn query_name(chosen: Option<&String>) -> (name: Option<Name>)
    ensures
        name == name_of(chosen),
{
    match chosen {
        Some(domain) => parse_name(domain.as_str()),
        None => None,
    }
}

/// Picks the domain of the next query at random among the candidates and
/// reads it as a DNS name. With no candidate there is no query. Otherwise
/// the result is what the parser makes of one of the candidates: `None` if
/// the one that was picked is not a DNS name.
pub fn next_query(domains: &Vec<String>) -> (name: Option<Name>)
    ensures
        domains@.len() == 0 ==> name is None,
        domains@.len() > 0 ==> exists|i: int|
            0 <= i < domains@.len() && name == parsed_name(#[trigger] domains@[i]@),
{
    let chosen = choose_domain(domains);
    proof {
        if let Some(domain) = chosen {
            // the place of the chosen domain among the candidates
            let i = choose|i: int| 0 <= i < domains@.len() && domains@[i] == *domain;
            assert(name_of(chosen) == parsed_name(domains@[i]@));
        }
    }
    query_name(chosen)
}

} // verus!
