//! What a benchmark run is made with: the resolvers, the candidate domains
//! and the number of queries sent to each resolver.

use vstd::prelude::*;

verus! {

/// A DNS server to measure.
#[derive(Debug, PartialEq, Eq)]
pub struct Resolver {
    /// Display name.
    pub name: String,
    /// IP address, as text.
    pub address: String,
}

impl Clone for Resolver {
    fn clone(&self) -> (copy: Self)
        ensures
            copy == *self,
    {
        Resolver { name: self.name.clone(), address: self.address.clone() }
    }
}

/// Where the DNS service of a resolver is reached: at its address, on port
/// 53.
pub open spec fn endpoint_of(address: Seq<char>) -> Seq<char> {
    address + ":53"@
}

/// The socket address of the DNS service of a resolver, as text: the IP
/// address, a colon and the port 53.
pub fn endpoint(address: &str) -> (text: String)
    ensures
        text@ == endpoint_of(address@),
{
    let mut text = address.to_owned();
    text.append(":53");
    text
}

/// The number of queries sent to each resolver.
pub const DEFAULT_QUERY_COUNT: usize = 5;

/// The resolver has this name and this address.
pub open spec fn is_resolver(resolver: Resolver, name: &str, address: &str) -> bool {
    resolver.name@ == name@ && resolver.address@ == address@
}

/// The resolvers of a standard run, in the order in which they are probed.
pub open spec fn are_default_resolvers(resolvers: Seq<Resolver>) -> bool {
    &&& resolvers.len() == 6
    &&& is_resolver(resolvers[0], "Google", "8.8.8.8")
    &&& is_resolver(resolvers[1], "Cloudflare", "1.1.1.1")
    &&& is_resolver(resolvers[2], "NextDNS", "45.90.28.0")
    &&& is_resolver(resolvers[3], "Quad9", "9.9.9.9")
    &&& is_resolver(resolvers[4], "AdGuard", "94.140.14.14")
    &&& is_resolver(resolvers[5], "OpenDNS", "208.67.222.222")
}

/// Makes a resolver of a name and an address.
pub fn resolver(name: &str, address: &str) -> (resolver: Resolver)
    ensures
        is_resolver(resolver, name, address),
{
    Resolver { name: name.to_owned(), address: address.to_owned() }
}

/// The six public resolvers of a standard run.
pub fn default_resolvers() -> (resolvers: Vec<Resolver>)
    ensures
        are_default_resolvers(resolvers@),
{
    let mut resolvers: Vec<Resolver> = Vec::new();
    resolvers.push(resolver("Google", "8.8.8.8"));
    resolvers.push(resolver("Cloudflare", "1.1.1.1"));
    resolvers.push(resolver("NextDNS", "45.90.28.0"));
    resolvers.push(resolver("Quad9", "9.9.9.9"));
    resolvers.push(resolver("AdGuard", "94.140.14.14"));
    resolvers.push(resolver("OpenDNS", "208.67.222.222"));
    resolvers
}

/// The candidate domains of a standard run: a single one.
pub fn default_domains() -> (domains: Vec<String>)
    ensures
        domains@.len() == 1,
        domains@[0]@ == "www.duckduckgo.com"@,
{
    let mut domains: Vec<String> = Vec::new();
    domains.push("www.duckduckgo.com".to_owned());
    domains
}

} // verus!
