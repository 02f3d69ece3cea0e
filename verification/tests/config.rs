use dns_speed::config::{
    default_domains, default_resolvers, endpoint, resolver, DEFAULT_QUERY_COUNT,
};
use dns_speed::query::next_query;

#[test]
fn standard_run_sends_five_queries() {
    assert_eq!(DEFAULT_QUERY_COUNT, 5);
}

#[test]
fn standard_run_has_six_resolvers() {
    let pairs: Vec<(String, String)> =
        default_resolvers().into_iter().map(|r| (r.name, r.address)).collect();
    let expected = vec![
        ("Google", "8.8.8.8"),
        ("Cloudflare", "1.1.1.1"),
        ("NextDNS", "45.90.28.0"),
        ("Quad9", "9.9.9.9"),
        ("AdGuard", "94.140.14.14"),
        ("OpenDNS", "208.67.222.222"),
    ];
    assert_eq!(pairs.len(), 6);
    for (pair, (name, address)) in pairs.iter().zip(expected) {
        assert_eq!(pair.0, name);
        assert_eq!(pair.1, address);
    }
}

#[test]
fn standard_run_has_one_domain() {
    assert_eq!(default_domains(), vec!["www.duckduckgo.com".to_string()]);
}

#[test]
fn standard_domain_is_a_name() {
    let name = next_query(&default_domains()).unwrap();
    assert_eq!(name.to_ascii(), "www.duckduckgo.com");
}

#[test]
fn resolver_holds_name_and_address() {
    let r = resolver("Local", "127.0.0.1");
    assert_eq!(r.name, "Local");
    assert_eq!(r.address, "127.0.0.1");
}

#[test]
fn endpoint_is_the_address_on_port_53() {
    assert_eq!(endpoint("8.8.8.8"), "8.8.8.8:53");
    assert_eq!(endpoint("208.67.222.222"), "208.67.222.222:53");
    assert_eq!(endpoint(""), ":53");
}

#[test]
fn endpoints_of_the_standard_resolvers_are_on_port_53() {
    let endpoints: Vec<String> =
        default_resolvers().iter().map(|r| endpoint(&r.address)).collect();
    assert_eq!(
        endpoints,
        vec![
            "8.8.8.8:53",
            "1.1.1.1:53",
            "45.90.28.0:53",
            "9.9.9.9:53",
            "94.140.14.14:53",
            "208.67.222.222:53",
        ]
    );
}

#[test]
fn resolver_can_be_copied() {
    let r = resolver("Local", "127.0.0.1");
    assert_eq!(r.clone(), r);
}
