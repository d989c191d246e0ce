use pinnacle_cypat::tasks::dns_settings_audit::{
    merge_resolvectl, nameservers, needs_resolvectl, public_among, resolvectl_servers,
    resolvers_evidence,
};

#[test]
fn nameserver_entries_are_read_from_resolv_conf() {
    let text = "\
# Generated by NetworkManager
nameserver 192.168.1.1
nameserver 8.8.8.8
search example.com
options edns0
";
    assert_eq!(nameservers(text), ["192.168.1.1", "8.8.8.8"]);
}

#[test]
fn commented_nameservers_are_not_in_use() {
    assert!(nameservers("# nameserver 8.8.8.8\n").is_empty());
    assert!(nameservers("").is_empty());
}

#[test]
fn resolvectl_output_yields_the_real_upstreams() {
    let output = "\
Global
       Protocols: -LLMNR -mDNS
Link 2 (enp0s3)
    Current Scopes: DNS
         Protocols: +DefaultRoute
Current DNS Server: 192.168.1.1
       DNS Servers: 192.168.1.1 8.8.8.8
";
    assert_eq!(resolvectl_servers(output), ["192.168.1.1", "8.8.8.8"]);
}

#[test]
fn public_resolvers_are_named_with_their_owner() {
    let servers = vec!["192.168.1.1".to_string(), "8.8.8.8".to_string(), "1.1.1.1".to_string()];
    let public = public_among(&servers);
    assert_eq!(public.len(), 2);
    assert_eq!(public[0], ("8.8.8.8".to_string(), "Google"));
    assert_eq!(public[1], ("1.1.1.1".to_string(), "Cloudflare"));
}

#[test]
fn a_private_resolver_is_not_a_finding() {
    assert!(public_among(&["10.0.0.1".to_string()]).is_empty());
}

#[test]
fn the_stub_resolver_sends_the_search_to_resolvectl() {
    assert!(needs_resolvectl(&vec![]));
    assert!(needs_resolvectl(&vec!["127.0.0.53".to_string()]));
    assert!(!needs_resolvectl(&vec!["192.168.1.1".to_string()]));
}

#[test]
fn upstreams_are_added_once_and_the_stub_is_not() {
    let merged = merge_resolvectl(
        vec!["127.0.0.53".to_string(), "9.9.9.9".to_string()],
        "DNS Servers: 9.9.9.9 127.0.0.53 1.1.1.1\n",
    );
    assert_eq!(merged, ["127.0.0.53", "9.9.9.9", "1.1.1.1"]);
}

#[test]
fn the_resolver_finding_lists_the_resolvers_and_the_public_ones() {
    let servers = vec!["192.168.1.1".to_string(), "8.8.8.8".to_string(), "1.1.1.1".to_string()];
    let public = public_among(&servers);
    assert_eq!(
        resolvers_evidence(&servers, &public),
        format!(
            "resolvers in use: 192.168.1.1, 8.8.8.8, 1.1.1.1; 2 of them public (8.8.8.8 = {}, 1.1.1.1 = {})",
            public[0].1, public[1].1
        )
    );
    let private = vec!["10.0.0.2".to_string()];
    assert_eq!(resolvers_evidence(&private, &public_among(&private)), "resolvers in use: 10.0.0.2");
}
