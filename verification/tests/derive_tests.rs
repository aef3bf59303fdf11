use pastebin::author::Deriver;

#[test]
fn derive_is_deterministic() {
    let deriver = Deriver::new(String::from("pepper-fixture"));
    let first = deriver.derive("203.0.113.5:4711");
    let second = deriver.derive("203.0.113.5:4711");
    assert_eq!(first, second);
}

#[test]
fn distinct_addresses_yield_distinct_ids() {
    let deriver = Deriver::new(String::from("pepper-fixture"));
    let a = deriver.derive("203.0.113.5:4711");
    let b = deriver.derive("203.0.113.6:4711");
    assert_ne!(a, b);
}

#[test]
fn same_host_different_port_is_a_different_author() {
    let deriver = Deriver::new(String::from("p"));
    let a = deriver.derive("1.2.3.4:9000");
    let b = deriver.derive("1.2.3.4:9001");
    assert_eq!(a, "b21c5833139a35cbcade7cb762e2068d2843c87d6b59cde4c19f8ad6663ba851");
    assert_eq!(b, "97aaf6cf552900dca0f6730db713b2245d6d4c525916adf749feba128fe8801a");
    assert_ne!(a, b);
}

#[test]
fn derive_matches_sha256_of_address_and_pepper() {
    let deriver = Deriver::new(String::from("p"));
    let id = deriver.derive("203.0.113.5");
    assert_eq!(id, "0fc950e81a403feb7158aaaa776bb5a4fb6c5bd531a44d77112224edcdec79c9");
    assert_eq!(id.len(), 64);
    assert!(id.chars().all(|c| c.is_ascii_hexdigit() && !c.is_ascii_uppercase()));
}

#[test]
fn derive_with_empty_pepper_and_address() {
    let deriver = Deriver::new(String::from(""));
    let id = deriver.derive("abc");
    // SHA-256 of "abc" alone, since the pepper is empty.
    assert_eq!(id, "ba7816bf8f01cfea414140de5dae2223b00361a396177a9cb410ff61f20015ad");
    let empty_both = Deriver::new(String::from("abc")).derive("");
    // The digest depends on the concatenation, so "" + "abc" and
    // "abc" + "" agree.
    assert_eq!(empty_both, id);
}
