use mojang::api::blocked_servers::BlockedServers as ApiBlockedServers;
use mojang::BlockedServers;
use sha1::{Digest, Sha1};

fn sha1_hex(s: &str) -> String {
    let digest = Sha1::digest(s.as_bytes());
    let mut out = String::new();
    for b in digest {
        out.push_str(&format!("{:02x}", b));
    }
    out
}

fn set_of(patterns: &[&str]) -> BlockedServers {
    let raw = patterns
        .iter()
        .map(|p| sha1_hex(p))
        .collect::<Vec<String>>()
        .join("\n");
    BlockedServers::new(&raw)
}

#[test]
fn test_get_blocked_server() {
    let blocked = set_of(&["mc.playmc.mx"]);

    assert!(blocked.blocked("mc.playmc.mx"));
    assert!(!blocked.blocked("nose.connorcode.com"));
}

#[test]
fn test_get_blocked_server_ip() {
    let blocked = set_of(&["198.27.77.72"]);

    assert!(blocked.blocked("198.27.77.72"));
    assert!(!blocked.blocked("123.123.123.123"));
}

#[test]
fn empty_set_blocks_nothing() {
    let empty = BlockedServers { hashes: Vec::new() };
    assert!(!empty.blocked("mc.playmc.mx"));
    assert!(!empty.blocked("1.2.3.4"));
    assert!(!empty.blocked("localhost"));
    assert!(!empty.blocked(""));
}

#[test]
fn ipv4_wildcard_matches_any_last_octet() {
    let blocked = set_of(&["12.13.14.*"]);
    assert!(blocked.blocked("12.13.14.15"));
    assert!(blocked.blocked("12.13.14.0"));
    assert!(blocked.blocked("12.13.14.255"));
    assert!(!blocked.blocked("12.13.99.15"));
}

#[test]
fn ipv4_wildcard_every_depth() {
    let blocked = set_of(&["1.2.*"]);
    assert!(blocked.blocked("1.2.3.4"));
    assert!(blocked.blocked("1.2.77.88"));
    assert!(!blocked.blocked("1.3.3.4"));

    let blocked = set_of(&["1.*"]);
    assert!(blocked.blocked("1.2.3.4"));
    assert!(!blocked.blocked("2.2.3.4"));
}

#[test]
fn hostname_wildcard_matches_subdomains() {
    let blocked = set_of(&["*.domain.tld"]);
    assert!(blocked.blocked("sub.domain.tld"));
    assert!(blocked.blocked("other.domain.tld"));
    assert!(!blocked.blocked("other.tld"));
    // the wildcard pattern does not cover the bare domain itself
    assert!(!blocked.blocked("domain.tld"));
}

#[test]
fn exact_match_is_case_folded() {
    let blocked = set_of(&["mc.playmc.mx"]);
    assert!(blocked.blocked("mc.playmc.mx"));
    assert!(blocked.blocked("MC.PLAYMC.MX"));
    assert!(blocked.blocked("Mc.PlayMc.Mx"));
    assert!(!blocked.blocked("sub.mc.playmc.mx"));
}

#[test]
fn blocked_exact_does_not_fold_case() {
    let blocked = set_of(&["mc.playmc.mx"]);
    assert!(blocked.blocked_exact("mc.playmc.mx"));
    assert!(!blocked.blocked_exact("MC.PLAYMC.MX"));
}

#[test]
fn out_of_range_quad_is_a_hostname() {
    let as_ip = set_of(&["999.1.1.*"]);
    assert!(!as_ip.blocked("999.1.1.1"));
    let as_host = set_of(&["*.1.1.1"]);
    assert!(as_host.blocked("999.1.1.1"));
}

#[test]
fn five_pieces_are_a_hostname() {
    let as_ip = set_of(&["1.2.3.4.*"]);
    assert!(!as_ip.blocked("1.2.3.4.5"));
    let as_host = set_of(&["*.2.3.4.5"]);
    assert!(as_host.blocked("1.2.3.4.5"));
}

#[test]
fn three_pieces_are_a_hostname() {
    let as_ip = set_of(&["1.2.*"]);
    assert!(!as_ip.blocked("1.2.3"));
    let as_host = set_of(&["*.2.3"]);
    assert!(as_host.blocked("1.2.3"));
}

#[test]
fn single_label_has_only_the_exact_candidate() {
    let blocked = set_of(&["localhost"]);
    assert!(blocked.blocked("localhost"));
    assert!(!blocked.blocked("otherhost"));
}

#[test]
fn empty_address_hashes_the_empty_string() {
    // the published SHA-1 digest of the empty input
    let raw = "da39a3ee5e6b4b0d3255bfef95601890afd80709";
    let blocked = BlockedServers::new(raw);
    assert!(blocked.blocked(""));
}

#[test]
fn repeated_calls_agree() {
    let blocked = set_of(&["mc.playmc.mx", "1.2.3.*"]);
    for _ in 0..3 {
        assert!(blocked.blocked("mc.playmc.mx"));
        assert!(blocked.blocked("1.2.3.200"));
        assert!(!blocked.blocked("unrelated.example"));
    }
}

#[test]
fn loading_twice_gives_the_same_behaviour() {
    let raw = format!("{}\n{}", sha1_hex("a.b.c"), sha1_hex("4.3.2.*"));
    let one = BlockedServers::new(&raw);
    let two = BlockedServers::new(&raw);
    for addr in ["a.b.c", "4.3.2.1", "x.y.z", "9.9.9.9"] {
        assert_eq!(one.blocked(addr), two.blocked(addr));
    }
}

#[test]
fn order_and_duplicates_do_not_matter() {
    let h1 = sha1_hex("mc.playmc.mx");
    let h2 = sha1_hex("*.evil.example");
    let one = BlockedServers::new(&format!("{}\n{}", h1, h2));
    let two = BlockedServers::new(&format!("{}\n{}\n{}", h2, h1, h1));
    for addr in ["mc.playmc.mx", "x.evil.example", "other.example"] {
        assert_eq!(one.blocked(addr), two.blocked(addr));
    }
}

#[test]
fn malformed_lines_never_match() {
    let raw = format!("not a hash\n\n{}\ntrailing", sha1_hex("evil.example"));
    let blocked = BlockedServers::new(&raw);
    assert!(blocked.blocked("evil.example"));
    assert!(!blocked.blocked("not a hash"));
}

#[test]
fn api_container_matches_and_unwraps() {
    let h1 = sha1_hex("mc.playmc.mx");
    let h2 = sha1_hex("*.evil.example");
    let raw = format!("{}\n{}", h1, h2);
    let blocked = ApiBlockedServers::new(&raw);

    assert!(blocked.blocked("mc.playmc.mx"));
    assert!(blocked.blocked("MC.PLAYMC.MX"));
    assert!(blocked.blocked("deep.evil.example"));
    assert!(!blocked.blocked("evil.example"));

    let inner = blocked.into_inner();
    assert_eq!(inner, vec![h1, h2]);
}

#[test]
fn loading_keeps_lines_untrimmed() {
    let blocked = ApiBlockedServers::new("aa\nbb\n");
    assert_eq!(blocked.into_inner(), vec!["aa".to_string(), "bb".to_string(), "".to_string()]);
}
