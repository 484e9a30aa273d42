use std::str::FromStr;

use mojang::api::profile::profile_url;
use mojang::api::public_profile::model_of_name;
use mojang::api::username::{batch_size_ok, username_profile_url, usernames_payload};
use mojang::api::{Model, Url};
use mojang::stats::{get_keys_json, MetricKeys};

#[test]
fn url_wraps_its_text() {
    let url = Url::new("https://example.com/a".to_string());
    assert_eq!(url.as_str(), "https://example.com/a");
}

#[test]
fn model_from_string_folds_ascii_case() {
    assert_eq!(Model::from("slim".to_string()), Model::Slim);
    assert_eq!(Model::from("SLIM".to_string()), Model::Slim);
    assert_eq!(Model::from("SlIm".to_string()), Model::Slim);
    assert_eq!(Model::from("normal".to_string()), Model::Normal);
    assert_eq!(Model::from("anything".to_string()), Model::Normal);
    assert_eq!(Model::from("slim ".to_string()), Model::Normal);
}

#[test]
fn model_of_name_knows_both_models() {
    assert_eq!(model_of_name("slim"), Some(Model::Slim));
    assert_eq!(model_of_name("NORMAL"), Some(Model::Normal));
    assert_eq!(model_of_name("fat"), None);
    assert_eq!(model_of_name(""), None);
}

#[test]
fn model_from_str_reports_unknown_names() {
    assert_eq!(Model::from_str("Slim"), Ok(Model::Slim));
    assert_eq!(Model::from_str("normal"), Ok(Model::Normal));
    assert_eq!(Model::from_str("fat"), Err("Unknown model: fat".to_string()));
}

#[test]
fn profile_url_appends_the_identifier() {
    assert_eq!(
        profile_url("3c358264-b456-4bde-ab1e-fe1023db6679"),
        "https://sessionserver.mojang.com/session/minecraft/profile/3c358264-b456-4bde-ab1e-fe1023db6679"
    );
}

#[test]
fn username_url_percent_encodes() {
    assert_eq!(
        username_profile_url("Notch"),
        "https://api.mojang.com/users/profiles/minecraft/Notch"
    );
    assert_eq!(
        username_profile_url("a b"),
        "https://api.mojang.com/users/profiles/minecraft/a%20b"
    );
}

#[test]
fn batch_size_limits() {
    assert!(!batch_size_ok(0));
    assert!(batch_size_ok(1));
    assert!(batch_size_ok(10));
    assert!(!batch_size_ok(11));
}

#[test]
fn usernames_payload_is_a_json_array() {
    assert_eq!(usernames_payload(&Vec::new()), "[]");
    assert_eq!(usernames_payload(&vec!["Notch".to_string()]), "[\"Notch\"]");
    assert_eq!(
        usernames_payload(&vec!["Notch".to_string(), "jeb_".to_string()]),
        "[\"Notch\",\"jeb_\"]"
    );
}

#[test]
fn usernames_payload_escapes_special_characters() {
    assert_eq!(
        usernames_payload(&vec!["a\"b".to_string()]),
        "[\"a\\\"b\"]"
    );
    assert_eq!(
        usernames_payload(&vec!["a\\b".to_string()]),
        "[\"a\\\\b\"]"
    );
    assert_eq!(
        usernames_payload(&vec!["a\nb".to_string()]),
        "[\"a\\u000ab\"]"
    );
    // what comes out stays parseable as the same strings
    let parsed: Vec<String> =
        serde_json::from_str(&usernames_payload(&vec!["a\"b\\c\nd".to_string()])).unwrap();
    assert_eq!(parsed, vec!["a\"b\\c\nd".to_string()]);
}

#[test]
fn metric_keys_have_wire_names() {
    assert_eq!(MetricKeys::ItemSoldMinecraft.name(), "item_sold_minecraft");
    assert_eq!(
        MetricKeys::PrepaidCardRedeemedMinecraft.name(),
        "prepaid_card_redeemed_minecraft"
    );
    assert_eq!(MetricKeys::ItemSoldCobalt.name(), "item_sold_cobalt");
    assert_eq!(
        MetricKeys::PrepaidCardRedeemedCobalt.name(),
        "prepaid_card_redeemed_cobalt"
    );
    assert_eq!(MetricKeys::ItemSoldScrolls.name(), "item_sold_scrolls");
    assert_eq!(MetricKeys::ItemSoldDungeons.name(), "item_sold_dungeons");
}

#[test]
fn metric_keys_jsonify_quotes_the_name() {
    assert_eq!(
        MetricKeys::ItemSoldMinecraft.jsonify(),
        "\"item_sold_minecraft\""
    );
}

#[test]
fn keys_json_builds_the_request_body() {
    assert_eq!(get_keys_json(Vec::new()), "{\"metricKeys\":[]}");
    assert_eq!(
        get_keys_json(vec![MetricKeys::ItemSoldMinecraft]),
        "{\"metricKeys\":[\"item_sold_minecraft\"]}"
    );
    assert_eq!(
        get_keys_json(vec![
            MetricKeys::ItemSoldMinecraft,
            MetricKeys::PrepaidCardRedeemedMinecraft
        ]),
        "{\"metricKeys\":[\"item_sold_minecraft\",\"prepaid_card_redeemed_minecraft\"]}"
    );
}
