use std::cmp::Ordering;

use drop_app::update_checker::{
    compare_versions, evaluate_tags, latest_tag, parse_version, trim_leading_v, update_notice, version_order,
    UpdateCheck,
};

fn strings(v: &[&str]) -> Vec<String> {
    v.iter().map(|s| s.to_string()).collect()
}

#[test]
fn parse_version_strips_leading_vs_and_splits_on_dots_and_dashes() {
    assert_eq!(parse_version("vv1.2-rc1"), strings(&["1", "2", "rc1"]));
    assert_eq!(parse_version("0.3.0"), strings(&["0", "3", "0"]));
    assert_eq!(parse_version(""), strings(&[""]));
    assert_eq!(parse_version("1..2"), strings(&["1", "", "2"]));
    assert_eq!(parse_version("1.v2"), strings(&["1", "v2"]));
}

#[test]
fn trim_leading_v_removes_every_leading_v() {
    assert_eq!(trim_leading_v("vvv0.1"), "0.1");
    assert_eq!(trim_leading_v("0.1v"), "0.1v");
    assert_eq!(trim_leading_v("v"), "");
}

#[test]
fn newer_numeric_component_wins() {
    assert_eq!(compare_versions("0.2.0", "0.1.0"), Ordering::Greater);
    assert_eq!(compare_versions("0.1.0", "0.2.0"), Ordering::Less);
    assert_eq!(compare_versions("1.10.0", "1.9.0"), Ordering::Greater);
    assert_eq!(compare_versions("v2.0.0", "1.99.99"), Ordering::Greater);
}

#[test]
fn release_is_newer_than_its_pre_release() {
    assert_eq!(compare_versions("1.0.0", "1.0.0-beta"), Ordering::Greater);
    assert_eq!(compare_versions("1.0.0-beta", "1.0.0"), Ordering::Less);
}

#[test]
fn equal_versions_compare_equal() {
    assert_eq!(compare_versions("1.0.0", "1.0.0"), Ordering::Equal);
    assert_eq!(compare_versions("", ""), Ordering::Equal);
}

#[test]
fn same_shape_falls_back_to_reversed_text_order() {
    // The numbers agree, so the strings decide, the other way round.
    assert_eq!(compare_versions("v1.2", "1.2"), Ordering::Less);
    assert_eq!(compare_versions("1.a.0", "1.b.0"), Ordering::Greater);
}

#[test]
fn component_out_of_u32_range_is_not_a_number() {
    // 4294967296 does not parse as u32, so the comparison stops there.
    assert_eq!(compare_versions("4294967296", "1"), Ordering::Less);
    assert_eq!(compare_versions("4294967295", "1"), Ordering::Greater);
    assert_eq!(compare_versions("+2", "1"), Ordering::Greater);
}

#[test]
fn comparing_the_other_way_reverses_the_answer() {
    let pairs = [("0.2.0", "0.1.0"), ("1.0.0-rc", "1.0.0"), ("v3", "3"), ("a", "b"), ("1.2.3", "1.2.3")];
    for (a, b) in pairs {
        assert_eq!(version_order(a, b), -version_order(b, a));
        assert_eq!(compare_versions(a, b), compare_versions(b, a).reverse());
    }
    assert_eq!(version_order("0.5.1", "0.5.1"), 0);
}

#[test]
fn latest_tag_is_the_newest() {
    let tags = strings(&["v0.1.0", "v0.3.0", "v0.2.0"]);
    assert_eq!(latest_tag(&tags), Some(1));
    assert_eq!(latest_tag(&Vec::new()), None);
    let ties = strings(&["1.0", "1.0"]);
    assert_eq!(latest_tag(&ties), Some(0));
}

#[test]
fn evaluate_tags_reports_a_newer_release() {
    let tags = strings(&["v0.1.0", "v0.3.0", "v0.2.0"]);
    let check = evaluate_tags(&tags, "0.2.5").unwrap();
    assert_eq!(check.latest_version, "0.3.0");
    assert!(check.update_available);
    let same = evaluate_tags(&tags, "0.3.0").unwrap();
    assert!(!same.update_available);
    assert!(evaluate_tags(&Vec::new(), "0.3.0").is_none());
}

#[test]
fn update_notice_texts() {
    let newer = UpdateCheck { latest_version: "0.4.0".to_string(), update_available: true };
    let n = update_notice(&newer, "0.3.0");
    assert_eq!(n.title, "Update Available");
    assert_eq!(n.description, "Version 0.4.0 is now available");
    assert_eq!(n.button_text, "Close");
    let current = UpdateCheck { latest_version: "0.3.0".to_string(), update_available: false };
    let n = update_notice(&current, "0.3.0");
    assert_eq!(n.title, "You're Up to Date");
    assert_eq!(n.description, "You're running the latest version of Drop (0.3.0)");
    assert_eq!(n.button_text, "Great!");
}
