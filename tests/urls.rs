use crate_and_crowbar::decimal::render_padded;
use crate_and_crowbar::naming::{
    candidates, default_rules, destination_name, format_aws_url, format_pentadact_url_no_zero,
    format_pentadact_url_with_zero, NamingRule,
};

#[test]
fn create_single_digit_episode_url() {
    let expected = "https://s3-eu-west-1.amazonaws.com/crateandcrowbar/episodes/CCEp001.mp3";
    assert_eq!(format_aws_url(1), expected);
}

#[test]
fn create_double_digit_episode_url() {
    let expected = "https://s3-eu-west-1.amazonaws.com/crateandcrowbar/episodes/CCEp021.mp3";
    assert_eq!(format_aws_url(21), expected);
}

#[test]
fn create_triple_digit_episode_url() {
    let expected = "https://s3-eu-west-1.amazonaws.com/crateandcrowbar/episodes/CCEp121.mp3";
    assert_eq!(format_aws_url(121), expected);
}

#[test]
fn create_pentadact_two_digit_with_zero_episode_url() {
    let expected = "https://www.pentadact.com/podcast/CCEp085.mp3";
    assert_eq!(format_pentadact_url_with_zero(85), expected);
}

#[test]
fn create_pentadact_two_digit_no_zero_episode_url() {
    let expected = "https://www.pentadact.com/podcast/CCEp78.mp3";
    assert_eq!(format_pentadact_url_no_zero(78), expected);
}

#[test]
fn padding_fills_to_width() {
    assert_eq!(render_padded(1, 3), "001");
    assert_eq!(render_padded(21, 3), "021");
    assert_eq!(render_padded(121, 3), "121");
    assert_eq!(render_padded(0, 3), "000");
}

#[test]
fn padding_overflow_lengthens() {
    assert_eq!(render_padded(1234, 3), "1234");
    assert_eq!(render_padded(18446744073709551615, 3), "18446744073709551615");
}

#[test]
fn zero_width_is_unpadded() {
    assert_eq!(render_padded(78, 0), "78");
    assert_eq!(render_padded(7, 0), "7");
    assert_eq!(render_padded(100, 0), "100");
}

#[test]
fn candidates_follow_rule_order() {
    let rules = default_rules();
    let first = candidates(&rules, 79);
    let second = candidates(&rules, 79);
    assert_eq!(first, second);
    assert_eq!(
        first,
        vec![
            "https://s3-eu-west-1.amazonaws.com/crateandcrowbar/episodes/CCEp079.mp3".to_string(),
            "https://www.pentadact.com/podcast/CCEp079.mp3".to_string(),
            "https://www.pentadact.com/podcast/CCEp79.mp3".to_string(),
        ]
    );
}

#[test]
fn rule_with_query_suffix() {
    let rule = NamingRule::new("https://example.org/ep", 4, ".mp3?dl=1");
    assert_eq!(rule.candidate(12), "https://example.org/ep0012.mp3?dl=1");
    let rules = vec![rule];
    assert_eq!(candidates(&rules, 5), vec!["https://example.org/ep0005.mp3?dl=1".to_string()]);
}

#[test]
fn no_rules_no_candidates() {
    let rules: Vec<NamingRule> = Vec::new();
    assert!(candidates(&rules, 3).is_empty());
}

#[test]
fn destination_names() {
    assert_eq!(destination_name(1), "CC1.mp3");
    assert_eq!(destination_name(121), "CC121.mp3");
}
