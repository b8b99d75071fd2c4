use crate_and_crowbar::naming::{NamingRule, default_rules};
use crate_and_crowbar::resolution::{
    fetch_event, is_success_status, Action, FetchEvent, ItemOutcome, Resolution,
};

/// Runs one item to its end against a fake origin: `ok(item, rule)` says
/// whether the candidate of `rule` succeeds. Returns the outcome, the rules
/// tried in order, and whether the destination was kept.
fn run_item(
    item: usize,
    rules: &Vec<NamingRule>,
    ok: &dyn Fn(usize, usize) -> bool,
) -> (ItemOutcome, Vec<usize>, bool) {
    let (mut state, mut action) = Resolution::start(item, rules);
    let mut tried = Vec::new();
    loop {
        match action {
            Action::Fetch { rule, url } => {
                assert_eq!(url, rules[rule].candidate(item));
                tried.push(rule);
                let event = if ok(item, rule) {
                    FetchEvent::Succeeded { bytes: 1000 + item as u64 }
                } else {
                    FetchEvent::Failed
                };
                action = state.on_fetch(rules, event);
            }
            Action::Keep { .. } => return (state.outcome.unwrap(), tried, true),
            Action::Discard => return (state.outcome.unwrap(), tried, false),
        }
    }
}

fn two_rules() -> Vec<NamingRule> {
    vec![
        NamingRule::new("https://a.example/ep", 2, ".mp3"),
        NamingRule::new("https://b.example/ep", 2, ".mp3"),
    ]
}

#[test]
fn range_with_one_fallback() {
    let rules = two_rules();
    let ok = |item: usize, rule: usize| if rule == 0 { item != 2 } else { item == 2 };
    let mut kept = 0;
    let mut outcomes = Vec::new();
    for item in 1..=3 {
        let (outcome, _, keep) = run_item(item, &rules, &ok);
        if keep {
            kept += 1;
        }
        outcomes.push(outcome);
    }
    assert_eq!(
        outcomes,
        vec![
            ItemOutcome::Fetched { rule: 0, bytes: 1001 },
            ItemOutcome::Fetched { rule: 1, bytes: 1002 },
            ItemOutcome::Fetched { rule: 0, bytes: 1003 },
        ]
    );
    assert_eq!(kept, 3);
}

#[test]
fn all_rules_fail() {
    let rules = default_rules();
    let (outcome, tried, keep) = run_item(1, &rules, &|_, _| false);
    assert_eq!(outcome, ItemOutcome::Exhausted);
    assert_eq!(tried, vec![0, 1, 2]);
    assert!(!keep);
}

#[test]
fn success_stops_fallback() {
    let rules = default_rules();
    let (outcome, tried, keep) = run_item(79, &rules, &|_, rule| rule >= 1);
    assert_eq!(outcome, ItemOutcome::Fetched { rule: 1, bytes: 1079 });
    assert_eq!(tried, vec![0, 1]);
    assert!(keep);
}

#[test]
fn first_candidate_success() {
    let rules = default_rules();
    let (outcome, tried, keep) = run_item(5, &rules, &|_, _| true);
    assert_eq!(outcome, ItemOutcome::Fetched { rule: 0, bytes: 1005 });
    assert_eq!(tried, vec![0]);
    assert!(keep);
}

#[test]
fn no_rules_discards_at_once() {
    let rules: Vec<NamingRule> = Vec::new();
    let (state, action) = Resolution::start(4, &rules);
    assert_eq!(state.outcome, Some(ItemOutcome::Exhausted));
    assert!(matches!(action, Action::Discard));
}

#[test]
fn start_fetches_first_candidate() {
    let rules = default_rules();
    let (state, action) = Resolution::start(1, &rules);
    assert_eq!(state, Resolution { item: 1, attempted: 1, outcome: None });
    match action {
        Action::Fetch { rule, url } => {
            assert_eq!(rule, 0);
            assert_eq!(url, "https://s3-eu-west-1.amazonaws.com/crateandcrowbar/episodes/CCEp001.mp3");
        }
        other => panic!("unexpected action {:?}", other),
    }
}

#[test]
fn status_classes() {
    assert!(is_success_status(200));
    assert!(is_success_status(299));
    assert!(!is_success_status(199));
    assert!(!is_success_status(300));
    assert!(!is_success_status(404));
}

#[test]
fn fetch_events() {
    assert_eq!(fetch_event(200, Some(42)), FetchEvent::Succeeded { bytes: 42 });
    assert_eq!(fetch_event(206, Some(0)), FetchEvent::Succeeded { bytes: 0 });
    assert_eq!(fetch_event(200, None), FetchEvent::Failed);
    assert_eq!(fetch_event(404, Some(42)), FetchEvent::Failed);
    assert_eq!(fetch_event(500, None), FetchEvent::Failed);
}
