use fuzzy_matcher::FuzzyMatcher;
use logview::log_groups::LogGroupListComponent;
use logview::matcher::filter_groups;

fn names(v: &[&str]) -> Vec<String> {
    v.iter().map(|s| s.to_string()).collect()
}

#[test]
fn empty_term_returns_all_in_original_order() {
    let groups = names(&["api-gateway", "auth-service", "billing"]);
    let term: Vec<char> = Vec::new();
    let filtered = filter_groups(&groups, &term);
    let got: Vec<String> = filtered.iter().map(|p| p.0.clone()).collect();
    assert_eq!(got, names(&["api-gateway", "auth-service", "billing"]));
    for p in &filtered {
        assert!(p.1.is_empty());
    }
}

#[test]
fn term_au_keeps_only_auth_service() {
    let groups = names(&["api-gateway", "auth-service", "billing"]);
    let term: Vec<char> = "au".chars().collect();
    let filtered = filter_groups(&groups, &term);
    let got: Vec<String> = filtered.iter().map(|p| p.0.clone()).collect();
    assert_eq!(got, names(&["auth-service"]));
}

#[test]
fn kept_candidates_score_above_threshold_and_no_excluded_one_does() {
    let groups = names(&["api-gateway", "auth-service", "billing", "auth-backend"]);
    let term: Vec<char> = "auth".chars().collect();
    let filtered = filter_groups(&groups, &term);
    let kept: Vec<String> = filtered.iter().map(|p| p.0.clone()).collect();
    let matcher = fuzzy_matcher::skim::SkimMatcherV2::default();
    for g in &groups {
        let passes = match matcher.fuzzy_indices(g, "auth") {
            Some((score, _)) => score > 5,
            None => false,
        };
        assert_eq!(kept.contains(g), passes);
    }
}

#[test]
fn matched_positions_point_at_matched_characters() {
    let groups = names(&["auth-service"]);
    let term: Vec<char> = "au".chars().collect();
    let filtered = filter_groups(&groups, &term);
    assert_eq!(filtered.len(), 1);
    assert_eq!(filtered[0].1, vec![0, 1]);
}

#[test]
fn applying_same_term_twice_gives_same_filtered_set() {
    let groups = names(&["api-gateway", "auth-service", "billing", "gateway-auth"]);
    let term: Vec<char> = "at".chars().collect();
    let once = filter_groups(&groups, &term);
    let names_once: Vec<String> = once.iter().map(|p| p.0.clone()).collect();
    let twice = filter_groups(&names_once, &term);
    assert_eq!(once, twice);
}

#[test]
fn filter_of_empty_candidate_set_is_empty() {
    let groups: Vec<String> = Vec::new();
    let term: Vec<char> = "x".chars().collect();
    assert!(filter_groups(&groups, &term).is_empty());
}

#[test]
fn apply_search_replaces_filtered_view_wholesale() {
    let mut c = LogGroupListComponent::new();
    c.state.log_groups = names(&["api-gateway", "auth-service", "billing"]);
    c.search_term = "au".chars().collect();
    c.apply_search();
    assert_eq!(c.sorted_log_groups.len(), 1);
    assert_eq!(c.sorted_log_groups[0].0, "auth-service");
    c.search_term.clear();
    c.apply_search();
    assert_eq!(c.sorted_log_groups.len(), 3);
}
