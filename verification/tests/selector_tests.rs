use zerospider::providers::scoring::{ProviderScorer, ScoringConfig};
use zerospider::providers::selector::{
    default_model_profiles, matches_criteria, score_profile, task_weights, AdaptiveSelector,
    ModelProfile, SelectionCriteria, TaskType,
};

fn profile(provider: &str, model: &str, latency: u64) -> ModelProfile {
    ModelProfile {
        provider_id: provider.to_string(),
        model_id: model.to_string(),
        supported_tasks: vec![],
        context_window: 1000,
        supports_vision: false,
        supports_tools: false,
        supports_streaming: true,
        input_cost_per_1k: 100,
        output_cost_per_1k: 200,
        avg_latency_ms: latency,
    }
}

fn names(list: &[&ModelProfile]) -> Vec<String> {
    list.iter().map(|m| m.model_id.clone()).collect()
}

#[test]
fn test_task_type_detection() {
    assert_eq!(
        TaskType::from_prompt("Write a function to sort an array"),
        TaskType::Coding
    );
    assert_eq!(
        TaskType::from_prompt("Analyze the pros and cons"),
        TaskType::Reasoning
    );
    assert_eq!(
        TaskType::from_prompt("Translate this to Chinese"),
        TaskType::Translation
    );
}

#[test]
fn test_adaptive_selector() {
    let scorer = ProviderScorer::new(ScoringConfig::default());
    let mut selector = AdaptiveSelector::new(scorer);

    for profile in default_model_profiles() {
        selector.register_model(profile);
    }

    let criteria = SelectionCriteria {
        task_type: Some(TaskType::Coding),
        require_tools: true,
        ..Default::default()
    };

    let best = selector.select_best(&criteria);
    assert!(best.is_some());
}

#[test]
fn test_select_top_n() {
    let scorer = ProviderScorer::new(ScoringConfig::default());
    let mut selector = AdaptiveSelector::new(scorer);

    for profile in default_model_profiles() {
        selector.register_model(profile);
    }

    let criteria = SelectionCriteria {
        task_type: Some(TaskType::Chat),
        ..Default::default()
    };

    let top = selector.select_top_n(&criteria, 2);
    assert!(top.len() <= 2);
}

#[test]
fn task_type_detection_goes_by_the_first_group_that_matches() {
    assert_eq!(TaskType::from_prompt("DEBUG my story"), TaskType::Coding);
    assert_eq!(TaskType::from_prompt("think about a picture"), TaskType::Reasoning);
    assert_eq!(TaskType::from_prompt("a creative image"), TaskType::Creative);
    assert_eq!(TaskType::from_prompt("Summarize the call"), TaskType::Summarization);
    assert_eq!(TaskType::from_prompt("be brief"), TaskType::Summarization);
    assert_eq!(TaskType::from_prompt("\u{7ffb}\u{8bd1}\u{4e00}\u{4e0b}"), TaskType::Translation);
    assert_eq!(TaskType::from_prompt("execute the plan"), TaskType::ToolUse);
    assert_eq!(TaskType::from_prompt("recall"), TaskType::ToolUse);
    assert_eq!(TaskType::from_prompt("take a screenshot"), TaskType::Vision);
    assert_eq!(TaskType::from_prompt("hello there"), TaskType::Chat);
    assert_eq!(TaskType::from_prompt(""), TaskType::Chat);
}

#[test]
fn default_profiles_are_the_four_known_models() {
    let profiles = default_model_profiles();
    assert_eq!(profiles.len(), 4);
    assert_eq!(profiles[0].provider_id, "openai");
    assert_eq!(profiles[0].model_id, "gpt-4o");
    assert_eq!(profiles[0].input_cost_per_1k, 5000);
    assert_eq!(profiles[0].output_cost_per_1k, 15000);
    assert_eq!(profiles[0].avg_latency_ms, 800);
    assert_eq!(profiles[1].model_id, "gpt-4o-mini");
    assert_eq!(
        profiles[1].supported_tasks,
        vec![TaskType::Chat, TaskType::Summarization, TaskType::Translation]
    );
    assert_eq!((profiles[1].input_cost_per_1k, profiles[1].output_cost_per_1k), (150, 600));
    assert_eq!(profiles[2].provider_id, "anthropic");
    assert_eq!(profiles[2].context_window, 200000);
    assert_eq!(profiles[3].provider_id, "deepseek");
    assert_eq!(profiles[3].model_id, "deepseek-chat");
    assert!(!profiles[3].supports_vision);
    assert_eq!((profiles[3].input_cost_per_1k, profiles[3].output_cost_per_1k), (140, 280));
    assert_eq!(profiles[3].context_window, 64000);
}

#[test]
fn matches_task_treats_an_empty_list_as_all() {
    let any = profile("p", "any", 10);
    assert!(any.matches_task(TaskType::Embedding));
    let mut some = profile("p", "some", 10);
    some.supported_tasks = vec![TaskType::Chat, TaskType::Vision];
    assert!(some.matches_task(TaskType::Vision));
    assert!(!some.matches_task(TaskType::Coding));
}

#[test]
fn criteria_filter_on_every_hard_constraint() {
    let mut m = profile("p", "m", 500);
    m.supported_tasks = vec![TaskType::Chat];
    let open = SelectionCriteria::default();
    assert!(matches_criteria(&m, &open));
    assert!(matches_criteria(&m, &SelectionCriteria { task_type: Some(TaskType::Chat), ..Default::default() }));
    assert!(!matches_criteria(&m, &SelectionCriteria { task_type: Some(TaskType::Coding), ..Default::default() }));
    assert!(matches_criteria(&m, &SelectionCriteria { max_latency_ms: Some(500), ..Default::default() }));
    assert!(!matches_criteria(&m, &SelectionCriteria { max_latency_ms: Some(499), ..Default::default() }));
    // input plus output cost: 300
    assert!(matches_criteria(&m, &SelectionCriteria { max_cost_per_1k: Some(300), ..Default::default() }));
    assert!(!matches_criteria(&m, &SelectionCriteria { max_cost_per_1k: Some(299), ..Default::default() }));
    assert!(matches_criteria(&m, &SelectionCriteria { min_context_window: Some(1000), ..Default::default() }));
    assert!(!matches_criteria(&m, &SelectionCriteria { min_context_window: Some(1001), ..Default::default() }));
    assert!(!matches_criteria(&m, &SelectionCriteria { require_vision: true, ..Default::default() }));
    assert!(!matches_criteria(&m, &SelectionCriteria { require_tools: true, ..Default::default() }));
    m.supports_vision = true;
    m.supports_tools = true;
    assert!(matches_criteria(&m, &SelectionCriteria { require_vision: true, require_tools: true, ..Default::default() }));
}

#[test]
fn task_presets() {
    let coding = task_weights(Some(TaskType::Coding));
    assert_eq!((coding.quality, coding.reliability, coding.latency, coding.cost), (400_000, 300_000, 200_000, 100_000));
    let reasoning = task_weights(Some(TaskType::Reasoning));
    assert_eq!((reasoning.quality, reasoning.reliability, reasoning.latency, reasoning.cost), (500_000, 300_000, 150_000, 50_000));
    let chat = task_weights(Some(TaskType::Chat));
    assert_eq!((chat.latency, chat.cost, chat.reliability, chat.quality), (400_000, 300_000, 200_000, 100_000));
    let tools = task_weights(Some(TaskType::ToolUse));
    assert_eq!((tools.reliability, tools.quality, tools.latency, tools.cost), (400_000, 300_000, 200_000, 100_000));
    for task in [None, Some(TaskType::Vision), Some(TaskType::Creative), Some(TaskType::Embedding)] {
        let w = task_weights(task);
        assert_eq!((w.latency, w.cost, w.reliability, w.quality), (250_000, 250_000, 300_000, 200_000));
    }
}

#[test]
fn profile_score_counts_the_provider_score_twice() {
    let m = profile("p", "m", 500);
    let chat = SelectionCriteria { task_type: Some(TaskType::Chat), ..Default::default() };
    // latency 0.4 * 1 + cost 0.3 * 1 + (reliability 0.2 + quality 0.1) * 0.5
    assert_eq!(score_profile(&m, &chat, 500_000), 850_000);
    let open = SelectionCriteria::default();
    assert_eq!(score_profile(&m, &open, 980_000), 990_000);
    assert_eq!(score_profile(&m, &open, 600_000), 800_000);
}

#[test]
fn no_match_is_an_empty_result() {
    let selector = AdaptiveSelector::new(ProviderScorer::new(ScoringConfig::default()));
    let open = SelectionCriteria::default();
    assert!(selector.select_best(&open).is_none());
    assert!(selector.select_top_n(&open, 3).is_empty());

    let mut selector = selector;
    selector.register_model(profile("p", "slow", 900));
    let fast_only = SelectionCriteria { max_latency_ms: Some(100), ..Default::default() };
    assert!(selector.select_best(&fast_only).is_none());
    assert!(selector.select_top_n(&fast_only, 3).is_empty());
}

#[test]
fn model_over_the_latency_ceiling_is_excluded_whatever_its_score() {
    let mut scorer = ProviderScorer::new(ScoringConfig { min_requests_for_scoring: 1, ..Default::default() });
    // the slow model's provider has by far the better record
    scorer.record_success("good", 100, 1000, 1, Some(900_000));
    scorer.record_failure("bad", "down");
    let mut selector = AdaptiveSelector::new(scorer);
    selector.register_model(profile("good", "slow", 501));
    selector.register_model(profile("bad", "quick", 500));
    let criteria = SelectionCriteria { max_latency_ms: Some(500), ..Default::default() };
    assert_eq!(selector.select_best(&criteria).unwrap().model_id, "quick");
    assert_eq!(names(&selector.select_top_n(&criteria, 5)), vec!["quick".to_string()]);
    // without the ceiling the better record wins
    let open = SelectionCriteria::default();
    assert_eq!(selector.select_best(&open).unwrap().model_id, "slow");
    assert_eq!(
        names(&selector.select_top_n(&open, 5)),
        vec!["slow".to_string(), "quick".to_string()]
    );
}

#[test]
fn top_n_is_a_prefix_of_top_n_plus_one() {
    let mut scorer = ProviderScorer::new(ScoringConfig { min_requests_for_scoring: 1, ..Default::default() });
    scorer.record_success("good", 100, 1000, 1, Some(900_000));
    scorer.record_failure("bad", "down");
    let mut selector = AdaptiveSelector::new(scorer);
    selector.register_model(profile("bad", "b1", 10));
    selector.register_model(profile("unknown", "u1", 10));
    selector.register_model(profile("good", "g1", 10));
    selector.register_model(profile("unknown", "u2", 10));
    selector.register_model(profile("good", "g2", 10));
    let open = SelectionCriteria::default();
    let full = names(&selector.select_top_n(&open, 10));
    // provider scores: good 0.98, unknown 0.5, bad 0.6; equals in order of registration
    assert_eq!(full, vec!["g1", "g2", "b1", "u1", "u2"]);
    for n in 0..7usize {
        let shorter = names(&selector.select_top_n(&open, n));
        let longer = names(&selector.select_top_n(&open, n + 1));
        assert!(shorter.len() <= n);
        assert_eq!(shorter.len(), n.min(5));
        assert_eq!(shorter[..], longer[..shorter.len()]);
    }
}

#[test]
fn select_best_takes_the_last_of_several_equals() {
    let mut selector = AdaptiveSelector::new(ProviderScorer::new(ScoringConfig::default()));
    for profile in default_model_profiles() {
        selector.register_model(profile);
    }
    assert_eq!(selector.model_count(), 4);
    let chat = SelectionCriteria { task_type: Some(TaskType::Chat), ..Default::default() };
    // both chat models score 0.85
    assert_eq!(
        names(&selector.select_top_n(&chat, 2)),
        vec!["gpt-4o-mini".to_string(), "deepseek-chat".to_string()]
    );
    assert_eq!(selector.select_best(&chat).unwrap().model_id, "deepseek-chat");
    let cheap = SelectionCriteria { max_cost_per_1k: Some(500), ..Default::default() };
    assert_eq!(names(&selector.select_top_n(&cheap, 4)), vec!["deepseek-chat".to_string()]);
    let vision = SelectionCriteria { require_vision: true, min_context_window: Some(150_000), ..Default::default() };
    assert_eq!(selector.select_best(&vision).unwrap().provider_id, "anthropic");
}

#[test]
fn registering_again_replaces_in_place() {
    let mut selector = AdaptiveSelector::new(ProviderScorer::new(ScoringConfig::default()));
    selector.register_model(profile("p", "a", 100));
    selector.register_model(profile("p", "b", 200));
    selector.register_model(profile("p", "a", 300));
    assert_eq!(selector.model_count(), 2);
    let open = SelectionCriteria::default();
    let all = selector.select_top_n(&open, 5);
    assert_eq!(names(&all), vec!["a".to_string(), "b".to_string()]);
    assert_eq!(all[0].avg_latency_ms, 300);
}
