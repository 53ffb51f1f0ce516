use zerospider::agent::negotiation::{
    ModelResponse, NegotiationResult, NegotiationStrategy, Negotiator,
};

fn response(model: &str, content: &str, confidence: Option<u32>, reasoning: Option<&str>) -> ModelResponse {
    ModelResponse {
        model_id: model.to_string(),
        content: content.to_string(),
        confidence,
        reasoning: reasoning.map(|r| r.to_string()),
    }
}

fn all_strategies() -> Vec<NegotiationStrategy> {
    vec![
        NegotiationStrategy::Voting,
        NegotiationStrategy::Consensus,
        NegotiationStrategy::Arbitration,
        NegotiationStrategy::Cascade,
        NegotiationStrategy::BestOfN,
        NegotiationStrategy::SelfConsistency,
    ]
}

#[test]
fn test_voting_strategy() {
    let negotiator = Negotiator::new(NegotiationStrategy::Voting);

    let responses = vec![
        ModelResponse {
            model_id: "model-a".to_string(),
            content: "The answer is 42".to_string(),
            confidence: None,
            reasoning: None,
        },
        ModelResponse {
            model_id: "model-b".to_string(),
            content: "The answer is 42".to_string(),
            confidence: None,
            reasoning: None,
        },
        ModelResponse {
            model_id: "model-c".to_string(),
            content: "The answer is 24".to_string(),
            confidence: None,
            reasoning: None,
        },
    ];

    let result = negotiator.negotiate(responses);
    // 0.5 in millionths
    assert!(result.agreement_score > 500_000);
    assert!(result.agreement_score as f64 / 1_000_000.0 > 0.5);
    assert!(result.final_response.contains("42"));
}

#[test]
fn test_consensus_strategy() {
    let negotiator = Negotiator::new(NegotiationStrategy::Consensus);

    let responses = vec![
        ModelResponse {
            model_id: "model-a".to_string(),
            content: "Same answer".to_string(),
            confidence: None,
            reasoning: None,
        },
        ModelResponse {
            model_id: "model-b".to_string(),
            content: "Same answer".to_string(),
            confidence: None,
            reasoning: None,
        },
    ];

    let result = negotiator.negotiate(responses);
    // 1.0 in millionths
    assert_eq!(result.agreement_score, 1_000_000);
    assert_eq!(result.agreement_score as f64 / 1_000_000.0, 1.0);
}

#[test]
fn test_arbitration_strategy() {
    let negotiator = Negotiator::new(NegotiationStrategy::Arbitration);

    let responses = vec![
        ModelResponse {
            model_id: "low-confidence".to_string(),
            content: "Answer A".to_string(),
            confidence: Some(300_000),
            reasoning: None,
        },
        ModelResponse {
            model_id: "high-confidence".to_string(),
            content: "Answer B".to_string(),
            confidence: Some(950_000),
            reasoning: None,
        },
    ];

    let result = negotiator.negotiate(responses);
    assert!(result.final_response.contains("Answer B"));
}

#[test]
fn test_best_of_n_strategy() {
    let negotiator = Negotiator::new(NegotiationStrategy::BestOfN);

    let responses = vec![
        ModelResponse {
            model_id: "model-a".to_string(),
            content: "Good answer".to_string(),
            confidence: Some(900_000),
            reasoning: None,
        },
        ModelResponse {
            model_id: "model-b".to_string(),
            content: "Better answer".to_string(),
            confidence: Some(950_000),
            reasoning: None,
        },
        ModelResponse {
            model_id: "model-c".to_string(),
            content: "Worst answer".to_string(),
            confidence: Some(500_000),
            reasoning: None,
        },
    ];

    let result = negotiator.negotiate(responses);
    assert!(result.final_response.contains("Better answer"));
}

#[test]
fn no_responses_give_an_empty_result() {
    for strategy in all_strategies() {
        let result = Negotiator::new(strategy).negotiate(vec![]);
        assert_eq!(result.final_response, "");
        assert_eq!(result.strategy_used, strategy);
        assert!(result.participating_models.is_empty());
        assert_eq!(result.agreement_score, 0);
        assert_eq!(result.reasoning.as_deref(), Some("No responses to negotiate"));
    }
}

#[test]
fn single_response_is_returned_verbatim_under_every_strategy() {
    for strategy in all_strategies() {
        let result = Negotiator::new(strategy)
            .negotiate(vec![response("solo", "  Mixed CASE, with punctuation!  ", Some(100_000), None)]);
        assert_eq!(result.final_response, "  Mixed CASE, with punctuation!  ");
        assert_eq!(result.agreement_score, 1_000_000);
        assert_eq!(result.strategy_used, strategy);
        assert_eq!(result.participating_models, vec!["solo".to_string()]);
        assert_eq!(result.reasoning, None);
    }
}

#[test]
fn voting_returns_the_normalized_winner_and_its_share() {
    let result = Negotiator::new(NegotiationStrategy::Voting).negotiate(vec![
        response("a", "The answer is 42", None, None),
        response("b", "the ANSWER is  42!", None, None),
        response("c", "The answer is 24", None, None),
    ]);
    assert_eq!(result.final_response, "the answer is 42");
    assert_eq!(result.agreement_score, 666_666);
    assert_eq!(result.strategy_used, NegotiationStrategy::Voting);
    assert_eq!(
        result.participating_models,
        vec!["a".to_string(), "b".to_string(), "c".to_string()]
    );
    assert_eq!(result.reasoning.as_deref(), Some("2 of 3 models agreed"));
}

#[test]
fn voting_tie_goes_to_the_answer_that_came_first() {
    let result = Negotiator::new(NegotiationStrategy::Voting).negotiate(vec![
        response("a", "Yes", None, None),
        response("b", "No", None, None),
        response("c", "no", None, None),
        response("d", "yes", None, None),
    ]);
    assert_eq!(result.final_response, "yes");
    assert_eq!(result.agreement_score, 500_000);
    assert_eq!(result.reasoning.as_deref(), Some("2 of 4 models agreed"));
}

#[test]
fn consensus_reached_returns_the_normalized_answer() {
    let result = Negotiator::new(NegotiationStrategy::Consensus).negotiate(vec![
        response("a", "Same answer", None, None),
        response("b", "same ANSWER.", None, None),
    ]);
    assert_eq!(result.final_response, "same answer");
    assert_eq!(result.agreement_score, 1_000_000);
    assert_eq!(result.reasoning.as_deref(), Some("All models reached consensus"));
}

#[test]
fn consensus_missed_returns_the_first_response_with_score_zero() {
    let result = Negotiator::new(NegotiationStrategy::Consensus).negotiate(vec![
        response("a", "First Answer!", None, None),
        response("b", "Second answer", None, None),
    ]);
    assert_eq!(result.final_response, "First Answer!");
    assert_eq!(result.agreement_score, 0);
    assert_eq!(
        result.reasoning.as_deref(),
        Some("Consensus not reached, using first response")
    );
    assert_eq!(result.participating_models, vec!["a".to_string(), "b".to_string()]);
}

#[test]
fn arbitration_reports_the_winning_confidence() {
    let result = Negotiator::new(NegotiationStrategy::Arbitration).negotiate(vec![
        response("low-confidence", "Answer A", Some(300_000), None),
        response("high-confidence", "Answer B", Some(950_000), None),
    ]);
    assert_eq!(result.final_response, "Answer B");
    assert_eq!(result.agreement_score, 950_000);
    assert_eq!(result.agreement_score as f64 / 1_000_000.0, 0.95);
    assert_eq!(result.strategy_used, NegotiationStrategy::Arbitration);
    assert_eq!(
        result.reasoning.as_deref(),
        Some("Arbitrator: high-confidence (confidence: Some(950000))")
    );
}

#[test]
fn best_of_n_picks_as_arbitration_does() {
    let result = Negotiator::new(NegotiationStrategy::BestOfN).negotiate(vec![
        response("low-confidence", "Answer A", Some(300_000), None),
        response("high-confidence", "Answer B", Some(950_000), None),
    ]);
    assert_eq!(result.final_response, "Answer B");
    assert_eq!(result.agreement_score, 950_000);
    assert_eq!(result.strategy_used, NegotiationStrategy::BestOfN);
    assert_eq!(result.reasoning.as_deref(), Some("Selected best from 2 responses"));
}

#[test]
fn missing_confidence_counts_as_one_half() {
    let result = Negotiator::new(NegotiationStrategy::Arbitration).negotiate(vec![
        response("a", "low", Some(400_000), None),
        response("b", "unset", None, None),
        response("c", "lower", Some(100_000), None),
    ]);
    assert_eq!(result.final_response, "unset");
    assert_eq!(result.agreement_score, 500_000);
    assert_eq!(
        result.reasoning.as_deref(),
        Some("Arbitrator: b (confidence: None)")
    );
}

#[test]
fn equal_confidence_goes_to_the_later_response() {
    let result = Negotiator::new(NegotiationStrategy::BestOfN).negotiate(vec![
        response("a", "first", Some(800_000), None),
        response("b", "second", Some(800_000), None),
        response("c", "third", Some(100_000), None),
    ]);
    assert_eq!(result.final_response, "second");
    assert_eq!(result.agreement_score, 800_000);
}

#[test]
fn cascade_adopts_refinements_in_order() {
    let result = Negotiator::new(NegotiationStrategy::Cascade).negotiate(vec![
        response("draft", "v1", None, None),
        response("critic", "v2", None, Some("I would REFINE the wording")),
        response("bystander", "v3", None, Some("nothing to add")),
        response("editor", "v4", None, Some("Improved the ending")),
        response("silent", "v5", None, None),
    ]);
    assert_eq!(result.final_response, "v4");
    // chain of 3: 1 - 1/4
    assert_eq!(result.agreement_score, 750_000);
    assert_eq!(result.reasoning.as_deref(), Some("Refined through 3 models"));
    assert_eq!(result.participating_models.len(), 5);
    assert_eq!(result.strategy_used, NegotiationStrategy::Cascade);
}

#[test]
fn cascade_without_refinement_keeps_the_first_response() {
    let result = Negotiator::new(NegotiationStrategy::Cascade).negotiate(vec![
        response("draft", "v1", None, None),
        response("other", "v2", None, Some("a different take")),
    ]);
    assert_eq!(result.final_response, "v1");
    // chain of 1: 1 - 1/2
    assert_eq!(result.agreement_score, 500_000);
    assert_eq!(result.reasoning.as_deref(), Some("Refined through 1 models"));
}

#[test]
fn cascade_score_rounds_the_quotient_down() {
    let result = Negotiator::new(NegotiationStrategy::Cascade).negotiate(vec![
        response("draft", "v1", None, None),
        response("critic", "v2", None, Some("refine")),
    ]);
    assert_eq!(result.final_response, "v2");
    // chain of 2: 1 - 1/3, with 1/3 rounded down to 333333 millionths
    assert_eq!(result.agreement_score, 666_667);
}

#[test]
fn self_consistency_returns_an_original_of_the_largest_group() {
    let result = Negotiator::new(NegotiationStrategy::SelfConsistency).negotiate(vec![
        response("a", "It is 7.", None, None),
        response("b", "The Answer: 42!", None, None),
        response("c", "the answer 42", None, None),
        response("d", "THE ANSWER 42", None, None),
    ]);
    assert_eq!(result.final_response, "The Answer: 42!");
    assert_eq!(result.agreement_score, 750_000);
    assert_eq!(
        result.reasoning.as_deref(),
        Some("Self-consistency: 3 identical responses")
    );
    assert_eq!(result.strategy_used, NegotiationStrategy::SelfConsistency);
}

#[test]
fn negotiator_builders_set_and_clamp() {
    let n = Negotiator::new(NegotiationStrategy::Cascade);
    assert_eq!(n.strategy(), NegotiationStrategy::Cascade);
    assert_eq!(n.agreement_threshold(), 700_000);
    assert_eq!(n.max_rounds(), 3);
    let n = n.with_agreement_threshold(1_500_000).with_max_rounds(9);
    assert_eq!(n.agreement_threshold(), 1_000_000);
    assert_eq!(n.max_rounds(), 9);
    assert_eq!(n.strategy(), NegotiationStrategy::Cascade);
    let n = n.with_agreement_threshold(250_000);
    assert_eq!(n.agreement_threshold(), 250_000);
    let d = Negotiator::default();
    assert_eq!(d.strategy(), NegotiationStrategy::Voting);
}

#[test]
fn negotiation_result_is_plain_data() {
    let r: NegotiationResult = Negotiator::default().negotiate(vec![response("m", "x", None, None)]);
    let copy = r.clone();
    assert_eq!(copy.final_response, r.final_response);
}
