//! Negotiation between the responses of several models.
//!
//! A list of responses is reduced to one result under one of six
//! strategies. Responses are compared in normalised form (see
//! [`crate::text::normalized`]). Confidences and agreement scores are
//! fixed-point numbers in millionths (see [`crate::fixed`]).

use vstd::prelude::*;
use crate::fixed::{ONE, HALF, ratio, ratio_of, lemma_ratio_monotone};
use crate::text::{
    chars_of, contains_str, decimal, decimal_string, has_infix, lowercase_of, normalize,
    normalized, push_decimal,
};

verus! {

/// How several responses are reduced to one.
#[derive(Debug, Clone, Copy, PartialEq, Eq, Structural)]
pub enum NegotiationStrategy {
    /// The most frequent answer wins.
    Voting,
    /// All answers must agree.
    Consensus,
    /// The most confident response decides.
    Arbitration,
    /// Later responses may refine earlier ones.
    Cascade,
    /// The most confident response is taken.
    BestOfN,
    /// The largest group of equal answers wins, through one of its
    /// members.
    SelfConsistency,
}

/// The answer of one model.
#[derive(Debug, Clone)]
pub struct ModelResponse {
    pub model_id: String,
    pub content: String,
    /// The model's confidence in its answer, in millionths.
    pub confidence: Option<u32>,
    pub reasoning: Option<String>,
}

/// What a response holds, as plain values.
pub struct ResponseView {
    pub model_id: Seq<char>,
    pub content: Seq<char>,
    pub confidence: Option<u32>,
    pub reasoning: Option<Seq<char>>,
}

impl View for ModelResponse {
    type V = ResponseView;

    open spec fn view(&self) -> ResponseView {
        ResponseView {
            model_id: self.model_id@,
            content: self.content@,
            confidence: self.confidence,
            reasoning: match self.reasoning {
                Some(r) => Some(r@),
                None => None,
            },
        }
    }
}

/// The negotiated answer.
#[derive(Debug, Clone)]
pub struct NegotiationResult {
    pub final_response: String,
    pub strategy_used: NegotiationStrategy,
    pub participating_models: Vec<String>,
    /// How far the models agreed, in millionths.
    pub agreement_score: u64,
    pub reasoning: Option<String>,
}

/// What a result holds, as plain values.
pub struct OutcomeView {
    pub final_response: Seq<char>,
    pub strategy_used: NegotiationStrategy,
    pub participating_models: Seq<Seq<char>>,
    pub agreement_score: int,
    pub reasoning: Option<Seq<char>>,
}

impl View for NegotiationResult {
    type V = OutcomeView;

    open spec fn view(&self) -> OutcomeView {
        OutcomeView {
            final_response: self.final_response@,
            strategy_used: self.strategy_used,
            participating_models: Seq::new(
                self.participating_models@.len(),
                |i: int| self.participating_models@[i]@,
            ),
            agreement_score: self.agreement_score as int,
            reasoning: match self.reasoning {
                Some(r) => Some(r@),
                None => None,
            },
        }
    }
}

// ---------------------------------------------------------------------
// What each strategy returns
// ---------------------------------------------------------------------

/// The views of a list of responses.
pub open spec fn views(rs: Seq<ModelResponse>) -> Seq<ResponseView> {
    Seq::new(rs.len(), |i: int| rs[i]@)
}

/// The model ids of the responses, in order.
pub open spec fn ids_of(rs: Seq<ResponseView>) -> Seq<Seq<char>> {
    Seq::new(rs.len(), |i: int| rs[i].model_id)
}

/// The normalised contents of the responses, in order.
pub open spec fn keys_of(rs: Seq<ResponseView>) -> Seq<Seq<char>> {
    Seq::new(rs.len(), |i: int| normalized(rs[i].content))
}

/// How many of the first `n` entries of `keys` equal `key`.
pub open spec fn occurrences(keys: Seq<Seq<char>>, key: Seq<char>, n: nat) -> nat
    decreases n,
{
    if n == 0 {
        0
    } else if keys[n - 1] == key {
        occurrences(keys, key, (n - 1) as nat) + 1
    } else {
        occurrences(keys, key, (n - 1) as nat)
    }
}

/// How many entries of `keys` equal the entry at `i`.
pub open spec fn votes(keys: Seq<Seq<char>>, i: int) -> nat {
    occurrences(keys, keys[i], keys.len())
}

/// Among the first `n` entries, the first one with the most votes.
pub open spec fn leader_upto(keys: Seq<Seq<char>>, n: nat) -> int
    decreases n,
{
    if n <= 1 {
        0
    } else {
        let before = leader_upto(keys, (n - 1) as nat);
        if votes(keys, n - 1) > votes(keys, before) {
            n - 1
        } else {
            before
        }
    }
}

/// The first entry with the most votes.
pub open spec fn leader(keys: Seq<Seq<char>>) -> int {
    leader_upto(keys, keys.len())
}

/// The confidence of a response; one half where it states none.
pub open spec fn confidence_of(r: ResponseView) -> int {
    match r.confidence {
        Some(c) => c as int,
        None => HALF as int,
    }
}

/// Among the first `n` responses, the last one of highest confidence.
pub open spec fn most_confident_upto(rs: Seq<ResponseView>, n: nat) -> int
    decreases n,
{
    if n <= 1 {
        0
    } else {
        let before = most_confident_upto(rs, (n - 1) as nat);
        if confidence_of(rs[n - 1]) >= confidence_of(rs[before]) {
            n - 1
        } else {
            before
        }
    }
}

/// The last response of highest confidence.
pub open spec fn most_confident(rs: Seq<ResponseView>) -> int {
    most_confident_upto(rs, rs.len())
}

/// Whether a response presents itself as a refinement: its reasoning,
/// in lower case, mentions "refine" or "improve".
pub open spec fn refines(r: ResponseView) -> bool {
    match r.reasoning {
        Some(text) => has_infix(lowercase_of(text), "refine"@) || has_infix(
            lowercase_of(text),
            "improve"@,
        ),
        None => false,
    }
}

/// Among the first `n` responses, the last refinement behind the first
/// response, or the first response if there is none.
pub open spec fn refined_upto(rs: Seq<ResponseView>, n: nat) -> int
    decreases n,
{
    if n <= 1 {
        0
    } else if refines(rs[n - 1]) {
        n - 1
    } else {
        refined_upto(rs, (n - 1) as nat)
    }
}

/// The length of the chain of answers among the first `n` responses:
/// the first response and every refinement behind it.
pub open spec fn chain_upto(rs: Seq<ResponseView>, n: nat) -> nat
    decreases n,
{
    if n <= 1 {
        1
    } else if refines(rs[n - 1]) {
        chain_upto(rs, (n - 1) as nat) + 1
    } else {
        chain_upto(rs, (n - 1) as nat)
    }
}

/// Whether all entries equal the first.
pub open spec fn unanimous(keys: Seq<Seq<char>>) -> bool {
    forall|i: int| 0 <= i < keys.len() ==> #[trigger] keys[i] == keys[0]
}

/// A confidence as it is shown in an explanation.
pub open spec fn shown_confidence(c: Option<u32>) -> Seq<char> {
    match c {
        Some(c) => "Some("@ + decimal(c as nat) + ")"@,
        None => "None"@,
    }
}

/// The result of voting: the most frequent normalised answer, with the
/// share of responses that gave it.
pub open spec fn voting_outcome(rs: Seq<ResponseView>) -> OutcomeView {
    let keys = keys_of(rs);
    let w = leader(keys);
    OutcomeView {
        final_response: keys[w],
        strategy_used: NegotiationStrategy::Voting,
        participating_models: ids_of(rs),
        agreement_score: ratio(votes(keys, w) as int, rs.len() as int),
        reasoning: Some(
            decimal(votes(keys, w)) + " of "@ + decimal(rs.len()) + " models agreed"@,
        ),
    }
}

/// The result of consensus: the common normalised answer with score 1,
/// or the first response as it was given with score 0.
pub open spec fn consensus_outcome(rs: Seq<ResponseView>) -> OutcomeView {
    let keys = keys_of(rs);
    if unanimous(keys) {
        OutcomeView {
            final_response: keys[0],
            strategy_used: NegotiationStrategy::Consensus,
            participating_models: ids_of(rs),
            agreement_score: ONE as int,
            reasoning: Some("All models reached consensus"@),
        }
    } else {
        OutcomeView {
            final_response: rs[0].content,
            strategy_used: NegotiationStrategy::Consensus,
            participating_models: ids_of(rs),
            agreement_score: 0,
            reasoning: Some("Consensus not reached, using first response"@),
        }
    }
}

/// The result of arbitration: the most confident response as it was
/// given, with its confidence.
pub open spec fn arbitration_outcome(rs: Seq<ResponseView>) -> OutcomeView {
    let a = most_confident(rs);
    OutcomeView {
        final_response: rs[a].content,
        strategy_used: NegotiationStrategy::Arbitration,
        participating_models: ids_of(rs),
        agreement_score: confidence_of(rs[a]),
        reasoning: Some(
            "Arbitrator: "@ + rs[a].model_id + " (confidence: "@ + shown_confidence(
                rs[a].confidence,
            ) + ")"@,
        ),
    }
}

/// The result of best-of-n: chosen as in arbitration.
pub open spec fn best_of_n_outcome(rs: Seq<ResponseView>) -> OutcomeView {
    let a = most_confident(rs);
    OutcomeView {
        final_response: rs[a].content,
        strategy_used: NegotiationStrategy::BestOfN,
        participating_models: ids_of(rs),
        agreement_score: confidence_of(rs[a]),
        reasoning: Some("Selected best from "@ + decimal(rs.len()) + " responses"@),
    }
}

/// The result of a cascade: the last refinement, with a score that
/// grows with the length of the chain, `1 - 1 / (chain + 1)`.
pub open spec fn cascade_outcome(rs: Seq<ResponseView>) -> OutcomeView {
    let chain = chain_upto(rs, rs.len());
    OutcomeView {
        final_response: rs[refined_upto(rs, rs.len())].content,
        strategy_used: NegotiationStrategy::Cascade,
        participating_models: ids_of(rs),
        agreement_score: ONE - (ONE as int) / ((chain + 1) as int),
        reasoning: Some("Refined through "@ + decimal(chain) + " models"@),
    }
}

/// The result of self-consistency: the first response of the largest
/// group of equal normalised answers, as it was given, with the share
/// of responses in that group.
pub open spec fn self_consistency_outcome(rs: Seq<ResponseView>) -> OutcomeView {
    let keys = keys_of(rs);
    let w = leader(keys);
    OutcomeView {
        final_response: rs[w].content,
        strategy_used: NegotiationStrategy::SelfConsistency,
        participating_models: ids_of(rs),
        agreement_score: ratio(votes(keys, w) as int, rs.len() as int),
        reasoning: Some(
            "Self-consistency: "@ + decimal(votes(keys, w)) + " identical responses"@,
        ),
    }
}

/// The result of negotiating `rs` under `strategy`. Without responses
/// the result is empty with score 0; a single response is returned as
/// it was given with score 1, whatever the strategy.
pub open spec fn negotiated(strategy: NegotiationStrategy, rs: Seq<ResponseView>) -> OutcomeView {
    if rs.len() == 0 {
        OutcomeView {
            final_response: Seq::empty(),
            strategy_used: strategy,
            participating_models: Seq::empty(),
            agreement_score: 0,
            reasoning: Some("No responses to negotiate"@),
        }
    } else if rs.len() == 1 {
        OutcomeView {
            final_response: rs[0].content,
            strategy_used: strategy,
            participating_models: seq![rs[0].model_id],
            agreement_score: ONE as int,
            reasoning: None,
        }
    } else {
        match strategy {
            NegotiationStrategy::Voting => voting_outcome(rs),
            NegotiationStrategy::Consensus => consensus_outcome(rs),
            NegotiationStrategy::Arbitration => arbitration_outcome(rs),
            NegotiationStrategy::Cascade => cascade_outcome(rs),
            NegotiationStrategy::BestOfN => best_of_n_outcome(rs),
            NegotiationStrategy::SelfConsistency => self_consistency_outcome(rs),
        }
    }
}

/// A single response is returned as it was given, with agreement score
/// exactly 1, under every strategy.
pub proof fn lemma_single_response_verbatim(strategy: NegotiationStrategy, r: ResponseView)
    ensures
        negotiated(strategy, seq![r]).final_response == r.content,
        negotiated(strategy, seq![r]).agreement_score == ONE,
        negotiated(strategy, seq![r]).participating_models == seq![r.model_id],
        negotiated(strategy, seq![r]).strategy_used == strategy,
{
    assert(seq![r].len() == 1);
    assert(seq![r][0] == r);
}

// ---------------------------------------------------------------------
// The negotiator
// ---------------------------------------------------------------------

/// The texts of a list of strings.
pub open spec fn texts(v: Seq<String>) -> Seq<Seq<char>> {
    Seq::new(v.len(), |i: int| v[i]@)
}

/// No key occurs more often among the first `n` entries than there
/// are entries.
pub proof fn lemma_occurrences_bound(keys: Seq<Seq<char>>, key: Seq<char>, n: nat)
    ensures
        occurrences(keys, key, n) <= n,
    decreases n,
{
    if n > 0 {
        lemma_occurrences_bound(keys, key, (n - 1) as nat);
    }
}

/// An entry among the first `n` counts at least once among them.
pub proof fn lemma_occurrences_positive(keys: Seq<Seq<char>>, i: int, n: nat)
    requires
        0 <= i < n,
    ensures
        occurrences(keys, keys[i], n) >= 1,
    decreases n,
{
    if i < n - 1 {
        lemma_occurrences_positive(keys, i, (n - 1) as nat);
    }
}

/// The leader is one of the entries it was chosen from.
pub proof fn lemma_leader_in_range(keys: Seq<Seq<char>>, n: nat)
    requires
        n >= 1,
    ensures
        0 <= leader_upto(keys, n) < n,
    decreases n,
{
    if n > 1 {
        lemma_leader_in_range(keys, (n - 1) as nat);
    }
}

/// The most confident response is one of the responses it was chosen
/// from.
pub proof fn lemma_most_confident_in_range(rs: Seq<ResponseView>, n: nat)
    requires
        n >= 1,
    ensures
        0 <= most_confident_upto(rs, n) < n,
    decreases n,
{
    if n > 1 {
        lemma_most_confident_in_range(rs, (n - 1) as nat);
    }
}

/// No answer among the first `n` has more votes than the leader, and
/// none before the leader has as many.
pub proof fn lemma_leader_has_most_votes(keys: Seq<Seq<char>>, n: nat)
    requires
        n >= 1,
    ensures
        forall|i: int|
            0 <= i < n ==> #[trigger] votes(keys, i) <= votes(keys, leader_upto(keys, n)),
        forall|i: int|
            0 <= i < leader_upto(keys, n) ==> #[trigger] votes(keys, i) < votes(
                keys,
                leader_upto(keys, n),
            ),
    decreases n,
{
    if n > 1 {
        lemma_leader_has_most_votes(keys, (n - 1) as nat);
        lemma_leader_in_range(keys, (n - 1) as nat);
    }
}

/// No response among the first `n` is more confident than the most
/// confident one, and none behind it is as confident.
pub proof fn lemma_most_confident_is_highest(rs: Seq<ResponseView>, n: nat)
    requires
        n >= 1,
    ensures
        forall|i: int|
            0 <= i < n ==> confidence_of(#[trigger] rs[i]) <= confidence_of(
                rs[most_confident_upto(rs, n)],
            ),
        forall|i: int|
            most_confident_upto(rs, n) < i < n ==> confidence_of(#[trigger] rs[i]) < confidence_of(
                rs[most_confident_upto(rs, n)],
            ),
    decreases n,
{
    if n > 1 {
        lemma_most_confident_is_highest(rs, (n - 1) as nat);
        lemma_most_confident_in_range(rs, (n - 1) as nat);
    }
}

/// Whether no response states a confidence above 1.
pub open spec fn confidences_in_range(rs: Seq<ResponseView>) -> bool {
    forall|i: int| 0 <= i < rs.len() ==> confidence_of(#[trigger] rs[i]) <= ONE
}

/// The agreement score lies between 0 and 1 under every strategy, as
/// long as no response states a confidence above 1.
pub proof fn lemma_agreement_in_range(strategy: NegotiationStrategy, rs: Seq<ResponseView>)
    requires
        confidences_in_range(rs),
    ensures
        0 <= negotiated(strategy, rs).agreement_score <= ONE,
{
    if rs.len() >= 2 {
        let keys = keys_of(rs);
        let w = leader(keys);
        lemma_leader_in_range(keys, keys.len());
        lemma_occurrences_bound(keys, keys[w], keys.len());
        lemma_ratio_monotone(votes(keys, w) as int, rs.len() as int, 1, 1);
        crate::fixed::lemma_ratio_reaches_one(votes(keys, w) as int, rs.len() as int);
        let a = most_confident(rs);
        lemma_most_confident_in_range(rs, rs.len());
        assert(0 <= confidence_of(rs[a]) <= ONE);
        let chain = chain_upto(rs, rs.len());
        assert(0 <= (ONE as int) / ((chain + 1) as int) <= ONE) by (nonlinear_arith)
            requires
                chain >= 0,
        ;
    }
}

/// The model ids of the responses, in order.
fn model_ids(responses: &Vec<ModelResponse>) -> (ids: Vec<String>)
    ensures
        texts(ids@) == ids_of(views(responses@)),
{
    let mut ids: Vec<String> = Vec::new();
    let mut i: usize = 0;
    while i < responses.len()
        invariant
            i <= responses.len(),
            ids@.len() == i,
            forall|j: int| 0 <= j < i ==> (#[trigger] ids@[j])@ == responses@[j].model_id@,
        decreases responses.len() - i,
    {
        ids.push(responses[i].model_id.clone());
        i += 1;
    }
    proof {
        assert(texts(ids@) =~= ids_of(views(responses@)));
    }
    ids
}

/// The normalised contents of the responses, in order.
fn normalized_keys(responses: &Vec<ModelResponse>) -> (keys: Vec<String>)
    ensures
        texts(keys@) == keys_of(views(responses@)),
        keys@.len() == responses@.len(),
{
    let mut keys: Vec<String> = Vec::new();
    let mut i: usize = 0;
    while i < responses.len()
        invariant
            i <= responses.len(),
            keys@.len() == i,
            forall|j: int|
                0 <= j < i ==> (#[trigger] keys@[j])@ == normalized(responses@[j].content@),
        decreases responses.len() - i,
    {
        keys.push(normalize(responses[i].content.as_str()));
        i += 1;
    }
    proof {
        assert(texts(keys@) =~= keys_of(views(responses@)));
    }
    keys
}

/// How many keys equal the key at `i`.
fn count_votes(keys: &Vec<String>, i: usize) -> (n: usize)
    requires
        i < keys@.len(),
    ensures
        n == votes(texts(keys@), i as int),
        1 <= n <= keys@.len(),
{
    let mut n: usize = 0;
    let mut j: usize = 0;
    while j < keys.len()
        invariant
            j <= keys.len(),
            i < keys@.len(),
            n == occurrences(texts(keys@), keys@[i as int]@, j as nat),
            n <= j,
        decreases keys.len() - j,
    {
        if keys[j] == keys[i] {
            n += 1;
        }
        j += 1;
    }
    proof {
        lemma_occurrences_positive(texts(keys@), i as int, keys@.len());
    }
    n
}

/// The first key with the most votes, and its votes.
fn find_leader(keys: &Vec<String>) -> (r: (usize, usize))
    requires
        keys@.len() >= 1,
    ensures
        r.0 == leader(texts(keys@)),
        r.0 < keys@.len(),
        r.1 == votes(texts(keys@), r.0 as int),
        1 <= r.1 <= keys@.len(),
{
    let mut best: usize = 0;
    let mut best_votes: usize = count_votes(keys, 0);
    let mut i: usize = 1;
    while i < keys.len()
        invariant
            1 <= i <= keys.len(),
            best == leader_upto(texts(keys@), i as nat),
            best < i,
            best_votes == votes(texts(keys@), best as int),
            1 <= best_votes <= keys@.len(),
        decreases keys.len() - i,
    {
        let v = count_votes(keys, i);
        if v > best_votes {
            best = i;
            best_votes = v;
        }
        i += 1;
    }
    (best, best_votes)
}

/// The last response of highest confidence.
fn find_most_confident(responses: &Vec<ModelResponse>) -> (a: usize)
    requires
        responses@.len() >= 1,
    ensures
        a == most_confident(views(responses@)),
        a < responses@.len(),
{
    let mut best: usize = 0;
    let mut best_confidence: u32 = confidence(&responses[0]);
    let mut i: usize = 1;
    while i < responses.len()
        invariant
            1 <= i <= responses.len(),
            best == most_confident_upto(views(responses@), i as nat),
            best < i,
            best_confidence == confidence_of(responses@[best as int]@),
        decreases responses.len() - i,
    {
        let c = confidence(&responses[i]);
        if c >= best_confidence {
            best = i;
            best_confidence = c;
        }
        i += 1;
    }
    best
}

/// The confidence of a response; one half where it states none.
fn confidence(r: &ModelResponse) -> (c: u32)
    ensures
        c == confidence_of(r@),
{
    match r.confidence {
        Some(c) => c,
        None => HALF as u32,
    }
}

/// Whether a response presents itself as a refinement.
fn is_refinement(r: &ModelResponse) -> (b: bool)
    ensures
        b == refines(r@),
{
    match &r.reasoning {
        Some(text) => {
            let lowered = text.as_str().to_lowercase();
            let lower = chars_of(lowered.as_str());
            contains_str(&lower, "refine") || contains_str(&lower, "improve")
        },
        None => false,
    }
}

/// A confidence as it is shown in an explanation.
fn show_confidence(c: Option<u32>) -> (s: String)
    ensures
        s@ == shown_confidence(c),
{
    match c {
        Some(c) => {
            let mut s = String::from_str("Some(");
            push_decimal(&mut s, c as u64);
            s.append(")");
            s
        },
        None => String::from_str("None"),
    }
}

/// The share of `count` in `total`, in millionths.
fn share(count: usize, total: usize) -> (r: u64)
    requires
        count <= total,
        total > 0,
    ensures
        r == ratio(count as int, total as int),
        r <= ONE,
{
    proof {
        lemma_ratio_monotone(count as int, total as int, 1, 1);
    }
    let r = ratio_of(count as u64, total as u64);
    r as u64
}

fn voting(responses: &Vec<ModelResponse>) -> (result: NegotiationResult)
    requires
        responses@.len() >= 1,
    ensures
        result@ == voting_outcome(views(responses@)),
{
    let keys = normalized_keys(responses);
    let (w, count) = find_leader(&keys);
    let total: usize = responses.len();
    let mut reason = decimal_string(count as u64);
    reason.append(" of ");
    push_decimal(&mut reason, total as u64);
    reason.append(" models agreed");
    let result = NegotiationResult {
        final_response: keys[w].clone(),
        strategy_used: NegotiationStrategy::Voting,
        participating_models: model_ids(responses),
        agreement_score: share(count, total),
        reasoning: Some(reason),
    };
    proof {
        assert(texts(keys@)[w as int] == keys@[w as int]@);
        assert(result@.participating_models =~= ids_of(views(responses@)));
    }
    result
}

fn consensus(responses: &Vec<ModelResponse>) -> (result: NegotiationResult)
    requires
        responses@.len() >= 1,
    ensures
        result@ == consensus_outcome(views(responses@)),
{
    let keys = normalized_keys(responses);
    let mut all_same: bool = true;
    let mut i: usize = 0;
    while i < keys.len()
        invariant
            i <= keys.len(),
            keys@.len() >= 1,
            all_same == (forall|j: int| 0 <= j < i ==> #[trigger] texts(keys@)[j] == texts(keys@)[0]),
        decreases keys.len() - i,
    {
        if !(keys[i] == keys[0]) {
            all_same = false;
            proof {
                assert(texts(keys@)[i as int] != texts(keys@)[0]);
            }
        }
        i += 1;
    }
    let ids = model_ids(responses);
    if all_same {
        let result = NegotiationResult {
            final_response: keys[0].clone(),
            strategy_used: NegotiationStrategy::Consensus,
            participating_models: ids,
            agreement_score: ONE,
            reasoning: Some(String::from_str("All models reached consensus")),
        };
        proof {
            assert(texts(keys@)[0] == keys@[0]@);
            assert(result@.participating_models =~= ids_of(views(responses@)));
        }
        result
    } else {
        let result = NegotiationResult {
            final_response: responses[0].content.clone(),
            strategy_used: NegotiationStrategy::Consensus,
            participating_models: ids,
            agreement_score: 0,
            reasoning: Some(String::from_str("Consensus not reached, using first response")),
        };
        proof {
            assert(result@.participating_models =~= ids_of(views(responses@)));
        }
        result
    }
}

fn arbitration(responses: &Vec<ModelResponse>) -> (result: NegotiationResult)
    requires
        responses@.len() >= 1,
    ensures
        result@ == arbitration_outcome(views(responses@)),
{
    let a = find_most_confident(responses);
    let arbitrator = &responses[a];
    let mut reason = String::from_str("Arbitrator: ");
    reason.append(arbitrator.model_id.as_str());
    reason.append(" (confidence: ");
    let shown = show_confidence(arbitrator.confidence);
    reason.append(shown.as_str());
    reason.append(")");
    let result = NegotiationResult {
        final_response: arbitrator.content.clone(),
        strategy_used: NegotiationStrategy::Arbitration,
        participating_models: model_ids(responses),
        agreement_score: confidence(arbitrator) as u64,
        reasoning: Some(reason),
    };
    proof {
        assert(result@.participating_models =~= ids_of(views(responses@)));
    }
    result
}

fn best_of_n(responses: &Vec<ModelResponse>) -> (result: NegotiationResult)
    requires
        responses@.len() >= 1,
    ensures
        result@ == best_of_n_outcome(views(responses@)),
{
    let a = find_most_confident(responses);
    let best = &responses[a];
    let mut reason = String::from_str("Selected best from ");
    push_decimal(&mut reason, responses.len() as u64);
    reason.append(" responses");
    let result = NegotiationResult {
        final_response: best.content.clone(),
        strategy_used: NegotiationStrategy::BestOfN,
        participating_models: model_ids(responses),
        agreement_score: confidence(best) as u64,
        reasoning: Some(reason),
    };
    proof {
        assert(result@.participating_models =~= ids_of(views(responses@)));
    }
    result
}

fn cascade(responses: &Vec<ModelResponse>) -> (result: NegotiationResult)
    requires
        responses@.len() >= 1,
    ensures
        result@ == cascade_outcome(views(responses@)),
{
    let mut current: usize = 0;
    let mut chain: usize = 1;
    let mut i: usize = 1;
    while i < responses.len()
        invariant
            1 <= i <= responses.len(),
            current == refined_upto(views(responses@), i as nat),
            current < i,
            chain == chain_upto(views(responses@), i as nat),
            chain <= i,
        decreases responses.len() - i,
    {
        if is_refinement(&responses[i]) {
            current = i;
            chain += 1;
        }
        i += 1;
    }
    let steps: u64 = chain as u64;
    let drop: u128 = (ONE as u128) / ((steps as u128) + 1);
    assert(drop <= ONE) by (nonlinear_arith)
        requires
            drop == (ONE as int) / ((steps + 1) as int),
            steps >= 0,
    ;
    let mut reason = String::from_str("Refined through ");
    push_decimal(&mut reason, steps);
    reason.append(" models");
    let result = NegotiationResult {
        final_response: responses[current].content.clone(),
        strategy_used: NegotiationStrategy::Cascade,
        participating_models: model_ids(responses),
        agreement_score: ONE - (drop as u64),
        reasoning: Some(reason),
    };
    proof {
        assert(result@.participating_models =~= ids_of(views(responses@)));
    }
    result
}

fn self_consistency(responses: &Vec<ModelResponse>) -> (result: NegotiationResult)
    requires
        responses@.len() >= 1,
    ensures
        result@ == self_consistency_outcome(views(responses@)),
{
    let keys = normalized_keys(responses);
    let (w, count) = find_leader(&keys);
    let mut reason = String::from_str("Self-consistency: ");
    push_decimal(&mut reason, count as u64);
    reason.append(" identical responses");
    let result = NegotiationResult {
        final_response: responses[w].content.clone(),
        strategy_used: NegotiationStrategy::SelfConsistency,
        participating_models: model_ids(responses),
        agreement_score: share(count, responses.len()),
        reasoning: Some(reason),
    };
    proof {
        assert(result@.participating_models =~= ids_of(views(responses@)));
    }
    result
}

/// Reduces the responses of several models to one result.
pub struct Negotiator {
    strategy: NegotiationStrategy,
    agreement_threshold: u32,
    max_rounds: u32,
}

impl Negotiator {
    /// The strategy of the negotiator.
    pub closed spec fn strategy_spec(&self) -> NegotiationStrategy {
        self.strategy
    }

    /// The agreement that counts as enough, in millionths.
    pub closed spec fn threshold_spec(&self) -> u32 {
        self.agreement_threshold
    }

    /// The largest number of rounds.
    pub closed spec fn rounds_spec(&self) -> u32 {
        self.max_rounds
    }

    /// A negotiator with the given strategy, an agreement threshold of
    /// 0.7 and at most 3 rounds.
    pub fn new(strategy: NegotiationStrategy) -> (n: Self)
        ensures
            n.strategy_spec() == strategy,
            n.threshold_spec() == 700_000,
            n.rounds_spec() == 3,
    {
        Negotiator { strategy, agreement_threshold: 700_000, max_rounds: 3 }
    }

    /// The same negotiator with another agreement threshold; a
    /// threshold above 1 counts as 1.
    pub fn with_agreement_threshold(self, threshold: u32) -> (n: Self)
        ensures
            n.strategy_spec() == self.strategy_spec(),
            n.rounds_spec() == self.rounds_spec(),
            n.threshold_spec() == if threshold > ONE {
                ONE as u32
            } else {
                threshold
            },
    {
        let clamped: u32 = if threshold > 1_000_000 {
            1_000_000
        } else {
            threshold
        };
        Negotiator {
            strategy: self.strategy,
            agreement_threshold: clamped,
            max_rounds: self.max_rounds,
        }
    }

    /// The same negotiator with another limit of rounds.
    pub fn with_max_rounds(self, rounds: u32) -> (n: Self)
        ensures
            n.strategy_spec() == self.strategy_spec(),
            n.threshold_spec() == self.threshold_spec(),
            n.rounds_spec() == rounds,
    {
        Negotiator {
            strategy: self.strategy,
            agreement_threshold: self.agreement_threshold,
            max_rounds: rounds,
        }
    }

    /// The strategy of the negotiator.
    pub fn strategy(&self) -> (s: NegotiationStrategy)
        ensures
            s == self.strategy_spec(),
    {
        self.strategy
    }

    /// The agreement that counts as enough, in millionths.
    pub fn agreement_threshold(&self) -> (t: u32)
        ensures
            t == self.threshold_spec(),
    {
        self.agreement_threshold
    }

    /// The largest number of rounds.
    pub fn max_rounds(&self) -> (r: u32)
        ensures
            r == self.rounds_spec(),
    {
        self.max_rounds
    }

    /// Reduces `responses` to one result under the negotiator's
    /// strategy.
    pub fn negotiate(&self, responses: Vec<ModelResponse>) -> (result: NegotiationResult)
        ensures
            result@ == negotiated(self.strategy_spec(), views(responses@)),
    {
        if responses.len() == 0 {
            let result = NegotiationResult {
                final_response: String::new(),
                strategy_used: self.strategy,
                participating_models: Vec::new(),
                agreement_score: 0,
                reasoning: Some(String::from_str("No responses to negotiate")),
            };
            proof {
                assert(result@.participating_models =~= Seq::<Seq<char>>::empty());
            }
            return result;
        }
        if responses.len() == 1 {
            let mut ids: Vec<String> = Vec::new();
            ids.push(responses[0].model_id.clone());
            let result = NegotiationResult {
                final_response: responses[0].content.clone(),
                strategy_used: self.strategy,
                participating_models: ids,
                agreement_score: ONE,
                reasoning: None,
            };
            proof {
                assert(result@.participating_models =~= seq![views(responses@)[0].model_id]);
            }
            return result;
        }
        match self.strategy {
            NegotiationStrategy::Voting => voting(&responses),
            NegotiationStrategy::Consensus => consensus(&responses),
            NegotiationStrategy::Arbitration => arbitration(&responses),
            NegotiationStrategy::Cascade => cascade(&responses),
            NegotiationStrategy::BestOfN => best_of_n(&responses),
            NegotiationStrategy::SelfConsistency => self_consistency(&responses),
        }
    }
}

impl Default for Negotiator {
    /// A negotiator that votes.
    fn default() -> (n: Self)
        ensures
            n.strategy_spec() == NegotiationStrategy::Voting,
            n.threshold_spec() == 700_000,
            n.rounds_spec() == 3,
    {
        Negotiator::new(NegotiationStrategy::Voting)
    }
}

} // verus!
