//! Adaptive model selection.
//!
//! A catalog of model profiles is filtered by the hard constraints of a
//! request and the survivors are ranked by a weighted blend of the
//! provider's live score and of how much room the model leaves under
//! the latency and cost ceilings. Money amounts are in millionths of
//! the currency unit, per thousand tokens.

use vstd::prelude::*;
use crate::fixed::{ONE, capped_ratio, blend, capped_ratio_of};
use crate::providers::scoring::{
    ProviderScorer, ScoringWeights, default_weights, blend_of, SCORE_MAX,
};
use crate::ranking::{ranking, rank};
use crate::strmap::StrMap;
use crate::text::{chars_of, contains_str, has_infix, lowercase_of, join3};

verus! {

/// The kind of work that a prompt asks for.
#[derive(Debug, Clone, Copy, PartialEq, Eq, Hash, Structural)]
pub enum TaskType {
    Coding,
    Reasoning,
    Creative,
    Summarization,
    Translation,
    Chat,
    ToolUse,
    Vision,
    Embedding,
}

/// The task that the key words of a lower-case prompt point to. The
/// groups of key words are tried in a fixed order and the first group
/// with a word in the prompt decides; without any, the task is chat.
pub open spec fn task_of(lower: Seq<char>) -> TaskType {
    if has_infix(lower, "code"@) || has_infix(lower, "function"@) || has_infix(lower, "debug"@) {
        TaskType::Coding
    } else if has_infix(lower, "analyze"@) || has_infix(lower, "reason"@) || has_infix(
        lower,
        "think"@,
    ) {
        TaskType::Reasoning
    } else if has_infix(lower, "write"@) || has_infix(lower, "story"@) || has_infix(
        lower,
        "creative"@,
    ) {
        TaskType::Creative
    } else if has_infix(lower, "summarize"@) || has_infix(lower, "brief"@) {
        TaskType::Summarization
    } else if has_infix(lower, "translate"@) || has_infix(lower, "\u{7ffb}\u{8bd1}"@) {
        TaskType::Translation
    } else if has_infix(lower, "tool"@) || has_infix(lower, "execute"@) || has_infix(
        lower,
        "call"@,
    ) {
        TaskType::ToolUse
    } else if has_infix(lower, "image"@) || has_infix(lower, "picture"@) || has_infix(
        lower,
        "screenshot"@,
    ) {
        TaskType::Vision
    } else {
        TaskType::Chat
    }
}

impl TaskType {
    /// Guesses the task of a prompt from its key words. This is a
    /// heuristic, not a classifier.
    pub fn from_prompt(prompt: &str) -> (t: TaskType)
        ensures
            t == task_of(lowercase_of(prompt@)),
    {
        let lowered = prompt.to_lowercase();
        let lower = chars_of(lowered.as_str());
        if contains_str(&lower, "code") || contains_str(&lower, "function") || contains_str(
            &lower,
            "debug",
        ) {
            return TaskType::Coding;
        }
        if contains_str(&lower, "analyze") || contains_str(&lower, "reason") || contains_str(
            &lower,
            "think",
        ) {
            return TaskType::Reasoning;
        }
        if contains_str(&lower, "write") || contains_str(&lower, "story") || contains_str(
            &lower,
            "creative",
        ) {
            return TaskType::Creative;
        }
        if contains_str(&lower, "summarize") || contains_str(&lower, "brief") {
            return TaskType::Summarization;
        }
        if contains_str(&lower, "translate") || contains_str(&lower, "\u{7ffb}\u{8bd1}") {
            return TaskType::Translation;
        }
        if contains_str(&lower, "tool") || contains_str(&lower, "execute") || contains_str(
            &lower,
            "call",
        ) {
            return TaskType::ToolUse;
        }
        if contains_str(&lower, "image") || contains_str(&lower, "picture") || contains_str(
            &lower,
            "screenshot",
        ) {
            return TaskType::Vision;
        }
        TaskType::Chat
    }
}

/// What is known of one model of one provider.
#[derive(Debug, Clone)]
pub struct ModelProfile {
    pub provider_id: String,
    pub model_id: String,
    /// The tasks that the model is meant for; none listed means all.
    pub supported_tasks: Vec<TaskType>,
    pub context_window: u32,
    pub supports_vision: bool,
    pub supports_tools: bool,
    pub supports_streaming: bool,
    pub input_cost_per_1k: u64,
    pub output_cost_per_1k: u64,
    pub avg_latency_ms: u64,
}

impl ModelProfile {
    /// Whether the model is meant for `task`.
    pub open spec fn supports(&self, task: TaskType) -> bool {
        self.supported_tasks@.contains(task) || self.supported_tasks@.len() == 0
    }

    /// The cost of a thousand tokens in and a thousand tokens out.
    pub open spec fn total_cost(&self) -> int {
        self.input_cost_per_1k + self.output_cost_per_1k
    }

    /// The key under which the profile stands in a catalog:
    /// provider, a slash, model.
    pub open spec fn key(&self) -> Seq<char> {
        self.provider_id@ + "/"@ + self.model_id@
    }

    /// Whether the model is meant for `task`.
    pub fn matches_task(&self, task: TaskType) -> (b: bool)
        ensures
            b == self.supports(task),
    {
        if self.supported_tasks.len() == 0 {
            return true;
        }
        let mut i: usize = 0;
        while i < self.supported_tasks.len()
            invariant
                i <= self.supported_tasks.len(),
                forall|j: int| 0 <= j < i ==> self.supported_tasks@[j] != task,
            decreases self.supported_tasks.len() - i,
        {
            if self.supported_tasks[i] == task {
                return true;
            }
            i += 1;
        }
        false
    }
}

/// One request for a model.
#[derive(Debug, Clone)]
pub struct SelectionCriteria {
    pub task_type: Option<TaskType>,
    pub max_latency_ms: Option<u64>,
    pub max_cost_per_1k: Option<u64>,
    pub min_context_window: Option<u32>,
    pub require_vision: bool,
    pub require_tools: bool,
    pub prefer_quality: bool,
}

impl Default for SelectionCriteria {
    /// A request without any constraint.
    fn default() -> (c: Self)
        ensures
            c.task_type is None,
            c.max_latency_ms is None,
            c.max_cost_per_1k is None,
            c.min_context_window is None,
            !c.require_vision,
            !c.require_tools,
            !c.prefer_quality,
    {
        SelectionCriteria {
            task_type: None,
            max_latency_ms: None,
            max_cost_per_1k: None,
            min_context_window: None,
            require_vision: false,
            require_tools: false,
            prefer_quality: false,
        }
    }
}

/// Whether a model meets every hard constraint of a request.
pub open spec fn matches(model: ModelProfile, criteria: SelectionCriteria) -> bool {
    &&& criteria.task_type matches Some(task) ==> model.supports(task)
    &&& criteria.max_latency_ms matches Some(max) ==> model.avg_latency_ms <= max
    &&& criteria.max_cost_per_1k matches Some(max) ==> model.total_cost() <= max
    &&& criteria.min_context_window matches Some(min) ==> model.context_window >= min
    &&& criteria.require_vision ==> model.supports_vision
    &&& criteria.require_tools ==> model.supports_tools
}

/// Whether a model meets every hard constraint of a request.
pub fn matches_criteria(model: &ModelProfile, criteria: &SelectionCriteria) -> (b: bool)
    ensures
        b == matches(*model, *criteria),
{
    if let Some(task) = criteria.task_type {
        if !model.matches_task(task) {
            return false;
        }
    }
    if let Some(max_latency) = criteria.max_latency_ms {
        if model.avg_latency_ms > max_latency {
            return false;
        }
    }
    if let Some(max_cost) = criteria.max_cost_per_1k {
        let total: u128 = (model.input_cost_per_1k as u128) + (model.output_cost_per_1k as u128);
        if total > (max_cost as u128) {
            return false;
        }
    }
    if let Some(min_ctx) = criteria.min_context_window {
        if model.context_window < min_ctx {
            return false;
        }
    }
    if criteria.require_vision && !model.supports_vision {
        return false;
    }
    if criteria.require_tools && !model.supports_tools {
        return false;
    }
    true
}

/// The weights that go with a task: presets for coding, reasoning,
/// chat and tool use, the default weights for everything else.
pub open spec fn weights_for(task: Option<TaskType>) -> ScoringWeights {
    match task {
        Some(TaskType::Coding) => ScoringWeights {
            quality: 400_000,
            reliability: 300_000,
            latency: 200_000,
            cost: 100_000,
        },
        Some(TaskType::Reasoning) => ScoringWeights {
            quality: 500_000,
            reliability: 300_000,
            latency: 150_000,
            cost: 50_000,
        },
        Some(TaskType::Chat) => ScoringWeights {
            latency: 400_000,
            cost: 300_000,
            reliability: 200_000,
            quality: 100_000,
        },
        Some(TaskType::ToolUse) => ScoringWeights {
            reliability: 400_000,
            quality: 300_000,
            latency: 200_000,
            cost: 100_000,
        },
        _ => default_weights(),
    }
}

/// The weights that go with a task.
pub fn task_weights(task: Option<TaskType>) -> (w: ScoringWeights)
    ensures
        w == weights_for(task),
{
    match task {
        Some(TaskType::Coding) => ScoringWeights {
            quality: 400_000,
            reliability: 300_000,
            latency: 200_000,
            cost: 100_000,
        },
        Some(TaskType::Reasoning) => ScoringWeights {
            quality: 500_000,
            reliability: 300_000,
            latency: 150_000,
            cost: 50_000,
        },
        Some(TaskType::Chat) => ScoringWeights {
            latency: 400_000,
            cost: 300_000,
            reliability: 200_000,
            quality: 100_000,
        },
        Some(TaskType::ToolUse) => ScoringWeights {
            reliability: 400_000,
            quality: 300_000,
            latency: 200_000,
            cost: 100_000,
        },
        _ => ScoringWeights::default(),
    }
}

/// How much room a model leaves under the latency ceiling:
/// `min(1, ceiling / latency)`, and 1 without a ceiling.
pub open spec fn latency_margin(model: ModelProfile, criteria: SelectionCriteria) -> int {
    match criteria.max_latency_ms {
        Some(max) => if model.avg_latency_ms == 0 {
            ONE as int
        } else {
            capped_ratio(max as int, model.avg_latency_ms as int)
        },
        None => ONE as int,
    }
}

/// How much room a model leaves under the cost ceiling:
/// `min(1, ceiling / cost)`, and 1 without a ceiling or at no cost.
pub open spec fn cost_margin(model: ModelProfile, criteria: SelectionCriteria) -> int {
    if model.total_cost() == 0 {
        ONE as int
    } else {
        match criteria.max_cost_per_1k {
            Some(max) => capped_ratio(max as int, model.total_cost()),
            None => ONE as int,
        }
    }
}

/// The score of a model for a request, given the live score of its
/// provider, which counts for both quality and reliability.
pub open spec fn profile_score(
    model: ModelProfile,
    criteria: SelectionCriteria,
    provider_score: int,
) -> int {
    let w = weights_for(criteria.task_type);
    blend(
        (w.latency as int, w.cost as int, w.reliability as int, w.quality as int),
        (
            latency_margin(model, criteria),
            cost_margin(model, criteria),
            provider_score,
            provider_score,
        ),
    )
}

/// The score of a model for a request, given the live score of its
/// provider.
pub fn score_profile(model: &ModelProfile, criteria: &SelectionCriteria, provider_score: u64) -> (r:
    u64)
    requires
        provider_score <= SCORE_MAX,
    ensures
        r == profile_score(*model, *criteria, provider_score as int),
{
    let weights = task_weights(criteria.task_type);
    let latency: u64 = match criteria.max_latency_ms {
        Some(max) => {
            if model.avg_latency_ms == 0 {
                ONE
            } else {
                capped_ratio_of(max as u128, model.avg_latency_ms as u128)
            }
        },
        None => ONE,
    };
    let total: u128 = (model.input_cost_per_1k as u128) + (model.output_cost_per_1k as u128);
    let cost: u64 = if total == 0 {
        ONE
    } else {
        match criteria.max_cost_per_1k {
            Some(max) => capped_ratio_of(max as u128, total),
            None => ONE,
        }
    };
    blend_of(&weights, latency, cost, provider_score, provider_score)
}

/// Chooses models from a catalog, with the help of a provider scorer.
pub struct AdaptiveSelector {
    models: StrMap<ModelProfile>,
    scorer: ProviderScorer,
}

impl AdaptiveSelector {
    /// The keys of the catalog, in the order of first registration.
    pub closed spec fn keys(&self) -> Seq<Seq<char>> {
        self.models.keys()
    }

    /// The profiles of the catalog, each at the position of its key.
    pub closed spec fn catalog(&self) -> Seq<ModelProfile> {
        self.models.values()
    }

    /// The scorer that the selector consults.
    pub closed spec fn scorer(&self) -> ProviderScorer {
        self.scorer
    }

    /// The score, for a request, of the profile at position `i`.
    pub open spec fn score_at(&self, criteria: SelectionCriteria, i: int) -> int {
        profile_score(
            self.catalog()[i],
            criteria,
            self.scorer().score_spec(self.catalog()[i].provider_id@),
        )
    }

    /// Whether position `b` holds the best of the first `n` profiles:
    /// it meets the request, no profile that meets it scores higher, and
    /// none behind it scores as high.
    pub open spec fn is_best_upto(&self, criteria: SelectionCriteria, b: int, n: int) -> bool {
        &&& 0 <= b < n
        &&& matches(self.catalog()[b], criteria)
        &&& forall|j: int|
            0 <= j < n && matches(#[trigger] self.catalog()[j], criteria) ==> self.score_at(
                criteria,
                j,
            ) <= self.score_at(criteria, b)
        &&& forall|j: int|
            b < j < n && matches(#[trigger] self.catalog()[j], criteria) ==> self.score_at(
                criteria,
                j,
            ) < self.score_at(criteria, b)
    }

    /// Whether position `b` holds the best profile for a request.
    pub open spec fn is_best(&self, criteria: SelectionCriteria, b: int) -> bool {
        self.is_best_upto(criteria, b, self.catalog().len() as int)
    }

    /// Whether none of the first `n` profiles meets the request.
    pub open spec fn none_matches_upto(&self, criteria: SelectionCriteria, n: int) -> bool {
        forall|j: int| 0 <= j < n ==> !matches(#[trigger] self.catalog()[j], criteria)
    }

    /// The positions, among the first `n`, of the profiles that meet
    /// the request, in catalog order.
    pub open spec fn eligible_upto(&self, criteria: SelectionCriteria, n: nat) -> Seq<int>
        decreases n,
    {
        if n == 0 {
            Seq::empty()
        } else if matches(self.catalog()[n - 1], criteria) {
            self.eligible_upto(criteria, (n - 1) as nat).push(n - 1)
        } else {
            self.eligible_upto(criteria, (n - 1) as nat)
        }
    }

    /// Whether position `p` lies below `n` and holds a profile that
    /// meets the request.
    pub open spec fn meets_below(&self, criteria: SelectionCriteria, p: int, n: nat) -> bool {
        &&& 0 <= p < n
        &&& matches(self.catalog()[p], criteria)
    }

    /// The positions of the profiles that meet the request, in catalog
    /// order.
    pub open spec fn eligible(&self, criteria: SelectionCriteria) -> Seq<int> {
        self.eligible_upto(criteria, self.catalog().len())
    }

    /// The scores of the eligible profiles, in catalog order.
    pub open spec fn eligible_scores(&self, criteria: SelectionCriteria) -> Seq<u64> {
        Seq::new(
            self.eligible(criteria).len(),
            |k: int| self.score_at(criteria, self.eligible(criteria)[k]) as u64,
        )
    }

    /// The eligible profiles by descending score; profiles of equal
    /// score in catalog order.
    pub open spec fn shortlist(&self, criteria: SelectionCriteria) -> Seq<ModelProfile> {
        Seq::new(
            self.eligible(criteria).len(),
            |j: int|
                self.catalog()[self.eligible(criteria)[ranking(self.eligible_scores(criteria))[j]]],
        )
    }

    /// The first `n` profiles of the shortlist, or all of it if it is
    /// shorter.
    pub open spec fn selection(&self, criteria: SelectionCriteria, n: nat) -> Seq<ModelProfile> {
        if n <= self.shortlist(criteria).len() {
            self.shortlist(criteria).take(n as int)
        } else {
            self.shortlist(criteria)
        }
    }

    /// A selector with an empty catalog.
    pub fn new(scorer: ProviderScorer) -> (s: Self)
        ensures
            s.scorer() == scorer,
            s.keys() == Seq::<Seq<char>>::empty(),
            s.catalog() == Seq::<ModelProfile>::empty(),
    {
        AdaptiveSelector { models: StrMap::new(), scorer }
    }

    /// The number of profiles in the catalog.
    pub fn model_count(&self) -> (n: usize)
        ensures
            n == self.catalog().len(),
    {
        self.models.len()
    }

    /// Puts a profile into the catalog under its key. A profile that
    /// stood under the same key is replaced, at its position.
    pub fn register_model(&mut self, profile: ModelProfile)
        ensures
            final(self).scorer() == old(self).scorer(),
            final(self).keys().no_duplicates(),
            final(self).keys().len() == final(self).catalog().len(),
            if old(self).keys().contains(profile.key()) {
                let i = old(self).keys().index_of(profile.key());
                &&& 0 <= i < old(self).catalog().len()
                &&& final(self).keys() == old(self).keys()
                &&& final(self).catalog() == old(self).catalog().update(i, profile)
            } else {
                &&& final(self).keys() == old(self).keys().push(profile.key())
                &&& final(self).catalog() == old(self).catalog().push(profile)
            },
    {
        let key = join3(profile.provider_id.as_str(), "/", profile.model_id.as_str());
        proof {
            use_type_invariant(&self.models);
        }
        self.models.insert(key, profile);
    }

    /// The best profile for a request: among the profiles that meet
    /// every hard constraint, one of highest score, and of several such
    /// the one registered last. `None` when no profile meets the
    /// constraints.
    pub fn select_best(&self, criteria: &SelectionCriteria) -> (r: Option<&ModelProfile>)
        ensures
            match r {
                Some(m) => exists|b: int|
                    #[trigger] self.is_best(*criteria, b) && *m == self.catalog()[b],
                None => self.none_matches_upto(*criteria, self.catalog().len() as int),
            },
    {
        let n: usize = self.models.len();
        let mut best: Option<usize> = None;
        let mut best_score: u64 = 0;
        let mut i: usize = 0;
        while i < n
            invariant
                i <= n,
                n == self.catalog().len(),
                match best {
                    Some(b) => self.is_best_upto(*criteria, b as int, i as int) && best_score
                        == self.score_at(*criteria, b as int),
                    None => self.none_matches_upto(*criteria, i as int),
                },
            decreases n - i,
        {
            let model = self.models.value_at(i);
            if matches_criteria(model, criteria) {
                let provider_score = self.scorer.score(model.provider_id.as_str());
                let score = score_profile(model, criteria, provider_score);
                let better: bool = match best {
                    Some(_) => score >= best_score,
                    None => true,
                };
                if better {
                    best = Some(i);
                    best_score = score;
                }
            }
            i += 1;
        }
        match best {
            Some(b) => {
                proof {
                    assert(self.is_best(*criteria, b as int));
                }
                Some(self.models.value_at(b))
            },
            None => None,
        }
    }

    /// Whether `picked` holds, for each of its entries, the catalog
    /// position and the score of the eligible profile of that rank.
    pub open spec fn tracks_eligible(
        &self,
        criteria: SelectionCriteria,
        n: nat,
        picked: Seq<usize>,
        scores: Seq<u64>,
    ) -> bool {
        let e = self.eligible_upto(criteria, n);
        &&& picked.len() == e.len()
        &&& scores.len() == e.len()
        &&& forall|k: int| 0 <= k < e.len() ==> (#[trigger] picked[k]) as int == e[k]
        &&& forall|k: int|
            0 <= k < e.len() ==> (#[trigger] scores[k]) as int == self.score_at(criteria, e[k])
        &&& forall|k: int| 0 <= k < e.len() ==> 0 <= #[trigger] e[k] < n
    }

    /// Up to `n` profiles for a request: the profiles that meet every
    /// hard constraint, by descending score, profiles of equal score in
    /// the order of their registration.
    pub fn select_top_n(&self, criteria: &SelectionCriteria, n: usize) -> (top: Vec<&ModelProfile>)
        ensures
            top@.len() == self.selection(*criteria, n as nat).len(),
            top@.len() <= n,
            forall|j: int|
                0 <= j < top@.len() ==> *(#[trigger] top@[j]) == self.selection(
                    *criteria,
                    n as nat,
                )[j],
    {
        let count: usize = self.models.len();
        let mut picked: Vec<usize> = Vec::new();
        let mut scores: Vec<u64> = Vec::new();
        let mut i: usize = 0;
        while i < count
            invariant
                i <= count,
                count == self.catalog().len(),
                self.tracks_eligible(*criteria, i as nat, picked@, scores@),
            decreases count - i,
        {
            let model = self.models.value_at(i);
            if matches_criteria(model, criteria) {
                let provider_score = self.scorer.score(model.provider_id.as_str());
                let score = score_profile(model, criteria, provider_score);
                picked.push(i);
                scores.push(score);
            }
            i += 1;
        }
        proof {
            assert(scores@ =~= self.eligible_scores(*criteria));
            crate::ranking::lemma_ranking(scores@);
        }
        let order = rank(&scores);
        let limit: usize = if n < order.len() {
            n
        } else {
            order.len()
        };
        let mut top: Vec<&ModelProfile> = Vec::new();
        let mut j: usize = 0;
        while j < limit
            invariant
                j <= limit,
                limit <= order@.len(),
                limit == self.selection(*criteria, n as nat).len(),
                count == self.catalog().len(),
                order@.len() == scores@.len(),
                scores@ == self.eligible_scores(*criteria),
                self.tracks_eligible(*criteria, count as nat, picked@, scores@),
                forall|k: int| 0 <= k < order@.len() ==> #[trigger] order@[k] < scores@.len(),
                forall|k: int|
                    0 <= k < order@.len() ==> #[trigger] order@[k] as int == ranking(scores@)[k],
                top@.len() == j,
                forall|k: int|
                    0 <= k < j ==> *(#[trigger] top@[k]) == self.shortlist(*criteria)[k],
            decreases limit - j,
        {
            let rank_pos: usize = order[j];
            let at: usize = picked[rank_pos];
            proof {
                assert(order@[j as int] as int == ranking(scores@)[j as int]);
                assert(picked@[rank_pos as int] as int == self.eligible(*criteria)[rank_pos as int]);
            }
            top.push(self.models.value_at(at));
            j += 1;
        }
        top
    }
}

/// A profile that exceeds the latency ceiling of a request does not
/// meet the request, so neither selection returns it.
pub proof fn lemma_over_latency_excluded(model: ModelProfile, criteria: SelectionCriteria)
    requires
        criteria.max_latency_ms is Some,
        model.avg_latency_ms > criteria.max_latency_ms->0,
    ensures
        !matches(model, criteria),
{
}

/// Every eligible position lies in the catalog and holds a profile
/// that meets the request.
pub proof fn lemma_eligible_matches(sel: AdaptiveSelector, criteria: SelectionCriteria, n: nat)
    requires
        n <= sel.catalog().len(),
    ensures
        forall|k: int|
            0 <= k < sel.eligible_upto(criteria, n).len() ==> sel.meets_below(
                criteria,
                #[trigger] sel.eligible_upto(criteria, n)[k],
                n,
            ),
    decreases n,
{
    if n > 0 {
        lemma_eligible_matches(sel, criteria, (n - 1) as nat);
        let shorter = sel.eligible_upto(criteria, (n - 1) as nat);
        assert forall|k: int| 0 <= k < sel.eligible_upto(criteria, n).len() implies sel.meets_below(
            criteria,
            #[trigger] sel.eligible_upto(criteria, n)[k],
            n,
        ) by {
            if k < shorter.len() {
                assert(sel.eligible_upto(criteria, n)[k] == shorter[k]);
                assert(sel.meets_below(criteria, shorter[k], (n - 1) as nat));
            }
        }
    }
}

/// Every profile of a selection meets the request.
pub proof fn lemma_selection_matches(
    sel: AdaptiveSelector,
    criteria: SelectionCriteria,
    n: nat,
    j: int,
)
    requires
        0 <= j < sel.selection(criteria, n).len(),
    ensures
        matches(sel.selection(criteria, n)[j], criteria),
{
    let e = sel.eligible(criteria);
    let scores = sel.eligible_scores(criteria);
    crate::ranking::lemma_ranking(scores);
    lemma_eligible_matches(sel, criteria, sel.catalog().len());
    let k = ranking(scores)[j];
    assert(0 <= k < e.len());
    assert(sel.meets_below(criteria, e[k], sel.catalog().len()));
    assert(sel.shortlist(criteria)[j] == sel.catalog()[e[k]]);
}

/// A selection of `n` has at most `n` profiles, and is the beginning
/// of the selection of `n + 1` for the same request.
pub proof fn lemma_top_n_is_prefix(sel: AdaptiveSelector, criteria: SelectionCriteria, n: nat)
    ensures
        sel.selection(criteria, n).len() <= n,
        sel.selection(criteria, n).is_prefix_of(sel.selection(criteria, n + 1)),
{
}

/// Under a latency ceiling, no profile of a selection and no best
/// profile has a higher latency than the ceiling, whatever its score.
pub proof fn lemma_selected_within_latency(
    sel: AdaptiveSelector,
    criteria: SelectionCriteria,
    n: nat,
)
    requires
        criteria.max_latency_ms is Some,
    ensures
        forall|j: int|
            0 <= j < sel.selection(criteria, n).len() ==> (#[trigger] sel.selection(
                criteria,
                n,
            )[j]).avg_latency_ms <= criteria.max_latency_ms->0,
        forall|b: int|
            #[trigger] sel.is_best(criteria, b) ==> sel.catalog()[b].avg_latency_ms
                <= criteria.max_latency_ms->0,
{
    assert forall|j: int| 0 <= j < sel.selection(criteria, n).len() implies (
    #[trigger] sel.selection(criteria, n)[j]).avg_latency_ms <= criteria.max_latency_ms->0 by {
        lemma_selection_matches(sel, criteria, n, j);
    }
}

impl ModelProfile {
    /// Whether the profile holds exactly these values.
    pub open spec fn describes(
        &self,
        provider_id: Seq<char>,
        model_id: Seq<char>,
        supported_tasks: Seq<TaskType>,
        context_window: u32,
        capabilities: (bool, bool, bool),
        costs: (u64, u64),
        avg_latency_ms: u64,
    ) -> bool {
        &&& self.provider_id@ == provider_id
        &&& self.model_id@ == model_id
        &&& self.supported_tasks@ == supported_tasks
        &&& self.context_window == context_window
        &&& self.supports_vision == capabilities.0
        &&& self.supports_tools == capabilities.1
        &&& self.supports_streaming == capabilities.2
        &&& self.input_cost_per_1k == costs.0
        &&& self.output_cost_per_1k == costs.1
        &&& self.avg_latency_ms == avg_latency_ms
    }
}

/// The profiles of four well-known models, to start a catalog with.
pub fn default_model_profiles() -> (profiles: Vec<ModelProfile>)
    ensures
        profiles@.len() == 4,
        profiles@[0].describes(
            "openai"@,
            "gpt-4o"@,
            seq![
                TaskType::Coding,
                TaskType::Reasoning,
                TaskType::Creative,
                TaskType::ToolUse,
                TaskType::Vision,
            ],
            128000,
            (true, true, true),
            (5000, 15000),
            800,
        ),
        profiles@[1].describes(
            "openai"@,
            "gpt-4o-mini"@,
            seq![TaskType::Chat, TaskType::Summarization, TaskType::Translation],
            128000,
            (true, true, true),
            (150, 600),
            300,
        ),
        profiles@[2].describes(
            "anthropic"@,
            "sonnet-4-20250514"@,
            seq![
                TaskType::Coding,
                TaskType::Reasoning,
                TaskType::Creative,
                TaskType::ToolUse,
                TaskType::Vision,
            ],
            200000,
            (true, true, true),
            (3000, 15000),
            600,
        ),
        profiles@[3].describes(
            "deepseek"@,
            "deepseek-chat"@,
            seq![TaskType::Coding, TaskType::Reasoning, TaskType::Chat],
            64000,
            (false, true, true),
            (140, 280),
            500,
        ),
{
    let mut profiles: Vec<ModelProfile> = Vec::new();
    profiles.push(
        ModelProfile {
            provider_id: String::from_str("openai"),
            model_id: String::from_str("gpt-4o"),
            supported_tasks: vec![
                TaskType::Coding,
                TaskType::Reasoning,
                TaskType::Creative,
                TaskType::ToolUse,
                TaskType::Vision,
            ],
            context_window: 128000,
            supports_vision: true,
            supports_tools: true,
            supports_streaming: true,
            input_cost_per_1k: 5000,
            output_cost_per_1k: 15000,
            avg_latency_ms: 800,
        },
    );
    profiles.push(
        ModelProfile {
            provider_id: String::from_str("openai"),
            model_id: String::from_str("gpt-4o-mini"),
            supported_tasks: vec![TaskType::Chat, TaskType::Summarization, TaskType::Translation],
            context_window: 128000,
            supports_vision: true,
            supports_tools: true,
            supports_streaming: true,
            input_cost_per_1k: 150,
            output_cost_per_1k: 600,
            avg_latency_ms: 300,
        },
    );
    profiles.push(
        ModelProfile {
            provider_id: String::from_str("anthropic"),
            model_id: String::from_str("sonnet-4-20250514"),
            supported_tasks: vec![
                TaskType::Coding,
                TaskType::Reasoning,
                TaskType::Creative,
                TaskType::ToolUse,
                TaskType::Vision,
            ],
            context_window: 200000,
            supports_vision: true,
            supports_tools: true,
            supports_streaming: true,
            input_cost_per_1k: 3000,
            output_cost_per_1k: 15000,
            avg_latency_ms: 600,
        },
    );
    profiles.push(
        ModelProfile {
            provider_id: String::from_str("deepseek"),
            model_id: String::from_str("deepseek-chat"),
            supported_tasks: vec![TaskType::Coding, TaskType::Reasoning, TaskType::Chat],
            context_window: 64000,
            supports_vision: false,
            supports_tools: true,
            supports_streaming: true,
            input_cost_per_1k: 140,
            output_cost_per_1k: 280,
            avg_latency_ms: 500,
        },
    );
    profiles
}

} // verus!
