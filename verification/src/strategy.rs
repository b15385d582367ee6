//! Optimization strategies, their build plans, and the choice among them.

use vstd::prelude::*;
use vstd::string::*;
use vstd::utf8::*;

use crate::interposition::InterpositionPlan;
use crate::paths::{join, join_path};
use crate::text::texts;

verus! {

#[derive(Clone, Copy, Debug, PartialEq, Eq, Structural)]
pub enum Strategy {
    Baseline,
    ThinLto,
    FatLtoCgu1,
    Pgo,
}

/// The canonical name of a strategy.
pub open spec fn identity_label(strategy: Strategy) -> Seq<char> {
    match strategy {
        Strategy::Baseline => "baseline"@,
        Strategy::ThinLto => "thin-lto"@,
        Strategy::FatLtoCgu1 => "fat-lto-cgu1"@,
        Strategy::Pgo => "pgo"@,
    }
}

/// The Cargo profile overrides of a strategy.
pub open spec fn overrides_of(strategy: Strategy) -> Seq<Seq<char>> {
    match strategy {
        Strategy::Baseline => Seq::empty(),
        Strategy::ThinLto => seq!["profile.release.lto=\"thin\""@],
        Strategy::FatLtoCgu1 => seq![
            "profile.release.lto=\"fat\""@,
            "profile.release.codegen-units=1"@,
        ],
        Strategy::Pgo => Seq::empty(),
    }
}

impl Strategy {
    pub fn canonical_identity(self) -> (label: &'static str)
        ensures
            label@ == identity_label(self),
    {
        match self {
            Strategy::Baseline => "baseline",
            Strategy::ThinLto => "thin-lto",
            Strategy::FatLtoCgu1 => "fat-lto-cgu1",
            Strategy::Pgo => "pgo",
        }
    }

    pub fn profile_overrides(self) -> (overrides: Vec<String>)
        ensures
            texts(overrides@) == overrides_of(self),
    {
        let mut overrides: Vec<String> = Vec::new();
        match self {
            Strategy::Baseline => {},
            Strategy::ThinLto => {
                overrides.push("profile.release.lto=\"thin\"".to_owned());
            },
            Strategy::FatLtoCgu1 => {
                overrides.push("profile.release.lto=\"fat\"".to_owned());
                overrides.push("profile.release.codegen-units=1".to_owned());
            },
            Strategy::Pgo => {},
        }
        assert(texts(overrides@) =~= overrides_of(self));
        overrides
    }

    /// The candidates that need no training, in the order in which they are built.
    pub fn static_candidates() -> (candidates: Vec<Strategy>)
        ensures
            candidates@ == seq![Strategy::ThinLto, Strategy::FatLtoCgu1],
    {
        let mut candidates: Vec<Strategy> = Vec::new();
        candidates.push(Strategy::ThinLto);
        candidates.push(Strategy::FatLtoCgu1);
        candidates
    }
}

#[derive(Clone, Copy, Debug, PartialEq, Eq, Structural)]
pub enum BuildStage {
    Baseline,
    StaticCandidate,
    PgoReference,
    PgoInstrumentation,
    PgoOptimized,
    Confirmation,
}

/// One build that is to be made.
#[derive(Debug)]
pub struct BuildPlan {
    pub strategy: Strategy,
    pub stage: BuildStage,
    pub target_directory: Vec<u8>,
    pub cargo_config_overrides: Vec<String>,
    pub interposition: Option<InterpositionPlan>,
}

/// The stage in which a strategy is first built.
pub open spec fn first_stage(strategy: Strategy) -> BuildStage {
    match strategy {
        Strategy::Baseline => BuildStage::Baseline,
        Strategy::ThinLto => BuildStage::StaticCandidate,
        Strategy::FatLtoCgu1 => BuildStage::StaticCandidate,
        Strategy::Pgo => BuildStage::PgoOptimized,
    }
}

/// The directory of a confirmation build.
pub open spec fn confirmation_directory(target_root: Seq<u8>, strategy: Strategy) -> Seq<u8> {
    join_path(
        join_path(target_root, encode_utf8("confirmation"@)),
        encode_utf8(identity_label(strategy)),
    )
}

impl BuildPlan {
    pub fn baseline(target_root: &[u8]) -> (plan: BuildPlan)
        ensures
            plan.strategy == Strategy::Baseline,
            plan.stage == BuildStage::Baseline,
            plan.target_directory@ == join_path(target_root@, encode_utf8("baseline"@)),
            texts(plan.cargo_config_overrides@) == Seq::<Seq<char>>::empty(),
            plan.interposition is None,
    {
        BuildPlan::candidate(Strategy::Baseline, target_root)
    }

    pub fn candidate(strategy: Strategy, target_root: &[u8]) -> (plan: BuildPlan)
        ensures
            plan.strategy == strategy,
            plan.stage == first_stage(strategy),
            plan.target_directory@ == join_path(
                target_root@,
                encode_utf8(identity_label(strategy)),
            ),
            texts(plan.cargo_config_overrides@) == overrides_of(strategy),
            plan.interposition is None,
    {
        let stage: BuildStage = match strategy {
            Strategy::Baseline => BuildStage::Baseline,
            Strategy::ThinLto => BuildStage::StaticCandidate,
            Strategy::FatLtoCgu1 => BuildStage::StaticCandidate,
            Strategy::Pgo => BuildStage::PgoOptimized,
        };
        BuildPlan {
            strategy,
            stage,
            target_directory: join(target_root, strategy.canonical_identity().as_bytes()),
            cargo_config_overrides: strategy.profile_overrides(),
            interposition: None,
        }
    }

    pub fn confirmation(
        strategy: Strategy,
        target_root: &[u8],
        cargo_config_overrides: Vec<String>,
        interposition: Option<InterpositionPlan>,
    ) -> (plan: BuildPlan)
        ensures
            plan.strategy == strategy,
            plan.stage == BuildStage::Confirmation,
            plan.target_directory@ == match interposition {
                Some(interposed) => interposed.target_directory@,
                None => confirmation_directory(target_root@, strategy),
            },
            plan.cargo_config_overrides == cargo_config_overrides,
            plan.interposition == interposition,
    {
        let target_directory = match &interposition {
            Some(interposed) => interposed.target_directory.clone(),
            None => join(
                join(target_root, "confirmation".as_bytes()).as_slice(),
                strategy.canonical_identity().as_bytes(),
            ),
        };
        BuildPlan {
            strategy,
            stage: BuildStage::Confirmation,
            target_directory,
            cargo_config_overrides,
            interposition,
        }
    }

    /// Interposed PGO stage. Cargo keeps ownership of every compiler input; the shim appends the
    /// phase controls after Cargo has resolved them.
    pub fn pgo(base_strategy: Strategy, stage: BuildStage, interposition: InterpositionPlan) -> (plan:
        BuildPlan)
        ensures
            plan.strategy == Strategy::Pgo,
            plan.stage == stage,
            plan.target_directory@ == interposition.target_directory@,
            texts(plan.cargo_config_overrides@) == overrides_of(base_strategy),
            plan.interposition == Some(interposition),
    {
        BuildPlan {
            strategy: Strategy::Pgo,
            stage,
            target_directory: interposition.target_directory.clone(),
            cargo_config_overrides: base_strategy.profile_overrides(),
            interposition: Some(interposition),
        }
    }
}

/// The rank that breaks ties between strategies.
pub open spec fn order_of(strategy: Strategy) -> int {
    match strategy {
        Strategy::Baseline => 0,
        Strategy::ThinLto => 1,
        Strategy::FatLtoCgu1 => 2,
        Strategy::Pgo => 3,
    }
}

/// The rank that breaks ties between strategies.
pub fn strategy_order(strategy: Strategy) -> (order: u8)
    ensures
        order == order_of(strategy),
{
    match strategy {
        Strategy::Baseline => 0,
        Strategy::ThinLto => 1,
        Strategy::FatLtoCgu1 => 2,
        Strategy::Pgo => 3,
    }
}

/// Whether `left` is strictly better than `right`: faster, or as fast and of a lower rank.
pub open spec fn beats(left: (Strategy, u64), right: (Strategy, u64)) -> bool {
    left.1 < right.1 || (left.1 == right.1 && order_of(left.0)
        < order_of(right.0))
}

fn is_better(left: (Strategy, u64), right: (Strategy, u64)) -> (better: bool)
    ensures
        better == beats(left, right),
{
    left.1 < right.1 || (left.1 == right.1 && strategy_order(left.0)
        < strategy_order(right.0))
}

/// Whether `strategy` is that of a measurement which no other beats.
pub open spec fn is_lowest(measurements: Seq<(Strategy, u64)>, strategy: Strategy) -> bool {
    exists|i: int| #[trigger] is_lowest_at(measurements, i) && measurements[i].0 == strategy
}

/// Whether no measurement beats the one at `index`.
pub open spec fn is_lowest_at(measurements: Seq<(Strategy, u64)>, index: int) -> bool {
    0 <= index < measurements.len() && forall|j: int|
        0 <= j < measurements.len() ==> !beats(#[trigger] measurements[j], measurements[index])
}

/// The measurements that compete for selection: all but the baseline's.
pub open spec fn competing(measurements: Seq<(Strategy, u64)>) -> Seq<(Strategy, u64)>
    decreases measurements.len(),
{
    if measurements.len() == 0 {
        Seq::empty()
    } else {
        let earlier = competing(measurements.drop_last());
        if measurements.last().0 == Strategy::Baseline {
            earlier
        } else {
            earlier.push(measurements.last())
        }
    }
}

/// The strategy with the lowest median; ties go to the lower rank.
pub fn lowest_median_strategy(measurements: &[(Strategy, u64)]) -> (lowest: Option<Strategy>)
    ensures
        match lowest {
            Some(strategy) => is_lowest(measurements@, strategy),
            None => measurements@.len() == 0,
        },
{
    if measurements.len() == 0 {
        return None;
    }
    let mut best: usize = 0;
    let mut index: usize = 1;
    while index < measurements.len()
        invariant
            1 <= index <= measurements@.len(),
            best < index,
            forall|j: int|
                0 <= j < index ==> !beats(#[trigger] measurements@[j], measurements@[best as int]),
        decreases measurements@.len() - index,
    {
        if is_better(measurements[index], measurements[best]) {
            best = index;
        }
        index = index + 1;
    }
    assert(is_lowest_at(measurements@, best as int));
    Some(measurements[best].0)
}

/// The candidate with the lowest median; the baseline never competes.
pub fn selected_candidate(measurements: &[(Strategy, u64)]) -> (selected: Option<Strategy>)
    ensures
        match selected {
            Some(strategy) => is_lowest(competing(measurements@), strategy),
            None => competing(measurements@).len() == 0,
        },
{
    let mut candidates: Vec<(Strategy, u64)> = Vec::new();
    let mut index: usize = 0;
    assert(measurements@.take(0) =~= Seq::empty());
    assert(candidates@ =~= Seq::empty());
    while index < measurements.len()
        invariant
            index <= measurements@.len(),
            candidates@ == competing(measurements@.take(index as int)),
        decreases measurements@.len() - index,
    {
        proof {
            let next = measurements@.take(index + 1);
            assert(next.drop_last() =~= measurements@.take(index as int));
            assert(next.last() == measurements@[index as int]);
        }
        if measurements[index].0 != Strategy::Baseline {
            candidates.push(measurements[index]);
        }
        index = index + 1;
    }
    assert(measurements@.take(index as int) =~= measurements@);
    lowest_median_strategy(candidates.as_slice())
}

/// At most one strategy is the lowest, in whatever order the measurements are given.
pub proof fn law_selection_is_deterministic(
    left: Seq<(Strategy, u64)>,
    right: Seq<(Strategy, u64)>,
    first: Strategy,
    second: Strategy,
)
    requires
        left.to_multiset() == right.to_multiset(),
        is_lowest(left, first),
        is_lowest(right, second),
    ensures
        first == second,
{
    broadcast use vstd::seq_lib::group_to_multiset_ensures;

    let i = choose|i: int| #[trigger] is_lowest_at(left, i) && left[i].0 == first;
    let j = choose|j: int| #[trigger] is_lowest_at(right, j) && right[j].0 == second;
    assert(left.contains(left[i]));
    assert(right.to_multiset().count(left[i]) > 0);
    assert(right.contains(left[i]));
    assert(right.contains(right[j]));
    assert(left.to_multiset().count(right[j]) > 0);
    assert(left.contains(right[j]));
    let k = choose|k: int| 0 <= k < right.len() && right[k] == left[i];
    let l = choose|l: int| 0 <= l < left.len() && left[l] == right[j];
    assert(!beats(right[k], right[j]));
    assert(!beats(left[l], left[i]));
    assert(order_of(first) == order_of(second));
}

proof fn lemma_competing(measurements: Seq<(Strategy, u64)>, index: int)
    requires
        0 <= index < competing(measurements).len(),
    ensures
        competing(measurements)[index].0 != Strategy::Baseline,
        measurements.contains(competing(measurements)[index]),
    decreases measurements.len(),
{
    let earlier = competing(measurements.drop_last());
    if measurements.last().0 != Strategy::Baseline && index == earlier.len() {
        assert(measurements[measurements.len() - 1] == competing(measurements)[index]);
    } else {
        lemma_competing(measurements.drop_last(), index);
        let found = competing(measurements)[index];
        let i = choose|i: int|
            0 <= i < measurements.drop_last().len() && measurements.drop_last()[i] == found;
        assert(measurements[i] == found);
    }
}

/// The baseline is never selected as a candidate, and a selected candidate was measured.
pub proof fn law_the_baseline_is_never_selected(measurements: Seq<(Strategy, u64)>, strategy: Strategy)
    requires
        is_lowest(competing(measurements), strategy),
    ensures
        strategy != Strategy::Baseline,
        exists|i: int|
            0 <= i < measurements.len() && (#[trigger] measurements[i]).0 == strategy,
{
    let candidates = competing(measurements);
    let i = choose|i: int|
        #[trigger] is_lowest_at(candidates, i) && candidates[i].0 == strategy;
    lemma_competing(measurements, i);
    let j = choose|j: int| 0 <= j < measurements.len() && measurements[j] == candidates[i];
    assert(measurements[j].0 == strategy);
}

proof fn lemma_competing_complete(measurements: Seq<(Strategy, u64)>, index: int)
    requires
        0 <= index < measurements.len(),
        measurements[index].0 != Strategy::Baseline,
    ensures
        competing(measurements).contains(measurements[index]),
    decreases measurements.len(),
{
    let earlier = competing(measurements.drop_last());
    let now = competing(measurements);
    if index < measurements.len() - 1 {
        lemma_competing_complete(measurements.drop_last(), index);
        let i = choose|i: int| 0 <= i < earlier.len() && earlier[i] == measurements[index];
        assert(now[i] == measurements[index]);
    } else {
        assert(now[earlier.len() as int] == measurements[index]);
    }
}

/// A selected candidate is the fastest of the measured candidates: its median is no greater than
/// that of any other, and of those that are as fast thin LTO goes before fat LTO and fat LTO
/// before PGO. One is selected exactly where a candidate other than the baseline was measured.
pub proof fn law_the_fastest_candidate_is_selected(
    measurements: Seq<(Strategy, u64)>,
    strategy: Strategy,
)
    ensures
        is_lowest(competing(measurements), strategy) ==> exists|i: int|
            {
                &&& 0 <= i < measurements.len()
                &&& (#[trigger] measurements[i]).0 == strategy
                &&& strategy != Strategy::Baseline
                &&& forall|j: int|
                    0 <= j < measurements.len() && (#[trigger] measurements[j]).0
                        != Strategy::Baseline ==> {
                        ||| measurements[i].1 < measurements[j].1
                        ||| measurements[i].1 == measurements[j].1 && (strategy == measurements[j].0
                            || strategy == Strategy::ThinLto || measurements[j].0 == Strategy::Pgo)
                    }
            },
        competing(measurements).len() == 0 <==> forall|i: int|
            0 <= i < measurements.len() ==> (#[trigger] measurements[i]).0 == Strategy::Baseline,
{
    let candidates = competing(measurements);
    if is_lowest(candidates, strategy) {
        let k = choose|k: int| #[trigger] is_lowest_at(candidates, k) && candidates[k].0 == strategy;
        lemma_competing(measurements, k);
        let i = choose|i: int| 0 <= i < measurements.len() && measurements[i] == candidates[k];
        assert(measurements[i].0 == strategy);
        assert forall|j: int|
            0 <= j < measurements.len() && (#[trigger] measurements[j]).0
                != Strategy::Baseline implies {
            ||| measurements[i].1 < measurements[j].1
            ||| measurements[i].1 == measurements[j].1 && (strategy == measurements[j].0 || strategy
                == Strategy::ThinLto || measurements[j].0 == Strategy::Pgo)
        } by {
            lemma_competing_complete(measurements, j);
            let l = choose|l: int| 0 <= l < candidates.len() && candidates[l] == measurements[j];
            assert(!beats(candidates[l], candidates[k]));
        }
    }
    if candidates.len() == 0 {
        assert forall|i: int| 0 <= i < measurements.len() implies (#[trigger] measurements[i]).0
            == Strategy::Baseline by {
            if measurements[i].0 != Strategy::Baseline {
                lemma_competing_complete(measurements, i);
            }
        }
    } else {
        lemma_competing(measurements, 0);
        let i = choose|i: int| 0 <= i < measurements.len() && measurements[i] == candidates[0];
        assert(measurements[i].0 != Strategy::Baseline);
    }
}

/// The lowest of a list of measurements has a median no greater than any other.
pub proof fn law_the_lowest_median_is_no_greater(
    measurements: Seq<(Strategy, u64)>,
    strategy: Strategy,
)
    requires
        is_lowest(measurements, strategy),
    ensures
        exists|i: int|
            {
                &&& 0 <= i < measurements.len()
                &&& (#[trigger] measurements[i]).0 == strategy
                &&& forall|j: int|
                    0 <= j < measurements.len() ==> measurements[i].1 <= (
                    #[trigger] measurements[j]).1
            },
{
    let i = choose|i: int|
        #[trigger] is_lowest_at(measurements, i) && measurements[i].0 == strategy;
    assert(measurements[i].0 == strategy);
    assert forall|j: int| 0 <= j < measurements.len() implies measurements[i].1 <= (
    #[trigger] measurements[j]).1 by {
        assert(!beats(measurements[j], measurements[i]));
    }
}

/// What makes the strategies differ: the baseline changes nothing, thin and fat LTO say so to
/// Cargo, fat LTO with one codegen unit, and PGO adds nothing to the strategy that it is based on.
/// No two strategies share a name.
pub proof fn law_strategies_are_what_they_are_called()
    ensures
        overrides_of(Strategy::Baseline).len() == 0,
        overrides_of(Strategy::Pgo).len() == 0,
        overrides_of(Strategy::ThinLto) == seq!["profile.release.lto=\"thin\""@],
        overrides_of(Strategy::FatLtoCgu1) == seq![
            "profile.release.lto=\"fat\""@,
            "profile.release.codegen-units=1"@,
        ],
        forall|left: Strategy, right: Strategy|
            #![trigger identity_label(left), identity_label(right)]
            identity_label(left) == identity_label(right) ==> left == right,
        first_stage(Strategy::Baseline) == BuildStage::Baseline,
        first_stage(Strategy::ThinLto) == BuildStage::StaticCandidate,
        first_stage(Strategy::FatLtoCgu1) == BuildStage::StaticCandidate,
        first_stage(Strategy::Pgo) == BuildStage::PgoOptimized,
{
    reveal_strlit("baseline");
    reveal_strlit("thin-lto");
    reveal_strlit("fat-lto-cgu1");
    reveal_strlit("pgo");
    assert("baseline"@[0] == 'b');
    assert("thin-lto"@[0] == 't');
    assert("fat-lto-cgu1"@[0] == 'f');
    assert("pgo"@[0] == 'p');
}

} // verus!
