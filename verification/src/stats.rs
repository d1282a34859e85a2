//! What the dashboard reports: experiment counts by outcome, and the window
//! of experiments a listing request may ask for.
use vstd::prelude::*;
use vstd::string::*;
use crate::types::{ExperimentOutcome, outcome_name, lemma_outcome_names_distinct};

verus! {

/// Experiments listed when the request names no limit.
pub const DEFAULT_LIST_LIMIT: u32 = 20;

/// Most experiments one listing returns.
pub const MAX_LIST_LIMIT: u32 = 100;

/// Furthest a listing may skip into the experiments.
pub const MAX_LIST_OFFSET: u32 = 10000;

/// Metrics snapshots the history returns.
pub const METRICS_HISTORY_LIMIT: u32 = 30;

pub open spec fn min_u32(a: u32, b: u32) -> u32 {
    if a <= b {
        a
    } else {
        b
    }
}

/// The (limit, offset) a listing request is served with: the given values,
/// or 20 and 0 when absent, capped at 100 and 10000.
pub open spec fn list_window_spec(limit: Option<u32>, offset: Option<u32>) -> (u32, u32) {
    (
        min_u32(
            match limit {
                Some(l) => l,
                None => DEFAULT_LIST_LIMIT,
            },
            MAX_LIST_LIMIT,
        ),
        min_u32(
            match offset {
                Some(o) => o,
                None => 0,
            },
            MAX_LIST_OFFSET,
        ),
    )
}

/// The (limit, offset) for a listing request.
pub fn list_window(limit: Option<u32>, offset: Option<u32>) -> (r: (u32, u32))
    ensures
        r == list_window_spec(limit, offset),
        limit is None ==> r.0 == DEFAULT_LIST_LIMIT,
        limit is Some ==> r.0 == (if limit->0 <= MAX_LIST_LIMIT {
            limit->0
        } else {
            MAX_LIST_LIMIT
        }),
        offset is None ==> r.1 == 0,
        offset is Some ==> r.1 == (if offset->0 <= MAX_LIST_OFFSET {
            offset->0
        } else {
            MAX_LIST_OFFSET
        }),
{
    let l = match limit {
        Some(l) => l,
        None => DEFAULT_LIST_LIMIT,
    };
    let o = match offset {
        Some(o) => o,
        None => 0,
    };
    (if l <= MAX_LIST_LIMIT {
        l
    } else {
        MAX_LIST_LIMIT
    }, if o <= MAX_LIST_OFFSET {
        o
    } else {
        MAX_LIST_OFFSET
    })
}

/// A listing window is always within the caps, a window that is already
/// within them is served as asked, and serving a served window again
/// changes nothing.
pub proof fn lemma_list_window_bounded(limit: Option<u32>, offset: Option<u32>)
    ensures
        list_window_spec(limit, offset).0 <= MAX_LIST_LIMIT,
        list_window_spec(limit, offset).1 <= MAX_LIST_OFFSET,
        limit is Some && limit->0 <= MAX_LIST_LIMIT ==> list_window_spec(limit, offset).0
            == limit->0,
        offset is Some && offset->0 <= MAX_LIST_OFFSET ==> list_window_spec(limit, offset).1
            == offset->0,
        list_window_spec(
            Some(list_window_spec(limit, offset).0),
            Some(list_window_spec(limit, offset).1),
        ) == list_window_spec(limit, offset),
{
}

/// The limit depends on the requested limit only, and the offset on the
/// requested offset only: a missing limit is 20 and a missing offset is 0
/// whatever the other value, and a given value is served capped at 100
/// (limit) or 10000 (offset).
pub proof fn lemma_list_window_components(limit: Option<u32>, offset: Option<u32>)
    ensures
        offset is None ==> list_window_spec(limit, offset).1 == 0,
        limit is None ==> list_window_spec(limit, offset).0 == 20,
        limit is Some ==> list_window_spec(limit, offset).0 == (if limit->0 <= 100 {
            limit->0
        } else {
            100
        }),
        offset is Some ==> list_window_spec(limit, offset).1 == (if offset->0 <= 10000 {
            offset->0
        } else {
            10000
        }),
        forall|other: Option<u32>|
            list_window_spec(limit, offset).0 == #[trigger] list_window_spec(limit, other).0,
        forall|other: Option<u32>|
            list_window_spec(limit, offset).1 == #[trigger] list_window_spec(other, offset).1,
{
}

/// Summaries add up over concatenated experiment lists.
pub proof fn lemma_summary_additive(a: Seq<Option<Seq<char>>>, b: Seq<Option<Seq<char>>>)
    ensures
        forall|name: Seq<char>|
            #[trigger] count_named(a + b, name) == count_named(a, name) + count_named(b, name),
{
    assert forall|name: Seq<char>|
        #[trigger] count_named(a + b, name) == count_named(a, name) + count_named(b, name) by {
        lemma_count_named_concat(a, b, name);
    }
}

proof fn lemma_count_named_concat(a: Seq<Option<Seq<char>>>, b: Seq<Option<Seq<char>>>, name: Seq<char>)
    ensures
        count_named(a + b, name) == count_named(a, name) + count_named(b, name),
    decreases b.len(),
{
    if b.len() == 0 {
        assert(a + b =~= a);
    } else {
        assert((a + b).drop_last() =~= a + b.drop_last());
        assert((a + b).last() == b.last());
        lemma_count_named_concat(a, b.drop_last(), name);
    }
}

/// One experiment counts in the total, and in the count of its own outcome
/// when that is kept, discarded or error; a missing or unknown outcome
/// counts in the total only.
pub proof fn lemma_summary_one(x: Option<Seq<char>>)
    ensures
        summary_of(seq![x]).total == 1,
        summary_of(seq![x]).kept == (if x == Some("kept"@) {
            1u64
        } else {
            0u64
        }),
        summary_of(seq![x]).discarded == (if x == Some("discarded"@) {
            1u64
        } else {
            0u64
        }),
        summary_of(seq![x]).errors == (if x == Some("error"@) {
            1u64
        } else {
            0u64
        }),
{
    let one = seq![x];
    assert(one.drop_last() =~= Seq::<Option<Seq<char>>>::empty());
    assert(one.last() == x);
    assert(count_named(one.drop_last(), outcome_name(ExperimentOutcome::Kept)) == 0);
    assert(count_named(one.drop_last(), outcome_name(ExperimentOutcome::Discarded)) == 0);
    assert(count_named(one.drop_last(), outcome_name(ExperimentOutcome::Error)) == 0);
    assert(count_named(one, outcome_name(ExperimentOutcome::Kept)) == (if x == Some("kept"@) {
        1nat
    } else {
        0nat
    }));
    assert(count_named(one, outcome_name(ExperimentOutcome::Discarded)) == (if x == Some(
        "discarded"@,
    ) {
        1nat
    } else {
        0nat
    }));
    assert(count_named(one, outcome_name(ExperimentOutcome::Error)) == (if x == Some("error"@) {
        1nat
    } else {
        0nat
    }));
}

/// Experiment counts by outcome.
#[derive(Debug, Clone, Copy, PartialEq, Eq, Structural)]
pub struct ResultsSummary {
    pub total: u64,
    pub kept: u64,
    pub discarded: u64,
    pub errors: u64,
}

/// The stored outcome names of experiments (`None` for a missing value).
pub open spec fn outcomes_view(outcomes: Seq<Option<String>>) -> Seq<Option<Seq<char>>> {
    outcomes.map_values(|o: Option<String>| match o {
        Some(s) => Some(s@),
        None => None,
    })
}

/// How many of `outcomes` are the outcome named `name`.
pub open spec fn count_named(outcomes: Seq<Option<Seq<char>>>, name: Seq<char>) -> nat
    decreases outcomes.len(),
{
    if outcomes.len() == 0 {
        0
    } else {
        count_named(outcomes.drop_last(), name) + if outcomes.last() == Some(name) {
            1nat
        } else {
            0nat
        }
    }
}

/// The summary of experiments with the given stored outcomes.
pub open spec fn summary_of(outcomes: Seq<Option<Seq<char>>>) -> ResultsSummary {
    ResultsSummary {
        total: outcomes.len() as u64,
        kept: count_named(outcomes, outcome_name(ExperimentOutcome::Kept)) as u64,
        discarded: count_named(outcomes, outcome_name(ExperimentOutcome::Discarded)) as u64,
        errors: count_named(outcomes, outcome_name(ExperimentOutcome::Error)) as u64,
    }
}

pub proof fn lemma_count_named_bounded(outcomes: Seq<Option<Seq<char>>>, name: Seq<char>)
    ensures
        count_named(outcomes, name) <= outcomes.len(),
    decreases outcomes.len(),
{
    if outcomes.len() > 0 {
        lemma_count_named_bounded(outcomes.drop_last(), name);
    }
}

/// Kept, discarded and errored experiments are counted apart: together they
/// are never more than all experiments (pending ones are in the total only).
pub proof fn lemma_outcome_counts_partition(outcomes: Seq<Option<Seq<char>>>)
    ensures
        count_named(outcomes, outcome_name(ExperimentOutcome::Kept)) + count_named(
            outcomes,
            outcome_name(ExperimentOutcome::Discarded),
        ) + count_named(outcomes, outcome_name(ExperimentOutcome::Error)) <= outcomes.len(),
    decreases outcomes.len(),
{
    if outcomes.len() > 0 {
        lemma_outcome_counts_partition(outcomes.drop_last());
        lemma_outcome_names_distinct(ExperimentOutcome::Kept, ExperimentOutcome::Discarded);
        lemma_outcome_names_distinct(ExperimentOutcome::Kept, ExperimentOutcome::Error);
        lemma_outcome_names_distinct(ExperimentOutcome::Discarded, ExperimentOutcome::Error);
    }
}

/// Counts the experiments, and those kept, discarded and errored, from their
/// stored outcome names.
pub fn summarize_outcomes(outcomes: &Vec<Option<String>>) -> (r: ResultsSummary)
    ensures
        r == summary_of(outcomes_view(outcomes@)),
        r.kept + r.discarded + r.errors <= r.total,
{
    let ghost view = outcomes_view(outcomes@);
    let mut kept: usize = 0;
    let mut discarded: usize = 0;
    let mut errors: usize = 0;
    let mut i: usize = 0;
    while i < outcomes.len()
        invariant
            i <= outcomes@.len(),
            view == outcomes_view(outcomes@),
            kept == count_named(view.take(i as int), outcome_name(ExperimentOutcome::Kept)),
            discarded == count_named(
                view.take(i as int),
                outcome_name(ExperimentOutcome::Discarded),
            ),
            errors == count_named(view.take(i as int), outcome_name(ExperimentOutcome::Error)),
        decreases outcomes@.len() - i,
    {
        proof {
            assert(view.take(i + 1).drop_last() =~= view.take(i as int));
            lemma_count_named_bounded(view.take(i as int), outcome_name(ExperimentOutcome::Kept));
            lemma_count_named_bounded(
                view.take(i as int),
                outcome_name(ExperimentOutcome::Discarded),
            );
            lemma_count_named_bounded(view.take(i as int), outcome_name(ExperimentOutcome::Error));
        }
        match &outcomes[i] {
            Some(name) => {
                let parsed = ExperimentOutcome::from_name(name.as_str());
                proof {
                    if parsed is None {
                        assert(outcome_name(ExperimentOutcome::Kept) != name@);
                        assert(outcome_name(ExperimentOutcome::Discarded) != name@);
                        assert(outcome_name(ExperimentOutcome::Error) != name@);
                    }
                    lemma_outcome_names_distinct(
                        ExperimentOutcome::Kept,
                        ExperimentOutcome::Discarded,
                    );
                    lemma_outcome_names_distinct(ExperimentOutcome::Kept, ExperimentOutcome::Error);
                    lemma_outcome_names_distinct(
                        ExperimentOutcome::Discarded,
                        ExperimentOutcome::Error,
                    );
                    lemma_outcome_names_distinct(ExperimentOutcome::Pending, ExperimentOutcome::Kept);
                    lemma_outcome_names_distinct(
                        ExperimentOutcome::Pending,
                        ExperimentOutcome::Discarded,
                    );
                    lemma_outcome_names_distinct(
                        ExperimentOutcome::Pending,
                        ExperimentOutcome::Error,
                    );
                }
                match parsed {
                    Some(ExperimentOutcome::Kept) => {
                        kept = kept + 1;
                    },
                    Some(ExperimentOutcome::Discarded) => {
                        discarded = discarded + 1;
                    },
                    Some(ExperimentOutcome::Error) => {
                        errors = errors + 1;
                    },
                    _ => {},
                }
            },
            None => {},
        }
        i = i + 1;
    }
    proof {
        assert(view.take(i as int) =~= view);
        lemma_outcome_counts_partition(view);
    }
    ResultsSummary {
        total: outcomes.len() as u64,
        kept: kept as u64,
        discarded: discarded as u64,
        errors: errors as u64,
    }
}

} // verus!
