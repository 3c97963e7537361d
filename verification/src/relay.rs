use crate::errors::TextError;
use vstd::prelude::*;

verus! {

/// One call of a relay: the function for the item at a position, or the delimiter.
pub enum Step {
    Item(int),
    Delimiter,
}

/// The functions that a relay calls, each by what it requires of the builder it is
/// handed and by which results it can return.
#[verifier::reject_recursive_types(B)]
pub struct Relay<B> {
    pub item_requires: spec_fn(int, B) -> bool,
    pub item_ensures: spec_fn(int, B, Result<B, TextError>) -> bool,
    pub delimiter_requires: spec_fn(B) -> bool,
    pub delimiter_ensures: spec_fn(B, Result<B, TextError>) -> bool,
}

impl<B> Relay<B> {
    /// Whether the call of `step` may be made on `before`.
    pub open spec fn step_requires(self, step: Step, before: B) -> bool {
        match step {
            Step::Item(i) => (self.item_requires)(i, before),
            Step::Delimiter => (self.delimiter_requires)(before),
        }
    }

    /// Whether the call of `step` on `before` can return `out`.
    pub open spec fn step_ensures(self, step: Step, before: B, out: Result<B, TextError>) -> bool {
        match step {
            Step::Item(i) => (self.item_ensures)(i, before, out),
            Step::Delimiter => (self.delimiter_ensures)(before, out),
        }
    }

    /// Whether `out` can come of making the calls of `plan` in order, the first on
    /// `start` and each later one on the builder that the call before it returned. The
    /// first failure ends the relay and is its result; without a failure the result is
    /// the builder that the last call returned, or `start` where there is no call.
    pub open spec fn runs(self, plan: Seq<Step>, start: B, out: Result<B, TextError>) -> bool
        decreases plan.len(),
    {
        if plan.len() == 0 {
            out == Ok::<B, TextError>(start)
        } else {
            ||| out is Err && self.runs(plan.drop_last(), start, out)
            ||| exists|mid: B|
                #![trigger self.step_ensures(plan.last(), mid, out)]
                self.runs(plan.drop_last(), start, Ok(mid)) && self.step_ensures(
                    plan.last(),
                    mid,
                    out,
                )
        }
    }

    /// Whether every call that the relay can come to may be made: each call of `plan`
    /// on every builder that the calls before it can have handed on.
    pub open spec fn ready(self, plan: Seq<Step>, start: B) -> bool {
        forall|k: int, mid: B|
            0 <= k < plan.len() && #[trigger] self.runs(plan.take(k), start, Ok(mid))
                ==> self.step_requires(plan[k], mid)
    }

    /// What a relay with one more call returns: an earlier failure, or what the new call
    /// returns on a builder that the calls before it can have handed on.
    pub proof fn lemma_runs_step(
        self,
        plan: Seq<Step>,
        step: Step,
        start: B,
        out: Result<B, TextError>,
    )
        ensures
            self.runs(plan.push(step), start, out) <==> (out is Err && self.runs(plan, start, out))
                || exists|mid: B|
                self.runs(plan, start, Ok(mid)) && #[trigger] self.step_ensures(step, mid, out),
    {
        let longer = plan.push(step);
        assert(longer.drop_last() =~= plan);
        assert(longer.last() == step);
    }

    /// A relay that has gone well goes on with one more call.
    pub proof fn lemma_runs_on(
        self,
        plan: Seq<Step>,
        step: Step,
        start: B,
        mid: B,
        out: Result<B, TextError>,
    )
        requires
            self.runs(plan, start, Ok(mid)),
            self.step_ensures(step, mid, out),
        ensures
            self.runs(plan.push(step), start, out),
    {
        self.lemma_runs_step(plan, step, start, out);
    }

    /// A relay that has failed stays failed, whatever calls were still to come.
    pub proof fn lemma_failure_stays(self, plan: Seq<Step>, more: Seq<Step>, start: B, e: TextError)
        requires
            self.runs(plan, start, Err(e)),
        ensures
            self.runs(plan + more, start, Err(e)),
        decreases more.len(),
    {
        if more.len() > 0 {
            self.lemma_failure_stays(plan, more.drop_last(), start, e);
            assert((plan + more).drop_last() =~= plan + more.drop_last());
        }
    }

    /// Without a call the relay hands back the builder it started with, and nothing
    /// else.
    pub proof fn lemma_runs_nothing(self, start: B, out: Result<B, TextError>)
        ensures
            self.runs(Seq::empty(), start, out) <==> out == Ok::<B, TextError>(start),
    {
    }

    /// A relay of one call returns what that call returns on the starting builder.
    pub proof fn lemma_runs_once(self, step: Step, start: B, out: Result<B, TextError>)
        ensures
            self.runs(seq![step], start, out) <==> self.step_ensures(step, start, out),
    {
        let plan = seq![step];
        if self.runs(plan, start, out) {
            if out is Err && self.runs(plan.drop_last(), start, out) {
                self.lemma_runs_nothing(start, out);
            } else {
                let mid = choose|mid: B|
                    self.runs(plan.drop_last(), start, Ok(mid)) && #[trigger] self.step_ensures(
                        plan.last(),
                        mid,
                        out,
                    );
                self.lemma_runs_nothing(start, Ok(mid));
            }
        }
        if self.step_ensures(step, start, out) {
            self.lemma_runs_nothing(start, Ok(start));
            self.lemma_runs_on(Seq::empty(), step, start, start, out);
        }
    }
}

/// The calls of `enumerate` over `n` items: the item function at 0, 1, and so on.
pub open spec fn enumerate_plan(n: nat) -> Seq<Step> {
    Seq::new(n, |i: int| Step::Item(i))
}

/// The calls of `delimit` over `n` items: the item function at 0, 1, and so on, with
/// the delimiter between each two of them.
pub open spec fn delimit_plan(n: nat) -> Seq<Step> {
    if n == 0 {
        Seq::empty()
    } else {
        Seq::new(
            (2 * n - 1) as nat,
            |j: int|
                if j % 2 == 0 {
                    Step::Item(j / 2)
                } else {
                    Step::Delimiter
                },
        )
    }
}

/// How many calls of `plan` are calls of the delimiter.
pub open spec fn delimiter_calls(plan: Seq<Step>) -> nat
    decreases plan.len(),
{
    if plan.len() == 0 {
        0
    } else {
        delimiter_calls(plan.drop_last()) + if plan.last() is Delimiter {
            1nat
        } else {
            0nat
        }
    }
}

/// How many calls of `plan` are calls of the item function.
pub open spec fn item_calls(plan: Seq<Step>) -> nat
    decreases plan.len(),
{
    if plan.len() == 0 {
        0
    } else {
        item_calls(plan.drop_last()) + if plan.last() is Item {
            1nat
        } else {
            0nat
        }
    }
}

/// One more call counts once, as what it is.
pub proof fn lemma_calls_push(plan: Seq<Step>, step: Step)
    ensures
        item_calls(plan.push(step)) == item_calls(plan) + if step is Item {
            1nat
        } else {
            0nat
        },
        delimiter_calls(plan.push(step)) == delimiter_calls(plan) + if step is Delimiter {
            1nat
        } else {
            0nat
        },
{
    assert(plan.push(step).drop_last() =~= plan);
}

/// One more item adds one call to the plan of `enumerate`.
pub proof fn lemma_enumerate_plan_next(n: nat)
    ensures
        enumerate_plan(n + 1) == enumerate_plan(n).push(Step::Item(n as int)),
{
}

/// The plan of `enumerate` over fewer items is the beginning of the plan over more.
pub proof fn lemma_enumerate_plan_prefix(k: nat, n: nat)
    requires
        k <= n,
    ensures
        enumerate_plan(n).take(k as int) == enumerate_plan(k),
        enumerate_plan(n) == enumerate_plan(k) + enumerate_plan(n).skip(k as int),
{
}

/// The plan of `delimit` over one item is the call for that item; one more item adds
/// the delimiter and then the call for the new item.
pub proof fn lemma_delimit_plan_next(n: nat)
    ensures
        delimit_plan(1) == seq![Step::Item(0)],
        n >= 1 ==> delimit_plan(n + 1) == delimit_plan(n).push(Step::Delimiter).push(
            Step::Item(n as int),
        ),
{
}

/// The plan of `delimit` over fewer items is the beginning of the plan over more, and
/// so is that plan with the next delimiter behind it.
pub proof fn lemma_delimit_plan_prefix(k: nat, n: nat)
    requires
        1 <= k <= n,
    ensures
        delimit_plan(n).take(2 * k - 1) == delimit_plan(k),
        delimit_plan(n) == delimit_plan(k) + delimit_plan(n).skip(2 * k - 1),
        k < n ==> delimit_plan(n).take(2 * (k as int)) == delimit_plan(k).push(Step::Delimiter),
        k < n ==> delimit_plan(n) == delimit_plan(k).push(Step::Delimiter) + delimit_plan(n).skip(
            2 * (k as int),
        ),
{
}

} // verus!
