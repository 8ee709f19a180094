//! How much of the list is done.

use vstd::prelude::*;
use crate::model::completed_count;
use crate::model::is_completed;
use crate::model::views_of;
use crate::todo::Todo;
use crate::todo::TodoView;

verus! {

/// The counts that sum up a list.
#[derive(Clone, Copy, Debug, PartialEq, Eq)]
pub struct Stats {
    /// How many items there are.
    pub total: usize,
    /// How many of them are done.
    pub completed: usize,
    /// How many of them are still to be done.
    pub pending: usize,
    /// The share of the items that are done, in whole hundredths; `None` for a
    /// list without items, of which no share can be taken.
    pub percentage: Option<u32>,
}

/// The whole number nearest to the share of `part` in `whole`, counted in
/// hundredths. A share that lies halfway between two whole numbers goes to
/// the upper one.
pub open spec fn rounded_percent(part: nat, whole: nat) -> nat
    recommends
        0 < whole,
{
    (200 * part + whole) / (2 * whole)
}

/// The counts as unbounded numbers.
pub struct StatsView {
    pub total: nat,
    pub completed: nat,
    pub pending: nat,
    pub percentage: Option<nat>,
}

impl View for Stats {
    type V = StatsView;

    open spec fn view(&self) -> StatsView {
        StatsView {
            total: self.total as nat,
            completed: self.completed as nat,
            pending: self.pending as nat,
            percentage: match self.percentage {
                Some(percent) => Some(percent as nat),
                None => None,
            },
        }
    }
}

/// The counts that sum up `items`: how many there are, how many are done, how
/// many are left, and the rounded share of those done where there is any
/// item at all.
pub open spec fn stats_of(items: Seq<TodoView>) -> StatsView {
    StatsView {
        total: items.len(),
        completed: completed_count(items),
        pending: (items.len() - completed_count(items)) as nat,
        percentage: if items.len() > 0 {
            Some(rounded_percent(completed_count(items), items.len()))
        } else {
            None
        },
    }
}

/// `rounded_percent` is the nearest whole number of hundredths: it misses the
/// true share by no more than half a hundredth, and where two whole numbers
/// are equally near it is the upper one. It never leaves the range from 0 to
/// 100, and reaches its ends exactly for nothing and for all.
pub proof fn lemma_rounded_percent(part: nat, whole: nat)
    requires
        0 < whole,
        part <= whole,
    ensures
        2 * (rounded_percent(part, whole) as int * whole - 100 * part) <= whole,
        2 * (100 * part - rounded_percent(part, whole) as int * whole) < whole,
        rounded_percent(part, whole) <= 100,
        part == 0 ==> rounded_percent(part, whole) == 0,
        part == whole ==> rounded_percent(part, whole) == 100,
{
    let n = (200 * part + whole) as int;
    let d = (2 * whole) as int;
    let p = n / d;
    vstd::arithmetic::div_mod::lemma_fundamental_div_mod(n, d);
    vstd::arithmetic::div_mod::lemma_mod_bound(n, d);
    assert(n == d * p + n % d);
    assert(d * p == 2 * (p * whole)) by (nonlinear_arith)
        requires
            d == 2 * whole,
    ;
    assert(p <= 100) by {
        if p >= 101 {
            assert(d * p >= d * 101) by (nonlinear_arith)
                requires
                    p >= 101,
                    d > 0,
            ;
        }
    }
    assert(p >= 0) by {
        if p <= -1 {
            assert(d * p <= d * (-1)) by (nonlinear_arith)
                requires
                    p <= -1,
                    d > 0,
            ;
        }
    }
    if part == 0 {
        if p >= 1 {
            assert(d * p >= d * 1) by (nonlinear_arith)
                requires
                    p >= 1,
                    d > 0,
            ;
        }
    }
    if part == whole {
        if p <= 99 {
            assert(d * p <= d * 99) by (nonlinear_arith)
                requires
                    p <= 99,
                    d > 0,
            ;
        }
    }
}

/// How many of `todos` are done.
pub fn count_completed(todos: &Vec<Todo>) -> (count: usize)
    ensures
        count == completed_count(views_of(todos@)),
        count <= todos@.len(),
{
    let ghost items = views_of(todos@);
    let mut count: usize = 0;
    let mut i: usize = 0;
    while i < todos.len()
        invariant
            i <= todos.len(),
            items == views_of(todos@),
            count == completed_count(items.take(i as int)),
            count <= i,
        decreases todos.len() - i,
    {
        proof {
            assert(items.take(i + 1) == items.take(i as int).push(items[i as int]));
            items.take(i as int).lemma_filter_push(items[i as int], is_completed());
        }
        if todos[i].completed {
            count += 1;
        }
        i += 1;
    }
    proof {
        assert(items.take(i as int) == items);
    }
    count
}

/// The share of `completed` in `total`, rounded to whole hundredths.
pub fn percent_done(completed: usize, total: usize) -> (percent: u32)
    requires
        0 < total,
        completed <= total,
    ensures
        percent == rounded_percent(completed as nat, total as nat),
        percent <= 100,
{
    proof {
        lemma_rounded_percent(completed as nat, total as nat);
    }
    let doubled: u128 = 200 * (completed as u128) + (total as u128);
    (doubled / (2 * (total as u128))) as u32
}

impl Stats {
    /// The counts that sum up `todos`.
    pub fn of(todos: &Vec<Todo>) -> (stats: Stats)
        ensures
            stats@ == stats_of(views_of(todos@)),
    {
        let total: usize = todos.len();
        let completed: usize = count_completed(todos);
        let percentage: Option<u32> = if total > 0 {
            Some(percent_done(completed, total))
        } else {
            None
        };
        Stats { total, completed, pending: total - completed, percentage }
    }
}

} // verus!
