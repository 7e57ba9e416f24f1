//! The search coordinator's state: whether the search is still on, the
//! write-once slot of the winning account, and a count of attempts.
//! Workers offer candidates one at a time; the first matching candidate
//! offered while the search is on wins, and every later one is discarded.
use vstd::prelude::*;

use crate::account::{valid_account, Account, AccountView};
use crate::pattern::{candidate_matches, Pattern};

verus! {

/// What offering one candidate did.
#[derive(Debug, Clone, Copy, PartialEq, Eq, Structural)]
pub enum Step {
    /// The search was already over; the candidate was discarded.
    Stopped,
    /// The candidate did not match; the search goes on.
    Missed,
    /// The candidate matched and now holds the result slot; the search is over.
    Won,
}

/// The coordinator's state as plain values.
pub struct SearchView {
    pub pattern: Seq<char>,
    pub active: bool,
    pub winner: Option<AccountView>,
    pub attempts: nat,
}

/// The invariant of the coordinator's state: the slot is filled exactly when
/// the search is over, only by a valid matching account, after one attempt at least.
pub open spec fn search_wf(s: SearchView) -> bool {
    &&& (s.winner is Some <==> !s.active)
    &&& (s.winner matches Some(a) ==> valid_account(a) && candidate_matches(s.pattern, a))
    &&& (!s.active ==> s.attempts >= 1)
    &&& s.attempts <= u64::MAX
}

/// The outcome of offering candidate `c` in state `s`.
pub open spec fn step_of(s: SearchView, c: AccountView) -> Step {
    if !s.active {
        Step::Stopped
    } else if candidate_matches(s.pattern, c) {
        Step::Won
    } else {
        Step::Missed
    }
}

/// The state after offering candidate `c` in state `s`: an attempt is
/// counted (saturating) while the search is on, and a match takes the slot.
pub open spec fn next_view(s: SearchView, c: AccountView) -> SearchView {
    if !s.active {
        s
    } else {
        let attempts = if s.attempts < u64::MAX { s.attempts + 1 } else { s.attempts };
        if candidate_matches(s.pattern, c) {
            SearchView { active: false, winner: Some(c), attempts, ..s }
        } else {
            SearchView { attempts, ..s }
        }
    }
}

/// The state after offering the candidates `cs` in order, from state `s`.
pub open spec fn run_view(s: SearchView, cs: Seq<AccountView>) -> SearchView
    decreases cs.len(),
{
    if cs.len() == 0 {
        s
    } else {
        run_view(next_view(s, cs[0]), cs.drop_first())
    }
}

/// How many of the offers of `cs`, made in order from state `s`, win.
pub open spec fn wins(s: SearchView, cs: Seq<AccountView>) -> nat
    decreases cs.len(),
{
    if cs.len() == 0 {
        0
    } else {
        (if step_of(s, cs[0]) == Step::Won { 1nat } else { 0nat }) + wins(
            next_view(s, cs[0]),
            cs.drop_first(),
        )
    }
}

proof fn lemma_over_stays_over(s: SearchView, cs: Seq<AccountView>)
    requires
        !s.active,
    ensures
        wins(s, cs) == 0,
        run_view(s, cs) == s,
    decreases cs.len(),
{
    if cs.len() > 0 {
        lemma_over_stays_over(s, cs.drop_first());
    }
}

/// However the offers of any workers interleave, at most one of them wins,
/// and once the slot is filled it keeps its account. From a search that is
/// on, exactly one offer wins if any offered candidate matches, and none
/// otherwise.
pub proof fn lemma_at_most_one_winner(s: SearchView, cs: Seq<AccountView>)
    requires
        search_wf(s),
    ensures
        wins(s, cs) <= 1,
        s.winner is Some ==> run_view(s, cs) == s,
        wins(s, cs) == 1 ==> run_view(s, cs).winner is Some && s.winner is None,
        s.active ==> (wins(s, cs) == 1 <==> exists|i: int|
            0 <= i < cs.len() && #[trigger] candidate_matches(s.pattern, cs[i])),
    decreases cs.len(),
{
    if !s.active {
        lemma_over_stays_over(s, cs);
    } else if cs.len() > 0 {
        let n = next_view(s, cs[0]);
        let rest = cs.drop_first();
        if step_of(s, cs[0]) == Step::Won {
            lemma_over_stays_over(n, rest);
            assert(candidate_matches(s.pattern, cs[0]));
        } else {
            lemma_at_most_one_winner(n, rest);
            if wins(s, cs) == 1 {
                let j = choose|j: int| 0 <= j < rest.len() && candidate_matches(n.pattern, rest[j]);
                assert(candidate_matches(s.pattern, cs[j + 1]));
            }
            if exists|i: int| 0 <= i < cs.len() && candidate_matches(s.pattern, cs[i]) {
                let i = choose|i: int| 0 <= i < cs.len() && candidate_matches(s.pattern, cs[i]);
                assert(i != 0);
                assert(candidate_matches(n.pattern, rest[i - 1]));
            }
        }
    }
}

/// The shared state of one search.
pub struct SearchState {
    pattern: String,
    active: bool,
    result: Option<Account>,
    attempts: u64,
}

impl View for SearchState {
    type V = SearchView;

    closed spec fn view(&self) -> SearchView {
        SearchView {
            pattern: self.pattern@,
            active: self.active,
            winner: match self.result {
                Some(a) => Some(a@),
                None => None,
            },
            attempts: self.attempts as nat,
        }
    }
}

impl SearchState {
    pub open spec fn wf(&self) -> bool {
        search_wf(self@)
    }

    /// A search for `pattern` that is on, with an empty slot and no attempts.
    pub fn new(pattern: &Pattern) -> (r: SearchState)
        ensures
            r@ == (SearchView { pattern: pattern@, active: true, winner: None, attempts: 0 }),
            r.wf(),
    {
        SearchState { pattern: pattern.as_str().to_owned(), active: true, result: None, attempts: 0 }
    }

    /// Whether no candidate has won yet.
    pub fn is_active(&self) -> (r: bool)
        ensures
            r == self@.active,
    {
        self.active
    }

    /// The number of candidates offered while the search was on (saturating).
    pub fn attempts(&self) -> (r: u64)
        ensures
            r == self@.attempts,
    {
        self.attempts
    }

    /// The text of the pattern being searched for.
    pub fn pattern_source(&self) -> (r: &str)
        ensures
            r@ == self@.pattern,
    {
        self.pattern.as_str()
    }

    /// Offers one candidate, testing it against `pattern`, the pattern the
    /// search was made for. While the search is on, the attempt is counted
    /// and a matching candidate takes the slot and ends the search; once it is
    /// over, the candidate is discarded and nothing changes.
    pub fn attempt(&mut self, pattern: &Pattern, candidate: Account) -> (r: Step)
        requires
            old(self).wf(),
            candidate.wf(),
            pattern@ == old(self)@.pattern,
        ensures
            final(self).wf(),
            final(self)@ == next_view(old(self)@, candidate@),
            r == step_of(old(self)@, candidate@),
    {
        if !self.active {
            return Step::Stopped;
        }
        if pattern.matches_account(&candidate) {
            self.claim(candidate)
        } else {
            if self.attempts < u64::MAX {
                self.attempts = self.attempts + 1;
            }
            Step::Missed
        }
    }

    /// Offers a candidate already found to match, so that workers can test
    /// candidates without the shared state. While the search is on, the
    /// attempt is counted, the candidate takes the slot and the search ends;
    /// once it is over, the candidate is discarded and nothing changes.
    pub fn claim(&mut self, candidate: Account) -> (r: Step)
        requires
            old(self).wf(),
            candidate.wf(),
            candidate_matches(old(self)@.pattern, candidate@),
        ensures
            final(self).wf(),
            final(self)@ == next_view(old(self)@, candidate@),
            r == step_of(old(self)@, candidate@),
            r == Step::Won <==> old(self)@.active,
    {
        if !self.active {
            return Step::Stopped;
        }
        if self.attempts < u64::MAX {
            self.attempts = self.attempts + 1;
        }
        self.active = false;
        self.result = Some(candidate);
        Step::Won
    }

    /// The winning account, if the search is over.
    pub fn winner(&self) -> (r: Option<&Account>)
        requires
            self.wf(),
        ensures
            r is Some <==> !self@.active,
            r matches Some(a) ==> self@.winner == Some(a@) && a.wf()
                && candidate_matches(self@.pattern, a@),
    {
        match &self.result {
            Some(a) => Some(a),
            None => None,
        }
    }

    /// Takes the winning account out of a finished search.
    pub fn into_result(self) -> (r: Option<Account>)
        requires
            self.wf(),
        ensures
            r is Some <==> !self@.active,
            r matches Some(a) ==> self@.winner == Some(a@) && a.wf()
                && candidate_matches(self@.pattern, a@),
    {
        self.result
    }
}

/// The attempt count after `k` more attempts, stopping at `u64::MAX`.
pub open spec fn attempts_after(attempts: nat, k: nat) -> nat {
    if attempts + k <= u64::MAX {
        attempts + k
    } else {
        u64::MAX as nat
    }
}

/// One worker searching alone for `pattern`, the pattern the search was made
/// for: draws fresh random accounts and offers them, drawing again after a
/// draw that gives no account, until a candidate wins, the search is found
/// over, or `max_draws` draws have been made. Each offered candidate adds one
/// attempt. Returns whether this worker won.
pub fn try_generate_wallet(state: &mut SearchState, pattern: &Pattern, max_draws: u64) -> (won: bool)
    requires
        old(state).wf(),
        pattern@ == old(state)@.pattern,
    ensures
        final(state).wf(),
        final(state)@.pattern == old(state)@.pattern,
        won <==> (old(state)@.active && !final(state)@.active),
        !old(state)@.active ==> final(state)@ == old(state)@,
        max_draws == 0 ==> !won && final(state)@ == old(state)@,
        exists|k: nat|
            #![trigger attempts_after(old(state)@.attempts, k)]
            k <= max_draws && final(state)@.attempts == attempts_after(old(state)@.attempts, k)
                && (won ==> k >= 1),
        final(state)@.attempts <= old(state)@.attempts + max_draws,
        won ==> final(state)@.attempts >= 1,
        won ==> (final(state)@.winner matches Some(a) && candidate_matches(
            final(state)@.pattern,
            a,
        )),
{
    let mut draws: u64 = 0;
    let ghost start = state@;
    let ghost mut offered: nat = 0;
    while draws < max_draws && state.is_active()
        invariant
            state.wf(),
            start == old(state)@,
            pattern@ == start.pattern,
            state@.pattern == start.pattern,
            !start.active ==> state@ == start,
            start.active ==> state@.active,
            offered <= draws <= max_draws,
            offered == 0 ==> state@ == start,
            state@.attempts == attempts_after(start.attempts, offered),
        decreases max_draws - draws,
    {
        draws = draws + 1;
        match Account::rand_new() {
            Ok(candidate) => {
                let step = state.attempt(pattern, candidate);
                proof {
                    offered = offered + 1;
                }
                if let Step::Won = step {
                    assert(attempts_after(start.attempts, offered) == state@.attempts);
                    return true;
                }
            },
            Err(_) => {},
        }
    }
    assert(attempts_after(start.attempts, offered) == state@.attempts);
    false
}

} // verus!
