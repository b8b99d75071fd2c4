//! The per-item fallback loop as a state machine: the caller performs each
//! fetch that an action asks for and reports how it went; the machine decides
//! which candidate comes next and when the item is finished.
use vstd::prelude::*;
use crate::naming::{NamingRule, candidate_of};

verus! {

/// How one fetch of a candidate went.
#[derive(Clone, Copy, Debug, PartialEq, Eq, Structural)]
pub enum FetchEvent {
    /// The response had a success status and its whole body, `bytes` long,
    /// was written to the destination.
    Succeeded { bytes: u64 },
    /// A transport error, a status other than success, or a failed write.
    Failed,
}

/// An HTTP status in the success class, 200 to 299.
pub open spec fn success_status(code: u16) -> bool {
    200 <= code < 300
}

/// Whether a response with status `code` is to be written out; any other
/// status fails the candidate before anything is written.
pub fn is_success_status(code: u16) -> (r: bool)
    ensures
        r == success_status(code),
{
    200 <= code && code < 300
}

/// How one fetch went, from the response's status and, where the body was
/// written out, the number of bytes written (`None` when the write failed or
/// was never started).
pub fn fetch_event(status: u16, written: Option<u64>) -> (e: FetchEvent)
    ensures
        success_status(status) && written is Some
            ==> e == (FetchEvent::Succeeded { bytes: written->Some_0 }),
        !(success_status(status) && written is Some) ==> e == FetchEvent::Failed,
{
    match written {
        Some(bytes) => if is_success_status(status) {
            FetchEvent::Succeeded { bytes }
        } else {
            FetchEvent::Failed
        },
        None => FetchEvent::Failed,
    }
}

/// The final outcome of one item.
#[derive(Clone, Copy, Debug, PartialEq, Eq, Structural)]
pub enum ItemOutcome {
    /// The candidate of rule `rule` was fetched, `bytes` long.
    Fetched { rule: usize, bytes: u64 },
    /// Every candidate failed.
    Exhausted,
}

/// What the caller is to do next for an item.
#[derive(Debug)]
pub enum Action {
    /// Fetch `url`, the candidate of rule `rule`, into a destination truncated
    /// to empty, and report the result.
    Fetch { rule: usize, url: String },
    /// The destination holds the item, fetched through rule `rule`; done.
    Keep { rule: usize, bytes: u64 },
    /// No candidate succeeded: remove whatever the destination holds; done.
    Discard,
}

/// The progress of one item: how many candidates have been asked for, and the
/// outcome once there is one.
#[derive(Clone, Copy, Debug, PartialEq, Eq, Structural)]
pub struct Resolution {
    pub item: usize,
    pub attempted: usize,
    pub outcome: Option<ItemOutcome>,
}

impl Resolution {
    /// Well formed under `n_rules` rules: no more candidates asked for than
    /// there are rules; while unfinished, one fetch is in flight; a fetched
    /// item names the last candidate asked for; an exhausted one has asked for
    /// all of them.
    pub open spec fn wf(self, n_rules: nat) -> bool {
        &&& self.attempted <= n_rules
        &&& match self.outcome {
            None => self.attempted >= 1,
            Some(ItemOutcome::Fetched { rule, bytes }) => rule + 1 == self.attempted,
            Some(ItemOutcome::Exhausted) => self.attempted == n_rules,
        }
    }

    pub open spec fn is_finished(self) -> bool {
        self.outcome is Some
    }
}

/// The state in which `item` starts under `n_rules` rules.
pub open spec fn start_state(item: usize, n_rules: nat) -> Resolution {
    if n_rules == 0 {
        Resolution { item, attempted: 0, outcome: Some(ItemOutcome::Exhausted) }
    } else {
        Resolution { item, attempted: 1, outcome: None }
    }
}

/// The state after the fetch in flight in `s` went as `e` says.
pub open spec fn step(s: Resolution, n_rules: nat, e: FetchEvent) -> Resolution {
    match e {
        FetchEvent::Succeeded { bytes } => Resolution {
            outcome: Some(ItemOutcome::Fetched { rule: (s.attempted - 1) as usize, bytes }),
            ..s
        },
        FetchEvent::Failed => if s.attempted < n_rules {
            Resolution { attempted: (s.attempted + 1) as usize, ..s }
        } else {
            Resolution { outcome: Some(ItemOutcome::Exhausted), ..s }
        },
    }
}

/// The state reached from `s` when the fetches go as `events` say, in order; a
/// finished item takes no further event.
pub open spec fn drive(s: Resolution, n_rules: nat, events: Seq<FetchEvent>) -> Resolution
    decreases events.len(),
{
    if events.len() == 0 || s.outcome is Some {
        s
    } else {
        drive(step(s, n_rules, events[0]), n_rules, events.drop_first())
    }
}

/// `a` is the action that state `s` calls for: the fetch of the last candidate
/// asked for while unfinished, then keeping or discarding the destination.
pub open spec fn action_fits(a: Action, s: Resolution, rules: Seq<NamingRule>) -> bool {
    match s.outcome {
        None => match a {
            Action::Fetch { rule, url } => rule + 1 == s.attempted
                && url@ == candidate_of(rules[rule as int], s.item as nat),
            _ => false,
        },
        Some(ItemOutcome::Fetched { rule, bytes }) => match a {
            Action::Keep { rule: r, bytes: b } => r == rule && b == bytes,
            _ => false,
        },
        Some(ItemOutcome::Exhausted) => a is Discard,
    }
}

fn action_of(s: &Resolution, rules: &Vec<NamingRule>) -> (a: Action)
    requires
        s.wf(rules@.len()),
    ensures
        action_fits(a, *s, rules@),
{
    match s.outcome {
        None => {
            let rule = s.attempted - 1;
            Action::Fetch { rule, url: rules[rule].candidate(s.item) }
        },
        Some(ItemOutcome::Fetched { rule, bytes }) => Action::Keep { rule, bytes },
        Some(ItemOutcome::Exhausted) => Action::Discard,
    }
}

impl Resolution {
    /// Starts `item`: the first action fetches the candidate of the first rule,
    /// or discards the destination when there are no rules.
    pub fn start(item: usize, rules: &Vec<NamingRule>) -> (r: (Resolution, Action))
        ensures
            r.0 == start_state(item, rules@.len()),
            r.0.wf(rules@.len()),
            action_fits(r.1, r.0, rules@),
    {
        let s = if rules.len() == 0 {
            Resolution { item, attempted: 0, outcome: Some(ItemOutcome::Exhausted) }
        } else {
            Resolution { item, attempted: 1, outcome: None }
        };
        let a = action_of(&s, rules);
        (s, a)
    }

    /// Takes the result of the fetch in flight and returns what comes next: the
    /// next candidate after a failure, keeping the destination after a
    /// success, discarding it once every candidate has failed.
    pub fn on_fetch(&mut self, rules: &Vec<NamingRule>, e: FetchEvent) -> (a: Action)
        requires
            old(self).wf(rules@.len()),
            !old(self).is_finished(),
        ensures
            *final(self) == step(*old(self), rules@.len(), e),
            final(self).wf(rules@.len()),
            action_fits(a, *final(self), rules@),
    {
        match e {
            FetchEvent::Succeeded { bytes } => {
                self.outcome = Some(ItemOutcome::Fetched { rule: self.attempted - 1, bytes });
            },
            FetchEvent::Failed => {
                if self.attempted < rules.len() {
                    self.attempted = self.attempted + 1;
                } else {
                    self.outcome = Some(ItemOutcome::Exhausted);
                }
            },
        }
        action_of(self, rules)
    }
}

proof fn lemma_drive_to_success(s: Resolution, n_rules: nat, events: Seq<FetchEvent>, k: int)
    requires
        s.wf(n_rules),
        s.outcome is None,
        0 <= k < events.len(),
        s.attempted + k <= n_rules,
        n_rules <= usize::MAX,
        events[k] is Succeeded,
        forall|j: int| 0 <= j < k ==> #[trigger] events[j] is Failed,
    ensures
        drive(s, n_rules, events) == (Resolution {
            attempted: (s.attempted + k) as usize,
            outcome: Some(ItemOutcome::Fetched {
                rule: (s.attempted + k - 1) as usize,
                bytes: events[k]->Succeeded_bytes,
            }),
            ..s
        }),
    decreases k,
{
    let t = step(s, n_rules, events[0]);
    let rest = events.drop_first();
    if k > 0 {
        assert forall|j: int| 0 <= j < k - 1 implies #[trigger] rest[j] is Failed by {
            assert(rest[j] == events[j + 1]);
        }
        lemma_drive_to_success(t, n_rules, rest, k - 1);
    } else {
        assert(drive(t, n_rules, rest) == t);
    }
}

proof fn lemma_drive_to_exhaustion(s: Resolution, n_rules: nat, events: Seq<FetchEvent>)
    requires
        s.wf(n_rules),
        s.outcome is None,
        events.len() > n_rules - s.attempted,
        n_rules <= usize::MAX,
        forall|j: int| 0 <= j <= n_rules - s.attempted ==> #[trigger] events[j] is Failed,
    ensures
        drive(s, n_rules, events) == (Resolution {
            attempted: n_rules as usize,
            outcome: Some(ItemOutcome::Exhausted),
            ..s
        }),
    decreases n_rules - s.attempted,
{
    let t = step(s, n_rules, events[0]);
    let rest = events.drop_first();
    if s.attempted < n_rules {
        assert forall|j: int| 0 <= j <= n_rules - t.attempted implies #[trigger] rest[j] is Failed by {
            assert(rest[j] == events[j + 1]);
        }
        lemma_drive_to_exhaustion(t, n_rules, rest);
    } else {
        assert(drive(t, n_rules, rest) == t);
    }
}

/// Once a fetch succeeds, the item is finished through that candidate: when the
/// first `k` candidates fail and the next succeeds, exactly `k + 1` candidates
/// are asked for, whatever the later events would have been, and the
/// destination is kept.
pub proof fn lemma_success_stops_fallback(item: usize, rules: Seq<NamingRule>, events: Seq<FetchEvent>, k: int)
    requires
        0 <= k < rules.len(),
        k < events.len(),
        events[k] is Succeeded,
        forall|j: int| 0 <= j < k ==> #[trigger] events[j] is Failed,
        rules.len() <= usize::MAX,
    ensures
        drive(start_state(item, rules.len()), rules.len(), events) == (Resolution {
            item,
            attempted: (k + 1) as usize,
            outcome: Some(ItemOutcome::Fetched { rule: k as usize, bytes: events[k]->Succeeded_bytes }),
        }),
        forall|a: Action| #[trigger] action_fits(a, drive(start_state(item, rules.len()), rules.len(), events), rules)
            ==> a is Keep,
{
    lemma_drive_to_success(start_state(item, rules.len()), rules.len(), events, k);
}

/// When every candidate fails, each of them is asked for once, the item ends
/// exhausted, and the only action left is to discard the destination, so no
/// partial content stays behind.
pub proof fn lemma_all_failed_discards(item: usize, rules: Seq<NamingRule>, events: Seq<FetchEvent>)
    requires
        events.len() >= rules.len(),
        forall|j: int| 0 <= j < rules.len() ==> #[trigger] events[j] is Failed,
        rules.len() <= usize::MAX,
    ensures
        drive(start_state(item, rules.len()), rules.len(), events) == (Resolution {
            item,
            attempted: rules.len() as usize,
            outcome: Some(ItemOutcome::Exhausted),
        }),
        forall|a: Action| #[trigger] action_fits(a, drive(start_state(item, rules.len()), rules.len(), events), rules)
            ==> a is Discard,
{
    if rules.len() > 0 {
        lemma_drive_to_exhaustion(start_state(item, rules.len()), rules.len(), events);
    }
}

} // verus!
