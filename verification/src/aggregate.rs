use vstd::prelude::*;

use crate::unique_id::UniqueID;
use crate::walk::Error;
use crate::walk::Message;

verus! {

broadcast use vstd::seq_lib::group_seq_properties;

/// Mathematical state of the aggregation: the running total (as an
/// unbounded integer), the dedup keys already counted, and the errors
/// recorded so far in arrival order.
pub ghost struct AggState {
    pub total: int,
    pub seen: Set<UniqueID>,
    pub errors: Seq<Error>,
}

/// The state before any message has arrived.
pub open spec fn initial_state() -> AggState {
    AggState { total: 0, seen: Set::empty(), errors: Seq::empty() }
}

/// How one message changes the aggregation state: a keyless size message
/// always adds its bytes; a keyed one adds them only when the key has not
/// been seen, and marks the key seen either way; an error is appended to the
/// error list and leaves the total alone.
pub open spec fn step_state(st: AggState, m: Message) -> AggState {
    match m {
        Message::SizeEntry(None, size) => AggState {
            total: st.total + size,
            seen: st.seen,
            errors: st.errors,
        },
        Message::SizeEntry(Some(unique_id), size) => AggState {
            total: if st.seen.contains(unique_id) {
                st.total
            } else {
                st.total + size
            },
            seen: st.seen.insert(unique_id),
            errors: st.errors,
        },
        Message::Error { error } => AggState {
            total: st.total,
            seen: st.seen,
            errors: st.errors.push(error),
        },
    }
}

/// The state after a whole message stream, processed left to right.
pub open spec fn run_state(st: AggState, msgs: Seq<Message>) -> AggState
    decreases msgs.len(),
{
    if msgs.len() == 0 {
        st
    } else {
        step_state(run_state(st, msgs.drop_last()), msgs.last())
    }
}

/// Total byte count a message stream aggregates to, before clamping.
pub open spec fn total_of(msgs: Seq<Message>) -> int {
    run_state(initial_state(), msgs).total
}

/// Dedup keys a message stream marks as seen.
pub open spec fn seen_of(msgs: Seq<Message>) -> Set<UniqueID> {
    run_state(initial_state(), msgs).seen
}

/// Errors a message stream records, in arrival order.
pub open spec fn errors_of(msgs: Seq<Message>) -> Seq<Error> {
    run_state(initial_state(), msgs).errors
}

/// What an unbounded total becomes in a `u64` result: saturated at
/// `u64::MAX`.
pub open spec fn clamp_u64(t: int) -> u64 {
    if t < 0 {
        0u64
    } else if t > u64::MAX {
        u64::MAX
    } else {
        t as u64
    }
}

/// Processing messages never shrinks the total.
pub proof fn lemma_total_monotonic(st: AggState, msgs: Seq<Message>)
    ensures
        run_state(st, msgs).total >= st.total,
    decreases msgs.len(),
{
    if msgs.len() > 0 {
        lemma_total_monotonic(st, msgs.drop_last());
    }
}

/// Whether a dedup key is among those already counted.
fn contains_id(seen: &Vec<UniqueID>, unique_id: UniqueID) -> (r: bool)
    ensures
        r == seen@.to_set().contains(unique_id),
{
    let mut i: usize = 0;
    while i < seen.len()
        invariant
            i <= seen.len(),
            forall|j: int| 0 <= j < i ==> seen@[j] != unique_id,
        decreases seen@.len() - i,
    {
        if seen[i] == unique_id {
            assert(seen@.contains(unique_id));
            return true;
        }
        i = i + 1;
    }
    assert(!seen@.contains(unique_id));
    false
}

/// The single sequential consumer of the message stream: the sole owner and
/// writer of the running total, the seen-key set and the error list. The
/// ghost `processed` field records the messages consumed so far.
pub struct Aggregator {
    pub total: u64,
    pub seen: Vec<UniqueID>,
    pub errors: Vec<Error>,
    pub processed: Ghost<Seq<Message>>,
}

impl Aggregator {
    /// The mathematical state this aggregator has reached.
    pub open spec fn state(self) -> AggState {
        run_state(initial_state(), self.processed@)
    }

    /// The executable fields track the mathematical state: the total is the
    /// clamped spec total, the seen vector holds exactly the seen keys, and
    /// the error vector holds exactly the recorded errors.
    pub open spec fn inv(self) -> bool {
        &&& self.total == clamp_u64(self.state().total)
        &&& self.seen@.to_set() == self.state().seen
        &&& self.errors@ == self.state().errors
    }

    pub fn new() -> (r: Aggregator)
        ensures
            r.inv(),
            r.processed@ == Seq::<Message>::empty(),
    {
        let r = Aggregator {
            total: 0,
            seen: Vec::new(),
            errors: Vec::new(),
            processed: Ghost(Seq::empty()),
        };
        proof {
            assert(r.seen@.to_set() =~= Set::<UniqueID>::empty());
        }
        r
    }

    /// Consumes one message.
    pub fn step(&mut self, msg: Message)
        requires
            old(self).inv(),
        ensures
            final(self).inv(),
            final(self).processed@ == old(self).processed@.push(msg),
    {
        let ghost m = msg;
        let ghost st0 = old(self).state();
        proof {
            lemma_total_monotonic(initial_state(), old(self).processed@);
            assert(old(self).processed@.push(m).drop_last() =~= old(self).processed@);
        }
        match msg {
            Message::SizeEntry(Some(unique_id), size) => {
                if contains_id(&self.seen, unique_id) {
                    proof {
                        assert(st0.seen.insert(unique_id) =~= st0.seen);
                    }
                } else {
                    self.total = self.total.saturating_add(size);
                    self.seen.push(unique_id);
                    proof {
                        assert(self.seen@.to_set() =~= st0.seen.insert(unique_id));
                    }
                }
            },
            Message::SizeEntry(None, size) => {
                self.total = self.total.saturating_add(size);
            },
            Message::Error { error } => {
                self.errors.push(error);
            },
        }
        self.processed = Ghost(self.processed@.push(m));
    }

    /// Yields the final result once the stream is exhausted: the clamped
    /// total and the recorded errors in arrival order.
    pub fn finish(self) -> (r: (u64, Vec<Error>))
        requires
            self.inv(),
        ensures
            r.0 == clamp_u64(total_of(self.processed@)),
            r.1@ == errors_of(self.processed@),
    {
        (self.total, self.errors)
    }
}

/// Folds a whole message stream into the final result: the deduplicated,
/// clamped total and the recorded errors in arrival order.
pub fn aggregate(msgs: &Vec<Message>) -> (r: (u64, Vec<Error>))
    ensures
        r.0 == clamp_u64(total_of(msgs@)),
        r.1@ == errors_of(msgs@),
{
    let mut agg = Aggregator::new();
    let mut i: usize = 0;
    while i < msgs.len()
        invariant
            i <= msgs.len(),
            agg.inv(),
            agg.processed@ == msgs@.take(i as int),
        decreases msgs@.len() - i,
    {
        agg.step(msgs[i].clone());
        proof {
            assert(msgs@.take(i + 1 as int) =~= msgs@.take(i as int).push(msgs@[i as int]));
        }
        i = i + 1;
    }
    proof {
        assert(msgs@.take(msgs@.len() as int) =~= msgs@);
    }
    agg.finish()
}

} // verus!
