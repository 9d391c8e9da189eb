use vstd::prelude::*;

verus! {

/// The largest buffer the sizing loop hands out; a fetch that needs more
/// fails with [`SizingError::Exhausted`].
pub const MAX_BUFFER: usize = 16777216;

/// The number of calls after which every sizing loop has stopped: one probe,
/// then at most one call per doubling of the buffer up to `MAX_BUFFER`.
pub const MAX_CALLS: usize = 26;

/// What one call of the fetch operation reported.
#[derive(Debug, PartialEq, Eq)]
pub enum Reply<E> {
    /// The call succeeded and reported this byte count (the size needed, for
    /// a call on an empty buffer).
    Wrote(usize),
    /// The call failed because the buffer was too small.
    TooSmall,
    /// The call failed for another reason, which is passed on unchanged.
    Failed(E),
}

/// Why a sizing loop gave up.
#[derive(Debug, PartialEq, Eq)]
pub enum SizingError<E> {
    /// The operation failed for a reason other than the buffer's size.
    Os(E),
    /// The value did not fit in any buffer up to `MAX_BUFFER` bytes.
    Exhausted,
}

/// What the caller does next.
#[derive(Debug, PartialEq, Eq)]
pub enum Step<E> {
    /// Call the operation again, on a buffer of this many bytes.
    Call(usize),
    /// Done: the value is the first this many bytes of the last buffer.
    Finish(usize),
    /// Give up with this error.
    Fail(SizingError<E>),
}

/// The state of a sizing loop: whether the next call is the probe on an
/// empty buffer, and the size of the buffer for the next call.
pub type SizingModel = (bool, nat);

/// The state in which every loop starts: a probe on an empty buffer.
pub open spec fn initial() -> SizingModel {
    (true, 0)
}

/// Doubles the buffer of state `s`, or gives up when that exceeds the bound.
pub open spec fn grow<E>(s: SizingModel) -> (SizingModel, Step<E>) {
    if 2 * s.1 <= MAX_BUFFER {
        ((false, 2 * s.1), Step::Call((2 * s.1) as usize))
    } else {
        (s, Step::Fail(SizingError::Exhausted))
    }
}

/// The decision on reply `r` in state `s`: the next state, and the step.
///
/// A probe reporting zero bytes means an empty value; a probe reporting `n`
/// bytes asks for a buffer of `n` bytes. A fetch that wrote fewer bytes than
/// its buffer holds is done. A fetch that was too small, or that filled its
/// whole buffer (possibly truncated), asks for a buffer twice as large.
pub open spec fn decide<E>(s: SizingModel, r: Reply<E>) -> (SizingModel, Step<E>) {
    match r {
        Reply::Failed(e) => (s, Step::Fail(SizingError::Os(e))),
        Reply::Wrote(n) => {
            if s.0 {
                if n == 0 {
                    (s, Step::Finish(0))
                } else if n <= MAX_BUFFER {
                    ((false, n as nat), Step::Call(n))
                } else {
                    (s, Step::Fail(SizingError::Exhausted))
                }
            } else if n < s.1 {
                (s, Step::Finish(n))
            } else {
                grow(s)
            }
        },
        Reply::TooSmall => {
            if s.0 {
                ((false, 1), Step::Call(1))
            } else {
                grow(s)
            }
        },
    }
}

/// The step on which a loop in state `s` stops when the operation gives the
/// replies `rs` in turn, or `None` when it still asks for a call after them.
pub open spec fn run<E>(s: SizingModel, rs: Seq<Reply<E>>) -> Option<Step<E>>
    decreases rs.len(),
{
    if rs.len() == 0 {
        None
    } else {
        let (next, step) = decide(s, rs[0]);
        match step {
            Step::Call(_) => run(next, rs.drop_first()),
            _ => Some(step),
        }
    }
}

/// A reply that never lets a fetch finish: the buffer was too small, or the
/// value reported is at least as large as any buffer the loop hands out.
pub open spec fn outgrows<E>(r: Reply<E>) -> bool {
    match r {
        Reply::TooSmall => true,
        Reply::Wrote(m) => m >= MAX_BUFFER,
        Reply::Failed(_) => false,
    }
}

/// The most calls a loop fetching with a buffer of `c` bytes can still make.
spec fn doublings(c: nat) -> nat
    decreases MAX_BUFFER - c,
{
    if c == 0 || 2 * c > MAX_BUFFER {
        1
    } else {
        1 + doublings(2 * c)
    }
}

proof fn lemma_doublings_mono(c: nat, d: nat)
    requires
        1 <= c <= d,
    ensures
        doublings(d) <= doublings(c),
    decreases MAX_BUFFER - c,
{
    if 2 * c <= MAX_BUFFER && 2 * d <= MAX_BUFFER {
        lemma_doublings_mono(2 * c, 2 * d);
    }
}

proof fn lemma_doublings_bound(c: nat)
    requires
        1 <= c,
    ensures
        doublings(c) + 1 <= MAX_CALLS,
{
    reveal_with_fuel(doublings, 26);
    assert(doublings(1) == 25);
    lemma_doublings_mono(1, c);
}

proof fn lemma_fetch_stops<E>(s: SizingModel, rs: Seq<Reply<E>>)
    requires
        !s.0,
        1 <= s.1 <= MAX_BUFFER,
        rs.len() >= doublings(s.1),
    ensures
        run(s, rs) is Some,
        (forall|i: int| 0 <= i < rs.len() ==> outgrows(#[trigger] rs[i])) ==> run(s, rs)
            == Some(Step::<E>::Fail(SizingError::Exhausted)),
    decreases rs.len(),
{
    let (next, step) = decide(s, rs[0]);
    if step is Call {
        let tail = rs.drop_first();
        assert(next == (false, 2 * s.1));
        assert forall|i: int|
            (forall|i: int| 0 <= i < rs.len() ==> outgrows(#[trigger] rs[i])) && 0 <= i
                < tail.len() implies outgrows(#[trigger] tail[i]) by {
            assert(outgrows(rs[i + 1]));
        }
        lemma_fetch_stops(next, tail);
    } else if forall|i: int| 0 <= i < rs.len() ==> outgrows(#[trigger] rs[i]) {
        assert(outgrows(rs[0]));
    }
}

/// Every sizing loop stops within `MAX_CALLS` calls, whatever the operation
/// reports: it never retries without bound.
pub proof fn lemma_calls_bounded<E>(rs: Seq<Reply<E>>)
    requires
        rs.len() >= MAX_CALLS,
    ensures
        run(initial(), rs) is Some,
{
    lemma_outgrown_exhausts(rs);
}

/// When the value never settles, so that after the probe every reply says
/// that it outgrew the buffer, the loop gives up with `Exhausted` within
/// `MAX_CALLS` calls.
pub proof fn lemma_outgrown_exhausts<E>(rs: Seq<Reply<E>>)
    requires
        rs.len() >= MAX_CALLS,
    ensures
        run(initial(), rs) is Some,
        (rs[0] is TooSmall || (rs[0] matches Reply::Wrote(n) && n > 0)) && (forall|i: int|
            1 <= i < rs.len() ==> outgrows(#[trigger] rs[i])) ==> run(initial(), rs) == Some(
            Step::<E>::Fail(SizingError::Exhausted),
        ),
{
    let (next, step) = decide(initial(), rs[0]);
    if step is Call {
        let tail = rs.drop_first();
        lemma_doublings_bound(next.1);
        assert forall|i: int|
            (forall|i: int| 1 <= i < rs.len() ==> outgrows(#[trigger] rs[i])) && 0 <= i
                < tail.len() implies outgrows(#[trigger] tail[i]) by {
            assert(outgrows(rs[i + 1]));
        }
        lemma_fetch_stops(next, tail);
    }
}

/// A value of `n` bytes that does not change is fetched whole: an operation
/// that reports `n` on the probe, on the buffer of `n` bytes and on the
/// doubled one leads to finishing with all `n` bytes, and an empty value is
/// done after the probe.
pub proof fn lemma_steady_value<E>(n: usize)
    requires
        2 * n <= MAX_BUFFER,
    ensures
        n == 0 ==> run(initial(), seq![Reply::<E>::Wrote(n)]) == Some(Step::<E>::Finish(0)),
        n > 0 ==> run(
            initial(),
            seq![Reply::<E>::Wrote(n), Reply::<E>::Wrote(n), Reply::<E>::Wrote(n)],
        ) == Some(Step::<E>::Finish(n)),
{
    let rs = seq![Reply::<E>::Wrote(n), Reply::<E>::Wrote(n), Reply::<E>::Wrote(n)];
    if n > 0 {
        assert(rs.drop_first().drop_first().drop_first().len() == 0);
        assert(run((false, 2 * n as nat), rs.drop_first().drop_first()) == Some(
            Step::<E>::Finish(n),
        ));
        assert(run((false, n as nat), rs.drop_first()) == Some(Step::<E>::Finish(n)));
    } else {
        assert(seq![Reply::<E>::Wrote(n)].drop_first().len() == 0);
    }
}

/// The decisions of one sizing loop: a growable-buffer retry around an
/// operation that fills a buffer and reports how many bytes it wrote.
///
/// The caller makes the first call on a buffer of `capacity()` bytes, feeds
/// each reply to `on_reply`, and follows the step it returns.
pub struct Sizing {
    probing: bool,
    capacity: usize,
}

impl View for Sizing {
    type V = SizingModel;

    closed spec fn view(&self) -> SizingModel {
        (self.probing, self.capacity as nat)
    }
}

impl Sizing {
    #[verifier::type_invariant]
    closed spec fn inv(&self) -> bool {
        if self.probing {
            self.capacity == 0
        } else {
            1 <= self.capacity <= MAX_BUFFER
        }
    }

    /// A loop about to probe with an empty buffer.
    pub fn new() -> (r: Sizing)
        ensures
            r@ == initial(),
    {
        Sizing { probing: true, capacity: 0 }
    }

    /// The size of the buffer for the next call.
    pub fn capacity(&self) -> (r: usize)
        ensures
            r == self@.1,
            r <= MAX_BUFFER,
    {
        proof {
            use_type_invariant(self);
        }
        self.capacity
    }

    /// Takes the reply to the last call and decides the next step.
    pub fn on_reply<E>(&mut self, reply: Reply<E>) -> (r: Step<E>)
        ensures
            (final(self)@, r) == decide(old(self)@, reply),
    {
        proof {
            use_type_invariant(&*self);
        }
        match reply {
            Reply::Failed(e) => Step::Fail(SizingError::Os(e)),
            Reply::Wrote(n) => {
                if self.probing {
                    if n == 0 {
                        Step::Finish(0)
                    } else if n <= MAX_BUFFER {
                        *self = Sizing { probing: false, capacity: n };
                        Step::Call(n)
                    } else {
                        Step::Fail(SizingError::Exhausted)
                    }
                } else if n < self.capacity {
                    Step::Finish(n)
                } else {
                    self.grow()
                }
            },
            Reply::TooSmall => {
                if self.probing {
                    *self = Sizing { probing: false, capacity: 1 };
                    Step::Call(1)
                } else {
                    self.grow()
                }
            },
        }
    }

    fn grow<E>(&mut self) -> (r: Step<E>)
        requires
            !old(self)@.0,
        ensures
            (final(self)@, r) == grow::<E>(old(self)@),
    {
        proof {
            use_type_invariant(&*self);
        }
        if self.capacity <= MAX_BUFFER / 2 {
            self.capacity = 2 * self.capacity;
            Step::Call(self.capacity)
        } else {
            Step::Fail(SizingError::Exhausted)
        }
    }
}

} // verus!
