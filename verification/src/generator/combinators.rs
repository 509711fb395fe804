//! The state of generator combinators: a filter over another generator's
//! operations, a limit on how many it hands out, a time limit on
//! generation. Each holds the generator it wraps, and decides from its own
//! state whether the wrapped generator is asked at all.
use vstd::prelude::*;
use core::time::Duration;
use std::time::Instant;
use std::marker::PhantomData;
use crate::text::{decimal, to_owned_string, push_str, push_decimal};
use crate::clock::{deadline_after, deadline_passed};

verus! {

/// The time from now until `deadline`, zero once it has passed
/// (`Instant::saturating_duration_since` of `Instant::now()`).
#[verifier::external_body]
fn time_until(deadline: &Instant) -> Duration {
    deadline.saturating_duration_since(Instant::now())
}

/// What a filter holds.
pub struct FilterView<G, F> {
    /// The wrapped generator.
    pub inner: G,
    /// The predicate operations must meet.
    pub predicate: F,
    /// The combinator's name.
    pub name: Seq<char>,
    /// How many operations to try before giving up.
    pub max_retries: usize,
}

/// A generator that hands out only the operations of another generator
/// that meet a predicate.
pub struct Filter<G, F, V> {
    inner: G,
    predicate: F,
    name: String,
    max_retries: usize,
    _value: PhantomData<V>,
}

impl<G, F, V> View for Filter<G, F, V> {
    type V = FilterView<G, F>;

    closed spec fn view(&self) -> FilterView<G, F> {
        FilterView { inner: self.inner, predicate: self.predicate, name: self.name@, max_retries: self.max_retries }
    }
}

impl<G, F, V> Filter<G, F, V> {
    /// A filter named `Filter` that tries up to 100 operations.
    pub fn new(inner: G, predicate: F) -> (r: Self)
        ensures
            r@ == (FilterView { inner, predicate, name: "Filter"@, max_retries: 100usize }),
    {
        Filter { inner, predicate, name: to_owned_string("Filter"), max_retries: 100, _value: PhantomData }
    }

    /// Sets the name.
    pub fn with_name(self, name: &str) -> (r: Self)
        ensures
            r@ == (FilterView { name: name@, ..self@ }),
    {
        Filter { name: to_owned_string(name), ..self }
    }

    /// Sets how many operations to try before giving up.
    pub fn with_max_retries(self, max: usize) -> (r: Self)
        ensures
            r@ == (FilterView { max_retries: max, ..self@ }),
    {
        Filter { max_retries: max, ..self }
    }

    /// The wrapped generator.
    pub fn inner(&self) -> (r: &G)
        ensures
            *r == self@.inner,
    {
        &self.inner
    }

    /// The wrapped generator, to change it.
    pub fn inner_mut(&mut self) -> (r: &mut G)
        ensures
            *r == old(self)@.inner,
            final(self)@ == (FilterView { inner: *final(r), ..old(self)@ }),
    {
        &mut self.inner
    }

    /// The predicate.
    pub fn predicate(&self) -> (r: &F)
        ensures
            *r == self@.predicate,
    {
        &self.predicate
    }

    /// How many operations to try before giving up.
    pub fn max_retries(&self) -> (r: usize)
        ensures
            r == self@.max_retries,
    {
        self.max_retries
    }

    /// The combinator's name.
    pub fn name(&self) -> (r: &str)
        ensures
            r@ == self@.name,
    {
        self.name.as_str()
    }

    /// Whether to ask the wrapped generator for another operation, after
    /// `attempts` operations were asked for and none was accepted: while
    /// attempts are left and the wrapped generator is not exhausted.
    pub fn keeps_trying(&self, attempts: usize, inner_exhausted: bool) -> (r: bool)
        ensures
            r == (attempts < self@.max_retries && !inner_exhausted),
    {
        attempts < self.max_retries && !inner_exhausted
    }
}

/// What a limit holds.
pub struct TakeView<G> {
    /// The wrapped generator.
    pub inner: G,
    /// How many operations it may hand out.
    pub limit: u64,
    /// How many it has handed out.
    pub count: u64,
    /// The combinator's name.
    pub name: Seq<char>,
}

/// A generator that hands out at most a given number of another
/// generator's operations.
pub struct Take<G> {
    inner: G,
    limit: u64,
    count: u64,
    name: String,
}

impl<G> View for Take<G> {
    type V = TakeView<G>;

    closed spec fn view(&self) -> TakeView<G> {
        TakeView { inner: self.inner, limit: self.limit, count: self.count, name: self.name@ }
    }
}

impl<G> Take<G> {
    /// Well formed: no more taken than the limit.
    pub open spec fn wf(&self) -> bool {
        self@.count <= self@.limit
    }

    /// A limit named `Take`, with nothing taken yet.
    pub fn new(inner: G, limit: u64) -> (r: Self)
        ensures
            r.wf(),
            r@ == (TakeView { inner, limit, count: 0u64, name: "Take"@ }),
    {
        Take { inner, limit, count: 0, name: to_owned_string("Take") }
    }

    /// Sets the name.
    pub fn with_name(self, name: &str) -> (r: Self)
        ensures
            r@ == (TakeView { name: name@, ..self@ }),
    {
        Take { name: to_owned_string(name), ..self }
    }

    /// How many operations were handed out.
    pub fn count(&self) -> (r: u64)
        ensures
            r == self@.count,
    {
        self.count
    }

    /// How many operations may be handed out.
    pub fn limit(&self) -> (r: u64)
        ensures
            r == self@.limit,
    {
        self.limit
    }

    /// The wrapped generator.
    pub fn inner(&self) -> (r: &G)
        ensures
            *r == self@.inner,
    {
        &self.inner
    }

    /// The wrapped generator, to change it.
    pub fn inner_mut(&mut self) -> (r: &mut G)
        ensures
            *r == old(self)@.inner,
            final(self)@ == (TakeView { inner: *final(r), ..old(self)@ }),
    {
        &mut self.inner
    }

    /// The combinator's name.
    pub fn name(&self) -> (r: &str)
        ensures
            r@ == self@.name,
    {
        self.name.as_str()
    }

    /// Whether another operation may be handed out.
    pub fn can_take(&self) -> (r: bool)
        ensures
            r == (self@.count < self@.limit),
    {
        self.count < self.limit
    }

    /// Counts an operation handed out.
    pub fn record_taken(&mut self)
        requires
            old(self)@.count < old(self)@.limit,
        ensures
            final(self).wf(),
            final(self)@ == (TakeView { count: (old(self)@.count + 1) as u64, ..old(self)@ }),
    {
        self.count = self.count + 1;
    }

    /// Settles a request made while another operation may be handed out
    /// (`can_take`): the wrapped generator's answer is handed on as it
    /// is, and counted when it is an operation.
    pub fn hand_on<T>(&mut self, answer: Option<T>) -> (r: Option<T>)
        requires
            old(self)@.count < old(self)@.limit,
        ensures
            r == answer,
            final(self).wf(),
            final(self)@ == (TakeView { count: take_after(old(self)@.count as nat, old(self)@.limit as nat, seq![answer is Some]) as u64, ..old(self)@ }),
    {
        proof {
            let s1 = seq![answer is Some];
            assert(s1.drop_last() =~= Seq::<bool>::empty());
            assert(s1.last() == (answer is Some));
            assert(take_after(self.count as nat, self.limit as nat, s1.drop_last()) == self.count);
        }
        if answer.is_some() {
            self.count = self.count + 1;
        }
        answer
    }

    /// Starts counting over.
    pub fn reset_count(&mut self)
        ensures
            final(self).wf(),
            final(self)@ == (TakeView { count: 0u64, ..old(self)@ }),
    {
        self.count = 0;
    }

    /// Whether nothing more will be handed out: the limit is reached or
    /// the wrapped generator is exhausted.
    pub fn is_exhausted_with(&self, inner_exhausted: bool) -> (r: bool)
        ensures
            r == (self@.count >= self@.limit || inner_exhausted),
    {
        self.count >= self.limit || inner_exhausted
    }

    /// How many operations are left: what the limit leaves, or what the
    /// wrapped generator has left when that is known and fewer.
    pub fn remaining_with(&self, inner_remaining: Option<usize>) -> (r: Option<usize>)
        requires
            self.wf(),
        ensures
            ({
                let left = (self@.limit - self@.count) as usize;
                r == Some(match inner_remaining {
                    Some(n) => if n < left { n } else { left },
                    None => left,
                })
            }),
    {
        let left = #[verifier::truncate] ((self.limit - self.count) as usize);
        match inner_remaining {
            Some(n) => Some(if n < left { n } else { left }),
            None => Some(left),
        }
    }
}

/// What a time limit holds.
pub struct WithTimeoutView<G> {
    /// The wrapped generator.
    pub inner: G,
    /// How long generation may take.
    pub timeout: Duration,
    /// When generation must stop, once started.
    pub deadline: Option<Instant>,
    /// The combinator's name.
    pub name: Seq<char>,
}

/// A generator that hands out another generator's operations until a time
/// limit, counted from its start, has passed.
pub struct WithTimeout<G> {
    inner: G,
    timeout: Duration,
    deadline: Option<Instant>,
    name: String,
}

impl<G> View for WithTimeout<G> {
    type V = WithTimeoutView<G>;

    closed spec fn view(&self) -> WithTimeoutView<G> {
        WithTimeoutView { inner: self.inner, timeout: self.timeout, deadline: self.deadline, name: self.name@ }
    }
}

impl<G> WithTimeout<G> {
    /// A time limit named `WithTimeout`, not started.
    pub fn new(inner: G, timeout: Duration) -> (r: Self)
        ensures
            r@ == (WithTimeoutView { inner, timeout, deadline: None::<Instant>, name: "WithTimeout"@ }),
    {
        WithTimeout { inner, timeout, deadline: None, name: to_owned_string("WithTimeout") }
    }

    /// Sets the name.
    pub fn with_name(self, name: &str) -> (r: Self)
        ensures
            r@ == (WithTimeoutView { name: name@, ..self@ }),
    {
        WithTimeout { name: to_owned_string(name), ..self }
    }

    /// Starts the clock: the deadline is the timeout from now. (A
    /// deadline that no instant can represent stays unset.)
    pub fn start(&mut self)
        ensures
            final(self)@ == (WithTimeoutView { deadline: final(self)@.deadline, ..old(self)@ }),
    {
        self.deadline = deadline_after(self.timeout);
    }

    /// Whether the clock was started.
    pub fn has_started(&self) -> (r: bool)
        ensures
            r == (self@.deadline is Some),
    {
        self.deadline.is_some()
    }

    /// Stops the clock.
    pub fn clear_deadline(&mut self)
        ensures
            final(self)@ == (WithTimeoutView { deadline: None::<Instant>, ..old(self)@ }),
    {
        self.deadline = None;
    }

    /// The time left, once started (zero after the deadline).
    pub fn remaining_time(&self) -> (r: Option<Duration>)
        ensures
            r is Some <==> self@.deadline is Some,
    {
        match &self.deadline {
            Some(d) => Some(time_until(d)),
            None => None,
        }
    }

    /// Whether the deadline has passed; never before the start.
    pub fn is_timed_out(&self) -> (r: bool)
        ensures
            self@.deadline is None ==> !r,
    {
        match &self.deadline {
            Some(d) => deadline_passed(d),
            None => false,
        }
    }

    /// The wrapped generator.
    pub fn inner(&self) -> (r: &G)
        ensures
            *r == self@.inner,
    {
        &self.inner
    }

    /// The wrapped generator, to change it.
    pub fn inner_mut(&mut self) -> (r: &mut G)
        ensures
            *r == old(self)@.inner,
            final(self)@ == (WithTimeoutView { inner: *final(r), ..old(self)@ }),
    {
        &mut self.inner
    }

    /// The combinator's name.
    pub fn name(&self) -> (r: &str)
        ensures
            r@ == self@.name,
    {
        self.name.as_str()
    }
}

/// The name under which a combinator reports an operation of its
/// `index`-th generator: `<name>[<index>]`.
pub open spec fn source_text(name: Seq<char>, index: nat) -> Seq<char> {
    name + "["@ + decimal(index) + "]"@
}

/// The source name of an operation from the `index`-th generator.
pub fn source_name(name: &str, index: usize) -> (r: String)
    ensures
        r@ == source_text(name@, index as nat),
{
    let mut s = to_owned_string(name);
    push_str(&mut s, "[");
    push_decimal(&mut s, index as u128);
    push_str(&mut s, "]");
    s
}

/// The seed the `index`-th generator gets when a combinator is reset.
pub fn child_seed(seed: u64, index: usize) -> (r: u64)
    ensures
        r == (seed + index) % 0x1_0000_0000_0000_0000int,
{
    let i = index as u64;
    assert(i == index) by {
        assert(index <= usize::MAX);
    }
    let r = seed.wrapping_add(i);
    assert(r == (seed + i) % 0x1_0000_0000_0000_0000int) by (bit_vector)
        requires r == seed.wrapping_add(i);
    r
}

/// Where a chain of generators stands: it draws from one generator until
/// that one gives nothing, then moves to the next.
#[derive(Debug, Clone, Copy, PartialEq, Eq, Structural)]
pub struct ChainCursor {
    /// The generator drawn from.
    pub current: usize,
    /// How many generators the chain has.
    pub len: usize,
}

impl ChainCursor {
    /// A chain of `len` generators, at the first.
    pub fn new(len: usize) -> (r: Self)
        ensures
            r == (ChainCursor { current: 0, len }),
    {
        ChainCursor { current: 0, len }
    }

    /// One more generator at the end.
    pub fn add(&mut self)
        requires
            old(self).len < usize::MAX,
        ensures
            *final(self) == (ChainCursor { len: (old(self).len + 1) as usize, ..*old(self) }),
    {
        self.len = self.len + 1;
    }

    /// Whether a generator is left to draw from.
    pub fn has_current(&self) -> (r: bool)
        ensures
            r == (self.current < self.len),
    {
        self.current < self.len
    }

    /// Moves on to the next generator.
    pub fn advance(&mut self)
        requires
            old(self).current < old(self).len,
        ensures
            *final(self) == (ChainCursor { current: (old(self).current + 1) as usize, ..*old(self) }),
    {
        self.current = self.current + 1;
    }

    /// Whether the chain is exhausted, given whether its current generator
    /// is: past the last generator, or at the last and that one is.
    pub fn is_exhausted(&self, current_exhausted: bool) -> (r: bool)
        ensures
            r == (self.current >= self.len || (self.current == self.len - 1 && current_exhausted)),
    {
        self.current >= self.len || (self.current == self.len - 1 && current_exhausted)
    }

    /// Back to the first generator.
    pub fn reset(&mut self)
        ensures
            *final(self) == (ChainCursor { current: 0, ..*old(self) }),
    {
        self.current = 0;
    }

    /// The operations left: the sum of what the generators from the
    /// current one on have left, when all of them know.
    pub fn remaining(&self, left: &[Option<usize>]) -> (r: Option<usize>)
        requires
            self.current <= self.len,
            left@.len() == self.len,
            known_sum(left@.skip(self.current as int)) <= usize::MAX,
        ensures
            all_known(left@.skip(self.current as int)) ==> r == Some(known_sum(left@.skip(self.current as int)) as usize),
            !all_known(left@.skip(self.current as int)) ==> r is None,
    {
        let ghost tail = left@.skip(self.current as int);
        let mut total: usize = 0;
        let mut i: usize = self.current;
        while i < left.len()
            invariant
                self.current <= i <= left@.len(),
                tail == left@.skip(self.current as int),
                known_sum(tail) <= usize::MAX,
                all_known(left@.subrange(self.current as int, i as int)),
                total == known_sum(left@.subrange(self.current as int, i as int)),
            decreases left@.len() - i,
        {
            let ghost part = left@.subrange(self.current as int, i as int);
            assert(left@.subrange(self.current as int, i as int + 1) =~= part.push(left@[i as int]));
            assert(part.push(left@[i as int]).drop_last() =~= part);
            match left[i] {
                None => {
                    proof { lemma_unknown_in_tail(left@, self.current as int, i as int); }
                    return None;
                },
                Some(r) => {
                    proof { lemma_known_sum_prefix(left@, self.current as int, i as int + 1); }
                    total = total + r;
                },
            }
            i = i + 1;
        }
        assert(left@.subrange(self.current as int, i as int) =~= tail);
        Some(total)
    }
}

/// Whether every entry is known.
pub open spec fn all_known(s: Seq<Option<usize>>) -> bool {
    forall|i: int| 0 <= i < s.len() ==> (#[trigger] s[i]) is Some
}

/// The sum of the known entries.
pub open spec fn known_sum(s: Seq<Option<usize>>) -> nat
    decreases s.len(),
{
    if s.len() == 0 {
        0
    } else {
        known_sum(s.drop_last()) + match s.last() { Some(v) => v as nat, None => 0nat }
    }
}

/// The known sum of a prefix of the tail is at most that of the tail.
proof fn lemma_known_sum_prefix(s: Seq<Option<usize>>, start: int, end: int)
    requires
        0 <= start <= end <= s.len(),
    ensures
        known_sum(s.subrange(start, end)) <= known_sum(s.skip(start)),
    decreases s.len() - end,
{
    if end < s.len() {
        lemma_known_sum_prefix(s, start, end + 1);
        assert(s.subrange(start, end + 1).drop_last() =~= s.subrange(start, end));
    } else {
        assert(s.subrange(start, end) =~= s.skip(start));
    }
}

/// An unknown entry in the tail means not all of it is known.
proof fn lemma_unknown_in_tail(s: Seq<Option<usize>>, start: int, i: int)
    requires
        0 <= start <= i < s.len(),
        s[i] is None,
    ensures
        !all_known(s.skip(start)),
{
    assert(s.skip(start)[i - start] == s[i]);
}

/// Where a round-robin interleaving of generators stands: the next
/// generator to ask, and how many were exhausted at the last count.
#[derive(Debug, Clone, Copy, PartialEq, Eq, Structural)]
pub struct RoundRobin {
    /// The generator asked next.
    pub current: usize,
    /// How many generators were exhausted when last counted.
    pub exhausted_count: usize,
    /// How many generators take turns.
    pub len: usize,
}

/// The number of true flags.
pub open spec fn true_count(s: Seq<bool>) -> nat
    decreases s.len(),
{
    if s.len() == 0 { 0 } else { true_count(s.drop_last()) + if s.last() { 1nat } else { 0nat } }
}

/// Counts the true flags.
fn count_true(flags: &[bool]) -> (r: usize)
    ensures
        r == true_count(flags@),
{
    let mut c: usize = 0;
    let mut i: usize = 0;
    while i < flags.len()
        invariant
            i <= flags@.len(),
            c == true_count(flags@.take(i as int)),
            c <= i,
        decreases flags@.len() - i,
    {
        assert(flags@.take(i as int + 1).drop_last() =~= flags@.take(i as int));
        if flags[i] {
            c = c + 1;
        }
        i = i + 1;
    }
    assert(flags@.take(i as int) =~= flags@);
    c
}

impl RoundRobin {
    /// Well-formed: the next turn names a generator, when there is one.
    pub open spec fn wf(self) -> bool {
        self.current < self.len || (self.len == 0 && self.current == 0)
    }

    /// Turns among `len` generators, starting with the first.
    pub fn new(len: usize) -> (r: Self)
        ensures
            r == (RoundRobin { current: 0, exhausted_count: 0, len }),
            r.wf(),
    {
        RoundRobin { current: 0, exhausted_count: 0, len }
    }

    /// One more generator takes turns.
    pub fn add(&mut self)
        requires
            old(self).wf(),
            old(self).len < usize::MAX,
        ensures
            final(self).wf(),
            *final(self) == (RoundRobin { len: (old(self).len + 1) as usize, ..*old(self) }),
    {
        self.len = self.len + 1;
    }

    /// Starts a round given which generators are exhausted: counts them,
    /// and gives the turn the round starts at, or `None` when there are no
    /// generators or all are exhausted.
    pub fn start_round(&mut self, exhausted: &[bool]) -> (r: Option<usize>)
        requires
            old(self).wf(),
            exhausted@.len() == old(self).len,
        ensures
            final(self).wf(),
            *final(self) == (RoundRobin { exhausted_count: true_count(exhausted@) as usize, ..*old(self) }),
            r == (if old(self).len == 0 || true_count(exhausted@) >= old(self).len { None } else { Some(old(self).current) }),
    {
        if self.len == 0 {
            self.exhausted_count = count_true(exhausted);
            return None;
        }
        self.exhausted_count = count_true(exhausted);
        if self.exhausted_count >= self.len {
            None
        } else {
            Some(self.current)
        }
    }

    /// The generator whose turn it is; the turn passes to the next one,
    /// wrapping around.
    pub fn next_index(&mut self) -> (r: usize)
        requires
            old(self).wf(),
            old(self).len > 0,
        ensures
            final(self).wf(),
            r == old(self).current,
            *final(self) == (RoundRobin { current: ((old(self).current + 1) % (old(self).len as int)) as usize, ..*old(self) }),
    {
        let idx = self.current;
        self.current = (self.current + 1) % self.len;
        idx
    }

    /// Ends a round with a fresh count of the exhausted generators.
    pub fn end_round(&mut self, exhausted: &[bool])
        requires
            old(self).wf(),
            exhausted@.len() == old(self).len,
        ensures
            final(self).wf(),
            *final(self) == (RoundRobin { exhausted_count: true_count(exhausted@) as usize, ..*old(self) }),
    {
        self.exhausted_count = count_true(exhausted);
    }

    /// Whether the interleaving is exhausted: no generators, or all
    /// exhausted at the last count.
    pub fn is_exhausted(&self) -> (r: bool)
        ensures
            r == (self.len == 0 || self.exhausted_count >= self.len),
    {
        self.len == 0 || self.exhausted_count >= self.len
    }

    /// Back to the first generator, with nothing counted as exhausted.
    pub fn reset(&mut self)
        requires
            old(self).wf(),
        ensures
            final(self).wf(),
            *final(self) == (RoundRobin { current: 0, exhausted_count: 0, ..*old(self) }),
    {
        self.current = 0;
        self.exhausted_count = 0;
    }
}

/// The generator asked `j` turns after `start` among `len`.
pub open spec fn turn(start: int, j: int, len: int) -> int {
    (start + j) % len
}

/// The count of a limit after a run of requests, from `count`, where
/// `answers[i]` tells whether the wrapped generator has an operation for
/// request `i`: a request is passed on only while the count is below the
/// limit, and an operation handed out is counted.
pub open spec fn take_after(count: nat, limit: nat, answers: Seq<bool>) -> nat
    decreases answers.len(),
{
    if answers.len() == 0 {
        count
    } else {
        let c = take_after(count, limit, answers.drop_last());
        if c < limit && answers.last() { c + 1 } else { c }
    }
}

/// How many operations a limit hands out over a run of requests.
pub open spec fn take_handed(count: nat, limit: nat, answers: Seq<bool>) -> nat
    decreases answers.len(),
{
    if answers.len() == 0 {
        0
    } else {
        let c = take_after(count, limit, answers.drop_last());
        take_handed(count, limit, answers.drop_last()) + if c < limit && answers.last() { 1nat } else { 0nat }
    }
}

/// A limit never hands out more than it allows: over any run of requests
/// started within the limit, the count stays within it, grows by exactly
/// the operations handed out, and once it reaches the limit nothing more
/// is handed out.
pub proof fn law_take_counts(count: nat, limit: nat, answers: Seq<bool>)
    requires
        count <= limit,
    ensures
        take_after(count, limit, answers) <= limit,
        take_after(count, limit, answers) == count + take_handed(count, limit, answers),
        forall|k: int| 0 <= k <= answers.len() && #[trigger] take_after(count, limit, answers.take(k)) == limit
            ==> take_handed(count, limit, answers) == take_handed(count, limit, answers.take(k)),
    decreases answers.len(),
{
    if answers.len() > 0 {
        law_take_counts(count, limit, answers.drop_last());
        assert forall|k: int| 0 <= k <= answers.len() && #[trigger] take_after(count, limit, answers.take(k)) == limit
            implies take_handed(count, limit, answers) == take_handed(count, limit, answers.take(k)) by {
            if k == answers.len() {
                assert(answers.take(k) =~= answers);
            } else {
                assert(answers.drop_last().take(k) =~= answers.take(k));
                lemma_take_after_monotone(count, limit, answers.drop_last(), k);
            }
        }
    }
}

/// The count only grows along a run of requests.
proof fn lemma_take_after_monotone(count: nat, limit: nat, answers: Seq<bool>, k: int)
    requires
        0 <= k <= answers.len(),
    ensures
        take_after(count, limit, answers.take(k)) <= take_after(count, limit, answers),
    decreases answers.len(),
{
    if k < answers.len() {
        assert(answers.drop_last().take(k) =~= answers.take(k));
        lemma_take_after_monotone(count, limit, answers.drop_last(), k);
    } else {
        assert(answers.take(k) =~= answers);
    }
}

/// Every generator gets its turn: starting anywhere, `len` turns visit
/// each generator exactly once before the start comes back.
pub proof fn law_round_robin_visits_all(len: int, start: int, k: int)
    requires
        len > 0,
        0 <= start < len,
        0 <= k < len,
    ensures
        0 <= turn(start, k, len) < len,
        forall|j: int| 0 <= j < k ==> #[trigger] turn(start, j, len) != turn(start, k, len),
        turn(start, len, len) == start,
{
    assert forall|j: int| 0 <= j < k implies #[trigger] turn(start, j, len) != turn(start, k, len) by {
        let a = start + j;
        let b = start + k;
        assert(a % len != b % len) by (nonlinear_arith)
            requires 0 <= a < b, b < 2 * len, b - a < len, len > 0;
    }
    assert(turn(start, len, len) == start) by (nonlinear_arith)
        requires 0 <= start < len, turn(start, len, len) == (start + len) % len;
    assert(0 <= turn(start, k, len) < len) by (nonlinear_arith)
        requires len > 0, turn(start, k, len) == (start + k) % len;
}

} // verus!
