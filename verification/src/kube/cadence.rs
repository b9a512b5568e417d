//! When one scope is next worth reading. Every time is a count of
//! nanoseconds: a moment since the clock was started, a span as it is.

use vstd::prelude::*;

verus! {

/// How often the open tab is read when `config.toml` does not say.
pub const DEFAULT_REFRESH: u128 = 5_000_000_000;

/// How often a tab nobody is looking at is read, for its badge.
pub const HIDDEN_REFRESH: u128 = 30_000_000_000;

/// How far a failing scope's cadence stretches, doubling each time.
pub const MAX_CADENCE: u128 = 120_000_000_000;

/// The longest span there is: as many seconds as a `u64` holds, and all the
/// nanoseconds short of one more.
pub const LONGEST: u128 = 18_446_744_073_709_551_615_999_999_999;

/// What a cadence holds.
pub struct CadenceView {
    pub base: int,
    pub current: int,
    pub last: Option<int>,
    pub due: Option<int>,
    pub asked: bool,
}

/// When a read at `at` makes the next one due: never on a base of zero, nor
/// past the last moment there is.
pub open spec fn next_due_after(base: int, current: int, at: int) -> Option<int> {
    if base == 0 || at + current > u128::MAX {
        None
    } else {
        Some(at + current)
    }
}

pub open spec fn larger(a: int, b: int) -> int {
    if a >= b {
        a
    } else {
        b
    }
}

pub open spec fn smaller(a: int, b: int) -> int {
    if a <= b {
        a
    } else {
        b
    }
}

impl CadenceView {
    /// The wait is never under the base, nor over it by more than a failing
    /// scope stretches; and what is due follows from the last read.
    pub open spec fn holds(self) -> bool {
        &&& 0 <= self.base <= LONGEST
        &&& self.base <= self.current <= larger(self.base, MAX_CADENCE as int)
        &&& self.due == (match self.last {
            Some(last) => next_due_after(self.base, self.current, last),
            None => None,
        })
    }

    /// A cadence that nothing was read on yet.
    pub open spec fn fresh(base: int) -> CadenceView {
        CadenceView { base, current: base, last: None, due: None, asked: true }
    }

    /// The next read is the new interval after the last one.
    pub open spec fn with_base(self, base: int) -> CadenceView {
        if self.base == base {
            self
        } else {
            CadenceView {
                base,
                current: base,
                due: match self.last {
                    Some(last) => next_due_after(base, base, last),
                    None => None,
                },
                ..self
            }
        }
    }

    pub open spec fn is_due(self, now: int) -> bool {
        self.asked || (self.due matches Some(due) && now >= due)
    }

    pub open spec fn until_due(self, now: int) -> Option<int> {
        if self.asked {
            Some(0)
        } else {
            match self.due {
                Some(due) => Some(larger(due - now, 0)),
                None => None,
            }
        }
    }

    /// How long the wait is after a read: the base after one that worked,
    /// twice the last wait after one that failed, up to two minutes and
    /// never under the base.
    pub open spec fn wait_after(self, failed: bool) -> int {
        if failed {
            larger(smaller(self.current * 2, MAX_CADENCE as int), self.base)
        } else {
            self.base
        }
    }

    pub open spec fn polled(self, now: int, failed: bool) -> CadenceView {
        let current = self.wait_after(failed);
        CadenceView {
            base: self.base,
            current,
            last: Some(now),
            due: next_due_after(self.base, current, now),
            asked: false,
        }
    }

    pub open spec fn asked(self) -> CadenceView {
        CadenceView { asked: true, ..self }
    }
}

/// When one scope is next worth reading. Something never polled is due at
/// once; a read that failed doubles the wait, up to two minutes; a base of
/// zero is "only when asked".
#[derive(Clone, Copy, Debug)]
pub struct Cadence {
    base: u128,
    current: u128,
    /// When it was last read, and when it is next due.
    last: Option<u128>,
    due: Option<u128>,
    /// Set by `r` or a tab switch: due now whatever the clock says.
    asked: bool,
}

impl View for Cadence {
    type V = CadenceView;

    closed spec fn view(&self) -> CadenceView {
        CadenceView {
            base: self.base as int,
            current: self.current as int,
            last: match self.last {
                Some(last) => Some(last as int),
                None => None,
            },
            due: match self.due {
                Some(due) => Some(due as int),
                None => None,
            },
            asked: self.asked,
        }
    }
}

/// When a read at `at` makes the next one due — never, on a base of zero.
fn next_after(base: u128, current: u128, at: u128) -> (due: Option<u128>)
    ensures
        match due {
            Some(due) => next_due_after(base as int, current as int, at as int) == Some(due as int),
            None => next_due_after(base as int, current as int, at as int) is None,
        },
{
    if base == 0 {
        None
    } else {
        at.checked_add(current)
    }
}

impl Cadence {
    #[verifier::type_invariant]
    spec fn always_holds(self) -> bool {
        self@.holds()
    }

    pub fn new(base: u128) -> (cadence: Self)
        requires
            base <= LONGEST,
        ensures
            cadence@ == CadenceView::fresh(base as int),
            cadence@.holds(),
    {
        Cadence { base, current: base, last: None, due: None, asked: true }
    }

    /// Changes how often this is read. The next read is the new interval
    /// after the last one: a tab just left is not read again five seconds
    /// later on its way to every thirty.
    pub fn set_base(&mut self, base: u128)
        requires
            base <= LONGEST,
        ensures
            final(self)@ == old(self)@.with_base(base as int),
            final(self)@.holds(),
    {
        proof {
            use_type_invariant(&*self);
        }
        if self.base != base {
            let due = match self.last {
                Some(last) => next_after(base, base, last),
                None => None,
            };
            *self = Cadence { base, current: base, last: self.last, due, asked: self.asked };
        }
    }

    /// Whether this is due at `now`.
    pub fn is_due(&self, now: u128) -> (answer: bool)
        ensures
            answer == self@.is_due(now as int),
            self@.holds(),
    {
        proof {
            use_type_invariant(self);
        }
        self.asked || match self.due {
            Some(due) => now >= due,
            None => false,
        }
    }

    /// How long until it is due, or `None` while it never will be on its
    /// own.
    pub fn until_due(&self, now: u128) -> (wait: Option<u128>)
        ensures
            match wait {
                Some(wait) => self@.until_due(now as int) == Some(wait as int),
                None => self@.until_due(now as int) is None,
            },
    {
        if self.asked {
            return Some(0);
        }
        match self.due {
            Some(due) => Some(if due >= now {
                due - now
            } else {
                0
            }),
            None => None,
        }
    }

    /// Records a poll, which sets the next one — never, on a base of zero.
    pub fn polled(&mut self, now: u128, failed: bool)
        requires
            failed ==> old(self)@.current * 2 <= LONGEST,
        ensures
            final(self)@ == old(self)@.polled(now as int, failed),
            old(self)@.holds(),
            final(self)@.holds(),
    {
        proof {
            use_type_invariant(&*self);
        }
        let current: u128 = if failed {
            let twice: u128 = self.current * 2;
            let capped: u128 = if twice <= MAX_CADENCE {
                twice
            } else {
                MAX_CADENCE
            };
            if capped >= self.base {
                capped
            } else {
                self.base
            }
        } else {
            self.base
        };
        let due = next_after(self.base, current, now);
        *self = Cadence { base: self.base, current, last: Some(now), due, asked: false };
    }

    /// Due now, whatever the clock says.
    pub fn ask(&mut self)
        ensures
            final(self)@ == old(self)@.asked(),
            final(self)@.holds(),
    {
        proof {
            use_type_invariant(&*self);
        }
        *self =
        Cadence {
            base: self.base,
            current: self.current,
            last: self.last,
            due: self.due,
            asked: true,
        };
    }
}

/// A cadence that was never read on is due, whatever the clock says.
pub proof fn law_never_polled_is_due_at_once(base: int, now: int)
    ensures
        CadenceView::fresh(base).is_due(now),
        CadenceView::fresh(base).until_due(now) == Some(0int),
{
}

/// A cadence is due exactly when nothing is left to wait for.
pub proof fn law_due_is_no_wait_left(cadence: CadenceView, now: int)
    ensures
        cadence.is_due(now) <==> cadence.until_due(now) == Some(0int),
{
}

/// On a base of zero nothing is read again until somebody asks, and then it
/// is.
pub proof fn law_a_zero_base_reads_only_when_asked(
    cadence: CadenceView,
    at: int,
    failed: bool,
    now: int,
)
    requires
        cadence.holds(),
        cadence.base == 0,
    ensures
        !cadence.polled(at, failed).is_due(now),
        cadence.polled(at, failed).until_due(now) is None,
        cadence.polled(at, failed).asked().is_due(now),
{
}

/// A cadence after reads at these moments, all of which failed.
pub open spec fn failed_at(cadence: CadenceView, moments: Seq<int>) -> CadenceView
    decreases moments.len(),
{
    if moments.len() == 0 {
        cadence
    } else {
        failed_at(cadence, moments.drop_last()).polled(moments.last(), true)
    }
}

/// Every failure in a row doubles the wait until it is two minutes, where it
/// stays; a base that is longer than that stays as it is.
pub proof fn law_failures_double_the_wait_up_to_two_minutes(
    cadence: CadenceView,
    moments: Seq<int>,
)
    requires
        cadence.holds(),
        cadence.current == cadence.base,
        cadence.base > 0,
    ensures
        failed_at(cadence, moments).base == cadence.base,
        failed_at(cadence, moments).current == larger(
            smaller(
                cadence.base * vstd::arithmetic::power2::pow2(moments.len()),
                MAX_CADENCE as int,
            ),
            cadence.base,
        ),
    decreases moments.len(),
{
    let base = cadence.base;
    if moments.len() == 0 {
        vstd::arithmetic::power2::lemma2_to64();
    } else {
        let before = (moments.len() - 1) as nat;
        law_failures_double_the_wait_up_to_two_minutes(cadence, moments.drop_last());
        vstd::arithmetic::power2::lemma_pow2_unfold(moments.len());
        vstd::arithmetic::power2::lemma_pow2_pos(before);
        let power = vstd::arithmetic::power2::pow2(before) as int;
        assert(base * (2 * power) == 2 * (base * power)) by (nonlinear_arith);
        assert(base * power >= base) by (nonlinear_arith)
            requires
                power >= 1,
                base > 0,
        ;
    }
}

/// One read that works puts a cadence back on its base, however often it
/// failed before.
pub proof fn law_a_clean_read_ends_the_back_off(cadence: CadenceView, now: int)
    requires
        cadence.holds(),
    ensures
        cadence.polled(now, false).current == cadence.base,
        cadence.base > 0 && now + cadence.base <= u128::MAX ==> cadence.polled(now, false).until_due(
            now,
        ) == Some(cadence.base),
{
}

/// After a clean read the next is due once the base has passed, and not
/// before; after a failed one once twice the wait has passed, within two
/// minutes.
pub proof fn law_the_next_read_is_due_when_its_wait_is_over(cadence: CadenceView, at: int, now: int)
    requires
        cadence.holds(),
        cadence.base > 0,
        0 <= at,
        at + cadence.base + 120_000_000_000 <= u128::MAX,
    ensures
        cadence.polled(at, false).is_due(now) <==> now >= at + cadence.base,
        cadence.current * 2 <= 120_000_000_000 ==> (cadence.polled(at, true).is_due(now) <==> now
            >= at + cadence.current * 2),
        cadence.current * 2 > 120_000_000_000 && cadence.base <= 120_000_000_000 ==> (
        cadence.polled(at, true).is_due(now) <==> now >= at + 120_000_000_000),
        cadence.polled(at, false).asked().is_due(now),
        now < at + cadence.base ==> cadence.polled(at, false).until_due(now) == Some(
            at + cadence.base - now,
        ),
{
}

/// Another base counts from the read before it, and ends a back-off.
pub proof fn law_another_base_counts_from_the_last_read(
    cadence: CadenceView,
    at: int,
    failed: bool,
    base: int,
    now: int,
)
    requires
        cadence.holds(),
        0 < base <= LONGEST,
        base != cadence.base,
        0 <= at,
        at + base <= u128::MAX,
    ensures
        cadence.polled(at, failed).with_base(base).is_due(now) <==> now >= at + base,
        cadence.polled(at, failed).with_base(base).current == base,
        cadence.with_base(cadence.base) == cadence,
        cadence.asked().with_base(base).asked,
{
}

} // verus!
