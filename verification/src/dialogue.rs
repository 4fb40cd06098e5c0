//! The dialogue typewriter: a text that becomes visible one character per
//! reveal interval, and at once when the reader clicks.

use vstd::prelude::*;
use vstd::arithmetic::div_mod::lemma_fundamental_div_mod;
use vstd::arithmetic::div_mod::lemma_mod_bound;
use vstd::arithmetic::mul::lemma_mul_inequality;
use crate::text::chars_of;
use crate::text::slice_of;
use crate::text::string_of;

verus! {

/// Time between two characters, in microseconds.
pub const REVEAL_INTERVAL_MICROS: u64 = 30_000;

/// Characters that fall due when the timer stands at `timer`: one for each
/// time the interval can be taken off while the timer exceeds it.
pub open spec fn due_reveals(timer: nat, interval: nat) -> nat
    decreases timer,
{
    if interval > 0 && timer > interval {
        1 + due_reveals((timer - interval) as nat, interval)
    } else {
        0
    }
}

/// What is left of the timer once the due characters have been paid for.
pub open spec fn carried_timer(timer: nat, interval: nat) -> nat
    decreases timer,
{
    if interval > 0 && timer > interval {
        carried_timer((timer - interval) as nat, interval)
    } else {
        timer
    }
}

/// The mathematical state of a typewriter.
pub ghost struct DialogueView {
    /// The full text.
    pub target: Seq<char>,
    /// How many characters of it are shown.
    pub visible: nat,
    /// Time gathered towards the next character, in microseconds.
    pub timer: nat,
    /// Time that one character costs, in microseconds.
    pub interval: nat,
}

impl DialogueView {
    /// Validity: no more is shown than there is, the interval is positive and
    /// the timer holds no unpaid character.
    pub open spec fn wf(self) -> bool {
        &&& self.visible <= self.target.len()
        &&& self.interval > 0
        &&& self.timer <= self.interval
    }

    /// Everything is shown.
    pub open spec fn is_idle(self) -> bool {
        self.visible == self.target.len()
    }

    /// Something is still hidden.
    pub open spec fn is_revealing(self) -> bool {
        self.visible < self.target.len()
    }

    /// The part of the text that is shown.
    pub open spec fn visible_text(self) -> Seq<char> {
        self.target.take(self.visible as int)
    }

    /// The state after a frame of `dt` microseconds. While revealing, the
    /// timer gathers `dt` and every due character is shown, up to the end of
    /// the text. An idle typewriter ignores time.
    pub open spec fn tick(self, dt: nat) -> DialogueView {
        if self.is_revealing() {
            let gathered = self.timer + dt;
            let shown = self.visible + due_reveals(gathered, self.interval);
            DialogueView {
                visible: if shown <= self.target.len() {
                    shown
                } else {
                    self.target.len()
                },
                timer: carried_timer(gathered, self.interval),
                ..self
            }
        } else {
            self
        }
    }

    /// The state after a click on the dialogue: everything is shown, the
    /// timer is untouched.
    pub open spec fn skip_to_end(self) -> DialogueView {
        DialogueView { visible: self.target.len(), ..self }
    }

    /// The state after a new text has been set: nothing of it is shown yet.
    pub open spec fn set_text(self, text: Seq<char>) -> DialogueView {
        DialogueView { target: text, visible: 0, ..self }
    }

    /// The state after the frames `dts`, in order.
    pub open spec fn run(self, dts: Seq<nat>) -> DialogueView
        decreases dts.len(),
    {
        if dts.len() == 0 {
            self
        } else {
            self.tick(dts[0]).run(dts.drop_first())
        }
    }
}

/// The sum of the frame times `dts`.
pub open spec fn total_time(dts: Seq<nat>) -> nat
    decreases dts.len(),
{
    if dts.len() == 0 {
        0
    } else {
        dts[0] + total_time(dts.drop_first())
    }
}

/// The smaller of two numbers.
pub open spec fn at_most(a: nat, cap: nat) -> nat {
    if a <= cap {
        a
    } else {
        cap
    }
}

// ---------------------------------------------------------------------------
// Arithmetic of the timer
// ---------------------------------------------------------------------------

/// The timer splits into what is carried and one interval per due character;
/// a timer that has gathered anything carries something, and never more than
/// one interval.
pub proof fn lemma_timer_split(timer: nat, interval: nat)
    requires
        interval > 0,
    ensures
        timer == carried_timer(timer, interval) + due_reveals(timer, interval) * interval,
        timer == 0 ==> carried_timer(timer, interval) == 0 && due_reveals(timer, interval) == 0,
        timer > 0 ==> 0 < carried_timer(timer, interval) <= interval,
    decreases timer,
{
    if timer > interval {
        let rest = (timer - interval) as nat;
        lemma_timer_split(rest, interval);
        let d = due_reveals(rest, interval);
        assert((1 + d) * interval == interval + d * interval) by (nonlinear_arith);
        assert(due_reveals(timer, interval) == 1 + d);
        assert(carried_timer(timer, interval) == carried_timer(rest, interval));
    } else {
        assert(due_reveals(timer, interval) == 0);
        assert(0 * interval == 0);
    }
}

/// The split of `lemma_timer_split` is the only one.
pub proof fn lemma_timer_split_unique(timer: nat, interval: nat, due: nat, carried: nat)
    requires
        interval > 0,
        timer == carried + due * interval,
        timer > 0 ==> 0 < carried <= interval,
    ensures
        due_reveals(timer, interval) == due,
        carried_timer(timer, interval) == carried,
    decreases due,
{
    if due == 0 {
        assert(due * interval == 0) by (nonlinear_arith)
            requires
                due == 0,
        ;
    } else {
        assert(due * interval == interval + (due - 1) * interval) by (nonlinear_arith);
        assert((due - 1) * interval >= 0) by (nonlinear_arith)
            requires
                due >= 1,
                interval > 0,
        ;
        lemma_timer_split_unique((timer - interval) as nat, interval, (due - 1) as nat, carried);
    }
}

/// Paying for the due characters frame by frame comes to the same as paying
/// once for the whole time.
pub proof fn lemma_due_reveals_add(timer: nat, more: nat, interval: nat)
    requires
        interval > 0,
    ensures
        due_reveals(carried_timer(timer, interval) + more, interval) + due_reveals(timer, interval)
            == due_reveals(timer + more, interval),
        carried_timer(carried_timer(timer, interval) + more, interval) == carried_timer(
            timer + more,
            interval,
        ),
{
    let c = carried_timer(timer, interval);
    let k = due_reveals(timer, interval);
    lemma_timer_split(timer, interval);
    let c2 = carried_timer(c + more, interval);
    let k2 = due_reveals(c + more, interval);
    lemma_timer_split(c + more, interval);
    assert((k2 + k) * interval == k2 * interval + k * interval) by (nonlinear_arith);
    lemma_timer_split_unique(timer + more, interval, k2 + k, c2);
}

/// More time never makes fewer characters due.
pub proof fn lemma_due_reveals_monotone(timer: nat, more: nat, interval: nat)
    requires
        interval > 0,
    ensures
        due_reveals(timer, interval) <= due_reveals(timer + more, interval),
{
    lemma_due_reveals_add(timer, more, interval);
}

/// `n` characters are due exactly when the timer exceeds `n` intervals.
pub proof fn lemma_due_reveals_threshold(timer: nat, interval: nat, n: nat)
    requires
        interval > 0,
    ensures
        due_reveals(timer, interval) >= n <==> (n == 0 || timer > n * interval),
{
    lemma_timer_split(timer, interval);
    let k = due_reveals(timer, interval);
    let c = carried_timer(timer, interval);
    if n > 0 {
        if k >= n {
            lemma_mul_inequality(n as int, k as int, interval as int);
            assert(timer > 0) by {
                if timer == 0 {
                    assert(k == 0);
                }
            }
        } else {
            lemma_mul_inequality(k as int + 1, n as int, interval as int);
            assert((k + 1) * interval == k * interval + interval) by (nonlinear_arith);
        }
    }
}

/// The number of due characters in closed form.
pub proof fn lemma_due_reveals_quotient(timer: nat, interval: nat)
    requires
        interval > 0,
        timer > 0,
    ensures
        due_reveals(timer, interval) == (timer - 1) / (interval as int),
        carried_timer(timer, interval) == (timer - 1) % (interval as int) + 1,
{
    let q = (timer - 1) / (interval as int);
    let r = (timer - 1) % (interval as int);
    lemma_fundamental_div_mod(timer - 1, interval as int);
    lemma_mod_bound(timer - 1, interval as int);
    assert(q >= 0) by (nonlinear_arith)
        requires
            timer - 1 == interval * q + r,
            0 <= r < interval,
            timer >= 1,
            interval > 0,
    ;
    assert(interval * q == q * interval) by (nonlinear_arith);
    lemma_timer_split_unique(timer, interval, q as nat, (r + 1) as nat);
}

// ---------------------------------------------------------------------------
// Laws of the typewriter
// ---------------------------------------------------------------------------

/// A frame keeps a valid typewriter valid, keeps its text and interval, and
/// hides nothing that was shown.
pub proof fn lemma_tick_preserves(s: DialogueView, dt: nat)
    requires
        s.wf(),
    ensures
        s.tick(dt).wf(),
        s.tick(dt).target == s.target,
        s.tick(dt).interval == s.interval,
        s.tick(dt).visible >= s.visible,
{
    lemma_timer_split(s.timer + dt, s.interval);
}

/// Frames keep a valid typewriter valid, and the number of characters shown
/// never goes down, whatever the frame times are.
pub proof fn lemma_run_monotone(s: DialogueView, dts: Seq<nat>)
    requires
        s.wf(),
    ensures
        s.run(dts).wf(),
        s.run(dts).target == s.target,
        s.run(dts).interval == s.interval,
        s.run(dts).visible >= s.visible,
    decreases dts.len(),
{
    if dts.len() > 0 {
        lemma_tick_preserves(s, dts[0]);
        lemma_run_monotone(s.tick(dts[0]), dts.drop_first());
    }
}

/// Running the frames `dts` is running the first `k` of them and then the
/// rest.
pub proof fn lemma_run_split(s: DialogueView, dts: Seq<nat>, k: int)
    requires
        0 <= k <= dts.len(),
    ensures
        s.run(dts) == s.run(dts.take(k)).run(dts.skip(k)),
    decreases k,
{
    if k == 0 {
        assert(dts.skip(0) =~= dts);
    } else {
        let rest = dts.drop_first();
        lemma_run_split(s.tick(dts[0]), rest, k - 1);
        assert(dts.take(k).drop_first() =~= rest.take(k - 1));
        assert(dts.take(k)[0] == dts[0]);
        assert(dts.skip(k) =~= rest.skip(k - 1));
    }
}

/// The number of characters shown is non-decreasing along any sequence of
/// frames: after `j` frames at least as many are shown as after `i <= j`.
pub proof fn lemma_visible_non_decreasing(s: DialogueView, dts: Seq<nat>, i: int, j: int)
    requires
        s.wf(),
        0 <= i <= j <= dts.len(),
    ensures
        s.run(dts.take(i)).visible <= s.run(dts.take(j)).visible,
{
    let upto_j = dts.take(j);
    lemma_run_split(s, upto_j, i);
    assert(upto_j.take(i) =~= dts.take(i));
    lemma_run_monotone(s, dts.take(i));
    lemma_run_monotone(s.run(dts.take(i)), upto_j.skip(i));
}

/// What is shown after any sequence of frames depends on their total time
/// alone: it is what was shown before plus the characters due for the timer
/// plus that total, up to the end of the text.
pub proof fn lemma_run_depends_on_total(s: DialogueView, dts: Seq<nat>)
    requires
        s.wf(),
    ensures
        s.run(dts).visible == at_most(
            s.visible + due_reveals(s.timer + total_time(dts), s.interval),
            s.target.len(),
        ),
    decreases dts.len(),
{
    if dts.len() == 0 {
        lemma_timer_split(s.timer, s.interval);
        assert(due_reveals(s.timer, s.interval) == 0);
    } else {
        let next = s.tick(dts[0]);
        let rest = dts.drop_first();
        lemma_tick_preserves(s, dts[0]);
        lemma_run_depends_on_total(next, rest);
        lemma_run_monotone(next, rest);
        if s.is_revealing() {
            let gathered = s.timer + dts[0];
            lemma_due_reveals_add(gathered, total_time(rest), s.interval);
            lemma_due_reveals_monotone(gathered, total_time(rest), s.interval);
        }
    }
}

/// Once the timer and the frames together exceed one interval for each
/// hidden character, the whole text is shown, however the time was cut into
/// frames.
pub proof fn lemma_fully_revealed_after(s: DialogueView, dts: Seq<nat>)
    requires
        s.wf(),
        s.timer + total_time(dts) > (s.target.len() - s.visible) * s.interval,
    ensures
        s.run(dts).is_idle(),
{
    let hidden = (s.target.len() - s.visible) as nat;
    lemma_run_monotone(s, dts);
    lemma_run_depends_on_total(s, dts);
    lemma_due_reveals_threshold(s.timer + total_time(dts), s.interval, hidden);
}

/// A click shows the whole text, in any state and whatever the timer holds,
/// and changes nothing else.
pub proof fn lemma_skip_to_end_is_idle(s: DialogueView)
    requires
        s.wf(),
    ensures
        s.skip_to_end().is_idle(),
        s.skip_to_end().wf(),
        s.skip_to_end().visible == s.target.len(),
        s.skip_to_end().timer == s.timer,
        s.skip_to_end().target == s.target,
        s.skip_to_end().visible_text() == s.target,
{
    assert(s.target.take(s.target.len() as int) =~= s.target);
}

// ---------------------------------------------------------------------------
// The typewriter
// ---------------------------------------------------------------------------

/// A typewriter: the text, how much of it is shown, and the reveal timer.
#[derive(Debug, PartialEq, Eq)]
pub struct DialogueState {
    target: Vec<char>,
    visible_count: usize,
    timer: u64,
    interval: u64,
}

impl View for DialogueState {
    type V = DialogueView;

    closed spec fn view(&self) -> DialogueView {
        DialogueView {
            target: self.target@,
            visible: self.visible_count as nat,
            timer: self.timer as nat,
            interval: self.interval as nat,
        }
    }
}

impl DialogueState {
    #[verifier::type_invariant]
    closed spec fn inv(self) -> bool {
        self@.wf()
    }

    /// A typewriter for `text` with nothing shown yet, an empty timer and the
    /// standard interval.
    pub fn new(text: &str) -> (state: DialogueState)
        ensures
            state@ == (DialogueView {
                target: text@,
                visible: 0,
                timer: 0,
                interval: REVEAL_INTERVAL_MICROS as nat,
            }),
    {
        DialogueState {
            target: chars_of(text),
            visible_count: 0,
            timer: 0,
            interval: REVEAL_INTERVAL_MICROS,
        }
    }

    /// Replaces the text and hides all of it. The timer keeps what it has.
    pub fn set_text(&mut self, text: &str)
        ensures
            final(self)@ == old(self)@.set_text(text@),
    {
        proof {
            use_type_invariant(&*self);
        }
        self.visible_count = 0;
        self.target = chars_of(text);
    }

    /// One frame of `dt_micros` microseconds. Returns how many characters it
    /// brought to light.
    pub fn tick(&mut self, dt_micros: u64) -> (revealed: usize)
        ensures
            final(self)@ == old(self)@.tick(dt_micros as nat),
            revealed == final(self)@.visible - old(self)@.visible,
    {
        proof {
            use_type_invariant(&*self);
        }
        let hidden: usize = self.target.len() - self.visible_count;
        if hidden == 0 {
            return 0;
        }
        let gathered: u128 = self.timer as u128 + dt_micros as u128;
        if gathered == 0 {
            proof {
                lemma_timer_split(0, self.interval as nat);
            }
            return 0;
        }
        let interval: u128 = self.interval as u128;
        let due: u128 = (gathered - 1) / interval;
        let carried: u128 = (gathered - 1) % interval + 1;
        proof {
            lemma_due_reveals_quotient(gathered as nat, interval as nat);
        }
        let revealed: usize = if due >= hidden as u128 {
            hidden
        } else {
            due as usize
        };
        self.timer = carried as u64;
        self.visible_count = self.visible_count + revealed;
        revealed
    }

    /// A click on the dialogue: the whole text is shown at once.
    pub fn skip_to_end(&mut self)
        ensures
            final(self)@ == old(self)@.skip_to_end(),
    {
        proof {
            use_type_invariant(&*self);
        }
        self.visible_count = self.target.len();
    }

    /// The part of the text that is shown.
    pub fn visible_text(&self) -> (shown: String)
        ensures
            shown@ == self@.visible_text(),
    {
        proof {
            use_type_invariant(self);
        }
        let shown = slice_of(&self.target, 0, self.visible_count);
        string_of(&shown)
    }

    /// The full text.
    pub fn target_text(&self) -> (full: String)
        ensures
            full@ == self@.target,
    {
        string_of(&self.target)
    }

    /// How many characters are shown.
    pub fn visible_count(&self) -> (count: usize)
        ensures
            count == self@.visible,
    {
        self.visible_count
    }

    /// How many characters the text has.
    pub fn target_len(&self) -> (len: usize)
        ensures
            len == self@.target.len(),
    {
        self.target.len()
    }

    /// Whether something is still hidden.
    pub fn is_revealing(&self) -> (yes: bool)
        ensures
            yes == self@.is_revealing(),
    {
        self.visible_count < self.target.len()
    }

    /// Time gathered towards the next character, in microseconds.
    pub fn timer_micros(&self) -> (timer: u64)
        ensures
            timer == self@.timer,
    {
        self.timer
    }

    /// Time that one character costs, in microseconds.
    pub fn interval_micros(&self) -> (interval: u64)
        ensures
            interval == self@.interval,
    {
        self.interval
    }
}

} // verus!
