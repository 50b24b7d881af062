//! A textual progress bar: a counter that renders itself as one line of text.
//!
//! The bar only computes the line. Writing it to a terminal is left to the caller.

use crate::text::{
    append_decimal, append_repeated, decimal, lemma_decimal_len, lemma_repeated_char, repeated,
};
use vstd::prelude::*;

verus! {

/// The state of a progress bar as mathematical integers.
pub struct Progress {
    /// Units of work done so far.
    pub complete: nat,
    /// Units of work in all.
    pub total: nat,
    /// Width of the bar in cells.
    pub length: nat,
}

impl Progress {
    /// The number of cells drawn as done: the done share of `length`, rounded down.
    pub open spec fn filled(self) -> nat {
        self.complete * self.length / self.total
    }

    /// The done share of the work in percent, rounded down.
    pub open spec fn percentage(self) -> nat {
        self.complete * 100 / self.total
    }

    /// The state after `step` more units of work.
    pub open spec fn advanced(self, step: nat) -> Progress {
        Progress { complete: self.complete + step, total: self.total, length: self.length }
    }

    /// Whether the bar can be drawn: there is work to measure against, the two products fit
    /// in a machine word, and the done cells fit in the bar.
    pub open spec fn drawable(self) -> bool {
        &&& self.total > 0
        &&& self.complete <= usize::MAX
        &&& self.complete * self.length <= usize::MAX
        &&& self.complete * 100 <= usize::MAX
        &&& self.filled() <= self.length
    }

    /// The rendered line: a carriage return, the bar between square brackets with `#` for
    /// each done cell and `-` for each remaining one, a space, and the percentage.
    pub open spec fn line(self) -> Seq<char> {
        seq!['\r', '['] + repeated(seq!['#'], self.filled()) + repeated(
            seq!['-'],
            (self.length - self.filled()) as nat,
        ) + seq![']', ' '] + decimal(self.percentage()) + seq!['%']
    }
}

/// A progress bar over `total` units of work, drawn `length` cells wide.
pub struct ProgressBar {
    complete: usize,
    total: usize,
    length: usize,
}

impl View for ProgressBar {
    type V = Progress;

    closed spec fn view(&self) -> Progress {
        Progress {
            complete: self.complete as nat,
            total: self.total as nat,
            length: self.length as nat,
        }
    }
}

impl ProgressBar {
    /// A bar with no work done yet.
    pub fn new(total: usize, length: usize) -> (bar: Self)
        ensures
            bar@ == (Progress { complete: 0, total: total as nat, length: length as nat }),
    {
        ProgressBar { complete: 0, total, length }
    }

    /// Whether [`ProgressBar::increment`] accepts `step`: whether the bar can still be drawn
    /// after `step` more units of work.
    pub fn can_increment(&self, step: usize) -> (ok: bool)
        ensures
            ok == self@.advanced(step as nat).drawable(),
    {
        if self.total == 0 {
            return false;
        }
        let complete: usize = match self.complete.checked_add(step) {
            Some(sum) => sum,
            None => {
                return false;
            },
        };
        let cells: usize = match complete.checked_mul(self.length) {
            Some(product) => product,
            None => {
                return false;
            },
        };
        if cells / self.total > self.length {
            return false;
        }
        complete.checked_mul(100).is_some()
    }

    /// Counts `step` more units of work as done and returns the line that shows the new state.
    pub fn increment(&mut self, step: usize) -> (line: String)
        requires
            old(self)@.advanced(step as nat).drawable(),
        ensures
            final(self)@ == old(self)@.advanced(step as nat),
            line@ == final(self)@.line(),
    {
        self.complete = self.complete + step;
        let complete_length: usize = (self.complete * self.length) / self.total;
        let incomplete_length: usize = self.length - complete_length;
        let percentage: usize = (self.complete * 100) / self.total;

        let mut line = String::new();
        proof {
            reveal_strlit("\r[");
            reveal_strlit("#");
            reveal_strlit("-");
            reveal_strlit("] ");
            reveal_strlit("%");
        }
        line.append("\r[");
        append_repeated(&mut line, "#", complete_length);
        append_repeated(&mut line, "-", incomplete_length);
        line.append("] ");
        append_decimal(&mut line, percentage as u64);
        line.append("%");
        proof {
            assert("\r["@ =~= seq!['\r', '[']);
            assert("#"@ =~= seq!['#']);
            assert("-"@ =~= seq!['-']);
            assert("] "@ =~= seq![']', ' ']);
            assert("%"@ =~= seq!['%']);
            assert(line@ =~= self@.line());
        }
        line
    }
}

/// While no more work is counted than there is in all, and `total * length` and
/// `total * 100` fit in a machine word, the bar can be drawn: the done cells stay within the
/// bar, the percentage within one hundred, and the line within eight characters more than
/// the bar is wide.
pub proof fn lemma_drawable_up_to_total(p: Progress)
    requires
        p.total > 0,
        p.complete <= p.total,
        p.total * p.length <= usize::MAX,
        p.total * 100 <= usize::MAX,
    ensures
        p.drawable(),
        p.filled() <= p.length,
        p.percentage() <= 100,
        p.line().len() <= p.length + 8,
{
    let c = p.complete as int;
    let t = p.total as int;
    let l = p.length as int;
    assert(c * l <= t * l && c * 100 <= t * 100 && t <= t * 100) by (nonlinear_arith)
        requires
            0 <= c <= t,
            0 <= l,
    ;
    assert((c * l) / t <= l) by {
        vstd::arithmetic::div_mod::lemma_div_is_ordered(c * l, t * l, t);
        vstd::arithmetic::div_mod::lemma_div_multiples_vanish(l, t);
        assert(t * l == l * t) by (nonlinear_arith);
    }
    assert((c * 100) / t <= 100) by {
        vstd::arithmetic::div_mod::lemma_div_is_ordered(c * 100, t * 100, t);
        vstd::arithmetic::div_mod::lemma_div_multiples_vanish(100, t);
        assert(t * 100 == 100 * t) by (nonlinear_arith);
    }
    assert(decimal(p.percentage()).len() <= 3) by {
        reveal_with_fuel(vstd::arithmetic::power::pow, 4);
        lemma_decimal_len(p.percentage(), 3);
    }
    lemma_line_len(p);
}

/// When all the work is done, every cell is drawn as done and the percentage is one hundred.
pub proof fn lemma_full_bar(p: Progress)
    requires
        p.total > 0,
        p.complete == p.total,
    ensures
        p.filled() == p.length,
        p.percentage() == 100,
{
    let t = p.total as int;
    let l = p.length as int;
    vstd::arithmetic::div_mod::lemma_div_multiples_vanish(l, t);
    vstd::arithmetic::div_mod::lemma_div_multiples_vanish(100, t);
    assert(t * l == l * t) by (nonlinear_arith);
    assert(t * 100 == 100 * t) by (nonlinear_arith);
}

/// Counting more work never draws fewer done cells nor a smaller percentage.
pub proof fn lemma_bar_monotonic(p: Progress, step: nat)
    requires
        p.total > 0,
    ensures
        p.filled() <= p.advanced(step).filled(),
        p.percentage() <= p.advanced(step).percentage(),
{
    let c = p.complete as int;
    let t = p.total as int;
    let l = p.length as int;
    let s = step as int;
    assert(c * l <= (c + s) * l && c * 100 <= (c + s) * 100) by (nonlinear_arith)
        requires
            0 <= c,
            0 <= s,
            0 <= l,
    ;
    vstd::arithmetic::div_mod::lemma_div_is_ordered(c * l, (c + s) * l, t);
    vstd::arithmetic::div_mod::lemma_div_is_ordered(c * 100, (c + s) * 100, t);
}

/// The bar proper is always `length` cells wide: the line is five characters and the digits
/// of the percentage longer than that.
pub proof fn lemma_line_len(p: Progress)
    requires
        p.filled() <= p.length,
    ensures
        p.line().len() == p.length + 5 + decimal(p.percentage()).len(),
{
    lemma_repeated_char('#', p.filled());
    lemma_repeated_char('-', (p.length - p.filled()) as nat);
}

} // verus!
