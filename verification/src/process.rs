//! Processes and their parents, as the kernel's `stat` record of a process
//! tells them.
use crate::notify::Lookup;
use vstd::prelude::*;

verus! {

/// What is known of a process.
#[derive(Debug, Clone, Copy, PartialEq, Eq, Structural)]
pub struct Process {
    /// The parent of the process; none for a process that the kernel
    /// started.
    pub ppid: Option<i64>,
}

/// Whether the byte is an ASCII digit.
pub open spec fn is_digit(b: u8) -> bool {
    0x30 <= b <= 0x39
}

/// The number that a sequence of ASCII digits writes in decimal.
pub open spec fn decimal(digits: Seq<u8>) -> int
    decreases digits.len(),
{
    if digits.len() == 0 {
        0
    } else {
        decimal(digits.drop_last()) * 10 + (digits.last() - 0x30)
    }
}

/// How many digits the sequence begins with.
pub open spec fn digit_run(s: Seq<u8>) -> int
    decreases s.len(),
{
    if s.len() > 0 && is_digit(s[0]) {
        1 + digit_run(s.drop_first())
    } else {
        0
    }
}

/// The position behind the last closing parenthesis, or 0 where there is
/// none.
pub open spec fn after_last_paren(s: Seq<u8>) -> int
    decreases s.len(),
{
    if s.len() == 0 {
        0
    } else if s.last() == 0x29 {
        s.len() as int
    } else {
        after_last_paren(s.drop_last())
    }
}

/// The parent that a `stat` record names. The record holds the name of the
/// program in parentheses; behind the last closing parenthesis come a space,
/// one character for the state, a space, and the parent in decimal. A record
/// of another shape names none, nor does one whose number is too large for
/// an `i64`.
pub open spec fn stat_ppid(stat: Seq<u8>) -> Option<int> {
    let rest = stat.skip(after_last_paren(stat));
    if after_last_paren(stat) > 0 && rest.len() >= 4 && rest[0] == 0x20 && rest[1] != 0x20
        && rest[2] == 0x20 {
        let digits = rest.skip(3).take(digit_run(rest.skip(3)));
        if digits.len() > 0 && decimal(digits) <= i64::MAX {
            Some(decimal(digits))
        } else {
            None
        }
    } else {
        None
    }
}

/// The process that a `stat` record describes. The parent 0 stands for no
/// parent.
pub open spec fn stat_process(stat: Seq<u8>) -> Option<Process> {
    match stat_ppid(stat) {
        Some(ppid) => Some(Process { ppid: if ppid == 0 { None } else { Some(ppid as i64) } }),
        None => None,
    }
}

/// The digits that a sequence begins with lie within it, are digits, and end
/// where the sequence ends or goes on with another byte.
pub proof fn lemma_digit_run(s: Seq<u8>)
    ensures
        0 <= digit_run(s) <= s.len(),
        forall|i: int| 0 <= i < digit_run(s) ==> is_digit(#[trigger] s[i]),
        digit_run(s) < s.len() ==> !is_digit(s[digit_run(s)]),
    decreases s.len(),
{
    if s.len() > 0 && is_digit(s[0]) {
        let t = s.drop_first();
        lemma_digit_run(t);
        assert forall|i: int| 0 <= i < digit_run(s) implies is_digit(#[trigger] s[i]) by {
            if i > 0 {
                assert(s[i] == t[i - 1]);
            }
        }
        if digit_run(s) < s.len() {
            assert(s[digit_run(s)] == t[digit_run(t)]);
        }
    }
}

/// A run of digits that ends before a byte that is no digit, or at the end,
/// is the run that the sequence begins with.
pub proof fn lemma_digit_run_is(s: Seq<u8>, n: int)
    requires
        0 <= n <= s.len(),
        forall|i: int| 0 <= i < n ==> is_digit(#[trigger] s[i]),
        n < s.len() ==> !is_digit(s[n]),
    ensures
        digit_run(s) == n,
    decreases s.len(),
{
    if n > 0 {
        assert(is_digit(s[0]));
        let t = s.drop_first();
        assert forall|i: int| 0 <= i < n - 1 implies is_digit(#[trigger] t[i]) by {
            assert(t[i] == s[i + 1]);
        }
        if n - 1 < t.len() {
            assert(t[n - 1] == s[n]);
        }
        lemma_digit_run_is(t, n - 1);
    }
}

/// Digits write no negative number.
pub proof fn lemma_decimal_nonnegative(digits: Seq<u8>)
    requires
        forall|i: int| 0 <= i < digits.len() ==> is_digit(#[trigger] digits[i]),
    ensures
        0 <= decimal(digits),
    decreases digits.len(),
{
    if digits.len() > 0 {
        let front = digits.drop_last();
        assert forall|i: int| 0 <= i < front.len() implies is_digit(#[trigger] front[i]) by {
            assert(front[i] == digits[i]);
        }
        lemma_decimal_nonnegative(front);
        assert(is_digit(digits[digits.len() - 1]));
    }
}

/// Computes [`after_last_paren`].
fn find_after_last_paren(stat: &[u8]) -> (at: usize)
    ensures
        at == after_last_paren(stat@),
        at <= stat@.len(),
{
    let mut at: usize = 0;
    let mut n: usize = 0;
    while n < stat.len()
        invariant
            n <= stat.len(),
            at <= n,
            at == after_last_paren(stat@.take(n as int)),
        decreases stat.len() - n,
    {
        assert(stat@.take(n + 1).drop_last() == stat@.take(n as int));
        if stat[n] == 0x29 {
            at = n + 1;
        }
        n += 1;
    }
    assert(stat@.take(stat@.len() as int) == stat@);
    at
}

/// Reads the process that a `stat` record describes, if the record has the
/// shape of one.
pub fn parse_stat(stat: &[u8]) -> (process: Option<Process>)
    ensures
        process == stat_process(stat@),
{
    let close = find_after_last_paren(stat);
    if close == 0 || stat.len() - close < 4 {
        return None;
    }
    let ghost rest = stat@.skip(close as int);
    assert(rest[0] == stat@[close as int]);
    assert(rest[1] == stat@[close + 1]);
    assert(rest[2] == stat@[close + 2]);
    if stat[close] != 0x20 || stat[close + 1] == 0x20 || stat[close + 2] != 0x20 {
        return None;
    }
    let begin: usize = close + 3;
    let ghost tail = rest.skip(3);
    assert(tail == stat@.skip(begin as int));
    let mut n: usize = begin;
    let mut value: i64 = 0;
    let mut fits = true;
    while n < stat.len() && stat[n] >= 0x30 && stat[n] <= 0x39
        invariant
            begin <= n <= stat.len(),
            tail == stat@.skip(begin as int),
            forall|i: int| 0 <= i < n - begin ==> is_digit(#[trigger] tail[i]),
            0 <= value,
            fits ==> value == decimal(tail.take(n - begin)),
            !fits ==> decimal(tail.take(n - begin)) > i64::MAX,
        decreases stat.len() - n,
    {
        let digit: i64 = (stat[n] - 0x30) as i64;
        proof {
            let done = tail.take(n - begin);
            let next = tail.take(n - begin + 1);
            assert(next.drop_last() == done);
            assert(next.last() == stat@[n as int]);
            assert(tail[n - begin] == stat@[n as int]);
            assert forall|i: int| 0 <= i < done.len() implies is_digit(#[trigger] done[i]) by {
                assert(done[i] == tail[i]);
            }
            lemma_decimal_nonnegative(done);
        }
        if fits && value <= (i64::MAX - digit) / 10 {
            value = value * 10 + digit;
        } else {
            fits = false;
        }
        n += 1;
    }
    proof {
        if n < stat.len() {
            assert(tail[n - begin] == stat@[n as int]);
        }
        lemma_digit_run_is(tail, n - begin);
    }
    if n == begin || !fits {
        return None;
    }
    if value == 0 {
        Some(Process { ppid: None })
    } else {
        Some(Process { ppid: Some(value) })
    }
}

/// What the lookup of a process's parent gave, given the process if it was
/// found.
pub fn lookup_of(process: Option<Process>) -> (outcome: Lookup)
    ensures
        outcome == match process {
            Some(Process { ppid: Some(parent) }) => Lookup::Parent(parent),
            Some(Process { ppid: None }) => Lookup::NoParent,
            None => Lookup::Failed,
        },
{
    match process {
        Some(Process { ppid: Some(parent) }) => Lookup::Parent(parent),
        Some(Process { ppid: None }) => Lookup::NoParent,
        None => Lookup::Failed,
    }
}

} // verus!
