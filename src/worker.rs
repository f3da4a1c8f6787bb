//! What the background workers decide: which counter a worker touches, and
//! the random waits and pages it draws. The waiting itself is left to the
//! caller.

use rand::Rng;
use vstd::prelude::*;
use vstd::string::StringExecFns;

verus! {

/// Shortest wait of a task worker between two increments, in milliseconds.
pub const TASK_DELAY_MIN_MS: u64 = 100;

/// Bound, not reached, of a task worker's wait, in milliseconds.
pub const TASK_DELAY_END_MS: u64 = 5000;

/// Shortest wait of a request worker between two increments, in milliseconds.
pub const REQUEST_DELAY_MIN_MS: u64 = 50;

/// Bound, not reached, of a request worker's wait, in milliseconds.
pub const REQUEST_DELAY_END_MS: u64 = 800;

/// Lowest page that a request worker can pick.
pub const PAGE_FIRST: u64 = 1;

/// Bound, not reached, of the pages that a request worker can pick.
pub const PAGE_END: u64 = 5;

/// The character of the decimal digit `d`.
pub open spec fn digit_char(d: nat) -> char {
    seq!['0', '1', '2', '3', '4', '5', '6', '7', '8', '9'][d as int]
}

/// The decimal digits of `n`, most significant first, without leading zeros.
pub open spec fn decimal(n: nat) -> Seq<char>
    decreases n,
{
    if n < 10 {
        seq![digit_char(n)]
    } else {
        decimal(n / 10).push(digit_char(n % 10))
    }
}

/// The counter of the task worker with index `idx`.
pub open spec fn task_key_spec(idx: nat) -> Seq<char> {
    "call.thread.worker."@ + decimal(idx)
}

/// The counter of the page `page` that request workers hit.
pub open spec fn page_key_spec(page: nat) -> Seq<char> {
    "req.page."@ + decimal(page)
}

fn digit_str(d: u64) -> (r: &'static str)
    requires
        d < 10,
    ensures
        r@ == seq![digit_char(d as nat)],
{
    proof {
        reveal_strlit("0");
        reveal_strlit("1");
        reveal_strlit("2");
        reveal_strlit("3");
        reveal_strlit("4");
        reveal_strlit("5");
        reveal_strlit("6");
        reveal_strlit("7");
        reveal_strlit("8");
        reveal_strlit("9");
    }
    match d {
        0 => "0",
        1 => "1",
        2 => "2",
        3 => "3",
        4 => "4",
        5 => "5",
        6 => "6",
        7 => "7",
        8 => "8",
        _ => "9",
    }
}

fn push_decimal(s: &mut String, n: u64)
    ensures
        final(s)@ == old(s)@ + decimal(n as nat),
    decreases n,
{
    if n >= 10 {
        push_decimal(s, n / 10);
    }
    s.append(digit_str(n % 10));
    proof {
        if n >= 10 {
            assert(decimal(n as nat) == decimal((n / 10) as nat).push(digit_char((n % 10) as nat)));
        }
    }
    assert(final(s)@ =~= old(s)@ + decimal(n as nat));
}

/// The name of the counter that the task worker with index `idx` increments.
pub fn task_key(idx: usize) -> (r: String)
    ensures
        r@ == task_key_spec(idx as nat),
{
    let mut s = String::from_str("call.thread.worker.");
    push_decimal(&mut s, idx as u64);
    s
}

/// The name of the counter that a request worker increments for `page`.
pub fn page_key(page: u64) -> (r: String)
    ensures
        r@ == page_key_spec(page as nat),
{
    let mut s = String::from_str("req.page.");
    push_decimal(&mut s, page);
    s
}

/// Relies on `rand::thread_rng` and `Rng::gen_range`: a number drawn from
/// `lo..hi`, which is never empty here. The thread's generator is its own,
/// so workers share no random state. `thread_rng` panics only where the
/// operating system cannot seed it, which no argument here can rule out.
#[verifier::external_body]
fn random_in(lo: u64, hi: u64) -> (r: u64)
    requires
        lo < hi,
    ensures
        lo <= r < hi,
{
    rand::thread_rng().gen_range(lo..hi)
}

/// How long a task worker waits before its next increment, in milliseconds.
pub fn task_delay_ms() -> (r: u64)
    ensures
        TASK_DELAY_MIN_MS <= r < TASK_DELAY_END_MS,
{
    random_in(TASK_DELAY_MIN_MS, TASK_DELAY_END_MS)
}

/// How long a request worker waits before its next increment, in milliseconds.
pub fn request_delay_ms() -> (r: u64)
    ensures
        REQUEST_DELAY_MIN_MS <= r < REQUEST_DELAY_END_MS,
{
    random_in(REQUEST_DELAY_MIN_MS, REQUEST_DELAY_END_MS)
}

/// The page that a request worker hits next, drawn anew for each increment.
pub fn pick_page() -> (r: u64)
    ensures
        PAGE_FIRST <= r < PAGE_END,
{
    random_in(PAGE_FIRST, PAGE_END)
}

} // verus!
