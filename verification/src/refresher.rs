//! The token refresher: a counter of refresh cycles, the wait before each, and
//! the token that each cycle writes into the cache.
//!
//! The loop that sleeps and takes the cache's lock belongs to the caller. It
//! calls [`Refresher::begin_cycle`], sleeps for as long as that says, and then
//! calls [`Refresher::complete_cycle`] with the cache.

use vstd::prelude::*;
use vstd::string::StringExecFns;
use crate::cache::{token_key, TokenCache};

verus! {

/// The seconds to wait before every cycle but the first.
pub const REFRESH_INTERVAL_SECS: u64 = 5;

/// The decimal digit for `d`, which is below ten.
pub open spec fn digit_char(d: nat) -> char {
    if d == 0 {
        '0'
    } else if d == 1 {
        '1'
    } else if d == 2 {
        '2'
    } else if d == 3 {
        '3'
    } else if d == 4 {
        '4'
    } else if d == 5 {
        '5'
    } else if d == 6 {
        '6'
    } else if d == 7 {
        '7'
    } else if d == 8 {
        '8'
    } else {
        '9'
    }
}

/// `n` in decimal digits, without leading zeros.
pub open spec fn decimal(n: nat) -> Seq<char>
    decreases n,
{
    if n < 10 {
        seq![digit_char(n)]
    } else {
        decimal(n / 10).push(digit_char(n % 10))
    }
}

/// The token that cycle number `count` writes: the word `token` and the
/// number of the cycle behind it.
pub open spec fn token_value(count: nat) -> Seq<char> {
    "token"@ + decimal(count)
}

/// The state of the refresher between two steps.
pub struct RefresherState {
    /// The number of cycles begun so far.
    pub count: nat,
    /// The seconds to wait in the next cycle.
    pub interval: nat,
}

/// The state before the first cycle: nothing counted, and no wait.
pub open spec fn initial_state() -> RefresherState {
    RefresherState { count: 0, interval: 0 }
}

/// The state after a cycle has begun: one more cycle is counted.
pub open spec fn begun(state: RefresherState) -> RefresherState {
    RefresherState { count: state.count + 1, interval: state.interval }
}

/// The state after a cycle is complete: every later cycle waits the steady
/// interval.
pub open spec fn completed(state: RefresherState) -> RefresherState {
    RefresherState { count: state.count, interval: REFRESH_INTERVAL_SECS as nat }
}

/// The cache after the cycle that `state` counts has written its token.
pub open spec fn refreshed(state: RefresherState, cache: Map<Seq<char>, Seq<char>>) -> Map<
    Seq<char>,
    Seq<char>,
> {
    cache.insert(token_key(), token_value(state.count))
}

fn digit(d: u64) -> (text: &'static str)
    requires
        d < 10,
    ensures
        text@ == seq![digit_char(d as nat)],
{
    proof {
        reveal_strlit("0");
        reveal_strlit("1");
        reveal_strlit("2");
        reveal_strlit("3");
        reveal_strlit("4");
        reveal_strlit("5");
        reveal_strlit("6");
        reveal_strlit("7");
        reveal_strlit("8");
        reveal_strlit("9");
    }
    let text = if d == 0 {
        "0"
    } else if d == 1 {
        "1"
    } else if d == 2 {
        "2"
    } else if d == 3 {
        "3"
    } else if d == 4 {
        "4"
    } else if d == 5 {
        "5"
    } else if d == 6 {
        "6"
    } else if d == 7 {
        "7"
    } else if d == 8 {
        "8"
    } else {
        "9"
    };
    assert(text@ =~= seq![digit_char(d as nat)]);
    text
}

fn push_decimal(text: &mut String, n: u64)
    ensures
        final(text)@ == old(text)@ + decimal(n as nat),
    decreases n,
{
    if n >= 10 {
        push_decimal(text, n / 10);
    }
    text.append(digit(n % 10));
    proof {
        if n >= 10 {
            assert(old(text)@ + decimal((n / 10) as nat) + seq![digit_char((n % 10) as nat)]
                =~= old(text)@ + decimal(n as nat));
        }
    }
}

/// The token for cycle number `count`.
pub fn token_for(count: u64) -> (token: String)
    ensures
        token@ == token_value(count as nat),
{
    let mut token = "token".to_owned();
    push_decimal(&mut token, count);
    token
}

/// The refresher's counter and wait.
pub struct Refresher {
    count: u64,
    interval: u64,
}

impl View for Refresher {
    type V = RefresherState;

    closed spec fn view(&self) -> RefresherState {
        RefresherState { count: self.count as nat, interval: self.interval as nat }
    }
}

impl Refresher {
    /// A refresher that has run no cycle yet. Its first cycle does not wait.
    pub fn new() -> (refresher: Self)
        ensures
            refresher@ == initial_state(),
    {
        Refresher { count: 0, interval: 0 }
    }

    /// The number of cycles begun so far.
    pub fn count(&self) -> (count: u64)
        ensures
            count == self@.count,
    {
        self.count
    }

    /// The seconds that the next cycle waits.
    pub fn interval(&self) -> (secs: u64)
        ensures
            secs == self@.interval,
    {
        self.interval
    }

    /// Begins a cycle: counts it and says how many seconds to wait before the
    /// cycle is completed.
    pub fn begin_cycle(&mut self) -> (wait_secs: u64)
        requires
            old(self)@.count < u64::MAX,
        ensures
            wait_secs == old(self)@.interval,
            final(self)@ == begun(old(self)@),
    {
        self.count = self.count + 1;
        self.interval
    }

    /// Completes the cycle that was begun last: writes its token into `cache`
    /// under the fixed key, and sets the wait for the cycles to come.
    pub fn complete_cycle(&mut self, cache: &mut TokenCache)
        ensures
            final(self)@ == completed(old(self)@),
            final(cache)@ == refreshed(old(self)@, old(cache)@),
    {
        self.interval = REFRESH_INTERVAL_SECS;
        cache.set("token".to_owned(), token_for(self.count));
    }
}


/// The refresher's state after `cycles` whole cycles.
pub open spec fn state_after(cycles: nat) -> RefresherState
    decreases cycles,
{
    if cycles == 0 {
        initial_state()
    } else {
        completed(begun(state_after((cycles - 1) as nat)))
    }
}

/// The cache after `cycles` whole cycles, where it held `cache` before the
/// first.
pub open spec fn cache_after(cache: Map<Seq<char>, Seq<char>>, cycles: nat) -> Map<
    Seq<char>,
    Seq<char>,
>
    decreases cycles,
{
    if cycles == 0 {
        cache
    } else {
        refreshed(begun(state_after((cycles - 1) as nat)), cache_after(cache, (cycles - 1) as nat))
    }
}

/// After any number of cycles the refresher has counted exactly that many.
/// Once a cycle has run, the cache holds under the fixed key the token of the
/// last cycle, every further cycle waits the steady interval, and what the
/// cache holds under other keys is what it held before the first cycle.
pub proof fn law_cache_after_cycles(cache: Map<Seq<char>, Seq<char>>, cycles: nat)
    ensures
        state_after(cycles).count == cycles,
        state_after(cycles).interval == if cycles == 0 {
            0
        } else {
            REFRESH_INTERVAL_SECS as nat
        },
        cycles >= 1 ==> cache_after(cache, cycles).dom().contains(token_key()) && cache_after(
            cache,
            cycles,
        )[token_key()] == token_value(cycles),
        forall|key: Seq<char>|
            key != token_key() ==> (#[trigger] cache_after(cache, cycles).dom().contains(key)
                <==> cache.dom().contains(key)) && cache_after(cache, cycles)[key] == cache[key],
    decreases cycles,
{
    if cycles > 0 {
        law_cache_after_cycles(cache, (cycles - 1) as nat);
    }
}

proof fn lemma_digit_char_injective(a: nat, b: nat)
    requires
        a < 10,
        b < 10,
        digit_char(a) == digit_char(b),
    ensures
        a == b,
{
}

proof fn lemma_decimal_injective(a: nat, b: nat)
    requires
        decimal(a) == decimal(b),
    ensures
        a == b,
    decreases a,
{
    if a < 10 && b < 10 {
        assert(decimal(a)[0] == digit_char(a));
        assert(decimal(b)[0] == digit_char(b));
        lemma_digit_char_injective(a, b);
    } else if a >= 10 && b >= 10 {
        let front_a = decimal(a / 10);
        let front_b = decimal(b / 10);
        assert(decimal(a).last() == digit_char(a % 10));
        assert(decimal(b).last() == digit_char(b % 10));
        lemma_digit_char_injective(a % 10, b % 10);
        assert(decimal(a).drop_last() =~= front_a);
        assert(decimal(b).drop_last() =~= front_b);
        lemma_decimal_injective(a / 10, b / 10);
    } else if a < 10 {
        lemma_decimal_len(b / 10);
        assert(decimal(a).len() == 1);
        assert(decimal(b).len() >= 2);
    } else {
        lemma_decimal_len(a / 10);
        assert(decimal(b).len() == 1);
        assert(decimal(a).len() >= 2);
    }
}

proof fn lemma_decimal_len(n: nat)
    ensures
        decimal(n).len() >= 1,
    decreases n,
{
    if n >= 10 {
        lemma_decimal_len(n / 10);
    }
}

/// No two cycles write the same token.
pub proof fn law_tokens_differ(a: nat, b: nat)
    requires
        a != b,
    ensures
        token_value(a) != token_value(b),
{
    if token_value(a) == token_value(b) {
        let prefix = "token"@;
        assert(token_value(a).subrange(prefix.len() as int, token_value(a).len() as int)
            =~= decimal(a));
        assert(token_value(b).subrange(prefix.len() as int, token_value(b).len() as int)
            =~= decimal(b));
        lemma_decimal_injective(a, b);
    }
}

} // verus!
