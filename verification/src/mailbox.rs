//! Telling sessions apart for as long as they live.
//!
//! A session is pooled under its transcript path, and that path changes when Pi
//! reports one. Its token never does, so an event carries the token and the path
//! is looked up when the event is delivered.

use vstd::arithmetic::div_mod::lemma_fundamental_div_mod;
use vstd::prelude::*;

verus! {

/// A session's identity for the lifetime of its process.
#[derive(Clone, Copy, Debug, PartialEq, Eq, Structural, Hash, PartialOrd, Ord)]
pub struct SessionToken(u64);

/// The tokens that have been given out.
#[derive(Debug)]
pub struct TokenCounter {
    next: u64,
}

impl View for SessionToken {
    type V = u64;

    closed spec fn view(&self) -> u64 {
        self.0
    }
}

impl View for TokenCounter {
    type V = u64;

    /// The value of the token that comes next.
    closed spec fn view(&self) -> u64 {
        self.next
    }
}

/// The value that follows `n`, starting over behind the last one.
pub open spec fn token_after(n: u64) -> u64 {
    if n == u64::MAX {
        0
    } else {
        (n + 1) as u64
    }
}

/// The value of the token that is given out `k` tokens behind `n`.
pub open spec fn token_behind(n: u64, k: nat) -> u64
    decreases k,
{
    if k == 0 {
        n
    } else {
        token_after(token_behind(n, (k - 1) as nat))
    }
}

impl TokenCounter {
    /// No token has been given out.
    pub fn new() -> (r: TokenCounter)
        ensures
            r@ == 1,
    {
        TokenCounter { next: 1 }
    }
}

impl SessionToken {
    /// A token that no session has held before.
    pub fn next(counter: &mut TokenCounter) -> (r: SessionToken)
        ensures
            r@ == old(counter)@,
            final(counter)@ == token_after(old(counter)@),
    {
        let token = SessionToken(counter.next);
        counter.next = if counter.next == u64::MAX {
            0
        } else {
            counter.next + 1
        };
        token
    }

    /// The raw value, for logging.
    pub fn get(self) -> (r: u64)
        ensures
            r == self@,
    {
        self.0
    }

    /// Whether two tokens name the same session.
    pub fn is(self, other: SessionToken) -> (r: bool)
        ensures
            r == (self == other),
            r == (self@ == other@),
    {
        self.0 == other.0
    }
}

proof fn lemma_token_behind(n: u64, k: nat)
    ensures
        token_behind(n, k) == (n + k) % 0x1_0000_0000_0000_0000,
    decreases k,
{
    if k > 0 {
        lemma_token_behind(n, (k - 1) as nat);
        let before = (n + (k - 1)) % 0x1_0000_0000_0000_0000;
        assert((n + k) % 0x1_0000_0000_0000_0000 == if before == u64::MAX {
            0
        } else {
            before + 1
        }) by (nonlinear_arith)
            requires
                before == (n + (k - 1)) % 0x1_0000_0000_0000_0000,
                k > 0,
        ;
    }
}

/// No two of the tokens that one counter gives out are the same, as long as it
/// gives out no more than there are values.
pub proof fn lemma_tokens_are_unique(n: u64, i: nat, j: nat)
    requires
        i < j,
        j - i < 0x1_0000_0000_0000_0000,
    ensures
        token_behind(n, i) != token_behind(n, j),
{
    lemma_token_behind(n, i);
    lemma_token_behind(n, j);
    let m = 0x1_0000_0000_0000_0000int;
    if (n + i) % m == (n + j) % m {
        lemma_fundamental_div_mod(n + i, m);
        lemma_fundamental_div_mod(n + j, m);
        let d = (n + j) / m - (n + i) / m;
        assert(j - i == m * d) by (nonlinear_arith)
            requires
                n + i == m * ((n + i) / m) + (n + i) % m,
                n + j == m * ((n + j) / m) + (n + j) % m,
                (n + i) % m == (n + j) % m,
                d == (n + j) / m - (n + i) / m,
        ;
        assert(false) by (nonlinear_arith)
            requires
                0 < m * d < m,
                m > 0,
        ;
    }
}

} // verus!
