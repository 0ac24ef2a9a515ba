//! Bounded retries of fallible remote calls, with a fixed or doubling delay.
use vstd::prelude::*;

verus! {

pub open spec fn doubling(n: nat) -> nat
    decreases n,
{
    if n == 0 {
        1
    } else {
        2 * doubling((n - 1) as nat)
    }
}

proof fn lemma_doubling_mono(a: nat, b: nat)
    requires
        a <= b,
    ensures
        1 <= doubling(a) <= doubling(b),
    decreases b,
{
    if a < b {
        lemma_doubling_mono(a, (b - 1) as nat);
    } else if a > 0 {
        lemma_doubling_mono((a - 1) as nat, (a - 1) as nat);
    }
}

proof fn lemma_doubling_31()
    ensures
        doubling(31) == 0x8000_0000,
{
    assert(doubling(0) == 1);
    assert(doubling(1) == 2);
    assert(doubling(2) == 4);
    assert(doubling(3) == 8);
    assert(doubling(4) == 16);
    assert(doubling(5) == 32);
    assert(doubling(6) == 64);
    assert(doubling(7) == 128);
    assert(doubling(8) == 256);
    assert(doubling(9) == 512);
    assert(doubling(10) == 1024);
    assert(doubling(11) == 2048);
    assert(doubling(12) == 4096);
    assert(doubling(13) == 8192);
    assert(doubling(14) == 16384);
    assert(doubling(15) == 32768);
    assert(doubling(16) == 65536);
    assert(doubling(17) == 131072);
    assert(doubling(18) == 262144);
    assert(doubling(19) == 524288);
    assert(doubling(20) == 1048576);
    assert(doubling(21) == 2097152);
    assert(doubling(22) == 4194304);
    assert(doubling(23) == 8388608);
    assert(doubling(24) == 16777216);
    assert(doubling(25) == 33554432);
    assert(doubling(26) == 67108864);
    assert(doubling(27) == 134217728);
    assert(doubling(28) == 268435456);
    assert(doubling(29) == 536870912);
    assert(doubling(30) == 1073741824);
    assert(doubling(31) == 2147483648);
}

/// How often a remote call is tried and how long to wait between tries.
pub struct RetryPolicy {
    pub max_attempts: u32,
    pub base_delay_secs: u64,
    /// The delay doubles after each failed attempt.
    pub exponential: bool,
}

/// What to do after a failed attempt.
pub enum RetryStep {
    Retry { delay_secs: u64 },
    GiveUp,
}

pub open spec fn delay_spec(p: RetryPolicy, attempt: nat) -> nat {
    if p.exponential {
        (p.base_delay_secs * doubling((attempt - 1) as nat)) as nat
    } else {
        p.base_delay_secs as nat
    }
}

impl RetryPolicy {
    pub open spec fn valid(&self) -> bool {
        1 <= self.max_attempts <= 32 && self.base_delay_secs <= 0xffff_ffff
    }

    /// Status edits: three attempts, waiting 1 s, then 2 s.
    pub fn status_edit() -> (r: RetryPolicy)
        ensures
            r.valid(),
            r == (RetryPolicy { max_attempts: 3, base_delay_secs: 1, exponential: true }),
    {
        RetryPolicy { max_attempts: 3, base_delay_secs: 1, exponential: true }
    }

    /// File lookups on the platform: three attempts, 5 s apart.
    pub fn file_lookup() -> (r: RetryPolicy)
        ensures
            r.valid(),
            r == (RetryPolicy { max_attempts: 3, base_delay_secs: 5, exponential: false }),
    {
        RetryPolicy { max_attempts: 3, base_delay_secs: 5, exponential: false }
    }

    /// The step after attempt number `attempt` (from 1) has failed: give up after
    /// the last attempt, else wait and try again.
    pub fn after_failure(&self, attempt: u32) -> (r: RetryStep)
        requires
            self.valid(),
            1 <= attempt <= self.max_attempts,
        ensures
            attempt == self.max_attempts ==> r == RetryStep::GiveUp,
            attempt < self.max_attempts ==> r == (RetryStep::Retry {
                delay_secs: delay_spec(*self, attempt as nat) as u64,
            }),
            attempt < self.max_attempts ==> delay_spec(*self, attempt as nat) <= u64::MAX,
    {
        if attempt >= self.max_attempts {
            return RetryStep::GiveUp;
        }
        if !self.exponential {
            return RetryStep::Retry { delay_secs: self.base_delay_secs };
        }
        let mut d: u64 = self.base_delay_secs;
        let mut k: u32 = 1;
        assert(doubling(0) == 1);
        assert(self.base_delay_secs * doubling(0) == self.base_delay_secs) by (nonlinear_arith)
            requires
                doubling(0) == 1,
        ;
        while k < attempt
            invariant
                1 <= k <= attempt,
                attempt <= 32,
                self.base_delay_secs <= 0xffff_ffff,
                d == self.base_delay_secs * doubling((k - 1) as nat),
            decreases attempt - k,
        {
            proof {
                lemma_doubling_mono(k as nat, 31);
                lemma_doubling_31();
                let b = self.base_delay_secs as nat;
                let dk = doubling(k as nat);
                assert(b * dk <= 0xffff_ffff * 0x8000_0000) by (nonlinear_arith)
                    requires
                        b <= 0xffff_ffff,
                        dk <= 0x8000_0000,
                ;
                assert(doubling(k as nat) == 2 * doubling((k - 1) as nat));
                assert(b * dk == 2 * (b * doubling((k - 1) as nat))) by (nonlinear_arith)
                    requires
                        dk == 2 * doubling((k - 1) as nat),
                ;
            }
            d = d * 2;
            k = k + 1;
        }
        RetryStep::Retry { delay_secs: d }
    }
}

} // verus!
