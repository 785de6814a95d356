//! Retry delays: fixed or exponential backoff with deterministic jitter.
use sha2::{Digest, Sha256};
use vstd::prelude::*;
use crate::duration::Duration;
use crate::error::{invalid_definition, DurableError, ErrorModel};

verus! {

/// The SHA-256 digest of a byte string.
pub uninterp spec fn sha256_digest(data: Seq<u8>) -> Seq<u8>;

/// Calls `sha2::Sha256::digest`: the digest is a function of the bytes alone
/// and has 32 bytes.
#[verifier::external_body]
pub(crate) fn sha256(data: &[u8]) -> (digest: Vec<u8>)
    ensures
        digest@ == sha256_digest(data@),
        digest@.len() == 32,
{
    Sha256::digest(data).to_vec()
}

/// The percentile that the first two bytes of a digest, read as a
/// little-endian number, select.
pub open spec fn percentile_of(first: u8, second: u8) -> int {
    (first + 256 * second) % 101
}

/// The percentile selected by the first two bytes of a digest.
pub fn percentile_from_bytes(first: u8, second: u8) -> (percentile: u8)
    ensures
        percentile == percentile_of(first, second),
        percentile <= 100,
{
    let value: u16 = (first as u32 + 256 * second as u32) as u16;
    (value % 101) as u8
}

/// Deterministic jitter percentile in `0..=100` derived from durable identifiers.
///
/// A stable hash, in place of a fixed mid-point, spreads retries after a
/// shared outage while remaining reproducible for the same seed.
pub fn deterministic_jitter_percentile(seed: &[u8]) -> (percentile: u8)
    ensures
        percentile == percentile_of(sha256_digest(seed@)[0], sha256_digest(seed@)[1]),
        percentile <= 100,
{
    let digest = sha256(seed);
    percentile_from_bytes(digest[0], digest[1])
}

/// How the delay before a retry is chosen.
#[derive(Debug, Clone, Copy, PartialEq, Eq, Structural)]
pub enum BackoffPolicy {
    Fixed { delay_secs: u64 },
    Exponential { initial_secs: u64, max_secs: u64, jitter_percent: u8 },
}

/// A validated backoff policy.
#[derive(Debug, Clone, Copy, PartialEq, Eq, Structural)]
pub struct RetryPolicy {
    backoff: BackoffPolicy,
}

/// The smaller of two integers.
pub open spec fn smaller(a: int, b: int) -> int {
    if a <= b {
        a
    } else {
        b
    }
}

/// The delay before jitter: the initial delay doubled once per earlier attempt
/// (at most 63 times), up to the maximum.
pub open spec fn exponential_base(initial_secs: int, max_secs: int, attempt: int) -> int {
    smaller(
        initial_secs * vstd::arithmetic::power2::pow2(smaller(attempt - 1, 63) as nat),
        max_secs,
    )
}

/// The delay with a spread of `jitter_percent` percent around `base`, at the
/// given percentile: percentile 0 is the lower end, 100 the upper end.
pub open spec fn jittered(base: int, jitter_percent: int, percentile: int) -> int {
    let spread = base * jitter_percent / 100;
    let offset = 2 * percentile - 100;
    if offset >= 0 {
        base + spread * offset / 100
    } else {
        let lowered = base - spread * (-offset) / 100;
        if lowered < 0 {
            0
        } else {
            lowered
        }
    }
}

/// The delay in seconds before the given attempt is retried, reduced modulo the
/// range of 64-bit numbers.
pub open spec fn delay_secs(backoff: BackoffPolicy, attempt: int, percentile: int) -> int {
    match backoff {
        BackoffPolicy::Fixed { delay_secs } => delay_secs as int,
        BackoffPolicy::Exponential { initial_secs, max_secs, jitter_percent } => jittered(
            exponential_base(initial_secs as int, max_secs as int, attempt),
            jitter_percent as int,
            percentile,
        ) % 0x1_0000_0000_0000_0000,
    }
}

/// Why a backoff policy is refused.
pub open spec fn backoff_error(backoff: BackoffPolicy) -> Option<Seq<char>> {
    match backoff {
        BackoffPolicy::Fixed { delay_secs } => if delay_secs == 0 {
            Some("fixed retry delay must be greater than zero"@)
        } else {
            None
        },
        BackoffPolicy::Exponential { initial_secs, max_secs, jitter_percent } => if initial_secs
            == 0 {
            Some("exponential initial delay must be greater than zero"@)
        } else if max_secs < initial_secs {
            Some("exponential max delay must be at least the initial delay"@)
        } else if jitter_percent > 100 {
            Some("retry jitter_percent cannot exceed 100"@)
        } else {
            None
        },
    }
}

/// Why a delay cannot be computed.
pub open spec fn delay_error(attempt: int, percentile: int) -> Option<Seq<char>> {
    if attempt == 0 {
        Some("attempt numbers are one-based"@)
    } else if percentile > 100 {
        Some("jitter percentile cannot exceed 100"@)
    } else {
        None
    }
}

impl RetryPolicy {
    /// The backoff of the policy.
    pub closed spec fn spec_backoff(&self) -> BackoffPolicy {
        self.backoff
    }

    /// A policy whose backoff was already checked.
    pub fn from_validated(backoff: BackoffPolicy) -> (policy: Self)
        ensures
            policy.spec_backoff() == backoff,
    {
        RetryPolicy { backoff }
    }

    /// The same delay before every retry.
    pub fn fixed(delay_secs: u64) -> (result: Result<Self, DurableError>)
        ensures
            ({
                let backoff = BackoffPolicy::Fixed { delay_secs };
                match result {
                    Ok(policy) => backoff_error(backoff) is None && policy.spec_backoff()
                        == backoff,
                    Err(error) => backoff_error(backoff) is Some && error@
                        == ErrorModel::InvalidDefinition(backoff_error(backoff)->0),
                }
            }),
    {
        if delay_secs == 0 {
            return Err(invalid_definition("fixed retry delay must be greater than zero"));
        }
        Ok(RetryPolicy { backoff: BackoffPolicy::Fixed { delay_secs } })
    }

    /// A delay that doubles with every attempt up to a maximum, with jitter.
    pub fn exponential(initial_secs: u64, max_secs: u64, jitter_percent: u8) -> (result: Result<
        Self,
        DurableError,
    >)
        ensures
            ({
                let backoff = BackoffPolicy::Exponential { initial_secs, max_secs, jitter_percent };
                match result {
                    Ok(policy) => backoff_error(backoff) is None && policy.spec_backoff()
                        == backoff,
                    Err(error) => backoff_error(backoff) is Some && error@
                        == ErrorModel::InvalidDefinition(backoff_error(backoff)->0),
                }
            }),
    {
        if initial_secs == 0 {
            return Err(invalid_definition("exponential initial delay must be greater than zero"));
        }
        if max_secs < initial_secs {
            return Err(
                invalid_definition("exponential max delay must be at least the initial delay"),
            );
        }
        if jitter_percent > 100 {
            return Err(invalid_definition("retry jitter_percent cannot exceed 100"));
        }
        Ok(
            RetryPolicy {
                backoff: BackoffPolicy::Exponential { initial_secs, max_secs, jitter_percent },
            },
        )
    }

    /// The backoff of the policy.
    pub fn backoff(self) -> (backoff: BackoffPolicy)
        ensures
            backoff == self.spec_backoff(),
    {
        self.backoff
    }

    /// The delay after the given one-based attempt failed, at the given jitter percentile.
    pub fn delay_for_attempt(self, attempt: u32, jitter_percentile: u8) -> (result: Result<
        Duration,
        DurableError,
    >)
        ensures
            match result {
                Ok(delay) => delay_error(attempt as int, jitter_percentile as int) is None
                    && delay@ == delay_secs(
                    self.spec_backoff(),
                    attempt as int,
                    jitter_percentile as int,
                ) * 1_000_000_000,
                Err(error) => delay_error(attempt as int, jitter_percentile as int) is Some
                    && error@ == ErrorModel::InvalidDefinition(
                    delay_error(attempt as int, jitter_percentile as int)->0,
                ),
            },
    {
        if attempt == 0 {
            return Err(invalid_definition("attempt numbers are one-based"));
        }
        if jitter_percentile > 100 {
            return Err(invalid_definition("jitter percentile cannot exceed 100"));
        }
        let seconds: u64 = match self.backoff {
            BackoffPolicy::Fixed { delay_secs } => delay_secs,
            BackoffPolicy::Exponential { initial_secs, max_secs, jitter_percent } => {
                let exponent: u32 = if attempt - 1 < 63 {
                    attempt - 1
                } else {
                    63
                };
                let base: u64 = doubled(initial_secs, exponent, max_secs);
                apply_jitter(base, jitter_percent, jitter_percentile)
            },
        };
        Ok(Duration::from_secs(seconds))
    }
}

/// `initial` doubled `exponent` times, up to `max`.
fn doubled(initial: u64, exponent: u32, max: u64) -> (base: u64)
    requires
        exponent <= 63,
    ensures
        base == smaller(
            initial * vstd::arithmetic::power2::pow2(exponent as nat),
            max as int,
        ),
{
    let mut value: u128 = initial as u128;
    let mut k: u32 = 0;
    proof {
        vstd::arithmetic::power2::lemma2_to64();
    }
    while k < exponent
        invariant
            k <= exponent <= 63,
            value == initial * vstd::arithmetic::power2::pow2(k as nat),
            value <= 0xffff_ffff_ffff_ffff * vstd::arithmetic::power2::pow2(k as nat),
        decreases exponent - k,
    {
        proof {
            vstd::arithmetic::power2::lemma_pow2_unfold((k + 1) as nat);
            vstd::arithmetic::power2::lemma2_to64_rest();
            if k < 63 {
                vstd::arithmetic::power2::lemma_pow2_strictly_increases(k as nat, 63);
            }
            let p = vstd::arithmetic::power2::pow2(k as nat) as int;
            assert(initial * (2 * p) == 2 * (initial * p)) by (nonlinear_arith);
            assert(0xffff_ffff_ffff_ffff * (2 * p) == 2 * (0xffff_ffff_ffff_ffff * p))
                by (nonlinear_arith);
        }
        value = value * 2;
        k = k + 1;
    }
    if value <= max as u128 {
        value as u64
    } else {
        max
    }
}

/// Applies the jitter of `jitter_percent` percent at the given percentile.
fn apply_jitter(base: u64, jitter_percent: u8, percentile: u8) -> (secs: u64)
    requires
        percentile <= 100,
    ensures
        secs == jittered(base as int, jitter_percent as int, percentile as int)
            % 0x1_0000_0000_0000_0000,
{
    assert(0 <= base * jitter_percent <= 0xffff_ffff_ffff_ffff * 255) by (nonlinear_arith)
        requires
            base <= 0xffff_ffff_ffff_ffffu64,
            jitter_percent <= 255u8,
    ;
    let spread: u128 = base as u128 * jitter_percent as u128 / 100;
    if percentile >= 50 {
        let offset: u128 = 2 * percentile as u128 - 100;
        assert(0 <= spread * offset <= 0xffff_ffff_ffff_ffff * 3 * 100) by (nonlinear_arith)
            requires
                spread <= 0xffff_ffff_ffff_ffff * 3,
                offset <= 100,
        ;
        let raised: u128 = base as u128 + spread * offset / 100;
        assert(raised as u64 == raised % 0x1_0000_0000_0000_0000) by (bit_vector);
        raised as u64
    } else {
        let offset: u128 = 100 - 2 * percentile as u128;
        assert(0 <= spread * offset <= 0xffff_ffff_ffff_ffff * 3 * 100) by (nonlinear_arith)
            requires
                spread <= 0xffff_ffff_ffff_ffff * 3,
                offset <= 100,
        ;
        let delta: u128 = spread * offset / 100;
        if delta >= base as u128 {
            0
        } else {
            base - delta as u64
        }
    }
}

/// With a spread of at most 100 percent the jittered delay lies within the
/// spread around the base, and percentile 50 leaves the base unchanged.
pub proof fn law_jitter_stays_within_its_spread(base: int, jitter_percent: int, percentile: int)
    requires
        0 <= base,
        0 <= jitter_percent <= 100,
        0 <= percentile <= 100,
    ensures
        base - base * jitter_percent / 100 <= jittered(base, jitter_percent, percentile) <= base
            + base * jitter_percent / 100,
        0 <= jittered(base, jitter_percent, percentile) <= 2 * base,
        percentile == 50 ==> jittered(base, jitter_percent, percentile) == base,
{
    let spread = base * jitter_percent / 100;
    assert(0 <= spread <= base) by {
        assert(0 <= base * jitter_percent <= base * 100) by (nonlinear_arith)
            requires
                0 <= base,
                0 <= jitter_percent <= 100,
        ;
    }
    let offset = 2 * percentile - 100;
    let magnitude = if offset >= 0 {
        offset
    } else {
        -offset
    };
    assert(0 <= spread * magnitude <= spread * 100) by (nonlinear_arith)
        requires
            0 <= spread,
            0 <= magnitude <= 100,
    ;
    if percentile == 50 {
        assert(spread * 0 == 0);
    }
}

/// The jittered delay never shrinks from one percentile to a higher one; percentile 0
/// is the lower end of the spread and 100 the upper end.
pub proof fn law_jitter_grows_with_the_percentile(
    base: int,
    jitter_percent: int,
    lower: int,
    higher: int,
)
    requires
        0 <= base,
        0 <= jitter_percent <= 100,
        0 <= lower <= higher <= 100,
    ensures
        jittered(base, jitter_percent, lower) <= jittered(base, jitter_percent, higher),
        jittered(base, jitter_percent, 0) == base - base * jitter_percent / 100,
        jittered(base, jitter_percent, 100) == base + base * jitter_percent / 100,
{
    let spread = base * jitter_percent / 100;
    law_jitter_stays_within_its_spread(base, jitter_percent, lower);
    law_jitter_stays_within_its_spread(base, jitter_percent, higher);
    law_jitter_stays_within_its_spread(base, jitter_percent, 0);
    law_jitter_stays_within_its_spread(base, jitter_percent, 100);
    let a = 2 * lower - 100;
    let b = 2 * higher - 100;
    assert(0 <= base * jitter_percent) by (nonlinear_arith)
        requires
            0 <= base,
            0 <= jitter_percent,
    ;
    assert(spread * a <= spread * b && spread * (-a) >= spread * (-b)) by (nonlinear_arith)
        requires
            0 <= spread,
            a <= b,
    ;
    if a < 0 && b >= 0 {
        assert(spread * (-a) >= 0 && spread * b >= 0) by (nonlinear_arith)
            requires
                0 <= spread,
                a < 0,
                b >= 0,
        ;
    }
    assert(spread * 100 / 100 == spread);
}

/// The delay before jitter never shrinks from one attempt to a later one, and
/// never exceeds the maximum.
pub proof fn law_backoff_grows_up_to_its_maximum(
    initial_secs: int,
    max_secs: int,
    earlier: int,
    later: int,
)
    requires
        0 <= initial_secs,
        1 <= earlier <= later,
    ensures
        exponential_base(initial_secs, max_secs, earlier) <= exponential_base(
            initial_secs,
            max_secs,
            later,
        ) <= max_secs,
{
    let low = smaller(earlier - 1, 63) as nat;
    let high = smaller(later - 1, 63) as nat;
    let small = vstd::arithmetic::power2::pow2(low);
    let large = vstd::arithmetic::power2::pow2(high);
    if low < high {
        vstd::arithmetic::power2::lemma_pow2_strictly_increases(low, high);
    }
    assert(initial_secs * small <= initial_secs * large) by (nonlinear_arith)
        requires
            0 <= initial_secs,
            small <= large,
    ;
}

/// The delay before jitter starts at the initial delay and doubles from one attempt to
/// the next, up to the maximum.
pub proof fn law_backoff_doubles(initial_secs: int, max_secs: int, attempt: int)
    requires
        0 <= initial_secs,
        0 <= max_secs,
        1 <= attempt <= 63,
    ensures
        exponential_base(initial_secs, max_secs, 1) == smaller(initial_secs, max_secs),
        exponential_base(initial_secs, max_secs, attempt + 1) == smaller(
            2 * exponential_base(initial_secs, max_secs, attempt),
            max_secs,
        ),
{
    let p = vstd::arithmetic::power2::pow2((attempt - 1) as nat) as int;
    vstd::arithmetic::power2::lemma2_to64();
    vstd::arithmetic::power2::lemma_pow2_unfold(attempt as nat);
    assert(initial_secs * (2 * p) == 2 * (initial_secs * p)) by (nonlinear_arith);
    assert(initial_secs * 1 == initial_secs);
}

/// A fixed policy waits equally long before every retry; an exponential one waits the
/// base delay of the attempt, within its spread, as long as seconds can be counted.
pub proof fn law_policies_wait_as_configured(backoff: BackoffPolicy, attempt: int, percentile: int)
    requires
        backoff_error(backoff) is None,
        1 <= attempt,
        0 <= percentile <= 100,
    ensures
        match backoff {
            BackoffPolicy::Fixed { delay_secs: configured } => delay_secs(
                backoff,
                attempt,
                percentile,
            ) == configured,
            BackoffPolicy::Exponential { initial_secs, max_secs, jitter_percent } => {
                let base = exponential_base(initial_secs as int, max_secs as int, attempt);
                let spread = base * jitter_percent / 100;
                &&& 0 <= base <= max_secs
                &&& base + spread <= u64::MAX ==> base - spread <= delay_secs(
                    backoff,
                    attempt,
                    percentile,
                ) <= base + spread
                &&& percentile == 50 ==> delay_secs(backoff, attempt, percentile) == base
            },
        },
{
    match backoff {
        BackoffPolicy::Fixed { .. } => {},
        BackoffPolicy::Exponential { initial_secs, max_secs, jitter_percent } => {
            let base = exponential_base(initial_secs as int, max_secs as int, attempt);
            law_backoff_grows_up_to_its_maximum(
                initial_secs as int,
                max_secs as int,
                attempt,
                attempt,
            );
            let p = vstd::arithmetic::power2::pow2(smaller(attempt - 1, 63) as nat) as int;
            assert(0 <= initial_secs * p) by (nonlinear_arith)
                requires
                    0 <= p,
            ;
            law_jitter_stays_within_its_spread(base, jitter_percent as int, percentile);
        },
    }
}

/// A policy is accepted exactly where it waits at all, its maximum is not below its
/// start, and its spread is at most the whole delay; delays exist for every attempt from
/// the first on and every percentile.
pub proof fn law_policies_are_refused_only_for_a_reason(
    backoff: BackoffPolicy,
    attempt: int,
    percentile: int,
)
    requires
        0 <= attempt,
        0 <= percentile,
    ensures
        backoff_error(backoff) is None <==> match backoff {
            BackoffPolicy::Fixed { delay_secs } => delay_secs > 0,
            BackoffPolicy::Exponential { initial_secs, max_secs, jitter_percent } => 0 < initial_secs
                <= max_secs && jitter_percent <= 100,
        },
        delay_error(attempt, percentile) is None <==> 1 <= attempt && percentile <= 100,
{
}

} // verus!
