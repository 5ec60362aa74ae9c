//! Pool rate arithmetic and retry policy: the pure decisions of the
//! pool-management service, over plain 128-bit amounts.  Fetching chain
//! state, timestamps and the waiting between retries stay with the
//! caller.

use vstd::prelude::*;

use crate::scan::{bytes_eq, slice_to_vec};
use vstd::string::StringSliceAdditionalSpecFns;

verus! {

/// One ether in its smallest unit, the scale of the rate arithmetic.
pub const ONE_ETHER: u128 = 1_000_000_000_000_000_000;

/// How many times a rate-limited call is attempted before giving up.
pub const MAX_RETRIES: u32 = 5;

/// The kinds of pool the service understands.
#[derive(Debug, PartialEq, Eq, Structural, Clone, Copy)]
pub enum PoolType {
    Synthetic,
    SturdySilo,
    Aave,
    DaiSavings,
    CompoundV3,
    Morpho,
}

/// The name of each pool kind, as bytes.
pub open spec fn pool_type_name(t: PoolType) -> Seq<u8> {
    match t {
        PoolType::Synthetic => seq![83u8, 121u8, 110u8, 116u8, 104u8, 101u8, 116u8, 105u8, 99u8],
        PoolType::SturdySilo => seq![
            83u8,
            116u8,
            117u8,
            114u8,
            100u8,
            121u8,
            83u8,
            105u8,
            108u8,
            111u8,
        ],
        PoolType::Aave => seq![65u8, 97u8, 118u8, 101u8],
        PoolType::DaiSavings => seq![
            68u8,
            97u8,
            105u8,
            83u8,
            97u8,
            118u8,
            105u8,
            110u8,
            103u8,
            115u8,
        ],
        PoolType::CompoundV3 => seq![
            67u8,
            111u8,
            109u8,
            112u8,
            111u8,
            117u8,
            110u8,
            100u8,
            86u8,
            51u8,
        ],
        PoolType::Morpho => seq![77u8, 111u8, 114u8, 112u8, 104u8, 111u8],
    }
}

impl PoolType {
    /// The pool kind a name denotes; an error when no kind bears the
    /// name.
    pub fn from_str(s: &str) -> (r: Result<PoolType, &'static str>)
        ensures
            match r {
                Ok(t) => s.spec_bytes() == pool_type_name(t),
                Err(_) => forall|t: PoolType| s.spec_bytes() != pool_type_name(t),
            },
    {
        let b = s.as_bytes();
        let synthetic = vec![83u8, 121u8, 110u8, 116u8, 104u8, 101u8, 116u8, 105u8, 99u8];
        let sturdy = vec![83u8, 116u8, 117u8, 114u8, 100u8, 121u8, 83u8, 105u8, 108u8, 111u8];
        let aave = vec![65u8, 97u8, 118u8, 101u8];
        let dai = vec![68u8, 97u8, 105u8, 83u8, 97u8, 118u8, 105u8, 110u8, 103u8, 115u8];
        let compound = vec![67u8, 111u8, 109u8, 112u8, 111u8, 117u8, 110u8, 100u8, 86u8, 51u8];
        let morpho = vec![77u8, 111u8, 114u8, 112u8, 104u8, 111u8];
        proof {
            assert(synthetic@ =~= pool_type_name(PoolType::Synthetic));
            assert(sturdy@ =~= pool_type_name(PoolType::SturdySilo));
            assert(aave@ =~= pool_type_name(PoolType::Aave));
            assert(dai@ =~= pool_type_name(PoolType::DaiSavings));
            assert(compound@ =~= pool_type_name(PoolType::CompoundV3));
            assert(morpho@ =~= pool_type_name(PoolType::Morpho));
        }
        if bytes_eq(b, synthetic.as_slice()) {
            Ok(PoolType::Synthetic)
        } else if bytes_eq(b, sturdy.as_slice()) {
            Ok(PoolType::SturdySilo)
        } else if bytes_eq(b, aave.as_slice()) {
            Ok(PoolType::Aave)
        } else if bytes_eq(b, dai.as_slice()) {
            Ok(PoolType::DaiSavings)
        } else if bytes_eq(b, compound.as_slice()) {
            Ok(PoolType::CompoundV3)
        } else if bytes_eq(b, morpho.as_slice()) {
            Ok(PoolType::Morpho)
        } else {
            proof {
                assert forall|t: PoolType| s.spec_bytes() != pool_type_name(t) by {
                    match t {
                        PoolType::Synthetic => {},
                        PoolType::SturdySilo => {},
                        PoolType::Aave => {},
                        PoolType::DaiSavings => {},
                        PoolType::CompoundV3 => {},
                        PoolType::Morpho => {},
                    }
                }
            }
            Err("no pool type bears this name")
        }
    }
}

/// A pool's interest-rate parameters and balances, all in units of
/// `ONE_ETHER`.
pub struct BasePool {
    pub pool_model_disc: String,
    pub contract_address: String,
    pub pool_type: PoolType,
    pub base_rate: u128,
    pub base_slope: u128,
    pub kink_slope: u128,
    pub optimal_util_rate: u128,
    pub borrow_amount: u128,
    pub reserve_size: u128,
}

/// The utilization rate: borrowed over reserves, in integer division.
pub open spec fn spec_util_rate(p: &BasePool) -> u128 {
    p.borrow_amount / p.reserve_size
}

/// The borrow rate of the kinked-slope model: below the optimal
/// utilization the base slope applies to the utilization's share of the
/// optimum; at or above it, the kink slope applies to the excess's
/// share of the remaining headroom.
pub open spec fn spec_borrow_rate(p: &BasePool) -> int {
    if spec_util_rate(p) < p.optimal_util_rate {
        p.base_rate + (spec_util_rate(p) / p.optimal_util_rate) * p.base_slope
    } else {
        p.base_rate + p.base_slope + (((spec_util_rate(p) - p.optimal_util_rate) as u128 / (
        ONE_ETHER - p.optimal_util_rate) as u128) * p.kink_slope)
    }
}

impl BasePool {
    /// The utilization rate.
    pub fn util_rate(&self) -> (r: u128)
        requires
            self.reserve_size > 0,
        ensures
            r == spec_util_rate(self),
    {
        self.borrow_amount / self.reserve_size
    }

    /// The borrow rate.
    pub fn borrow_rate(&self) -> (r: u128)
        requires
            self.reserve_size > 0,
            spec_util_rate(self) >= self.optimal_util_rate ==> self.optimal_util_rate < ONE_ETHER,
            spec_borrow_rate(self) <= u128::MAX,
        ensures
            r == spec_borrow_rate(self),
    {
        let util_rate = self.util_rate();
        if util_rate < self.optimal_util_rate {
            self.base_rate + (util_rate / self.optimal_util_rate) * self.base_slope
        } else {
            self.base_rate + self.base_slope + ((util_rate - self.optimal_util_rate) / (ONE_ETHER
                - self.optimal_util_rate)) * self.kink_slope
        }
    }

    /// The supply rate: utilization times borrow rate.
    pub fn supply_rate(&self) -> (r: u128)
        requires
            self.reserve_size > 0,
            spec_util_rate(self) >= self.optimal_util_rate ==> self.optimal_util_rate < ONE_ETHER,
            spec_borrow_rate(self) <= u128::MAX,
            spec_util_rate(self) * spec_borrow_rate(self) <= u128::MAX,
        ensures
            r == spec_util_rate(self) * spec_borrow_rate(self),
    {
        self.util_rate() * self.borrow_rate()
    }
}

/// Scales a whole-unit amount to the smallest unit.
pub fn to_1e18(input: u64) -> (r: u128)
    ensures
        r == input * ONE_ETHER,
{
    (input as u128) * ONE_ETHER
}

/// True when `p` occurs in `s` starting at position `i`.
pub open spec fn is_substring_at(s: Seq<u8>, p: Seq<u8>, i: int) -> bool {
    0 <= i && i + p.len() <= s.len() && s.subrange(i, i + p.len()) == p
}

/// True when `p` occurs anywhere in `s`.
pub fn contains_bytes(s: &[u8], p: &[u8]) -> (r: bool)
    ensures
        r == exists|i: int| is_substring_at(s@, p@, i),
{
    let n: usize = s.len();
    let m: usize = p.len();
    if m > n {
        proof {
            if exists|i: int| is_substring_at(s@, p@, i) {
                let e = choose|i: int| is_substring_at(s@, p@, i);
                assert(is_substring_at(s@, p@, e));
            }
        }
        return false;
    }
    if m == 0 {
        proof {
            assert(s@.subrange(0, 0) =~= p@);
            assert(is_substring_at(s@, p@, 0));
        }
        return true;
    }
    let mut i: usize = 0;
    while i <= n - m
        invariant
            n == s@.len(),
            m == p@.len(),
            0 < m <= n,
            i <= n - m + 1,
            forall|j: int| 0 <= j < i ==> !is_substring_at(s@, p@, j),
        decreases n - i,
    {
        let window = slice_to_vec(s, i, i + m);
        if bytes_eq(window.as_slice(), p) {
            proof {
                assert(is_substring_at(s@, p@, i as int));
            }
            return true;
        }
        i = i + 1;
    }
    proof {
        if exists|i: int| is_substring_at(s@, p@, i) {
            let e = choose|i: int| is_substring_at(s@, p@, i);
            assert(is_substring_at(s@, p@, e));
            assert(e <= n - m);
        }
    }
    false
}

/// The marker that a provider's error message carries when the call was
/// turned away for its rate, `Rate limited`.
pub open spec fn rate_limited_marker() -> Seq<u8> {
    seq![82u8, 97u8, 116u8, 101u8, 32u8, 108u8, 105u8, 109u8, 105u8, 116u8, 101u8, 100u8]
}

/// True when the error message carries the rate-limit marker.
pub fn is_rate_limited(msg: &str) -> (r: bool)
    ensures
        r == exists|i: int| is_substring_at(msg.spec_bytes(), rate_limited_marker(), i),
{
    let marker = vec![82u8, 97u8, 116u8, 101u8, 32u8, 108u8, 105u8, 109u8, 105u8, 116u8, 101u8,
        100u8];
    proof {
        assert(marker@ =~= rate_limited_marker());
    }
    contains_bytes(msg.as_bytes(), marker.as_slice())
}

/// What a failed attempt leads to.
#[derive(Debug, PartialEq, Eq, Structural, Clone, Copy)]
pub enum RetryDecision {
    /// Wait and try again.
    Retry,
    /// The error is not rate limiting: hand it on at once.
    Fail,
    /// The retry budget is spent: stop with the budget-exceeded error.
    GiveUp,
}

/// Decides what a failed attempt leads to: a rate-limited error is
/// retried until `MAX_RETRIES` attempts have failed, any other error is
/// handed on at once.  `retries_done` counts the rate-limited failures
/// before this one.
pub fn retry_decision(retries_done: u32, rate_limited: bool) -> (d: RetryDecision)
    ensures
        d == (if !rate_limited {
            RetryDecision::Fail
        } else if retries_done < MAX_RETRIES - 1 {
            RetryDecision::Retry
        } else {
            RetryDecision::GiveUp
        }),
{
    if !rate_limited {
        RetryDecision::Fail
    } else if retries_done < MAX_RETRIES - 1 {
        RetryDecision::Retry
    } else {
        RetryDecision::GiveUp
    }
}

/// True when one of the stored request identifiers equals `id`: a
/// request arriving under a taken identifier is turned away.
pub fn contains_id(ids: &Vec<Vec<u8>>, id: &Vec<u8>) -> (r: bool)
    ensures
        r == exists|i: int| 0 <= i < ids@.len() && ids@[i]@ == id@,
{
    let n: usize = ids.len();
    let mut i: usize = 0;
    while i < n
        invariant
            n == ids@.len(),
            i <= n,
            forall|j: int| 0 <= j < i ==> ids@[j]@ != id@,
        decreases n - i,
    {
        if bytes_eq(ids[i].as_slice(), id.as_slice()) {
            return true;
        }
        i = i + 1;
    }
    false
}

} // verus!
