//! Resource limits, and checks of a result's size before it is computed.

use crate::exceptions::{ErrorModel, ExcType, RunError};
use crate::text::{decimal, decimal_text};
use vstd::prelude::*;

verus! {

/// Results of at most this many bytes are never held against a limit.
pub const LARGE_RESULT_THRESHOLD: usize = 100_000;

#[verifier::external_type_specification]
#[verifier::external_body]
pub struct ExInstant(std::time::Instant);

/// Calls `Instant::elapsed` of the standard library: the nanoseconds since
/// the given moment. What a clock reads is left open.
#[verifier::external_body]
fn nanoseconds_since(start: &std::time::Instant) -> (nanoseconds: u128) {
    start.elapsed().as_nanos()
}

/// Calls `Instant::now` of the standard library: a moment, of which nothing
/// is known.
#[verifier::external_body]
fn this_moment() -> (moment: std::time::Instant) {
    std::time::Instant::now()
}

/// A limit that was reached.
#[allow(inconsistent_fields)]
#[derive(Clone, Copy, PartialEq, Eq, Structural)]
pub enum ResourceError {
    /// More memory would be in use than is allowed.
    Memory { limit: usize, used: usize },
    /// The run takes longer than is allowed, in nanoseconds.
    Time { limit: u128, elapsed: u128 },
    /// Calls are nested deeper than is allowed.
    Recursion { limit: usize, depth: usize },
    /// More steps were made than are allowed.
    Steps { limit: usize },
}

/// The limits of a run and what it has used so far.
pub struct ResourceTracker {
    /// How many bytes may be in use.
    pub max_memory: Option<usize>,
    /// How many bytes are in use.
    pub allocated: usize,
    /// How long the run may take, in nanoseconds.
    pub max_duration: Option<u128>,
    /// When the run started.
    pub started: std::time::Instant,
}

/// The error of a run that would use `extra` bytes more.
pub open spec fn memory_excess(tracker: ResourceTracker, extra: usize) -> Option<ResourceError> {
    match tracker.max_memory {
        None => None,
        Some(limit) => {
            let used = if tracker.allocated + extra > usize::MAX {
                usize::MAX
            } else {
                (tracker.allocated + extra) as usize
            };
            if used > limit {
                Some(ResourceError::Memory { limit, used })
            } else {
                None
            }
        },
    }
}

/// The error of a run that has taken `elapsed` nanoseconds.
pub open spec fn time_excess(tracker: ResourceTracker, elapsed: u128) -> Option<ResourceError> {
    match tracker.max_duration {
        Some(limit) => if elapsed > limit {
            Some(ResourceError::Time { limit, elapsed })
        } else {
            None
        },
        None => None,
    }
}

/// The tracker has a time limit and the error says that it was passed.
pub open spec fn may_time_out(tracker: ResourceTracker, error: ResourceError) -> bool {
    error matches ResourceError::Time { limit, elapsed } && tracker.max_duration == Some(limit) && elapsed > limit
}

impl ResourceTracker {
    /// A tracker of a run that starts now.
    pub fn new(max_memory: Option<usize>, max_duration: Option<u128>) -> (tracker: ResourceTracker)
        ensures
            tracker.max_memory == max_memory,
            tracker.max_duration == max_duration,
            tracker.allocated == 0,
    {
        ResourceTracker { max_memory, allocated: 0, max_duration, started: this_moment() }
    }

    /// The tracker of a run that started at this moment.
    pub open spec fn starting_at(self, moment: std::time::Instant) -> ResourceTracker {
        ResourceTracker { started: moment, ..self }
    }

    /// Counts the time of the run from a moment on.
    pub fn restart_at(&mut self, moment: std::time::Instant)
        ensures
            *final(self) == old(self).starting_at(moment),
    {
        self.started = moment;
    }

    /// A feed starts: its time counts from now on. What the clock reads is
    /// left open.
    pub fn on_feed_start(&mut self)
        ensures
            *final(self) == old(self).starting_at(final(self).started),
    {
        self.restart_at(this_moment());
    }

    /// A turn starts, behind an answer of the host: its time counts from now
    /// on. What the clock reads is left open.
    pub fn on_turn_start(&mut self)
        ensures
            *final(self) == old(self).starting_at(final(self).started),
    {
        self.restart_at(this_moment());
    }

    /// Refuses a result that would pass the memory limit.
    pub fn check_large_result(&self, estimated_bytes: usize) -> (allowed: Result<(), ResourceError>)
        ensures
            match memory_excess(*self, estimated_bytes) {
                Some(error) => allowed == Err::<(), ResourceError>(error),
                None => allowed is Ok,
            },
    {
        match self.max_memory {
            None => Ok(()),
            Some(limit) => {
                let used: usize = self.allocated.saturating_add(estimated_bytes);
                if used > limit {
                    Err(ResourceError::Memory { limit, used })
                } else {
                    Ok(())
                }
            },
        }
    }

    /// Refuses to go on once a run that has taken `elapsed` nanoseconds is
    /// past its time limit.
    pub fn check_elapsed(&self, elapsed: u128) -> (allowed: Result<(), ResourceError>)
        ensures
            match time_excess(*self, elapsed) {
                Some(error) => allowed == Err::<(), ResourceError>(error),
                None => allowed is Ok,
            },
    {
        match self.max_duration {
            Some(limit) => {
                if elapsed > limit {
                    Err(ResourceError::Time { limit, elapsed })
                } else {
                    Ok(())
                }
            },
            None => Ok(()),
        }
    }

    /// Reads the clock and refuses to go on once the run is past its time
    /// limit. What the clock reads is open, so a run with a time limit may be
    /// refused at any point, and one without is never.
    pub fn check_time(&self) -> (allowed: Result<(), ResourceError>)
        ensures
            allowed matches Err(error) ==> may_time_out(*self, error),
    {
        if self.max_duration.is_none() {
            return Ok(());
        }
        self.check_elapsed(nanoseconds_since(&self.started))
    }
}

/// `a * b`, or the largest number where that is more.
pub open spec fn capped_product(a: int, b: int, cap: int) -> int {
    if a * b > cap {
        cap
    } else {
        a * b
    }
}

/// `a + b`, or the largest number where that is more.
pub open spec fn capped_sum(a: int, b: int, cap: int) -> int {
    if a + b > cap {
        cap
    } else {
        a + b
    }
}

/// The bytes that `bits` bits take, at most as many as can be counted.
pub open spec fn bytes_for_bits(bits: u64) -> usize {
    let bytes = capped_sum(bits as int, 7, u64::MAX as int) / 8;
    if bytes > usize::MAX {
        usize::MAX
    } else {
        bytes as usize
    }
}

/// A result of about `bytes` bytes is refused by this error.
pub open spec fn size_excess(tracker: ResourceTracker, bytes: usize) -> Option<ResourceError> {
    if bytes > LARGE_RESULT_THRESHOLD {
        memory_excess(tracker, bytes)
    } else {
        None
    }
}

/// The outcome is that of a check against `excess`.
pub open spec fn checked(allowed: Result<(), ResourceError>, excess: Option<ResourceError>) -> bool {
    match excess {
        Some(error) => allowed == Err::<(), ResourceError>(error),
        None => allowed is Ok,
    }
}

/// Checks an estimated result size. Small results are never refused.
pub fn check_estimated_size(estimated_bytes: usize, tracker: &ResourceTracker) -> (allowed: Result<(), ResourceError>)
    ensures
        checked(allowed, size_excess(*tracker, estimated_bytes)),
{
    if estimated_bytes > LARGE_RESULT_THRESHOLD {
        tracker.check_large_result(estimated_bytes)
    } else {
        Ok(())
    }
}

/// Converts a bit count to bytes. What cannot be counted becomes the largest
/// count, so that a limit refuses it.
pub fn estimate_bits_to_bytes(bits: u64) -> (bytes: usize)
    ensures
        bytes == bytes_for_bits(bits),
{
    let wide: u64 = bits.saturating_add(7) / 8;
    if wide > usize::MAX as u64 {
        usize::MAX
    } else {
        wide as usize
    }
}

/// The product of two sizes, or the largest size where that is more.
pub fn saturating_product(a: usize, b: usize) -> (product: usize)
    ensures
        product == capped_product(a as int, b as int, usize::MAX as int),
{
    match a.checked_mul(b) {
        Some(product) => product,
        None => usize::MAX,
    }
}

/// The product of two bit counts, or the largest count where that is more.
fn saturating_product_u64(a: u64, b: u64) -> (product: u64)
    ensures
        product == capped_product(a as int, b as int, u64::MAX as int),
{
    match a.checked_mul(b) {
        Some(product) => product,
        None => u64::MAX,
    }
}

/// Checks a result of `count` items of `item_len` bytes.
pub fn check_repeat_size(item_len: usize, count: usize, tracker: &ResourceTracker) -> (allowed: Result<
    (),
    ResourceError,
>)
    ensures
        checked(
            allowed,
            size_excess(*tracker, capped_product(item_len as int, count as int, usize::MAX as int) as usize),
        ),
{
    check_estimated_size(saturating_product(item_len, count), tracker)
}

/// Checks the power of a base of `base_bits` bits. Repeated squaring needs
/// four times the size of the result. Bases of at most one bit stay small.
pub fn check_pow_size(base_bits: u64, exponent: u64, tracker: &ResourceTracker) -> (allowed: Result<(), ResourceError>)
    ensures
        checked(
            allowed,
            if base_bits <= 1 {
                None
            } else {
                let bits = capped_product(base_bits as int, exponent as int, u64::MAX as int) as u64;
                size_excess(*tracker, capped_product(bytes_for_bits(bits) as int, 4, usize::MAX as int) as usize)
            },
        ),
{
    if base_bits <= 1 {
        return Ok(());
    }
    let result_bytes: usize = estimate_bits_to_bytes(saturating_product_u64(base_bits, exponent));
    check_estimated_size(saturating_product(result_bytes, 4), tracker)
}

/// Checks the product of two integers, which has at most the bits of both.
pub fn check_mult_size(a_bits: u64, b_bits: u64, tracker: &ResourceTracker) -> (allowed: Result<(), ResourceError>)
    ensures
        checked(
            allowed,
            size_excess(*tracker, bytes_for_bits(capped_sum(a_bits as int, b_bits as int, u64::MAX as int) as u64)),
        ),
{
    check_estimated_size(estimate_bits_to_bytes(a_bits.saturating_add(b_bits)), tracker)
}

/// Checks a left shift. Zero stays zero.
pub fn check_lshift_size(value_bits: u64, shift_amount: u64, tracker: &ResourceTracker) -> (allowed: Result<
    (),
    ResourceError,
>)
    ensures
        checked(
            allowed,
            if value_bits == 0 {
                None
            } else {
                size_excess(
                    *tracker,
                    bytes_for_bits(capped_sum(value_bits as int, shift_amount as int, u64::MAX as int) as u64),
                )
            },
        ),
{
    if value_bits == 0 {
        return Ok(());
    }
    check_estimated_size(estimate_bits_to_bytes(value_bits.saturating_add(shift_amount)), tracker)
}

/// Checks a quotient, which has at most the bits of the dividend.
pub fn check_div_size(dividend_bits: u64, tracker: &ResourceTracker) -> (allowed: Result<(), ResourceError>)
    ensures
        checked(allowed, size_excess(*tracker, bytes_for_bits(dividend_bits))),
{
    check_estimated_size(estimate_bits_to_bytes(dividend_bits), tracker)
}

/// How often a pattern of `old_len` elements can be replaced at most. An empty
/// pattern stands before each element and behind the last.
pub open spec fn max_replacements(input_len: int, old_len: int, count: int) -> int {
    let most = if old_len == 0 {
        capped_sum(input_len, 1, usize::MAX as int)
    } else {
        input_len / old_len
    };
    if count >= 0 && count < most {
        count
    } else {
        most
    }
}

/// The size that a replacement is checked with. One that shrinks copies the
/// input at least.
pub open spec fn replaced_size(input_len: int, old_len: int, new_len: int, count: int) -> int {
    if new_len < old_len {
        input_len
    } else {
        let times = max_replacements(input_len, old_len, count);
        let removed = capped_product(times, old_len, usize::MAX as int);
        let added = capped_product(times, new_len, usize::MAX as int);
        let kept = if input_len > removed {
            input_len - removed
        } else {
            0
        };
        capped_sum(kept, added, usize::MAX as int)
    }
}

/// Checks the result of replacing a pattern up to `count` times, or without
/// bound where `count` is negative.
pub fn check_replace_size(
    input_len: usize,
    old_len: usize,
    new_len: usize,
    count: i64,
    tracker: &ResourceTracker,
) -> (allowed: Result<(), ResourceError>)
    ensures
        checked(
            allowed,
            size_excess(
                *tracker,
                replaced_size(input_len as int, old_len as int, new_len as int, count as int) as usize,
            ),
        ),
{
    let estimated: usize = if new_len < old_len {
        input_len
    } else {
        let most: usize = if old_len == 0 {
            input_len.saturating_add(1)
        } else {
            input_len / old_len
        };
        let times: usize = if count < 0 || count as u64 >= most as u64 {
            most
        } else {
            count as usize
        };
        let removed: usize = saturating_product(times, old_len);
        let added: usize = saturating_product(times, new_len);
        input_len.saturating_sub(removed).saturating_add(added)
    };
    check_estimated_size(estimated, tracker)
}

/// The words that report a limit.
pub open spec fn limit_message(error: ResourceError) -> Seq<char> {
    match error {
        ResourceError::Memory { limit, used } => "memory limit exceeded: "@ + decimal(used as nat) + " bytes > "@
            + decimal(limit as nat) + " bytes"@,
        ResourceError::Time { .. } => "time limit exceeded"@,
        ResourceError::Recursion { .. } => "maximum recursion depth exceeded"@,
        ResourceError::Steps { .. } => "step limit exceeded"@,
    }
}

/// The exception that reports a limit. Only one about recursion can be caught.
pub open spec fn limit_error(error: ResourceError) -> ErrorModel {
    ErrorModel {
        exc_type: match error {
            ResourceError::Memory { .. } => ExcType::MemoryError,
            ResourceError::Time { .. } => ExcType::TimeoutError,
            ResourceError::Recursion { .. } => ExcType::RecursionError,
            ResourceError::Steps { .. } => ExcType::RuntimeError,
        },
        message: Some(limit_message(error)),
        catchable: error is Recursion,
    }
}

/// Converts a reached limit to the exception that reports it.
pub fn run_error(error: ResourceError) -> (exception: RunError)
    ensures
        exception@ == limit_error(error),
{
    let (exc_type, catchable) = match error {
        ResourceError::Memory { .. } => (ExcType::MemoryError, false),
        ResourceError::Time { .. } => (ExcType::TimeoutError, false),
        ResourceError::Recursion { .. } => (ExcType::RecursionError, true),
        ResourceError::Steps { .. } => (ExcType::RuntimeError, false),
    };
    let message = match error {
        ResourceError::Memory { limit, used } => {
            let mut text = "memory limit exceeded: ".to_owned();
            text.append(decimal_text(used as u64).as_str());
            text.append(" bytes > ");
            text.append(decimal_text(limit as u64).as_str());
            text.append(" bytes");
            text
        },
        ResourceError::Time { .. } => "time limit exceeded".to_owned(),
        ResourceError::Recursion { .. } => "maximum recursion depth exceeded".to_owned(),
        ResourceError::Steps { .. } => "step limit exceeded".to_owned(),
    };
    RunError { exc_type, message: Some(message), catchable }
}

/// A limit that refuses a result refuses every larger one.
pub proof fn law_larger_results_are_refused(tracker: ResourceTracker, smaller: usize, larger: usize)
    requires
        smaller <= larger,
        size_excess(tracker, smaller) is Some,
    ensures
        size_excess(tracker, larger) is Some,
{
}

/// A run is refused memory exactly where what it holds and what it asks for are
/// more than its limit, and it is told both.
pub proof fn law_memory_is_refused_over_the_limit(tracker: ResourceTracker, extra: usize)
    requires
        tracker.allocated + extra <= usize::MAX,
    ensures
        tracker.max_memory is None ==> memory_excess(tracker, extra) is None,
        tracker.max_memory matches Some(limit) ==> if tracker.allocated + extra > limit {
            memory_excess(tracker, extra) matches Some(ResourceError::Memory { limit: told, used }) && told == limit && used
                == tracker.allocated + extra
        } else {
            memory_excess(tracker, extra) is None
        },
{
}

} // verus!
