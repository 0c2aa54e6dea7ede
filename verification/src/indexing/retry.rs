//! Retry policy for transient storage failures: which failures are worth
//! retrying, how long to wait between attempts, and how large the writer's
//! heap may be.

use vstd::prelude::*;
use crate::clock::now_nanos;
use crate::text::{chars_of, contains_seq, find_seq, first_occurrence, str_contains};

verus! {

/// The smallest heap a writer is given: 15 MiB.
pub const MIN_HEAP_BYTES: usize = 15728640;

/// The largest heap a writer is given: 2 GiB.
pub const MAX_HEAP_BYTES: usize = 2147483648;

/// One I/O error found in the chain of causes of a writer failure.
#[derive(Debug, Clone, Copy, PartialEq, Eq, Structural)]
pub struct IoCause {
    /// The operating system's error code, where it gave one.
    pub raw_os_error: Option<i32>,
    /// Whether the error's kind is "permission denied".
    pub permission_denied: bool,
}

/// A failure reported by the store's writer, reduced to what the retry policy
/// reads: the worker thread's message where a thread died, the failure's
/// display text, and the I/O errors in its chain of causes, outermost first.
#[derive(Debug)]
pub struct WriterError {
    pub thread_message: Option<String>,
    pub message: String,
    pub io_causes: Vec<IoCause>,
}

/// How often a failed write may be retried.
#[derive(Debug, Clone, Copy, PartialEq, Eq, Structural)]
pub enum WindowsIoRetryClass {
    /// Retry up to the maximum number of attempts.
    Always,
    /// Retry: the failure looks like interference by a scanner.
    Conditional,
    /// Retry at most the given number of times.
    Limited(u32),
    /// Do not retry.
    Never,
}

// ---------------------------------------------------------------------------
// Reading an error code out of a message
// ---------------------------------------------------------------------------

/// White space as `str::trim` understands it.
pub open spec fn is_space(c: char) -> bool {
    let n = c as u32;
    (9 <= n <= 13) || n == 32 || n == 0x85 || n == 0xA0 || n == 0x1680 || (0x2000 <= n <= 0x200A)
        || n == 0x2028 || n == 0x2029 || n == 0x202F || n == 0x205F || n == 0x3000
}

pub open spec fn is_digit(c: char) -> bool {
    '0' <= c <= '9'
}

/// The classes of characters that the scanner skips over.
#[derive(Debug, Clone, Copy, PartialEq, Eq, Structural)]
pub enum CharClass {
    Space,
    Colon,
    Comma,
}

impl CharClass {
    pub open spec fn holds(self, c: char) -> bool {
        match self {
            CharClass::Space => is_space(c),
            CharClass::Colon => c == ':',
            CharClass::Comma => c == ',',
        }
    }

    pub fn test(&self, c: char) -> (r: bool)
        ensures
            r == self.holds(c),
    {
        match self {
            CharClass::Space => {
                let n = c as u32;
                (9 <= n && n <= 13) || n == 32 || n == 0x85 || n == 0xA0 || n == 0x1680 || (0x2000
                    <= n && n <= 0x200A) || n == 0x2028 || n == 0x2029 || n == 0x202F || n
                    == 0x205F || n == 0x3000
            },
            CharClass::Colon => c == ':',
            CharClass::Comma => c == ',',
        }
    }
}

/// The first position from `lo` on, below `hi`, whose character is not of
/// the class; `hi` where there is none.
pub open spec fn skip_forward(s: Seq<char>, lo: int, hi: int, class: CharClass) -> int
    decreases hi - lo,
{
    if lo >= hi || !class.holds(s[lo]) {
        lo
    } else {
        skip_forward(s, lo + 1, hi, class)
    }
}

/// The end of the text between `lo` and `hi` once trailing characters of the
/// class are taken off.
pub open spec fn skip_backward(s: Seq<char>, lo: int, hi: int, class: CharClass) -> int
    decreases hi - lo,
{
    if hi <= lo || !class.holds(s[hi - 1]) {
        hi
    } else {
        skip_backward(s, lo, hi - 1, class)
    }
}

/// The first position from `lo` on, below `hi`, whose character is `stop` or,
/// with `or_space`, white space; `hi` where there is none.
pub open spec fn scan_until(s: Seq<char>, lo: int, hi: int, stop: char, or_space: bool) -> int
    decreases hi - lo,
{
    if lo >= hi || s[lo] == stop || (or_space && is_space(s[lo])) {
        lo
    } else {
        scan_until(s, lo + 1, hi, stop, or_space)
    }
}

/// The number that a run of decimal digits writes.
pub open spec fn decimal_value(s: Seq<char>) -> nat
    decreases s.len(),
{
    if s.len() == 0 {
        0
    } else {
        decimal_value(s.drop_last()) * 10 + ((s.last() as u32 - '0' as u32) as nat)
    }
}

pub open spec fn all_digits(s: Seq<char>) -> bool {
    forall|i: int| 0 <= i < s.len() ==> is_digit(#[trigger] s[i])
}

/// A 32-bit signed number in decimal: an optional sign, then one or more
/// digits, the whole within the type's range.
pub open spec fn parse_i32(s: Seq<char>) -> Option<i32> {
    let signed = s.len() > 0 && (s[0] == '-' || s[0] == '+');
    let negative = s.len() > 0 && s[0] == '-';
    let body = if signed { s.skip(1) } else { s };
    if body.len() == 0 || !all_digits(body) {
        None
    } else if negative {
        if decimal_value(body) <= 2147483648 {
            Some((-(decimal_value(body) as int)) as i32)
        } else {
            None
        }
    } else {
        if decimal_value(body) <= 2147483647 {
            Some(decimal_value(body) as i32)
        } else {
            None
        }
    }
}

/// The code written after the marker `os error` that stands at `at`: colons
/// and white space are skipped, the number ends at a closing bracket.
pub open spec fn code_after_os_error(s: Seq<char>, at: int) -> Option<i32> {
    let n = s.len() as int;
    let lo1 = skip_forward(s, at + 8, n, CharClass::Space);
    let hi1 = skip_backward(s, lo1, n, CharClass::Space);
    let lo2 = skip_forward(s, lo1, hi1, CharClass::Colon);
    let lo3 = skip_forward(s, lo2, hi1, CharClass::Space);
    let hi3 = skip_backward(s, lo3, hi1, CharClass::Space);
    let hi4 = scan_until(s, lo3, hi3, ')', false);
    let hi5 = skip_backward(s, lo3, hi4, CharClass::Space);
    parse_i32(s.subrange(lo3, hi5))
}

/// The code written after the marker `code:` that stands at `at`: the first
/// word after it, without trailing commas.
pub open spec fn code_after_code_marker(s: Seq<char>, at: int) -> Option<i32> {
    let n = s.len() as int;
    let lo1 = skip_forward(s, at + 5, n, CharClass::Space);
    let hi2 = scan_until(s, lo1, n, ' ', true);
    let hi3 = skip_backward(s, lo1, hi2, CharClass::Comma);
    if lo1 >= n {
        None
    } else {
        parse_i32(s.subrange(lo1, hi3))
    }
}

/// The error code that a message carries: after the first `os error` where
/// the message holds one, else after the first `code:`.
pub open spec fn spec_error_code(msg: Seq<char>) -> Option<i32> {
    if contains_seq(msg, "os error"@) {
        let at = choose|i: int| first_occurrence(msg, "os error"@, i);
        code_after_os_error(msg, at)
    } else if contains_seq(msg, "code:"@) {
        let at = choose|i: int| first_occurrence(msg, "code:"@, i);
        code_after_code_marker(msg, at)
    } else {
        None
    }
}

proof fn lemma_skip_forward_bounds(s: Seq<char>, lo: int, hi: int, class: CharClass)
    requires
        lo <= hi,
    ensures
        lo <= skip_forward(s, lo, hi, class) <= hi,
    decreases hi - lo,
{
    if lo >= hi || !class.holds(s[lo]) {
    } else {
        lemma_skip_forward_bounds(s, lo + 1, hi, class);
    }
}

proof fn lemma_skip_backward_bounds(s: Seq<char>, lo: int, hi: int, class: CharClass)
    requires
        lo <= hi,
    ensures
        lo <= skip_backward(s, lo, hi, class) <= hi,
    decreases hi - lo,
{
    if hi <= lo || !class.holds(s[hi - 1]) {
    } else {
        lemma_skip_backward_bounds(s, lo, hi - 1, class);
    }
}

fn skip_forward_exec(s: &Vec<char>, lo: usize, hi: usize, class: CharClass) -> (r: usize)
    requires
        lo <= hi <= s.len(),
    ensures
        r == skip_forward(s@, lo as int, hi as int, class),
        lo <= r <= hi,
{
    let mut i = lo;
    while i < hi && class.test(s[i])
        invariant
            lo <= i <= hi <= s.len(),
            skip_forward(s@, lo as int, hi as int, class) == skip_forward(
                s@,
                i as int,
                hi as int,
                class,
            ),
        decreases hi - i,
    {
        i = i + 1;
    }
    i
}

fn skip_backward_exec(s: &Vec<char>, lo: usize, hi: usize, class: CharClass) -> (r: usize)
    requires
        lo <= hi <= s.len(),
    ensures
        r == skip_backward(s@, lo as int, hi as int, class),
        lo <= r <= hi,
{
    let mut j = hi;
    while j > lo && class.test(s[j - 1])
        invariant
            lo <= j <= hi <= s.len(),
            skip_backward(s@, lo as int, hi as int, class) == skip_backward(
                s@,
                lo as int,
                j as int,
                class,
            ),
        decreases j - lo,
    {
        j = j - 1;
    }
    j
}

fn scan_until_exec(s: &Vec<char>, lo: usize, hi: usize, stop: char, or_space: bool) -> (r: usize)
    requires
        lo <= hi <= s.len(),
    ensures
        r == scan_until(s@, lo as int, hi as int, stop, or_space),
        lo <= r <= hi,
{
    let mut i = lo;
    while i < hi && !(s[i] == stop || (or_space && CharClass::Space.test(s[i])))
        invariant
            lo <= i <= hi <= s.len(),
            scan_until(s@, lo as int, hi as int, stop, or_space) == scan_until(
                s@,
                i as int,
                hi as int,
                stop,
                or_space,
            ),
        decreases hi - i,
    {
        i = i + 1;
    }
    i
}

proof fn lemma_decimal_value_grows(s: Seq<char>, k: int)
    requires
        0 <= k <= s.len(),
        all_digits(s),
    ensures
        decimal_value(s.take(k)) <= decimal_value(s),
    decreases s.len() - k,
{
    if k == s.len() {
        assert(s.take(k) =~= s);
    } else {
        lemma_decimal_value_grows(s, k + 1);
        assert(s.take(k + 1).drop_last() =~= s.take(k));
        assert(is_digit(s[k]));
        assert(s.take(k + 1).last() == s[k]);
    }
}

/// Reads a decimal number between `lo` and `hi`.
fn parse_i32_exec(s: &Vec<char>, lo: usize, hi: usize) -> (r: Option<i32>)
    requires
        lo <= hi <= s.len(),
    ensures
        r == parse_i32(s@.subrange(lo as int, hi as int)),
{
    let ghost text = s@.subrange(lo as int, hi as int);
    if lo == hi {
        return None;
    }
    let first = s[lo];
    proof {
        assert(text[0] == s@[lo as int]);
    }
    let signed = first == '-' || first == '+';
    let negative = first == '-';
    let start = if signed {
        lo + 1
    } else {
        lo
    };
    let ghost body = if signed {
        text.skip(1)
    } else {
        text
    };
    proof {
        assert(body =~= s@.subrange(start as int, hi as int));
    }
    if start == hi {
        return None;
    }
    let limit: u64 = if negative {
        2147483648
    } else {
        2147483647
    };
    let mut acc: u64 = 0;
    let mut i = start;
    while i < hi
        invariant
            lo <= start <= i <= hi <= s.len(),
            start < hi,
            text == s@.subrange(lo as int, hi as int),
            signed == (text[0] == '-' || text[0] == '+'),
            negative == (text[0] == '-'),
            body == (if signed {
                text.skip(1)
            } else {
                text
            }),
            body == s@.subrange(start as int, hi as int),
            acc == decimal_value(body.take(i - start)),
            acc <= limit,
            limit == (if negative {
                2147483648u64
            } else {
                2147483647u64
            }),
            all_digits(body.take(i - start)),
        decreases hi - i,
    {
        let c = s[i];
        proof {
            assert(body[i - start] == c);
            assert(body.take(i - start + 1).drop_last() =~= body.take(i - start));
            assert(body.take(i - start + 1).last() == c);
        }
        if !('0' <= c && c <= '9') {
            proof {
                assert(!is_digit(body[i - start]));
            }
            return None;
        }
        let d = (c as u32 - '0' as u32) as u64;
        let next = acc * 10 + d;
        proof {
            assert(next == decimal_value(body.take(i - start + 1)));
            assert forall|k: int| 0 <= k < body.take(i - start + 1).len() implies is_digit(
                #[trigger] body.take(i - start + 1)[k],
            ) by {
                if k < i - start {
                    assert(body.take(i - start)[k] == body.take(i - start + 1)[k]);
                }
            }
        }
        if next > limit {
            proof {
                // Whatever follows, the number only grows, so either a later
                // character is no digit or the whole is out of range.
                if all_digits(body) {
                    lemma_decimal_value_grows(body, i - start + 1);
                }
            }
            return None;
        }
        acc = next;
        i = i + 1;
    }
    proof {
        assert(body.take(hi - start) =~= body);
    }
    if negative {
        if acc == 2147483648 {
            Some(i32::MIN)
        } else {
            Some(0 - (acc as i32))
        }
    } else {
        Some(acc as i32)
    }
}

/// Reads the operating system's error code out of a message of the form
/// `... os error N ...` or `... code: N ...`.
pub fn extract_error_code_from_message(msg: &str) -> (r: Option<i32>)
    ensures
        r == spec_error_code(msg@),
{
    let s = chars_of(msg);
    let n = s.len();
    let os_marker = chars_of("os error");
    let code_marker = chars_of("code:");
    proof {
        reveal_strlit("os error");
        reveal_strlit("code:");
    }
    match find_seq(&s, &os_marker) {
        Some(at) => {
            proof {
                let chosen = choose|i: int| first_occurrence(msg@, "os error"@, i);
                assert(first_occurrence(msg@, "os error"@, at as int));
                assert(chosen == at) by {
                    if chosen < at {
                        assert(!crate::text::occurs_at(msg@, "os error"@, chosen));
                    } else if at < chosen {
                        assert(!crate::text::occurs_at(msg@, "os error"@, at as int));
                    }
                }
            }
            let lo1 = skip_forward_exec(&s, at + 8, n, CharClass::Space);
            let hi1 = skip_backward_exec(&s, lo1, n, CharClass::Space);
            let lo2 = skip_forward_exec(&s, lo1, hi1, CharClass::Colon);
            let lo3 = skip_forward_exec(&s, lo2, hi1, CharClass::Space);
            let hi3 = skip_backward_exec(&s, lo3, hi1, CharClass::Space);
            let hi4 = scan_until_exec(&s, lo3, hi3, ')', false);
            let hi5 = skip_backward_exec(&s, lo3, hi4, CharClass::Space);
            parse_i32_exec(&s, lo3, hi5)
        },
        None => {
            match find_seq(&s, &code_marker) {
                Some(at) => {
                    proof {
                        let chosen = choose|i: int| first_occurrence(msg@, "code:"@, i);
                        assert(first_occurrence(msg@, "code:"@, at as int));
                        assert(chosen == at) by {
                            if chosen < at {
                                assert(!crate::text::occurs_at(msg@, "code:"@, chosen));
                            } else if at < chosen {
                                assert(!crate::text::occurs_at(msg@, "code:"@, at as int));
                            }
                        }
                    }
                    let lo1 = skip_forward_exec(&s, at + 5, n, CharClass::Space);
                    if lo1 >= n {
                        return None;
                    }
                    let hi2 = scan_until_exec(&s, lo1, n, ' ', true);
                    let hi3 = skip_backward_exec(&s, lo1, hi2, CharClass::Comma);
                    parse_i32_exec(&s, lo1, hi3)
                },
                None => None,
            }
        },
    }
}

// ---------------------------------------------------------------------------
// Heap size and backoff
// ---------------------------------------------------------------------------

/// A heap size brought into the range from 15 MiB to 2 GiB.
pub open spec fn spec_normalized_heap_bytes(heap_bytes: usize) -> usize {
    if heap_bytes < MIN_HEAP_BYTES {
        MIN_HEAP_BYTES
    } else if heap_bytes > MAX_HEAP_BYTES {
        MAX_HEAP_BYTES
    } else {
        heap_bytes
    }
}

/// Brings a requested heap size into the range that the writer accepts.
pub fn normalized_heap_bytes(heap_bytes: usize) -> (r: usize)
    ensures
        r == spec_normalized_heap_bytes(heap_bytes),
        MIN_HEAP_BYTES <= r <= MAX_HEAP_BYTES,
{
    if heap_bytes < MIN_HEAP_BYTES {
        MIN_HEAP_BYTES
    } else if heap_bytes > MAX_HEAP_BYTES {
        MAX_HEAP_BYTES
    } else {
        heap_bytes
    }
}

/// The least number of attempts that are made, whatever is configured.
pub const MIN_ATTEMPTS: u32 = 4;

/// The number of attempts made for a configured maximum.
pub open spec fn spec_effective_attempts(max_retry_attempts: u32) -> u32 {
    if max_retry_attempts < MIN_ATTEMPTS {
        MIN_ATTEMPTS
    } else {
        max_retry_attempts
    }
}

pub fn effective_attempts(max_retry_attempts: u32) -> (r: u32)
    ensures
        r == spec_effective_attempts(max_retry_attempts),
        r >= 4,
{
    if max_retry_attempts < MIN_ATTEMPTS {
        MIN_ATTEMPTS
    } else {
        max_retry_attempts
    }
}

/// The fixed part of the wait before the retry that follows `attempt`.
pub open spec fn backoff_base(attempt: u32) -> u64 {
    if attempt == 0 {
        80
    } else if attempt == 1 {
        100
    } else if attempt == 2 {
        200
    } else if attempt == 3 {
        400
    } else {
        800
    }
}

/// The largest jitter added to the wait that follows `attempt`.
pub open spec fn backoff_spread(attempt: u32) -> u64 {
    if attempt == 0 {
        40
    } else {
        50
    }
}

/// The wait in milliseconds for an attempt, given a source of jitter.
pub open spec fn spec_backoff_ms(attempt: u32, entropy: u64) -> u64 {
    (backoff_base(attempt) + entropy % (backoff_spread(attempt) + 1) as u64) as u64
}

/// The wait before the retry that follows `attempt`, in milliseconds: the
/// base for the attempt plus `entropy` reduced to the attempt's spread.
pub fn backoff_ms(attempt: u32, entropy: u64) -> (r: u64)
    ensures
        r == spec_backoff_ms(attempt, entropy),
        backoff_base(attempt) <= r <= backoff_base(attempt) + backoff_spread(attempt),
{
    if attempt == 0 {
        return 80 + entropy % 41;
    }
    let base: u64 = if attempt == 1 {
        100
    } else if attempt == 2 {
        200
    } else if attempt == 3 {
        400
    } else {
        800
    };
    base + entropy % 51
}

/// The wait before the retry that follows `attempt`, with jitter taken from
/// the clock: 80 to 120 ms after the first attempt, then 100, 200, 400 and
/// from there on 800 ms, each with up to 50 ms added.
pub fn backoff_with_jitter_ms(attempt: u32) -> (r: u64)
    ensures
        backoff_base(attempt) <= r <= backoff_base(attempt) + backoff_spread(attempt),
        exists|entropy: u64| r == spec_backoff_ms(attempt, entropy),
{
    let entropy = now_nanos();
    backoff_ms(attempt, entropy)
}

// ---------------------------------------------------------------------------
// Classification
// ---------------------------------------------------------------------------

/// A worker thread of the writer died: the writer cannot be used again.
pub open spec fn spec_writer_killed(err: WriterError) -> bool {
    match err.thread_message {
        Some(m) => contains_seq(m@, "Index writer was killed"@),
        None => false,
    }
}

/// The retry class of an operating system error code.
pub open spec fn class_of_code(code: i32, permission_denied: bool) -> Option<WindowsIoRetryClass> {
    if code == 32 || code == 33 || code == 1224 || code == 995 {
        Some(WindowsIoRetryClass::Always)
    } else if code == 5 {
        if permission_denied {
            Some(WindowsIoRetryClass::Conditional)
        } else {
            None
        }
    } else if code == 80 || code == 183 || code == 145 {
        Some(WindowsIoRetryClass::Limited(2))
    } else {
        None
    }
}

/// The retry class that one I/O cause gives: by its own code, or by the code
/// read from the message where it has none.
pub open spec fn cause_class(cause: IoCause, code_from_message: Option<i32>) -> Option<
    WindowsIoRetryClass,
> {
    let code = if cause.raw_os_error is Some {
        cause.raw_os_error
    } else {
        code_from_message
    };
    match code {
        Some(c) => class_of_code(c, cause.permission_denied),
        None => None,
    }
}

/// The class given by the first cause, from position `from` on, that gives
/// one.
pub open spec fn first_cause_class(
    causes: Seq<IoCause>,
    from: int,
    code_from_message: Option<i32>,
) -> Option<WindowsIoRetryClass>
    decreases causes.len() - from,
{
    if from < 0 || from >= causes.len() {
        None
    } else {
        match cause_class(causes[from], code_from_message) {
            Some(c) => Some(c),
            None => first_cause_class(causes, from + 1, code_from_message),
        }
    }
}

/// Whether a message speaks of a denied permission.
pub open spec fn mentions_permission_denied(msg: Seq<char>) -> bool {
    contains_seq(msg, "PermissionDenied"@) || contains_seq(msg, "アクセスが拒否"@)
}

/// The class that the message alone gives.
pub open spec fn message_class(msg: Seq<char>, code_from_message: Option<i32>) -> WindowsIoRetryClass {
    match code_from_message {
        Some(c) => match class_of_code(c, mentions_permission_denied(msg)) {
            Some(k) => k,
            None => WindowsIoRetryClass::Never,
        },
        None => WindowsIoRetryClass::Never,
    }
}

/// The retry class of a writer failure: never for a dead writer; else by the
/// innermost classified I/O cause; else by the code written in the message.
pub open spec fn spec_retry_class(err: WriterError) -> WindowsIoRetryClass {
    if spec_writer_killed(err) {
        WindowsIoRetryClass::Never
    } else {
        let code = spec_error_code(err.message@);
        match first_cause_class(err.io_causes@, 0, code) {
            Some(c) => c,
            None => message_class(err.message@, code),
        }
    }
}

/// Whether the failure says that the writer's worker thread was killed, which
/// is fatal for the writer.
pub fn is_writer_killed(err: &WriterError) -> (r: bool)
    ensures
        r == spec_writer_killed(*err),
{
    match &err.thread_message {
        Some(m) => str_contains(m.as_str(), "Index writer was killed"),
        None => false,
    }
}

fn class_of_code_exec(code: i32, permission_denied: bool) -> (r: Option<WindowsIoRetryClass>)
    ensures
        r == class_of_code(code, permission_denied),
{
    if code == 32 || code == 33 || code == 1224 || code == 995 {
        Some(WindowsIoRetryClass::Always)
    } else if code == 5 {
        if permission_denied {
            Some(WindowsIoRetryClass::Conditional)
        } else {
            None
        }
    } else if code == 80 || code == 183 || code == 145 {
        Some(WindowsIoRetryClass::Limited(2))
    } else {
        None
    }
}

/// Classifies a writer failure for retrying.
pub fn windows_error_retry_class(err: &WriterError) -> (r: WindowsIoRetryClass)
    ensures
        r == spec_retry_class(*err),
{
    if is_writer_killed(err) {
        return WindowsIoRetryClass::Never;
    }
    let code_from_msg = extract_error_code_from_message(err.message.as_str());
    let mut i: usize = 0;
    while i < err.io_causes.len()
        invariant
            i <= err.io_causes.len(),
            !spec_writer_killed(*err),
            code_from_msg == spec_error_code(err.message@),
            first_cause_class(err.io_causes@, 0, code_from_msg) == first_cause_class(
                err.io_causes@,
                i as int,
                code_from_msg,
            ),
        decreases err.io_causes.len() - i,
    {
        let cause = err.io_causes[i];
        let code = match cause.raw_os_error {
            Some(c) => Some(c),
            None => code_from_msg,
        };
        match code {
            Some(c) => {
                match class_of_code_exec(c, cause.permission_denied) {
                    Some(k) => {
                        return k;
                    },
                    None => {},
                }
            },
            None => {},
        }
        i = i + 1;
    }
    match code_from_msg {
        Some(c) => {
            let denied = str_contains(err.message.as_str(), "PermissionDenied") || str_contains(
                err.message.as_str(),
                "アクセスが拒否",
            );
            match class_of_code_exec(c, denied) {
                Some(k) => k,
                None => WindowsIoRetryClass::Never,
            }
        },
        None => WindowsIoRetryClass::Never,
    }
}

/// Whether the failure is a transient I/O error that a retry may overcome.
pub fn is_windows_transient_io_error(err: &WriterError) -> (r: bool)
    ensures
        r == (spec_retry_class(*err) != WindowsIoRetryClass::Never),
{
    match windows_error_retry_class(err) {
        WindowsIoRetryClass::Never => false,
        _ => true,
    }
}

/// Whether a commit that failed at `attempt` (counted from zero) is tried
/// again, out of `attempts` attempts in all.
pub open spec fn spec_commit_retries(class: WindowsIoRetryClass, attempt: u32, attempts: u32) -> bool {
    &&& attempt + 1 < attempts
    &&& match class {
        WindowsIoRetryClass::Always => true,
        WindowsIoRetryClass::Conditional => true,
        WindowsIoRetryClass::Limited(limit) => attempt < limit,
        WindowsIoRetryClass::Never => false,
    }
}

pub fn commit_retries(class: WindowsIoRetryClass, attempt: u32, attempts: u32) -> (r: bool)
    ensures
        r == spec_commit_retries(class, attempt, attempts),
{
    if attempt >= attempts || attempts - attempt <= 1 {
        return false;
    }
    match class {
        WindowsIoRetryClass::Always => true,
        WindowsIoRetryClass::Conditional => true,
        WindowsIoRetryClass::Limited(limit) => attempt < limit,
        WindowsIoRetryClass::Never => false,
    }
}

/// A dead writer is never retried, and no failure is retried at the last
/// attempt.
pub proof fn lemma_retry_policy(err: WriterError, attempt: u32, attempts: u32)
    ensures
        spec_writer_killed(err) ==> !spec_commit_retries(spec_retry_class(err), attempt, attempts),
        attempt + 1 >= attempts ==> !spec_commit_retries(spec_retry_class(err), attempt, attempts),
        spec_effective_attempts(attempts) >= 4,
{
}

/// What follows a failed attempt to create the writer.
#[derive(Debug, Clone, Copy, PartialEq, Eq, Structural)]
pub enum WriterRetry {
    /// Wait, then try again.
    RetryAfter(u64),
    /// Give up and report the failure.
    GiveUp,
}

/// Whether a failed attempt to create the writer is followed by another:
/// the failure is transient and attempts are left.
pub open spec fn spec_writer_retries(err: WriterError, attempt: u32, attempts: u32) -> bool {
    spec_retry_class(err) != WindowsIoRetryClass::Never && attempt + 1 < attempts
}

/// Decides what follows a failed attempt to create the writer. `attempt`
/// counts the attempts from zero, out of the attempts that the configured
/// maximum allows, four at least. A dead writer and a failure that is not
/// transient are reported at once, any failure at the last attempt.
pub fn writer_retry(err: &WriterError, attempt: u32, max_retry_attempts: u32) -> (r: WriterRetry)
    ensures
        spec_writer_retries(*err, attempt, spec_effective_attempts(max_retry_attempts)) ==> (r
            matches WriterRetry::RetryAfter(delay) && backoff_base(attempt) <= delay
            <= backoff_base(attempt) + backoff_spread(attempt)),
        !spec_writer_retries(*err, attempt, spec_effective_attempts(max_retry_attempts)) ==> r
            == WriterRetry::GiveUp,
{
    let attempts = effective_attempts(max_retry_attempts);
    if !is_windows_transient_io_error(err) {
        return WriterRetry::GiveUp;
    }
    if attempt >= attempts || attempts - attempt <= 1 {
        return WriterRetry::GiveUp;
    }
    WriterRetry::RetryAfter(backoff_with_jitter_ms(attempt))
}

/// The operating system's code of the first I/O cause that has one.
pub open spec fn first_os_code(causes: Seq<IoCause>, from: int) -> Option<i32>
    decreases causes.len() - from,
{
    if from < 0 || from >= causes.len() {
        None
    } else if causes[from].raw_os_error is Some {
        causes[from].raw_os_error
    } else {
        first_os_code(causes, from + 1)
    }
}

/// The operating system's code of a writer failure: that of the outermost
/// I/O cause that has one.
pub fn extract_windows_error_code(err: &WriterError) -> (r: Option<i32>)
    ensures
        r == first_os_code(err.io_causes@, 0),
{
    let mut i: usize = 0;
    while i < err.io_causes.len()
        invariant
            i <= err.io_causes.len(),
            first_os_code(err.io_causes@, 0) == first_os_code(err.io_causes@, i as int),
        decreases err.io_causes.len() - i,
    {
        match err.io_causes[i].raw_os_error {
            Some(code) => {
                return Some(code);
            },
            None => {},
        }
        i = i + 1;
    }
    None
}

/// The name of an operating system error code.
pub open spec fn spec_win_error_name(code: i32) -> Seq<char> {
    if code == 2 {
        "ERROR_FILE_NOT_FOUND"@
    } else if code == 3 {
        "ERROR_PATH_NOT_FOUND"@
    } else if code == 5 {
        "ERROR_ACCESS_DENIED"@
    } else if code == 32 {
        "ERROR_SHARING_VIOLATION"@
    } else if code == 33 {
        "ERROR_LOCK_VIOLATION"@
    } else if code == 50 {
        "ERROR_NOT_SUPPORTED"@
    } else if code == 80 {
        "ERROR_FILE_EXISTS"@
    } else if code == 82 {
        "ERROR_CANNOT_MAKE"@
    } else if code == 145 {
        "ERROR_DIR_NOT_EMPTY"@
    } else if code == 170 {
        "ERROR_BUSY"@
    } else if code == 183 {
        "ERROR_ALREADY_EXISTS"@
    } else if code == 303 {
        "ERROR_DELETE_PENDING"@
    } else if code == 995 {
        "ERROR_OPERATION_ABORTED"@
    } else if code == 997 {
        "ERROR_IO_PENDING"@
    } else if code == 1224 {
        "ERROR_USER_MAPPED_FILE"@
    } else if code == 1314 {
        "ERROR_PRIVILEGE_NOT_HELD"@
    } else {
        "UNKNOWN"@
    }
}

/// The name of an operating system error code, `UNKNOWN` for a code
/// without a name here.
pub fn win_error_name(code: i32) -> (r: &'static str)
    ensures
        r@ == spec_win_error_name(code),
{
    if code == 2 {
        "ERROR_FILE_NOT_FOUND"
    } else if code == 3 {
        "ERROR_PATH_NOT_FOUND"
    } else if code == 5 {
        "ERROR_ACCESS_DENIED"
    } else if code == 32 {
        "ERROR_SHARING_VIOLATION"
    } else if code == 33 {
        "ERROR_LOCK_VIOLATION"
    } else if code == 50 {
        "ERROR_NOT_SUPPORTED"
    } else if code == 80 {
        "ERROR_FILE_EXISTS"
    } else if code == 82 {
        "ERROR_CANNOT_MAKE"
    } else if code == 145 {
        "ERROR_DIR_NOT_EMPTY"
    } else if code == 170 {
        "ERROR_BUSY"
    } else if code == 183 {
        "ERROR_ALREADY_EXISTS"
    } else if code == 303 {
        "ERROR_DELETE_PENDING"
    } else if code == 995 {
        "ERROR_OPERATION_ABORTED"
    } else if code == 997 {
        "ERROR_IO_PENDING"
    } else if code == 1224 {
        "ERROR_USER_MAPPED_FILE"
    } else if code == 1314 {
        "ERROR_PRIVILEGE_NOT_HELD"
    } else {
        "UNKNOWN"
    }
}

} // verus!
