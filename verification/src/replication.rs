//! Pausing database replication around a local write.
//!
//! A follower of a replicated database halts replication by taking an
//! exclusive lock on one byte of a file that lies beside the database, and
//! lets it go on by releasing that byte. This module holds what is asked of
//! the operating system and how its answer is read; the call itself is made
//! by the program.

use crate::text::{push_signed_decimal, signed_decimal_of, to_chars};
use crate::time::Span;
use vstd::prelude::*;
use vstd::string::StringExecFns;

verus! {

/// Offset of the byte whose lock halts replication.
pub const HALT_BYTE: i64 = 72;

/// Number of the command that sets a lock owned by the open file and waits
/// until it is granted.
pub const OFD_SET_LOCK_WAIT: i32 = 38;

/// What a lock request does to the byte range.
#[derive(Clone, Copy, Debug, PartialEq, Eq, Structural)]
pub enum LockKind {
    /// Take the range for writing, shutting every other holder out.
    Exclusive,
    /// Give the range back.
    Release,
}

/// A request to lock or release a byte range of an open file.
#[derive(Clone, Copy, Debug, PartialEq, Eq, Structural)]
pub struct LockRequest {
    /// The command that carries the request.
    pub command: i32,
    /// Whether the range is taken or given back.
    pub kind: LockKind,
    /// From where `start` counts; zero is the start of the file.
    pub whence: i16,
    /// First byte of the range.
    pub start: i64,
    /// Number of bytes in the range.
    pub len: i64,
    /// Process that holds the lock; zero for a lock owned by the open file.
    pub pid: i32,
}

/// The operating system refused a lock request.
#[derive(Clone, Copy, Debug, PartialEq, Eq, Structural)]
pub struct FlockError {
    /// The error number, where one could be read.
    pub errno: Option<i32>,
    /// What the call returned.
    pub rv: i32,
}

/// The request for `kind` on the byte that halts replication.
pub open spec fn halt_byte_request(kind: LockKind) -> LockRequest {
    LockRequest {
        command: OFD_SET_LOCK_WAIT,
        kind,
        whence: 0,
        start: HALT_BYTE,
        len: 1,
        pid: 0,
    }
}

/// The request that halts replication: an exclusive lock on the one byte
/// at `HALT_BYTE`, waited for until it is granted.
pub fn halt_request() -> (r: LockRequest)
    ensures
        r == halt_byte_request(LockKind::Exclusive),
{
    LockRequest {
        command: OFD_SET_LOCK_WAIT,
        kind: LockKind::Exclusive,
        whence: 0,
        start: HALT_BYTE,
        len: 1,
        pid: 0,
    }
}

/// The request that lets replication go on: the release of the byte that
/// `halt_request` takes.
pub fn unhalt_request() -> (r: LockRequest)
    ensures
        r == halt_byte_request(LockKind::Release),
{
    LockRequest {
        command: OFD_SET_LOCK_WAIT,
        kind: LockKind::Release,
        whence: 0,
        start: HALT_BYTE,
        len: 1,
        pid: 0,
    }
}

/// Halting and letting go speak of the same single byte of the same file.
pub proof fn lemma_unhalt_releases_what_halt_takes()
    ensures
        halt_byte_request(LockKind::Release).start == halt_byte_request(LockKind::Exclusive).start,
        halt_byte_request(LockKind::Release).len == halt_byte_request(LockKind::Exclusive).len,
        halt_byte_request(LockKind::Release).whence == halt_byte_request(
            LockKind::Exclusive,
        ).whence,
        halt_byte_request(LockKind::Release).command == halt_byte_request(
            LockKind::Exclusive,
        ).command,
        halt_byte_request(LockKind::Exclusive).start == 72,
        halt_byte_request(LockKind::Exclusive).len == 1,
{
}

/// Reads the answer to a lock request: zero is success, anything else is
/// an error that keeps the returned value and the error number.
pub fn lock_outcome(rv: i32, errno: Option<i32>) -> (r: Result<(), FlockError>)
    ensures
        r == (if rv == 0 {
            Ok::<(), FlockError>(())
        } else {
            Err::<(), FlockError>(FlockError { errno, rv })
        }),
{
    if rv == 0 {
        Ok(())
    } else {
        Err(FlockError { errno, rv })
    }
}

/// The text that describes a refused lock request.
pub open spec fn flock_error_text(e: FlockError) -> Seq<char> {
    "Flock Error | rv="@ + signed_decimal_of(e.rv as int) + " errno="@ + (match e.errno {
        Some(n) => signed_decimal_of(n as int),
        None => Seq::empty(),
    })
}

impl FlockError {
    /// Describes the error: the returned value and, where it is known, the
    /// error number.
    pub fn message(&self) -> (text: String)
        ensures
            text@ == flock_error_text(*self),
    {
        let mut text = String::from_str("Flock Error | rv=");
        push_signed_decimal(&mut text, self.rv);
        text.append(" errno=");
        match self.errno {
            Some(n) => {
                push_signed_decimal(&mut text, n);
            },
            None => {
                assert(text@ + Seq::<char>::empty() =~= text@);
            },
        }
        text
    }
}

/// Path of the file whose lock halts replication of the database at
/// `database_path`.
pub fn lockfile_path(database_path: &str) -> (path: String)
    ensures
        path@ == database_path@ + "-lock"@,
{
    let mut path = String::from_str(database_path);
    path.append("-lock");
    path
}

// --------------------------------------------------------------------- lag

/// The text of the lag file is not a count of milliseconds.
#[derive(Clone, Copy, Debug, PartialEq, Eq, Structural)]
pub struct InvalidLag;

/// White space as Unicode defines it.
pub open spec fn is_space(c: char) -> bool {
    let n = c as u32;
    ||| 0x09 <= n <= 0x0d
    ||| n == 0x20
    ||| n == 0x85
    ||| n == 0xa0
    ||| n == 0x1680
    ||| 0x2000 <= n <= 0x200a
    ||| n == 0x2028
    ||| n == 0x2029
    ||| n == 0x202f
    ||| n == 0x205f
    ||| n == 0x3000
}

/// Position of the first character of `t` that is no white space, or the
/// length of `t` where there is none.
pub open spec fn text_start(t: Seq<char>) -> int
    decreases t.len(),
{
    if t.len() == 0 || !is_space(t[0]) {
        0
    } else {
        1 + text_start(t.skip(1))
    }
}

/// Position behind the last character of `t` that is no white space, or
/// zero where there is none.
pub open spec fn text_end(t: Seq<char>) -> int
    decreases t.len(),
{
    if t.len() == 0 || !is_space(t.last()) {
        t.len() as int
    } else {
        text_end(t.drop_last())
    }
}

/// `t` without the white space at its start and at its end.
pub open spec fn trimmed(t: Seq<char>) -> Seq<char> {
    if text_start(t) <= text_end(t) {
        t.subrange(text_start(t), text_end(t))
    } else {
        Seq::empty()
    }
}

/// The value of a decimal digit; zero for any other character.
pub open spec fn digit_value(c: char) -> nat {
    if '0' <= c && c <= '9' {
        (c as u32 - 48) as nat
    } else {
        0
    }
}

/// Every character of `t` is a decimal digit.
pub open spec fn all_digits(t: Seq<char>) -> bool {
    forall|i: int| 0 <= i < t.len() ==> '0' <= #[trigger] t[i] && t[i] <= '9'
}

/// The number that the digits of `t` spell.
pub open spec fn digits_value(t: Seq<char>) -> nat
    decreases t.len(),
{
    if t.len() == 0 {
        0
    } else {
        digits_value(t.drop_last()) * 10 + digit_value(t.last())
    }
}

/// The digits of a number in text: `t`, without a plus sign in front.
pub open spec fn unsigned_part(t: Seq<char>) -> Seq<char> {
    if t.len() > 0 && t[0] == '+' {
        t.skip(1)
    } else {
        t
    }
}

/// The 64-bit number that `t` spells: an optional plus sign and at least
/// one digit, nothing else, and no more than 64 bits hold.
pub open spec fn number_of(t: Seq<char>) -> Option<u64> {
    let ds = unsigned_part(t);
    if ds.len() > 0 && all_digits(ds) && digits_value(ds) <= u64::MAX {
        Some(digits_value(ds) as u64)
    } else {
        None
    }
}

/// A count of milliseconds as a span.
pub open spec fn span_of_millis(ms: u64) -> Span {
    Span { secs: ms / 1000, nanos: ((ms % 1000) * 1_000_000) as u32 }
}

/// The lag that the text of a lag file states: a count of milliseconds
/// with white space around it.
pub open spec fn lag_of(text: Seq<char>) -> Option<Span> {
    match number_of(trimmed(text)) {
        Some(ms) => Some(span_of_millis(ms)),
        None => None,
    }
}

proof fn lemma_text_start(t: Seq<char>, k: int)
    requires
        0 <= k <= t.len(),
        forall|i: int| 0 <= i < k ==> is_space(t[i]),
        k == t.len() || !is_space(t[k]),
    ensures
        text_start(t) == k,
    decreases k,
{
    if k > 0 {
        let rest = t.skip(1);
        assert forall|i: int| 0 <= i < k - 1 implies is_space(rest[i]) by {
            assert(rest[i] == t[i + 1]);
        }
        lemma_text_start(rest, k - 1);
    }
}

proof fn lemma_text_end(t: Seq<char>, k: int)
    requires
        0 <= k <= t.len(),
        forall|i: int| k <= i < t.len() ==> is_space(t[i]),
        k == 0 || !is_space(t[k - 1]),
    ensures
        text_end(t) == k,
    decreases t.len() - k,
{
    if k < t.len() {
        lemma_text_end(t.drop_last(), k);
    }
}

/// The digits read so far never spell more than all of them do.
proof fn lemma_digits_value_grows(t: Seq<char>, k: int)
    requires
        0 <= k <= t.len(),
    ensures
        digits_value(t.take(k)) <= digits_value(t),
    decreases t.len() - k,
{
    if k < t.len() {
        assert(t.drop_last().take(k) =~= t.take(k));
        lemma_digits_value_grows(t.drop_last(), k);
        assert(digits_value(t.drop_last()) * 10 >= digits_value(t.drop_last())) by (nonlinear_arith);
    } else {
        assert(t.take(k) =~= t);
    }
}

/// Tells whether `c` is white space.
pub fn is_white_space(c: char) -> (r: bool)
    ensures
        r == is_space(c),
{
    let n: u32 = c as u32;
    (0x09 <= n && n <= 0x0d) || n == 0x20 || n == 0x85 || n == 0xa0 || n == 0x1680 || (0x2000
        <= n && n <= 0x200a) || n == 0x2028 || n == 0x2029 || n == 0x202f || n == 0x205f || n
        == 0x3000
}

/// Reads the text of a lag file: the count of milliseconds that it holds,
/// as a span.
pub fn parse_lag(text: &str) -> (r: Result<Span, InvalidLag>)
    ensures
        match r {
            Ok(lag) => lag_of(text@) == Some(lag) && lag.wf(),
            Err(_) => lag_of(text@) is None,
        },
{
    let chars = to_chars(text);
    let mut start: usize = 0;
    while start < chars.len() && is_white_space(chars[start])
        invariant
            start <= chars.len(),
            forall|i: int| 0 <= i < start ==> is_space(chars@[i]),
        decreases chars.len() - start,
    {
        start += 1;
    }
    let mut end: usize = chars.len();
    while end > 0 && is_white_space(chars[end - 1])
        invariant
            end <= chars.len(),
            forall|i: int| end <= i < chars.len() ==> is_space(chars@[i]),
        decreases end,
    {
        end -= 1;
    }
    proof {
        lemma_text_start(chars@, start as int);
        lemma_text_end(chars@, end as int);
    }
    if start >= end {
        assert(trimmed(text@).len() == 0);
        return Err(InvalidLag);
    }
    let ghost word = chars@.subrange(start as int, end as int);
    assert(word == trimmed(text@));
    let first: usize = if chars[start] == '+' {
        start + 1
    } else {
        start
    };
    let ghost ds = unsigned_part(word);
    assert(word[0] == chars@[start as int]);
    assert(ds =~= chars@.subrange(first as int, end as int));
    if first >= end {
        return Err(InvalidLag);
    }
    let mut value: u64 = 0;
    let mut i: usize = first;
    assert(ds.take(0) =~= Seq::<char>::empty());
    while i < end
        invariant
            first <= i <= end <= chars.len(),
            ds == chars@.subrange(first as int, end as int),
            ds == unsigned_part(trimmed(text@)),
            value == digits_value(ds.take(i - first)),
            all_digits(ds.take(i - first)),
        decreases end - i,
    {
        let c: char = chars[i];
        assert(ds[i - first] == c);
        if !('0' <= c && c <= '9') {
            return Err(InvalidLag);
        }
        let d: u64 = (c as u32 - 48) as u64;
        proof {
            let next = ds.take(i - first + 1);
            assert(next.drop_last() =~= ds.take(i - first));
            assert(next.last() == c);
            lemma_digits_value_grows(ds, i - first + 1);
        }
        if value > (u64::MAX - d) / 10 {
            return Err(InvalidLag);
        }
        value = value * 10 + d;
        i += 1;
    }
    assert(ds.take(end - first) =~= ds);
    let nanos: u32 = ((value % 1000) * 1_000_000) as u32;
    Ok(Span { secs: value / 1000, nanos })
}

} // verus!
