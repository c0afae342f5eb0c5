//! Getting a dropped station back: when to reconnect, how long to wait between
//! tries, and the address a typed text stands for.

use vstd::prelude::*;
use crate::config::https_scheme;
use crate::player::Status;
use crate::search::scheme_sep;
use crate::text::{chars_of, contains, has_infix, trim, trimmed};

verus! {

broadcast use vstd::string::group_string_axioms;

/// The first wait, in seconds.
pub const FIRST_WAIT_SECS: u64 = 3;

/// The longest wait, in seconds.
pub const MAX_WAIT_SECS: u64 = 60;

/// `2` to the power `n`.
pub open spec fn doubled(n: nat) -> nat
    decreases n,
{
    if n == 0 {
        1
    } else {
        2 * doubled((n - 1) as nat)
    }
}

/// The wait before reconnect number `tries + 1`, in seconds: three seconds,
/// doubled with every try, and never more than a minute.
pub open spec fn backoff_secs(tries: u32) -> nat {
    let k = if tries < 5 {
        tries as nat
    } else {
        5
    };
    if FIRST_WAIT_SECS * doubled(k) < MAX_WAIT_SECS {
        (FIRST_WAIT_SECS * doubled(k)) as nat
    } else {
        MAX_WAIT_SECS as nat
    }
}

/// How long to wait before the next reconnect, in seconds: 3, 6, 12, 24, 48,
/// then a minute for as long as it takes. It never gives up.
pub fn backoff(tries: u32) -> (r: u64)
    ensures
        r == backoff_secs(tries),
{
    let k = if tries < 5 {
        tries
    } else {
        5
    };
    let mut factor: u64 = 1;
    let mut i: u32 = 0;
    while i < k
        invariant
            i <= k <= 5,
            factor == doubled(i as nat),
            factor <= 32,
        decreases k - i,
    {
        proof {
            assert(doubled((i + 1) as nat) == 2 * doubled(i as nat));
            if i < 5 {
                lemma_doubled_small(i as nat);
            }
        }
        factor = factor * 2;
        i = i + 1;
    }
    let wait = FIRST_WAIT_SECS * factor;
    if wait < MAX_WAIT_SECS {
        wait
    } else {
        MAX_WAIT_SECS
    }
}

proof fn lemma_doubled_small(n: nat)
    requires
        n < 5,
    ensures
        2 * doubled(n) <= 32,
{
    reveal_with_fuel(doubled, 5);
}

proof fn lemma_doubled_monotone(a: nat, b: nat)
    requires
        a <= b,
    ensures
        doubled(a) <= doubled(b),
        doubled(a) >= 1,
    decreases b,
{
    if b > 0 && a < b {
        lemma_doubled_monotone(a, (b - 1) as nat);
    } else if b > 0 {
        lemma_doubled_monotone((a - 1) as nat, (b - 1) as nat);
    }
}

/// The wait only ever grows with the number of tries, starts at three
/// seconds, and is never longer than a minute.
pub proof fn law_backoff_widens_to_a_cap(a: u32, b: u32)
    requires
        a <= b,
    ensures
        backoff_secs(a) <= backoff_secs(b),
        FIRST_WAIT_SECS <= backoff_secs(a) <= MAX_WAIT_SECS,
        backoff_secs(0) == FIRST_WAIT_SECS,
{
    let ka: nat = if a < 5 { a as nat } else { 5 };
    let kb: nat = if b < 5 { b as nat } else { 5 };
    lemma_doubled_monotone(ka, kb);
    lemma_doubled_monotone(0, ka);
}

/// What the reconnect loop should do this frame.
#[derive(Debug, PartialEq, Eq, Structural)]
pub enum Recovery {
    Nothing,
    /// It came back on its own; drop the pending reconnect.
    Cancel,
    /// Start waiting.
    Schedule,
    /// Keep waiting, and ask to be woken at the deadline (milliseconds on the
    /// monotonic clock the caller reads `now` from).
    Wait(u64),
    /// The wait is over.
    Reconnect,
}

/// The decision of the reconnect loop, from whether the stream is broken,
/// whether a station is wanted, the pending deadline and the time.
pub open spec fn recovery_of(broken: bool, wanted: bool, reconnect_at: Option<u64>, now: u64) -> Recovery {
    match reconnect_at {
        Some(at) => if !broken {
            Recovery::Cancel
        } else if now >= at {
            Recovery::Reconnect
        } else {
            Recovery::Wait(at)
        },
        None => if broken && wanted {
            Recovery::Schedule
        } else {
            Recovery::Nothing
        },
    }
}

/// What the reconnect loop should do this frame. The queue can look empty for
/// a single frame between two buffers; if it filled up again in the meantime
/// the pending reconnect is cancelled rather than restarting the station.
pub fn recovery(broken: bool, wanted: bool, reconnect_at: Option<u64>, now: u64) -> (r: Recovery)
    ensures
        r == recovery_of(broken, wanted, reconnect_at, now),
{
    match reconnect_at {
        Some(_) if !broken => Recovery::Cancel,
        Some(at) if now >= at => Recovery::Reconnect,
        Some(at) => Recovery::Wait(at),
        None if broken && wanted => Recovery::Schedule,
        None => Recovery::Nothing,
    }
}

/// A station the user switched off is never brought back, however broken the
/// stream looks: without a pending reconnect, nothing is scheduled unless a
/// station is wanted.
pub proof fn law_stopped_stays_stopped(broken: bool, now: u64)
    ensures
        recovery_of(broken, false, None, now) == Recovery::Nothing,
{
}

/// A healthy stream is left alone: without a pending deadline nothing is
/// scheduled unless the stream is broken and a station is wanted, and a
/// reconnect only ever happens to a broken stream whose deadline has come.
pub proof fn law_only_a_broken_stream_is_reconnected(
    broken: bool,
    wanted: bool,
    reconnect_at: Option<u64>,
    now: u64,
)
    ensures
        recovery_of(false, wanted, None, now) == Recovery::Nothing,
        recovery_of(broken, wanted, reconnect_at, now) is Schedule ==> broken && wanted
            && reconnect_at is None,
        recovery_of(broken, wanted, reconnect_at, now) is Reconnect ==> broken && reconnect_at
            is Some && now >= reconnect_at->0,
        !broken && reconnect_at is Some ==> recovery_of(broken, wanted, reconnect_at, now)
            is Cancel,
{
}

/// Whether the station we think is on is not actually coming through: the
/// queue ran dry under a `Playing` status, or the attempt to get the stream back
/// failed and left an error behind.
pub fn is_broken(stalled: bool, status: &Status) -> (r: bool)
    ensures
        r == (stalled || status is Error),
{
    stalled || match status {
        Status::Error(_) => true,
        _ => false,
    }
}

/// The address a typed text stands for: trimmed, and given `https://` when it
/// has no scheme of its own.
pub open spec fn normalised(text: Seq<char>) -> Seq<char> {
    let t = trimmed(text);
    if t.len() == 0 || contains(t, scheme_sep()) {
        t
    } else {
        https_scheme() + t
    }
}

fn https_literal() -> (r: &'static str)
    ensures
        r@ == https_scheme(),
{
    proof {
        reveal_strlit("https://");
    }
    let r = "https://";
    assert(r@ =~= https_scheme());
    r
}

fn scheme_sep_literal() -> (r: &'static str)
    ensures
        r@ == scheme_sep(),
{
    proof {
        reveal_strlit("://");
    }
    let r = "://";
    assert(r@ =~= scheme_sep());
    r
}

/// Gives an address the scheme it is missing, so that "www." addresses that
/// the search sends to the player parse as URLs.
pub fn normalise_url(text: &str) -> (r: String)
    ensures
        r@ == normalised(text@),
{
    let t = trim(text);
    if t.is_empty() || has_infix(&chars_of(t), &chars_of(scheme_sep_literal())) {
        return t.to_owned();
    }
    let mut r = https_literal().to_owned();
    r.append(t);
    r
}

/// A normalised address is its own trim.
pub proof fn lemma_normalised_is_trimmed(text: Seq<char>)
    ensures
        trimmed(normalised(text)) == normalised(text),
{
    let t = trimmed(text);
    crate::text::lemma_trimmed_idempotent(text);
    crate::text::lemma_trimmed_is_bare(text);
    if !(t.len() == 0 || contains(t, scheme_sep())) {
        crate::text::lemma_trimmed_of_bare(https_scheme() + t);
    }
}

/// Normalising an address that is already normal changes nothing.
pub proof fn law_normalise_idempotent(text: Seq<char>)
    ensures
        normalised(normalised(text)) == normalised(text),
{
    let t = trimmed(text);
    crate::text::lemma_trimmed_idempotent(text);
    if t.len() == 0 || contains(t, scheme_sep()) {
    } else {
        let n = https_scheme() + t;
        crate::text::lemma_trimmed_is_bare(text);
        crate::text::lemma_trimmed_of_bare(n);
        assert(n.subrange(5, 8) =~= scheme_sep());
        assert(crate::text::occurs_at(n, scheme_sep(), 5));
    }
}

/// The Windows execution-state flag that keeps the request standing.
pub const ES_CONTINUOUS: u32 = 0x8000_0000;

/// The Windows execution-state flag that holds the system (not the display) awake.
pub const ES_SYSTEM_REQUIRED: u32 = 0x0000_0001;

/// The flags to hand `SetThreadExecutionState`: hold the system awake while a
/// station plays, and let go when it stops.
pub fn execution_state_flags(awake: bool) -> (r: u32)
    ensures
        r == if awake {
            ES_CONTINUOUS | ES_SYSTEM_REQUIRED
        } else {
            ES_CONTINUOUS
        },
{
    if awake {
        ES_CONTINUOUS | ES_SYSTEM_REQUIRED
    } else {
        ES_CONTINUOUS
    }
}

} // verus!
