//! Market-data feed decisions: the credentials and symbols a feed streams, the
//! reconnect schedule of the bar stream, paging through historical bars, and the
//! retry schedule of historical requests.

use vstd::prelude::*;
use crate::clock::day_in_range;
use crate::errors::DataFeedError;
use crate::text::{chars_of, contains_chars, contains_seq};

verus! {

/// Reconnect delay after the first failure, and after a connection that lived long.
pub const INITIAL_BACKOFF_MS: u64 = 1000;

/// Longest reconnect delay.
pub const MAX_BACKOFF_MS: u64 = 30_000;

/// A connection that lived longer than this earns a fresh backoff schedule.
pub const LONG_CONNECTION_SECS: u64 = 60;

/// Most pages of historical bars fetched for one warm-up request.
pub const MAX_HISTORY_PAGES: u32 = 20;

/// Retries of a historical bars request after the first attempt.
pub const MAX_RETRIES: u32 = 3;

/// Delay before the first retry; it doubles with each attempt.
pub const RETRY_BASE_MS: u64 = 1000;

/// Market data feed for a set of symbols, with the credentials to reach it.
pub struct AlpacaFeed {
    api_key: String,
    api_secret: String,
    symbols: Vec<String>,
}

impl AlpacaFeed {
    pub closed spec fn key(&self) -> Seq<char> {
        self.api_key@
    }

    pub closed spec fn secret(&self) -> Seq<char> {
        self.api_secret@
    }

    pub closed spec fn symbol_list(&self) -> Seq<String> {
        self.symbols@
    }

    pub fn new(api_key: String, api_secret: String, symbols: Vec<String>) -> (r: Self)
        ensures
            r.key() == api_key@,
            r.secret() == api_secret@,
            r.symbol_list() == symbols@,
    {
        Self { api_key, api_secret, symbols }
    }

    pub fn api_key(&self) -> (r: &str)
        ensures
            r@ == self.key(),
    {
        self.api_key.as_str()
    }

    pub fn api_secret(&self) -> (r: &str)
        ensures
            r@ == self.secret(),
    {
        self.api_secret.as_str()
    }

    /// The streamed symbols.
    pub fn symbols(&self) -> (r: &Vec<String>)
        ensures
            r@ == self.symbol_list(),
    {
        &self.symbols
    }
}

/// how a streaming session ended.
#[derive(Debug, Clone, Copy, PartialEq, Eq, Structural)]
pub enum StreamEnd {
    /// the receiving side dropped the channel (process shutting down).
    ChannelClosed,
    /// the server ended the websocket without a transport error.
    ServerClosed,
}

/// What the stream loop does after a streaming session ends.
#[derive(Debug, Clone, Copy, PartialEq, Eq, Structural)]
pub enum Reconnect {
    /// stop streaming.
    Stop,
    /// wait this long, then connect again.
    Retry { sleep_ms: u64 },
}

/// The wait after `cur`: doubled, at most `MAX_BACKOFF_MS`.
pub open spec fn doubled_backoff(cur: int) -> int {
    if cur * 2 < MAX_BACKOFF_MS {
        cur * 2
    } else {
        MAX_BACKOFF_MS as int
    }
}

/// The wait before the reconnect after `k` quick failures in a row, starting from
/// a fresh schedule: one second doubled `k` times, at most thirty seconds.
pub open spec fn backoff_schedule(k: nat) -> int {
    let v = INITIAL_BACKOFF_MS * vstd::arithmetic::power2::pow2(k);
    if v < MAX_BACKOFF_MS {
        v
    } else {
        MAX_BACKOFF_MS as int
    }
}

/// Reconnect schedule of the bar stream: exponential backoff from one second,
/// capped at thirty, reset by a connection that lived a while.
pub struct StreamBackoff {
    pub backoff_ms: u64,
}

impl StreamBackoff {
    /// The delay stays within the schedule's bounds.
    pub open spec fn wf(&self) -> bool {
        INITIAL_BACKOFF_MS <= self.backoff_ms <= MAX_BACKOFF_MS
    }

    pub fn new() -> (r: Self)
        ensures
            r.wf(),
            r.backoff_ms == INITIAL_BACKOFF_MS,
    {
        StreamBackoff { backoff_ms: INITIAL_BACKOFF_MS }
    }

    /// A streaming session ended with `outcome` after living more than a minute
    /// (`lived_long`) or not. Stop when the bar channel closed; otherwise sleep the
    /// current delay and double it for next time, up to thirty seconds.
    pub fn on_stream_end(&mut self, lived_long: bool, outcome: &Result<StreamEnd, DataFeedError>) -> (r: Reconnect)
        requires
            old(self).wf(),
        ensures
            final(self).wf(),
            ({
                let cur = if lived_long {
                    INITIAL_BACKOFF_MS
                } else {
                    old(self).backoff_ms
                };
                match outcome {
                    Ok(StreamEnd::ChannelClosed) => r == Reconnect::Stop && final(self).backoff_ms == cur,
                    _ => r == (Reconnect::Retry { sleep_ms: cur }) && final(self).backoff_ms
                        == doubled_backoff(cur as int),
                }
            }),
    {
        if lived_long {
            self.backoff_ms = INITIAL_BACKOFF_MS;
        }
        match outcome {
            Ok(StreamEnd::ChannelClosed) => Reconnect::Stop,
            _ => {
                let sleep_ms = self.backoff_ms;
                let doubled = self.backoff_ms * 2;
                self.backoff_ms = if doubled < MAX_BACKOFF_MS {
                    doubled
                } else {
                    MAX_BACKOFF_MS
                };
                Reconnect::Retry { sleep_ms }
            },
        }
    }
}

/// Every reconnect waits at least one and at most thirty seconds.
pub proof fn lemma_reconnect_delay_bounded(b: StreamBackoff, lived_long: bool)
    requires
        b.wf(),
    ensures
        ({
            let cur = if lived_long {
                INITIAL_BACKOFF_MS
            } else {
                b.backoff_ms
            };
            INITIAL_BACKOFF_MS <= cur <= MAX_BACKOFF_MS
        }),
{
}

/// The page token to request next after page `page` (0-based) of historical bars
/// came back with `next`: a non-empty token while fewer than twenty pages are done.
pub fn next_history_page(page: u32, next: Option<String>) -> (r: Option<String>)
    ensures
        match r {
            Some(t) => page + 1 < MAX_HISTORY_PAGES && next == Some(t) && t@.len() > 0,
            None => page + 1 >= MAX_HISTORY_PAGES || next is None || next->0@.len() == 0,
        },
{
    if page >= MAX_HISTORY_PAGES - 1 {
        return None;
    }
    match next {
        Some(tok) => if tok.as_str().is_empty() {
            None
        } else {
            Some(tok)
        },
        None => None,
    }
}

/// The next page token of a paged range request: any non-empty token.
pub fn next_range_page(next: Option<String>) -> (r: Option<String>)
    ensures
        match r {
            Some(t) => next == Some(t) && t@.len() > 0,
            None => next is None || next->0@.len() == 0,
        },
{
    match next {
        Some(tok) => if tok.as_str().is_empty() {
            None
        } else {
            Some(tok)
        },
        None => None,
    }
}

/// Fragments whose presence (in any letter case) marks an error as a rate limit
/// or a transient server or network failure.
pub open spec fn retryable_fragments() -> Seq<Seq<char>> {
    seq![
        "429"@,
        "rate limit"@,
        "too many requests"@,
        "500"@,
        "502"@,
        "503"@,
        "504"@,
        "timeout"@,
        "connection"@,
    ]
}

/// What `str::to_lowercase` gives for a text: each character replaced by its
/// Unicode lowercase mapping.
pub uninterp spec fn unicode_lowercase(s: Seq<char>) -> Seq<char>;

/// Calls `str::to_lowercase`, whose result depends on the text alone (std's own
/// Unicode tables, no locale); the result is named `unicode_lowercase`.
#[verifier::external_body]
fn lowercase(s: &str) -> (r: String)
    ensures
        r@ == unicode_lowercase(s@),
{
    s.to_lowercase()
}

/// The error text, lowercased, holds one of the retryable fragments.
pub open spec fn retryable_spec(err: Seq<char>) -> bool {
    exists|i: int| 0 <= i < retryable_fragments().len() && contains_seq(unicode_lowercase(err), #[trigger] retryable_fragments()[i])
}

/// Does an error text look like a rate limit (HTTP 429) or a transient server or
/// network error? The text is lowercased before the fragments are looked for.
pub fn is_retryable_error(err: &str) -> (b: bool)
    ensures
        b == retryable_spec(err@),
{
    let lowered = lowercase(err);
    has_retryable_fragment(lowered.as_str())
}

/// Does an already lowercased error text hold one of the retryable fragments?
pub fn has_retryable_fragment(lowered: &str) -> (b: bool)
    ensures
        b == exists|i: int| 0 <= i < retryable_fragments().len() && contains_seq(lowered@, #[trigger] retryable_fragments()[i]),
{
    let lower = chars_of(lowered);
    let frags: [&str; 9] = [
        "429",
        "rate limit",
        "too many requests",
        "500",
        "502",
        "503",
        "504",
        "timeout",
        "connection",
    ];
    proof {
        assert(frags@.map_values(|s: &str| s@) == retryable_fragments());
    }
    let mut i: usize = 0;
    while i < 9
        invariant
            i <= 9,
            lower@ == lowered@,
            frags@.map_values(|s: &str| s@) == retryable_fragments(),
            forall|j: int| 0 <= j < i ==> !contains_seq(lower@, #[trigger] retryable_fragments()[j]),
        decreases 9 - i,
    {
        let f = chars_of(frags[i]);
        proof {
            assert(frags@.map_values(|s: &str| s@)[i as int] == frags@[i as int]@);
        }
        if contains_chars(&lower, &f) {
            return true;
        }
        i = i + 1;
    }
    false
}

/// Rate limits (HTTP 429), server errors 500, 502, 503 and 504, timeouts and
/// connection failures are retried, and nothing else: an error text is
/// retryable exactly when its lowercase form holds "429", "rate limit",
/// "too many requests", "500", "502", "503", "504", "timeout" or "connection".
pub proof fn lemma_transient_failures_are_retried(err: Seq<char>)
    ensures
        contains_seq(unicode_lowercase(err), "429"@) ==> retryable_spec(err),
        contains_seq(unicode_lowercase(err), "rate limit"@) ==> retryable_spec(err),
        contains_seq(unicode_lowercase(err), "too many requests"@) ==> retryable_spec(err),
        contains_seq(unicode_lowercase(err), "500"@) ==> retryable_spec(err),
        contains_seq(unicode_lowercase(err), "502"@) ==> retryable_spec(err),
        contains_seq(unicode_lowercase(err), "503"@) ==> retryable_spec(err),
        contains_seq(unicode_lowercase(err), "504"@) ==> retryable_spec(err),
        contains_seq(unicode_lowercase(err), "timeout"@) ==> retryable_spec(err),
        contains_seq(unicode_lowercase(err), "connection"@) ==> retryable_spec(err),
        retryable_spec(err) ==> {
            ||| contains_seq(unicode_lowercase(err), "429"@)
            ||| contains_seq(unicode_lowercase(err), "rate limit"@)
            ||| contains_seq(unicode_lowercase(err), "too many requests"@)
            ||| contains_seq(unicode_lowercase(err), "500"@)
            ||| contains_seq(unicode_lowercase(err), "502"@)
            ||| contains_seq(unicode_lowercase(err), "503"@)
            ||| contains_seq(unicode_lowercase(err), "504"@)
            ||| contains_seq(unicode_lowercase(err), "timeout"@)
            ||| contains_seq(unicode_lowercase(err), "connection"@)
        },
{
    lemma_fragment_search_finds_transient_failures(unicode_lowercase(err));
}

/// The fragment search on an already lowercased text finds exactly these:
/// "429", "rate limit", "too many requests", "500", "502", "503", "504",
/// "timeout" and "connection".
pub proof fn lemma_fragment_search_finds_transient_failures(lowered: Seq<char>)
    ensures
        (exists|i: int| 0 <= i < retryable_fragments().len() && contains_seq(lowered, #[trigger] retryable_fragments()[i]))
            <==> {
            ||| contains_seq(lowered, "429"@)
            ||| contains_seq(lowered, "rate limit"@)
            ||| contains_seq(lowered, "too many requests"@)
            ||| contains_seq(lowered, "500"@)
            ||| contains_seq(lowered, "502"@)
            ||| contains_seq(lowered, "503"@)
            ||| contains_seq(lowered, "504"@)
            ||| contains_seq(lowered, "timeout"@)
            ||| contains_seq(lowered, "connection"@)
        },
{
    let fr = retryable_fragments();
    assert(fr[0] == "429"@);
    assert(fr[1] == "rate limit"@);
    assert(fr[2] == "too many requests"@);
    assert(fr[3] == "500"@);
    assert(fr[4] == "502"@);
    assert(fr[5] == "503"@);
    assert(fr[6] == "504"@);
    assert(fr[7] == "timeout"@);
    assert(fr[8] == "connection"@);
    assert(fr.len() == 9);
}

/// The pause before retrying a failed historical request at attempt `attempt`
/// (0-based) with error text `err`: 1 s, 2 s, 4 s for retryable errors while
/// retries remain; no pause otherwise.
pub fn retry_pause_ms(attempt: u32, err: &str) -> (r: Option<u64>)
    ensures
        r == (if attempt < MAX_RETRIES && retryable_spec(err@) {
            Some((RETRY_BASE_MS * vstd::arithmetic::power2::pow2(attempt as nat)) as u64)
        } else {
            None::<u64>
        }),
{
    if attempt < MAX_RETRIES && is_retryable_error(err) {
        proof {
            vstd::arithmetic::power2::lemma2_to64();
        }
        let factor: u64 = if attempt == 0 {
            1
        } else if attempt == 1 {
            2
        } else {
            4
        };
        Some(RETRY_BASE_MS * factor)
    } else {
        None
    }
}

/// The error reported when every attempt of a historical request failed.
pub fn retries_exhausted_message(last_err: &str) -> (r: String)
    ensures
        r@ == "alpaca bars request failed after 4 attempts: "@ + last_err@,
{
    let mut r = String::from_str("alpaca bars request failed after 4 attempts: ");
    r.append(last_err);
    r
}

/// How far behind the present a historical request may end: the free data plan
/// refuses the most recent consolidated bars.
pub const DATA_DELAY_MS: i64 = 16 * 60_000;

/// The window of a historical range request from the first day's open to the last
/// day's close: its end is pulled back to `DATA_DELAY_MS` before `now_ms`, and there
/// is nothing to fetch when the window is then empty.
pub fn clamp_fetch_window(start_ms: i64, end_ms: i64, now_ms: i64) -> (r: Option<(i64, i64)>)
    requires
        now_ms >= i64::MIN + DATA_DELAY_MS,
    ensures
        ({
            let end = if end_ms > now_ms - DATA_DELAY_MS {
                now_ms - DATA_DELAY_MS
            } else {
                end_ms as int
            };
            if end <= start_ms {
                r is None
            } else {
                r == Some((start_ms, end as i64))
            }
        }),
{
    let latest_allowed = now_ms - DATA_DELAY_MS;
    let end = if end_ms > latest_allowed {
        latest_allowed
    } else {
        end_ms
    };
    if end <= start_ms {
        None
    } else {
        Some((start_ms, end))
    }
}

/// Days of history fetched per request after the first day of a chunk.
pub const CHUNK_EXTRA_DAYS: i64 = 19;

/// `chunks` cut the days `start..=end` into consecutive pieces of
/// `CHUNK_EXTRA_DAYS + 1` days, the last one possibly shorter.
pub open spec fn chunks_cover(chunks: Seq<(i64, i64)>, start: int, end: int) -> bool {
    &&& (start > end ==> chunks.len() == 0)
    &&& (start <= end ==> chunks.len() > 0 && chunks[0].0 == start && chunks[chunks.len() - 1].1
        == end)
    &&& forall|k: int|
        0 <= k < chunks.len() ==> (#[trigger] chunks[k]).0 <= chunks[k].1 && chunks[k].1 - chunks[k].0
            <= CHUNK_EXTRA_DAYS
    &&& forall|k: int|
        0 <= k < chunks.len() - 1 ==> (#[trigger] chunks[k]).1 == chunks[k].0 + CHUNK_EXTRA_DAYS
            && chunks[k + 1].0 == chunks[k].1 + 1
}

/// The day ranges (inclusive, as day numbers) in which a long history is fetched.
pub fn fetch_chunks(start: i64, end: i64) -> (chunks: Vec<(i64, i64)>)
    requires
        day_in_range(start as int),
        day_in_range(end as int),
    ensures
        chunks_cover(chunks@, start as int, end as int),
{
    let mut chunks: Vec<(i64, i64)> = Vec::new();
    if start > end {
        return chunks;
    }
    let mut chunk_start = start;
    while chunk_start <= end
        invariant
            day_in_range(start as int),
            day_in_range(end as int),
            start <= chunk_start <= end + 1,
            chunks@.len() == 0 ==> chunk_start == start,
            chunks@.len() > 0 ==> chunks@[0].0 == start && chunk_start == chunks@[chunks@.len() - 1].1
                + 1,
            forall|k: int|
                0 <= k < chunks@.len() ==> (#[trigger] chunks@[k]).0 <= chunks@[k].1 && chunks@[k].1
                    - chunks@[k].0 <= CHUNK_EXTRA_DAYS,
            forall|k: int|
                0 <= k < chunks@.len() - 1 ==> (#[trigger] chunks@[k]).1 == chunks@[k].0
                    + CHUNK_EXTRA_DAYS && chunks@[k + 1].0 == chunks@[k].1 + 1,
            chunks@.len() > 0 ==> chunks@[chunks@.len() - 1].1 == end || chunks@[chunks@.len()
                - 1].1 == chunks@[chunks@.len() - 1].0 + CHUNK_EXTRA_DAYS,
        decreases end + 1 - chunk_start,
    {
        let chunk_end = if chunk_start + CHUNK_EXTRA_DAYS < end {
            chunk_start + CHUNK_EXTRA_DAYS
        } else {
            end
        };
        chunks.push((chunk_start, chunk_end));
        chunk_start = chunk_end + 1;
    }
    chunks
}

/// Reconnect waits follow the exponential schedule 1 s, 2 s, 4 s, ... capped at
/// 30 s: a fresh backoff starts the schedule and each quick failure moves it one
/// step on.
pub proof fn lemma_backoff_follows_schedule(k: nat)
    ensures
        backoff_schedule(0) == INITIAL_BACKOFF_MS,
        doubled_backoff(backoff_schedule(k)) == backoff_schedule(k + 1),
{
    vstd::arithmetic::power2::lemma2_to64();
    vstd::arithmetic::power2::lemma_pow2_unfold(k + 1);
}

} // verus!
