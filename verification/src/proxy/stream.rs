//! The stream relay's bookkeeping: what is learnt from the server-sent events
//! that pass through, and how the log row of a stream is completed.

use vstd::prelude::*;
use vstd::string::*;
use vstd::utf8::*;

use crate::json::{
    integer_at, integer_at_either, json_parse, json_tree, parse_value, text_at, value_get,
    JsonTree,
};
use crate::logger::{RequestLog, RequestLogView};
use crate::proxy::token_counter::{capped, TokenCounter};
use crate::strs::{
    after_first_line, first_line, lemma_newline_at_bounds, lemma_prefix_bytes, split_line,
    strip_prefix,
};
use crate::text::{starts_with, str_eq, utf8};

verus! {

/// What has been learnt from a stream so far.
#[derive(Debug)]
pub struct TokenStats {
    pub input_tokens: i32,
    pub output_tokens: i32,
    pub cache_creation_input_tokens: i32,
    pub cache_read_input_tokens: i32,
    /// Whether any event carried a `usage` member.
    pub has_usage: bool,
    /// The answer's text as far as it has passed, for local counting.
    pub output_text: String,
}

/// The mathematical content of a [`TokenStats`].
pub struct TokenStatsView {
    pub input_tokens: i32,
    pub output_tokens: i32,
    pub cache_creation_input_tokens: i32,
    pub cache_read_input_tokens: i32,
    pub has_usage: bool,
    pub output_text: Seq<char>,
}

impl View for TokenStats {
    type V = TokenStatsView;

    open spec fn view(&self) -> TokenStatsView {
        TokenStatsView {
            input_tokens: self.input_tokens,
            output_tokens: self.output_tokens,
            cache_creation_input_tokens: self.cache_creation_input_tokens,
            cache_read_input_tokens: self.cache_read_input_tokens,
            has_usage: self.has_usage,
            output_text: self.output_text@,
        }
    }
}

/// The statistics of a stream of which nothing has been seen.
pub open spec fn empty_stats() -> TokenStatsView {
    TokenStatsView {
        input_tokens: 0,
        output_tokens: 0,
        cache_creation_input_tokens: 0,
        cache_read_input_tokens: 0,
        has_usage: false,
        output_text: Seq::<char>::empty(),
    }
}

/// A reported count as the statistics hold it: the count itself, or the
/// nearest value that fits.
pub open spec fn clamp_i32(n: i64) -> i32 {
    if n > i32::MAX {
        i32::MAX
    } else if n < i32::MIN {
        i32::MIN
    } else {
        n as i32
    }
}

/// A reported count as the statistics hold it.
pub fn clamp_to_i32(n: i64) -> (r: i32)
    ensures
        r == clamp_i32(n),
{
    if n > 0x7fff_ffff {
        i32::MAX
    } else if n < -0x8000_0000 {
        i32::MIN
    } else {
        n as i32
    }
}

/// The rule for cumulative counts: a reported value replaces the current one
/// unless it would put a zero or a negative number in place of a count that
/// is not zero.
pub open spec fn keep_nonzero(current: i32, seen: Option<i64>) -> i32 {
    match seen {
        Some(v) => if v > 0 || current == 0 {
            clamp_i32(v)
        } else {
            current
        },
        None => current,
    }
}

fn merged(current: i32, seen: Option<i64>) -> (r: i32)
    ensures
        r == keep_nonzero(current, seen),
{
    match seen {
        Some(v) => if v > 0 || current == 0 {
            clamp_to_i32(v)
        } else {
            current
        },
        None => current,
    }
}

/// The statistics after a `usage` object, found at the top level of an event
/// or inside its `message`: each count that the object reports is taken by
/// the rule for cumulative counts.
pub open spec fn merge_usage(stats: TokenStatsView, usage: JsonTree) -> TokenStatsView {
    TokenStatsView {
        input_tokens: keep_nonzero(
            stats.input_tokens,
            usage.integer_at_either("input_tokens"@, "prompt_tokens"@),
        ),
        output_tokens: keep_nonzero(
            stats.output_tokens,
            usage.integer_at_either("output_tokens"@, "completion_tokens"@),
        ),
        cache_creation_input_tokens: keep_nonzero(
            stats.cache_creation_input_tokens,
            usage.integer_at("cache_creation_input_tokens"@),
        ),
        cache_read_input_tokens: keep_nonzero(
            stats.cache_read_input_tokens,
            usage.integer_at("cache_read_input_tokens"@),
        ),
        has_usage: true,
        output_text: stats.output_text,
    }
}

/// The text that an event adds to the answer: the `delta.text` of a
/// `content_block_delta` event.
pub open spec fn delta_text(event: JsonTree) -> Option<Seq<char>> {
    if event.text_at("type"@) == Some("content_block_delta"@) {
        match event.member("delta"@) {
            Some(delta) => delta.text_at("text"@),
            None => None,
        }
    } else {
        None
    }
}

/// The statistics after one event: its text is collected, then a top-level
/// `usage` is merged, then the `usage` of its `message`.
pub open spec fn observe_event(stats: TokenStatsView, event: JsonTree) -> TokenStatsView {
    let collected = match delta_text(event) {
        Some(t) => TokenStatsView { output_text: stats.output_text + t, ..stats },
        None => stats,
    };
    let top = match event.member("usage"@) {
        Some(usage) => merge_usage(collected, usage),
        None => collected,
    };
    match event.member("message"@) {
        Some(message) => match message.member("usage"@) {
            Some(usage) => merge_usage(top, usage),
            None => top,
        },
        None => top,
    }
}

/// The statistics after one line of a chunk: a line that begins with
/// `data: ` and carries JSON behind it is an event, any other line is
/// passed over.
pub open spec fn observe_line(stats: TokenStatsView, line: Seq<u8>) -> TokenStatsView {
    let prefix = utf8("data: "@);
    if starts_with(line, prefix) {
        match json_parse(decode_utf8(line.subrange(prefix.len() as int, line.len() as int))) {
            Some(event) => observe_event(stats, event),
            None => stats,
        }
    } else {
        stats
    }
}

/// The statistics after all lines of a chunk, in order.
pub open spec fn observe_bytes(stats: TokenStatsView, bytes: Seq<u8>) -> TokenStatsView
    decreases bytes.len(),
    via observe_bytes_decreases
{
    if bytes.len() == 0 {
        stats
    } else {
        observe_bytes(observe_line(stats, first_line(bytes)), after_first_line(bytes))
    }
}

#[via_fn]
proof fn observe_bytes_decreases(stats: TokenStatsView, bytes: Seq<u8>) {
    lemma_newline_at_bounds(bytes, 0);
}

impl TokenStats {
    /// The statistics of a stream of which nothing has been seen.
    pub fn new() -> (r: Self)
        ensures
            r@ == empty_stats(),
    {
        TokenStats {
            input_tokens: 0,
            output_tokens: 0,
            cache_creation_input_tokens: 0,
            cache_read_input_tokens: 0,
            has_usage: false,
            output_text: String::new(),
        }
    }

    fn merge_usage(&mut self, usage: &serde_json::Value)
        ensures
            final(self)@ == merge_usage(old(self)@, json_tree(usage)),
    {
        self.has_usage = true;
        self.input_tokens =
        merged(self.input_tokens, integer_at_either(usage, "input_tokens", "prompt_tokens"));
        self.output_tokens =
        merged(self.output_tokens, integer_at_either(usage, "output_tokens", "completion_tokens"));
        self.cache_creation_input_tokens =
        merged(
            self.cache_creation_input_tokens,
            integer_at(usage, "cache_creation_input_tokens"),
        );
        self.cache_read_input_tokens =
        merged(self.cache_read_input_tokens, integer_at(usage, "cache_read_input_tokens"));
    }

    /// Takes note of one event of the stream.
    pub fn observe_event(&mut self, event: &serde_json::Value)
        ensures
            final(self)@ == observe_event(old(self)@, json_tree(event)),
    {
        let is_delta = match text_at(event, "type") {
            Some(kind) => str_eq(kind, "content_block_delta"),
            None => false,
        };
        if is_delta {
            match value_get(event, "delta") {
                Some(delta) => match text_at(delta, "text") {
                    Some(t) => {
                        self.output_text.append(t);
                    },
                    None => {},
                },
                None => {},
            }
        }
        match value_get(event, "usage") {
            Some(usage) => {
                self.merge_usage(usage);
            },
            None => {},
        }
        match value_get(event, "message") {
            Some(message) => match value_get(message, "usage") {
                Some(usage) => {
                    self.merge_usage(usage);
                },
                None => {},
            },
            None => {},
        }
    }

    /// Takes note of one line of a chunk.
    pub fn observe_line(&mut self, line: &str)
        ensures
            final(self)@ == observe_line(old(self)@, utf8(line@)),
    {
        match strip_prefix(line, "data: ") {
            Some(payload) => {
                proof {
                    lemma_prefix_bytes("data: "@, payload@);
                    encode_utf8_decode_utf8(payload@);
                }
                match parse_value(payload) {
                    Some(event) => {
                        self.observe_event(&event);
                    },
                    None => {},
                }
            },
            None => {},
        }
    }

    /// Takes note of one chunk of the stream, given as text: every line of
    /// it, in order.
    pub fn observe_chunk(&mut self, text: &str)
        ensures
            final(self)@ == observe_bytes(old(self)@, utf8(text@)),
    {
        let mut rest: &str = text;
        while rest.as_bytes().len() > 0
            invariant
                observe_bytes(self@, utf8(rest@)) == observe_bytes(old(self)@, utf8(text@)),
            decreases utf8(rest@).len(),
        {
            proof {
                lemma_newline_at_bounds(utf8(rest@), 0);
            }
            let (line, tail) = split_line(rest);
            self.observe_line(line);
            rest = tail;
        }
    }
}

/// A latch for the end of a stream: whichever of the stream's end, its
/// failure or the watchdog comes first completes it, and nothing completes it
/// again.
#[derive(Debug)]
pub struct Completion {
    pub done: bool,
}

impl Completion {
    /// A latch for a stream that is still running.
    pub fn new() -> (r: Self)
        ensures
            !r.done,
    {
        Completion { done: false }
    }

    /// Records that the stream is over. The answer is `true` the first time
    /// and `false` ever after.
    pub fn complete(&mut self) -> (first: bool)
        ensures
            first == !old(self).done,
            final(self).done,
    {
        let first = !self.done;
        self.done = true;
        first
    }
}

/// True when the upstream's own numbers cannot be used: it sent no `usage`,
/// or both totals are zero.
pub open spec fn needs_local_count(stats: TokenStatsView) -> bool {
    !stats.has_usage || (stats.input_tokens == 0 && stats.output_tokens == 0)
}

/// The input tokens of a finished stream: the upstream's number, or the local
/// count of the request body where that is called for and possible.
pub open spec fn final_input_tokens(
    stats: TokenStatsView,
    request_body: Seq<char>,
    counter: Option<&TokenCounter>,
) -> i32 {
    match counter {
        Some(c) => if needs_local_count(stats) && request_body.len() > 0 {
            capped(c.input_tokens(request_body) as int)
        } else {
            stats.input_tokens
        },
        None => stats.input_tokens,
    }
}

/// The output tokens of a finished stream: the upstream's number, or the
/// local count of the collected text where that is called for and possible.
pub open spec fn final_output_tokens(stats: TokenStatsView, counter: Option<&TokenCounter>) -> i32 {
    match counter {
        Some(c) => if needs_local_count(stats) && stats.output_text.len() > 0 {
            capped(c.count(stats.output_text) as int)
        } else {
            stats.output_tokens
        },
        None => stats.output_tokens,
    }
}

/// The log row of a finished stream: the row written at dispatch with the
/// final token counts and the whole duration filled in.
pub open spec fn finished_log(
    log: RequestLogView,
    stats: TokenStatsView,
    duration_ms: i64,
    request_body: Seq<char>,
    counter: Option<&TokenCounter>,
) -> RequestLogView {
    RequestLogView {
        input_tokens: final_input_tokens(stats, request_body, counter),
        output_tokens: final_output_tokens(stats, counter),
        cache_creation_input_tokens: stats.cache_creation_input_tokens,
        cache_read_input_tokens: stats.cache_read_input_tokens,
        duration_ms,
        ..log
    }
}

/// Completes the log row of a finished stream, counting locally with
/// `counter` where the upstream's numbers cannot be used.
pub fn finish_log_with(
    log: RequestLog,
    stats: &TokenStats,
    duration_ms: i64,
    request_body: &str,
    counter: Option<&TokenCounter>,
) -> (r: RequestLog)
    ensures
        r@ == finished_log(log@, stats@, duration_ms, request_body@, counter),
{
    let mut log = log;
    log.input_tokens = stats.input_tokens;
    log.output_tokens = stats.output_tokens;
    log.cache_creation_input_tokens = stats.cache_creation_input_tokens;
    log.cache_read_input_tokens = stats.cache_read_input_tokens;
    log.duration_ms = duration_ms;
    if !stats.has_usage || (stats.input_tokens == 0 && stats.output_tokens == 0) {
        match counter {
            Some(c) => {
                if !request_body.is_empty() {
                    log.input_tokens = c.count_input_tokens(request_body);
                }
                if !stats.output_text.as_str().is_empty() {
                    log.output_tokens = c.count_output_tokens(stats.output_text.as_str());
                }
            },
            None => {},
        }
    }
    log
}

/// Completes the log row of a finished stream. Where the upstream's numbers
/// cannot be used, the tokens are counted locally, if the counter can be
/// built.
pub fn finish_log(log: RequestLog, stats: &TokenStats, duration_ms: i64, request_body: &str) -> (r:
    RequestLog)
    ensures
        !needs_local_count(stats@) ==> r@ == finished_log(
            log@,
            stats@,
            duration_ms,
            request_body@,
            None,
        ),
        r@ == finished_log(log@, stats@, duration_ms, request_body@, None) || exists|
            c: TokenCounter,
        |
            r@ == finished_log(log@, stats@, duration_ms, request_body@, Some(&c)),
{
    if !stats.has_usage || (stats.input_tokens == 0 && stats.output_tokens == 0) {
        match TokenCounter::new() {
            Ok(counter) => {
                let r = finish_log_with(log, stats, duration_ms, request_body, Some(&counter));
                r
            },
            Err(_) => finish_log_with(log, stats, duration_ms, request_body, None),
        }
    } else {
        finish_log_with(log, stats, duration_ms, request_body, None)
    }
}

} // verus!
