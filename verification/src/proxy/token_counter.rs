//! The local token counter: a fallback for streams whose upstream never says
//! how many tokens were used. It counts with the `cl100k_base` encoder of
//! `tiktoken-rs`.

use vstd::prelude::*;

use crate::json::{
    json_parse, json_tree, parse_value, text_at, trees_of, value_as_array, value_as_str,
    value_get, JsonTree,
};
use crate::text::str_eq;

verus! {

#[verifier::external_type_specification]
#[verifier::external_body]
pub struct ExCoreBPE(tiktoken_rs::CoreBPE);

/// The number of tokens into which an encoder splits a text, special tokens
/// allowed; `None` where the encoder reports an error.
pub uninterp spec fn bpe_token_count(bpe: &tiktoken_rs::CoreBPE, text: Seq<char>) -> Option<
    usize,
>;

/// True for an encoder as `tiktoken_rs::cl100k_base` builds it.
pub uninterp spec fn is_cl100k(bpe: &tiktoken_rs::CoreBPE) -> bool;

/// `tiktoken_rs::cl100k_base`: builds the encoder from the vocabulary that
/// the crate carries. The crate's error is handed on as its message.
#[verifier::external_body]
pub(crate) fn load_cl100k() -> (r: Result<tiktoken_rs::CoreBPE, String>)
    ensures
        r matches Ok(bpe) ==> is_cl100k(&bpe),
{
    tiktoken_rs::cl100k_base().map_err(|e| e.to_string())
}

/// `CoreBPE::encode` with every special token of the encoder allowed, which
/// is what `encode_with_special_tokens` runs, read for the number of tokens.
/// An error of the encoder comes back as `None`. The crate looks every byte
/// of the text up in the vocabulary without a test, so only the encoder of
/// `cl100k_base` is admitted, whose vocabulary holds every byte.
#[verifier::external_body]
pub(crate) fn encode_len(bpe: &tiktoken_rs::CoreBPE, text: &str) -> (r: Option<usize>)
    requires
        is_cl100k(bpe),
    ensures
        r == bpe_token_count(bpe, text@),
{
    match bpe.encode(text, &bpe.special_tokens()) {
        Ok((tokens, _)) => Some(tokens.len()),
        Err(_) => None,
    }
}

/// The largest count that the log can hold.
pub open spec fn count_cap() -> int {
    0x7fff_ffff
}

/// A count as the log holds it: the count itself, or the largest storable
/// value where it does not fit.
pub open spec fn capped(n: int) -> i32 {
    if n <= count_cap() {
        n as i32
    } else {
        0x7fff_ffff
    }
}

fn add_capped(acc: u32, n: usize, Ghost(total): Ghost<int>) -> (r: u32)
    requires
        0 <= total,
        acc as int == capped(total),
    ensures
        r as int == capped(total + n),
{
    let room: u32 = 0x7fff_ffff - acc;
    if n as u64 >= room as u64 {
        0x7fff_ffff
    } else {
        acc + (n as u32)
    }
}

/// A counter of tokens.
pub struct TokenCounter {
    bpe: tiktoken_rs::CoreBPE,
}

impl TokenCounter {
    #[verifier::type_invariant]
    spec fn counts_with_cl100k(self) -> bool {
        is_cl100k(&self.bpe)
    }

    /// The number of tokens in a text; a text that the encoder fails on
    /// counts as none.
    pub closed spec fn count(&self, text: Seq<char>) -> nat {
        match bpe_token_count(&self.bpe, text) {
            Some(n) => n as nat,
            None => 0,
        }
    }

    /// The tokens of one part of an array-shaped content: the text of a part
    /// of type `text`, nothing for any other part.
    pub open spec fn part_tokens(&self, part: JsonTree) -> nat {
        if part.text_at("type"@) == Some("text"@) {
            match part.text_at("text"@) {
                Some(t) => self.count(t),
                None => 0,
            }
        } else {
            0
        }
    }

    /// The tokens of the first `upto` parts.
    pub open spec fn parts_tokens(&self, parts: Seq<JsonTree>, upto: int) -> nat
        decreases upto,
    {
        if upto <= 0 {
            0
        } else {
            self.parts_tokens(parts, upto - 1) + self.part_tokens(parts[upto - 1])
        }
    }

    /// The tokens of a message's content: a string, or an array of parts.
    pub open spec fn content_tokens(&self, content: JsonTree) -> nat {
        match content {
            JsonTree::Text(t) => self.count(t),
            JsonTree::Array(parts) => self.parts_tokens(parts, parts.len() as int),
            _ => 0,
        }
    }

    /// The tokens of one message: its role and its content.
    pub open spec fn message_tokens(&self, message: JsonTree) -> nat {
        let role = match message.text_at("role"@) {
            Some(r) => self.count(r),
            None => 0,
        };
        let content = match message.member("content"@) {
            Some(c) => self.content_tokens(c),
            None => 0,
        };
        role + content
    }

    /// The tokens of the first `upto` messages.
    pub open spec fn messages_tokens(&self, messages: Seq<JsonTree>, upto: int) -> nat
        decreases upto,
    {
        if upto <= 0 {
            0
        } else {
            self.messages_tokens(messages, upto - 1) + self.message_tokens(messages[upto - 1])
        }
    }

    /// The input tokens of a request document: its `system` text, then every
    /// message.
    pub open spec fn request_tokens(&self, request: JsonTree) -> nat {
        let system = match request.text_at("system"@) {
            Some(s) => self.count(s),
            None => 0,
        };
        let messages = match request.member("messages"@) {
            Some(m) => match m.items() {
                Some(list) => self.messages_tokens(list, list.len() as int),
                None => 0,
            },
            None => 0,
        };
        system + messages
    }

    /// The input tokens of a request body; a body that is not JSON has none.
    pub open spec fn input_tokens(&self, body: Seq<char>) -> nat {
        match json_parse(body) {
            Some(request) => self.request_tokens(request),
            None => 0,
        }
    }

    /// A counter with the `cl100k_base` encoder, or the reason why the
    /// encoder could not be built.
    pub fn new() -> (r: Result<Self, String>) {
        let counter = Self::with_encoder(
            load_cl100k(),
        );
        counter
    }

    /// The encoder that this counter counts with.
    pub closed spec fn encoder(&self) -> tiktoken_rs::CoreBPE {
        self.bpe
    }

    /// A counter with the encoder that was built, or the reason why none was
    /// built.
    fn with_encoder(built: Result<tiktoken_rs::CoreBPE, String>) -> (r: Result<Self, String>)
        requires
            built matches Ok(bpe) ==> is_cl100k(&bpe),
        ensures
            match built {
                Ok(bpe) => r matches Ok(counter) && counter.encoder() == bpe,
                Err(reason) => r matches Err(e) && e == reason,
            },
    {
        match built {
            Ok(bpe) => Ok(TokenCounter { bpe }),
            Err(reason) => Err(reason),
        }
    }

    /// The number of tokens in a text.
    pub fn count_tokens(&self, text: &str) -> (r: usize)
        ensures
            r == self.count(text@),
    {
        proof {
            use_type_invariant(self);
        }
        match encode_len(&self.bpe, text) {
            Some(n) => n,
            None => 0,
        }
    }

    fn count_parts(&self, parts: &Vec<serde_json::Value>, acc: u32, Ghost(total): Ghost<int>) -> (r:
        u32)
        requires
            0 <= total,
            acc as int == capped(total),
        ensures
            r as int == capped(total + self.parts_tokens(trees_of(parts@), parts@.len() as int)),
    {
        let mut acc = acc;
        let mut i: usize = 0;
        let ghost list = trees_of(parts@);
        while i < parts.len()
            invariant
                i <= parts@.len(),
                0 <= total,
                list == trees_of(parts@),
                acc as int == capped(total + self.parts_tokens(list, i as int)),
            decreases parts.len() - i,
        {
            let part = &parts[i];
            assert(list[i as int] == json_tree(part));
            let ghost before = total + self.parts_tokens(list, i as int);
            let is_text = match text_at(part, "type") {
                Some(kind) => str_eq(kind, "text"),
                None => false,
            };
            if is_text {
                match text_at(part, "text") {
                    Some(t) => {
                        let n = self.count_tokens(t);
                        acc = add_capped(acc, n, Ghost(before));
                    },
                    None => {},
                }
            }
            i += 1;
        }
        acc
    }

    fn count_message(&self, message: &serde_json::Value, acc: u32, Ghost(total): Ghost<int>) -> (r:
        u32)
        requires
            0 <= total,
            acc as int == capped(total),
        ensures
            r as int == capped(total + self.message_tokens(json_tree(message))),
    {
        let mut acc = acc;
        let ghost mut sum: int = total;
        match text_at(message, "role") {
            Some(role) => {
                let n = self.count_tokens(role);
                acc = add_capped(acc, n, Ghost(sum));
                proof {
                    sum = sum + n;
                }
            },
            None => {},
        }
        match value_get(message, "content") {
            Some(content) => {
                match value_as_str(content) {
                    Some(t) => {
                        let n = self.count_tokens(t);
                        acc = add_capped(acc, n, Ghost(sum));
                    },
                    None => {
                        match value_as_array(content) {
                            Some(parts) => {
                                acc = self.count_parts(parts, acc, Ghost(sum));
                            },
                            None => {},
                        }
                    },
                }
            },
            None => {},
        }
        acc
    }

    /// The input tokens of a request document.
    pub fn count_request_tokens(&self, request: &serde_json::Value) -> (r: i32)
        ensures
            r == capped(self.request_tokens(json_tree(request)) as int),
    {
        let mut acc: u32 = 0;
        let ghost mut sum: int = 0;
        match text_at(request, "system") {
            Some(system) => {
                let n = self.count_tokens(system);
                acc = add_capped(acc, n, Ghost(sum));
                proof {
                    sum = sum + n;
                }
            },
            None => {},
        }
        match value_get(request, "messages") {
            Some(m) => {
                match value_as_array(m) {
                    Some(messages) => {
                        let ghost list = trees_of(messages@);
                        let ghost base = sum;
                        let mut i: usize = 0;
                        while i < messages.len()
                            invariant
                                i <= messages@.len(),
                                0 <= base,
                                list == trees_of(messages@),
                                acc as int == capped(base + self.messages_tokens(list, i as int)),
                            decreases messages.len() - i,
                        {
                            let message = &messages[i];
                            assert(list[i as int] == json_tree(message));
                            acc =
                            self.count_message(
                                message,
                                acc,
                                Ghost(base + self.messages_tokens(list, i as int)),
                            );
                            i += 1;
                        }
                    },
                    None => {},
                }
            },
            None => {},
        }
        acc as i32
    }

    /// The input tokens of a request body: those of its `system` text and of
    /// every message's role and content; none for a body that is not JSON.
    pub fn count_input_tokens(&self, request_body: &str) -> (r: i32)
        ensures
            r == capped(self.input_tokens(request_body@) as int),
    {
        match parse_value(request_body) {
            Some(request) => self.count_request_tokens(&request),
            None => 0,
        }
    }

    /// The output tokens of a streamed answer: the tokens of its text.
    pub fn count_output_tokens(&self, output_text: &str) -> (r: i32)
        ensures
            r == capped(self.count(output_text@) as int),
    {
        let n = self.count_tokens(output_text);
        if n as u64 >= 0x7fff_ffff {
            0x7fff_ffff
        } else {
            n as i32
        }
    }
}

} // verus!
