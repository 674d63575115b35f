//! Conversations: prompts, and the loop of generation.

use vstd::prelude::*;
use vstd::string::*;

use crate::text::{same_text, trim, trimmed};

verus! {

/// Tokens that are generated unless a request says otherwise.
pub const DEFAULT_MAX_TOKENS: usize = 256;

/// Positions of the cache beyond the prompt and the tokens asked for.
pub const SPARE_POSITIONS: usize = 64;

/// Tokens that are generated unless a request says otherwise.
pub fn default_max_tokens() -> (r: usize)
    ensures
        r == DEFAULT_MAX_TOKENS,
{
    DEFAULT_MAX_TOKENS
}

// ---------------------------------------------------------------------------
// Prompts
// ---------------------------------------------------------------------------

/// A message of a conversation.
pub struct ChatMessage {
    pub role: String,
    pub content: String,
}

/// One message as part of a prompt.
pub open spec fn message_text(role: Seq<char>, content: Seq<char>) -> Seq<char> {
    "<|im_start|>"@ + role + "\n"@ + content + "<|im_end|>\n"@
}

/// The first `n` messages as part of a prompt.
pub open spec fn messages_text(messages: Seq<ChatMessage>, n: nat) -> Seq<char>
    decreases n,
{
    if n == 0 {
        Seq::empty()
    } else {
        messages_text(messages, (n - 1) as nat) + message_text(
            messages[n - 1].role@,
            messages[n - 1].content@,
        )
    }
}

/// The prompt of a conversation: its messages, and the start of the answer.
pub open spec fn prompt_of(messages: Seq<ChatMessage>) -> Seq<char> {
    messages_text(messages, messages.len()) + "<|im_start|>assistant\n"@
}

/// The prompt of a conversation: its messages, and the start of the answer.
pub fn chat_prompt(messages: &[ChatMessage]) -> (r: String)
    ensures
        r@ == prompt_of(messages@),
{
    let mut out = String::new();
    let mut i: usize = 0;
    while i < messages.len()
        invariant
            i <= messages@.len(),
            out@ == messages_text(messages@, i as nat),
        decreases messages@.len() - i,
    {
        let part = "<|im_start|>".to_owned().concat(messages[i].role.as_str()).concat("\n").concat(
            messages[i].content.as_str(),
        ).concat("<|im_end|>\n");
        out.append(part.as_str());
        i = i + 1;
    }
    out.append("<|im_start|>assistant\n");
    out
}

/// What a line typed by a user asks for.
#[derive(Debug)]
pub enum ReplCommand {
    /// Nothing.
    Skip,
    /// The end of the session.
    Exit,
    /// A new conversation.
    Reset,
    /// An answer to this prompt.
    Prompt(String),
}

/// The prompt of a single question.
pub open spec fn question_text(q: Seq<char>) -> Seq<char> {
    "<|im_start|>user\n"@ + q + "<|im_end|>\n<|im_start|>assistant\n"@
}

/// What a line typed by a user asks for.
pub fn read_command(line: &str) -> (r: ReplCommand)
    ensures
        ({
            let t = trimmed(line@);
            if t.len() == 0 {
                r is Skip
            } else if t == "/exit"@ || t == "/quit"@ {
                r is Exit
            } else if t == "/reset"@ {
                r is Reset
            } else {
                r is Prompt && r->Prompt_0@ == question_text(t)
            }
        }),
{
    let t = trim(line);
    if t.as_str().is_empty() {
        ReplCommand::Skip
    } else if same_text(t.as_str(), "/exit") || same_text(t.as_str(), "/quit") {
        ReplCommand::Exit
    } else if same_text(t.as_str(), "/reset") {
        ReplCommand::Reset
    } else {
        ReplCommand::Prompt(
            "<|im_start|>user\n".to_owned().concat(t.as_str()).concat(
                "<|im_end|>\n<|im_start|>assistant\n",
            ),
        )
    }
}

// ---------------------------------------------------------------------------
// Generation
// ---------------------------------------------------------------------------

/// Bytes of cache for a prompt of so many tokens and an answer of at most `max_tokens`.
pub fn required_kv_bytes(prompt_tokens: usize, max_tokens: usize) -> (r: usize)
    requires
        (prompt_tokens + max_tokens + SPARE_POSITIONS) * 128 <= usize::MAX,
    ensures
        r == (prompt_tokens + max_tokens + SPARE_POSITIONS) * 128,
{
    (prompt_tokens + max_tokens + SPARE_POSITIONS) * 128
}

/// An answer that is being generated.
pub struct Generation {
    /// Tokens of the prompt.
    pub prompt_len: usize,
    /// Most tokens of the answer.
    pub max_tokens: usize,
    /// Tokens of the answer so far.
    pub tokens: Vec<u32>,
    /// Whether the answer has come to its end.
    pub ended: bool,
}

/// A step of decoding: the token and its position.
#[derive(Debug, Clone, Copy, PartialEq, Eq, Structural)]
pub struct NextStep {
    pub input_token_id: u32,
    pub sequence_index: usize,
}

/// What a step of decoding came to.
#[derive(Debug, Clone, Copy, PartialEq, Eq, Structural)]
pub enum StepOutcome {
    Token(u32),
    EndOfSequence,
    Failed,
}

impl Generation {
    /// The answer has its first token, and no more than it may have.
    pub open spec fn wf(&self) -> bool {
        &&& 1 <= self.tokens@.len()
        &&& self.tokens@.len() <= self.max_tokens || self.tokens@.len() == 1
        &&& self.prompt_len + self.max_tokens <= usize::MAX
    }

    /// Another step is due.
    pub open spec fn goes_on(&self) -> bool {
        !self.ended && self.tokens@.len() < self.max_tokens
    }

    /// An answer that begins with the token that came of the prompt.
    pub fn start(prompt_len: usize, max_tokens: usize, initial_token: u32) -> (r: Generation)
        requires
            prompt_len + max_tokens <= usize::MAX,
        ensures
            r.wf(),
            r.prompt_len == prompt_len,
            r.max_tokens == max_tokens,
            r.tokens@ == seq![initial_token],
            !r.ended,
    {
        let tokens: Vec<u32> = vec![initial_token];
        assert(tokens@ =~= seq![initial_token]);
        Generation { prompt_len, max_tokens, tokens, ended: false }
    }

    /// The step that is due: the last token, at its position behind the prompt. None where the
    /// answer has come to its end, or has as many tokens as it may have.
    pub fn next_step(&self) -> (r: Option<NextStep>)
        requires
            self.wf(),
        ensures
            r is Some <==> self.goes_on(),
            r is Some ==> r->0 == (NextStep {
                input_token_id: self.tokens@.last(),
                sequence_index: (self.prompt_len + self.tokens@.len() - 1) as usize,
            }),
    {
        if self.ended || self.tokens.len() >= self.max_tokens {
            return None;
        }
        Some(
            NextStep {
                input_token_id: self.tokens[self.tokens.len() - 1],
                sequence_index: self.prompt_len + (self.tokens.len() - 1),
            },
        )
    }

    /// Takes over what a step came to. The end token is not part of the answer; a failed step
    /// ends it.
    pub fn take(&mut self, outcome: StepOutcome)
        requires
            old(self).wf(),
            old(self).goes_on(),
        ensures
            final(self).wf(),
            final(self).prompt_len == old(self).prompt_len,
            final(self).max_tokens == old(self).max_tokens,
            match outcome {
                StepOutcome::Token(t) => final(self).tokens@ == old(self).tokens@.push(t)
                    && !final(self).ended,
                _ => final(self).tokens@ == old(self).tokens@ && final(self).ended,
            },
    {
        match outcome {
            StepOutcome::Token(t) => {
                self.tokens.push(t);
            },
            _ => {
                self.ended = true;
            },
        }
    }
}

/// Every answer has at least one token, and at most as many as were asked for, where at least
/// one was. Every step writes to a position that the cache was made large enough for.
pub proof fn law_generation_is_bounded(g: Generation)
    requires
        g.wf(),
        g.goes_on(),
    ensures
        1 <= g.tokens@.len() < g.max_tokens,
        g.prompt_len <= g.prompt_len + g.tokens@.len() - 1,
        (g.prompt_len + g.tokens@.len() - 1) * 128 + 128 <= (g.prompt_len + g.max_tokens
            + SPARE_POSITIONS) * 128,
{
}

} // verus!
