//! What holds of conversations as a whole.

use vstd::prelude::*;
use vstd::string::*;

use crate::session::{
    message_text, messages_text, prompt_of, question_text, ChatMessage, Generation,
    DEFAULT_MAX_TOKENS, SPARE_POSITIONS,
};

verus! {

proof fn lemma_same_beginning(a: Seq<ChatMessage>, b: Seq<ChatMessage>, n: nat)
    requires
        n <= a.len(),
        n <= b.len(),
        forall|i: int| 0 <= i < n ==> #[trigger] a[i] == b[i],
    ensures
        messages_text(a, n) == messages_text(b, n),
    decreases n,
{
    if n > 0 {
        lemma_same_beginning(a, b, (n - 1) as nat);
        assert(a[n - 1] == b[n - 1]);
    }
}

/// A conversation with one more message has the prompt of the conversation without it, with the
/// text of the message put in before the start of the answer. An empty conversation has the start
/// of the answer alone.
pub proof fn law_each_message_is_in_the_prompt(
    messages: Seq<ChatMessage>,
    last: ChatMessage,
    before: Seq<char>,
)
    requires
        prompt_of(messages) == before + "<|im_start|>assistant\n"@,
    ensures
        prompt_of(messages.push(last)) == before + ("<|im_start|>"@ + last.role@ + "\n"@
            + last.content@ + "<|im_end|>\n"@) + "<|im_start|>assistant\n"@,
        prompt_of(Seq::empty()) == "<|im_start|>assistant\n"@,
{
    let more = messages.push(last);
    let close = "<|im_start|>assistant\n"@;
    lemma_same_beginning(messages, more, messages.len());
    let start = messages_text(messages, messages.len());
    assert(start =~= before) by {
        assert(start.len() == before.len()) by {
            assert((start + close).len() == (before + close).len());
        }
        assert forall|i: int| 0 <= i < start.len() implies start[i] == before[i] by {
            assert((start + close)[i] == (before + close)[i]);
        }
    }
    assert(more[messages.len() as int] == last);
    assert(messages_text(more, more.len()) == messages_text(more, messages.len()) + message_text(
        last.role@,
        last.content@,
    ));
    assert(messages_text(Seq::empty(), 0) + close =~= close);
}

/// Prompts tell where messages stand: the text of a message begins behind the texts of all the
/// messages before it, whatever comes behind it.
pub proof fn law_messages_keep_their_order(messages: Seq<ChatMessage>, k: nat)
    requires
        k < messages.len(),
    ensures
        ({
            let m = messages[k as int];
            let before = prompt_of(messages.take(k as int));
            let all = prompt_of(messages);
            let at = before.len() - "<|im_start|>assistant\n"@.len();
            let text = "<|im_start|>"@ + m.role@ + "\n"@ + m.content@ + "<|im_end|>\n"@;
            &&& 0 <= at
            &&& at + text.len() <= all.len()
            &&& all.subrange(at, at + text.len()) == text
            &&& all.take(at) == before.take(at)
        }),
{
    let m = messages[k as int];
    let close = "<|im_start|>assistant\n"@;
    let text = "<|im_start|>"@ + m.role@ + "\n"@ + m.content@ + "<|im_end|>\n"@;
    let start = messages_text(messages, k);
    lemma_same_beginning(messages, messages.take(k as int), k);
    lemma_messages_begin(messages, k + 1, messages.len());
    let through = messages_text(messages, k + 1);
    let whole = messages_text(messages, messages.len());
    let all = whole + close;
    assert(through == start + message_text(m.role@, m.content@));
    assert(through =~= start + text);
    let at = start.len() as int;
    assert(all.subrange(at, at + text.len()) =~= text) by {
        assert forall|i: int| 0 <= i < text.len() implies all[at + i] == text[i] by {
            assert(whole.take(through.len() as int)[at + i] == through[at + i]);
        }
    }
    assert(all.take(at) =~= start) by {
        assert forall|i: int| 0 <= i < at implies all[i] == start[i] by {
            assert(whole.take(through.len() as int)[i] == through[i]);
        }
    }
    assert((start + close).take(at) =~= start);
}

proof fn lemma_messages_begin(messages: Seq<ChatMessage>, j: nat, n: nat)
    requires
        j <= n,
    ensures
        messages_text(messages, j).len() <= messages_text(messages, n).len(),
        messages_text(messages, n).take(messages_text(messages, j).len() as int) == messages_text(
            messages,
            j,
        ),
    decreases n,
{
    let all = messages_text(messages, n);
    let part = messages_text(messages, j);
    if j == n {
        assert(all.take(part.len() as int) =~= part);
    } else {
        lemma_messages_begin(messages, j, (n - 1) as nat);
        let most = messages_text(messages, (n - 1) as nat);
        assert(all.take(part.len() as int) =~= most.take(part.len() as int));
    }
}

/// A single question has the prompt of a conversation with one message of the user.
pub proof fn law_question_is_a_conversation(m: ChatMessage)
    requires
        m.role@ == "user"@,
    ensures
        question_text(m.content@) == prompt_of(seq![m]),
{
    let one = seq![m];
    assert(messages_text(one, 1) == messages_text(one, 0) + message_text(m.role@, m.content@));
    reveal_strlit("<|im_start|>user\n");
    reveal_strlit("<|im_start|>");
    reveal_strlit("user");
    reveal_strlit("\n");
    reveal_strlit("<|im_end|>\n<|im_start|>assistant\n");
    reveal_strlit("<|im_end|>\n");
    reveal_strlit("<|im_start|>assistant\n");
    assert("<|im_start|>user\n"@ =~= "<|im_start|>"@ + "user"@ + "\n"@);
    assert("<|im_end|>\n<|im_start|>assistant\n"@ =~= "<|im_end|>\n"@
        + "<|im_start|>assistant\n"@);
    assert(question_text(m.content@) =~= prompt_of(one));
}

/// Each step of an answer takes up the last token where the step before left off: one position
/// further on.
pub proof fn law_steps_follow_one_another(before: Generation, after: Generation, t: u32)
    requires
        before.wf(),
        before.goes_on(),
        after.prompt_len == before.prompt_len,
        after.max_tokens == before.max_tokens,
        after.tokens@ == before.tokens@.push(t),
        !after.ended,
    ensures
        after.wf(),
        after.tokens@.last() == t,
        after.tokens@.len() == before.tokens@.len() + 1,
        after.goes_on() <==> after.tokens@.len() < after.max_tokens,
        DEFAULT_MAX_TOKENS == 256,
        SPARE_POSITIONS == 64,
{
}

} // verus!
