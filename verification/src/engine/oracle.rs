//! Fixed token sequence that stands in for a model.

use vstd::prelude::*;

verus! {

/// Reference model: answers one known prompt with one known sequence of tokens.
pub struct DeterministicReferenceOracle;

/// The prompt with a known answer.
pub open spec fn reference_prompt() -> Seq<u32> {
    seq![128000u32, 791u32, 7421u32, 315u32, 9607u32, 374u32]
}

/// The known answer.
pub open spec fn expected_steps() -> Seq<u32> {
    seq![9607u32, 374u32, 9552u32, 315u32, 420u32, 8496u32, 11u32, 7176u32, 13u32, 128001u32]
}

/// The token with which an answer ends.
pub const EOS_TOKEN_ID: u32 = 128001;

/// The token at a position of a sequence: that of the known answer, and the end token behind it.
pub open spec fn reference_token(sequence_index: int) -> u32 {
    let step = if sequence_index >= 6 {
        sequence_index - 6 + 1
    } else {
        1
    };
    if step < 10 {
        expected_steps()[step]
    } else {
        EOS_TOKEN_ID
    }
}

/// A number made of a prompt: 17, and for each token times 31 plus the token, in 32 bits.
pub open spec fn prompt_hash(tokens: Seq<u32>) -> u32
    decreases tokens.len(),
{
    if tokens.len() == 0 {
        17
    } else {
        ((prompt_hash(tokens.drop_last()) as int * 31 + tokens.last()) % 0x1_0000_0000) as u32
    }
}

/// The first token of the answer to a prompt.
pub open spec fn first_token(tokens: Seq<u32>) -> u32 {
    if tokens == reference_prompt() {
        expected_steps()[0]
    } else {
        (prompt_hash(tokens) % 100_000 + 1) as u32
    }
}

impl DeterministicReferenceOracle {
    /// The first token of the answer to a prompt.
    pub fn next_token(prompt_tokens: &[u32]) -> (r: u32)
        ensures
            r == first_token(prompt_tokens@),
    {
        if prompt_tokens.len() == 6 && prompt_tokens[0] == 128000 && prompt_tokens[1] == 791
            && prompt_tokens[2] == 7421 && prompt_tokens[3] == 315 && prompt_tokens[4] == 9607
            && prompt_tokens[5] == 374 {
            assert(prompt_tokens@ =~= reference_prompt());
            return 9607;
        }
        proof {
            if prompt_tokens@ == reference_prompt() {
                let p = reference_prompt();
                assert(p.len() == 6 && p[0] == 128000 && p[1] == 791 && p[2] == 7421 && p[3] == 315
                    && p[4] == 9607 && p[5] == 374);
            }
        }
        let mut hash: u32 = 17;
        let mut i: usize = 0;
        while i < prompt_tokens.len()
            invariant
                i <= prompt_tokens@.len(),
                hash == prompt_hash(prompt_tokens@.take(i as int)),
            decreases prompt_tokens@.len() - i,
        {
            proof {
                let t = prompt_tokens@.take(i + 1);
                assert(t.drop_last() =~= prompt_tokens@.take(i as int));
                assert(t.last() == prompt_tokens@[i as int]);
            }
            hash = ((hash as u64 * 31 + prompt_tokens[i] as u64) % 0x1_0000_0000) as u32;
            i = i + 1;
        }
        assert(prompt_tokens@.take(prompt_tokens@.len() as int) =~= prompt_tokens@);
        hash % 100_000 + 1
    }

    /// The token at a position of a sequence.
    pub fn next_decode_step_token(sequence_index: usize) -> (r: u32)
        ensures
            r == reference_token(sequence_index as int),
    {
        let step: usize = if sequence_index >= 15 {
            10
        } else if sequence_index >= 6 {
            sequence_index - 6 + 1
        } else {
            1
        };
        match step {
            1 => 374,
            2 => 9552,
            3 => 315,
            4 => 420,
            5 => 8496,
            6 => 11,
            7 => 7176,
            8 => 13,
            _ => EOS_TOKEN_ID,
        }
    }
}

} // verus!
