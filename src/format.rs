use vstd::prelude::*;
use vstd::string::{StrSliceExecFns, StringExecFns};

verus! {

/// Number of code points a code-block reply may carry, leaving room for the fence markup.
pub const CODE_BLOCK_BUDGET: usize = 1990;

/// The first `max` code points of `s`, or all of `s` when it is shorter.
pub open spec fn truncated(s: Seq<char>, max: nat) -> Seq<char> {
    if s.len() <= max {
        s
    } else {
        s.subrange(0, max as int)
    }
}

/// `body` wrapped in a monospace fence: three backticks and a newline on each side.
pub open spec fn fenced(body: Seq<char>) -> Seq<char> {
    "```\n"@ + body + "\n```"@
}

/// A code-block reply never carries more than the budget of code points, and
/// what it carries is the start of the output, cut only between code points.
pub proof fn lemma_code_block_within_budget(s: Seq<char>)
    ensures
        truncated(s, CODE_BLOCK_BUDGET as nat).len() <= CODE_BLOCK_BUDGET,
        truncated(s, CODE_BLOCK_BUDGET as nat).is_prefix_of(s),
        fenced(truncated(s, CODE_BLOCK_BUDGET as nat)) == "```\n"@ + truncated(
            s,
            CODE_BLOCK_BUDGET as nat,
        ) + "\n```"@,
{
}

/// Cuts `s` after `max_chars` code points; a shorter text is returned whole.
/// Working on code points, the cut never falls inside a character.
pub fn truncate(s: &str, max_chars: usize) -> (r: &str)
    ensures
        r@ == truncated(s@, max_chars as nat),
        r@.len() <= max_chars,
        r@.is_prefix_of(s@),
{
    let n = s.unicode_len();
    if n <= max_chars {
        s
    } else {
        s.substring_char(0, max_chars)
    }
}

/// Output text as a code-block reply: cut to the budget, then fenced.
pub fn to_code_block(s: &str) -> (r: String)
    ensures
        r@ == fenced(truncated(s@, CODE_BLOCK_BUDGET as nat)),
{
    let mut out = String::from_str("```\n");
    out.append(truncate(s, CODE_BLOCK_BUDGET));
    out.append("\n```");
    out
}

} // verus!
