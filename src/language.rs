use vstd::prelude::*;
use vstd::string::{StrSliceExecFns, StringExecFns};

use crate::codeblock::{
    block_of, extract_code_block, fence_at, is_tag_char, lemma_single_block, trigger_at,
};

verus! {

/// What `str::to_lowercase` makes of a text.
pub uninterp spec fn lower_of(s: Seq<char>) -> Seq<char>;

/// Every character is ASCII.
pub open spec fn all_ascii(s: Seq<char>) -> bool {
    forall|i: int| 0 <= i < s.len() ==> (#[trigger] s[i] as u32) < 128
}

/// An ASCII upper-case letter made lower case; any other character as it is.
pub open spec fn ascii_lower_char(c: char) -> char {
    if 'A' <= c && c <= 'Z' {
        ((c as u8) + 32) as u8 as char
    } else {
        c
    }
}

/// The ASCII lower-case form of a text: each upper-case ASCII letter lowered.
pub open spec fn ascii_lower(s: Seq<char>) -> Seq<char> {
    s.map_values(|c: char| ascii_lower_char(c))
}

/// Relies on `str::to_lowercase`: the Unicode lowercase form, which depends on
/// the characters alone; on ASCII text it lowers `A`-`Z` and keeps every other character.
#[verifier::external_body]
fn lowercase(s: &str) -> (r: String)
    ensures
        r@ == lower_of(s@),
        all_ascii(s@) ==> r@ == ascii_lower(s@),
{
    s.to_lowercase()
}

/// A request for the remote execution service: the shell command that stages
/// and runs the source, and the source text itself.
#[derive(Debug, PartialEq, Eq)]
pub struct ExecutionRequest {
    pub command: String,
    pub source: String,
}

impl View for ExecutionRequest {
    type V = (Seq<char>, Seq<char>);

    open spec fn view(&self) -> (Seq<char>, Seq<char>) {
        (self.command@, self.source@)
    }
}

/// The toolchain command of each recognised language alias; `None` for any other tag.
pub open spec fn command_for(lang: Seq<char>) -> Option<Seq<char>> {
    if lang == "test"@ {
        Some("echo Hello, World!"@)
    } else if lang == "py"@ || lang == "python"@ {
        Some("mv main.cpp main.py && python main.py"@)
    } else if lang == "sh"@ || lang == "shell"@ {
        Some("mv main.cpp main.sh && sh main.sh"@)
    } else if lang == "lua"@ {
        Some("mv main.cpp main.lua && lua main.lua"@)
    } else if lang == "hs"@ || lang == "haskell"@ {
        Some("mv main.cpp main.hs && runhaskell main.hs"@)
    } else {
        None
    }
}

/// The source sent along: the diagnostic alias sends none, every other alias its code.
pub open spec fn source_for(lang: Seq<char>, code: Seq<char>) -> Seq<char> {
    if lang == "test"@ {
        Seq::empty()
    } else {
        code
    }
}

/// The error reply for a tag outside the alias table.
pub open spec fn unknown_language_text(lang: Seq<char>) -> Seq<char> {
    "Unknown language `"@ + lang + "`."@
}

/// The error reply for a message without a usable code block.
pub open spec fn format_error_text() -> Seq<char> {
    "Invalid format; expected a codeblock with a language set."@
}

/// What resolving the (lowercase) tag `lang` with source `code` yields:
/// the request's command and source, or the error reply.
pub open spec fn resolution(lang: Seq<char>, code: Seq<char>) -> Result<
    (Seq<char>, Seq<char>),
    Seq<char>,
> {
    match command_for(lang) {
        Some(cmd) => Ok((cmd, source_for(lang, code))),
        None => Err(unknown_language_text(lang)),
    }
}

/// What an `exec` message leads to: the request to send, or the error reply.
pub open spec fn exec_plan(message: Seq<char>) -> Result<(Seq<char>, Seq<char>), Seq<char>> {
    match block_of(message) {
        None => Err(format_error_text()),
        Some((tag, body)) => resolution(ascii_lower(tag), body),
    }
}

/// The view of a planned request, or of the error reply.
pub open spec fn plan_view(r: Result<ExecutionRequest, String>) -> Result<
    (Seq<char>, Seq<char>),
    Seq<char>,
> {
    match r {
        Ok(req) => Ok(req@),
        Err(e) => Err(e@),
    }
}

/// A tag outside the alias table is refused with the error reply that names it.
pub proof fn lemma_unlisted_tag_refused(lang: Seq<char>, code: Seq<char>)
    requires
        lang != "test"@,
        lang != "py"@,
        lang != "python"@,
        lang != "sh"@,
        lang != "shell"@,
        lang != "lua"@,
        lang != "hs"@,
        lang != "haskell"@,
    ensures
        resolution(lang, code) == Err::<(Seq<char>, Seq<char>), Seq<char>>(
            unknown_language_text(lang),
        ),
{
}

/// Each alias selects its documented command, and only the diagnostic alias drops the source.
pub proof fn lemma_alias_table(code: Seq<char>)
    ensures
        resolution("test"@, code) == Ok::<(Seq<char>, Seq<char>), Seq<char>>(
            ("echo Hello, World!"@, Seq::empty()),
        ),
        resolution("py"@, code) == Ok::<(Seq<char>, Seq<char>), Seq<char>>(
            ("mv main.cpp main.py && python main.py"@, code),
        ),
        resolution("python"@, code) == Ok::<(Seq<char>, Seq<char>), Seq<char>>(
            ("mv main.cpp main.py && python main.py"@, code),
        ),
        resolution("sh"@, code) == Ok::<(Seq<char>, Seq<char>), Seq<char>>(
            ("mv main.cpp main.sh && sh main.sh"@, code),
        ),
        resolution("shell"@, code) == Ok::<(Seq<char>, Seq<char>), Seq<char>>(
            ("mv main.cpp main.sh && sh main.sh"@, code),
        ),
        resolution("lua"@, code) == Ok::<(Seq<char>, Seq<char>), Seq<char>>(
            ("mv main.cpp main.lua && lua main.lua"@, code),
        ),
        resolution("hs"@, code) == Ok::<(Seq<char>, Seq<char>), Seq<char>>(
            ("mv main.cpp main.hs && runhaskell main.hs"@, code),
        ),
        resolution("haskell"@, code) == Ok::<(Seq<char>, Seq<char>), Seq<char>>(
            ("mv main.cpp main.hs && runhaskell main.hs"@, code),
        ),
{
    reveal_strlit("test");
    reveal_strlit("py");
    reveal_strlit("python");
    reveal_strlit("sh");
    reveal_strlit("shell");
    reveal_strlit("lua");
    reveal_strlit("hs");
    reveal_strlit("haskell");
    assert("py"@.len() != "test"@.len());
    assert("python"@.len() != "test"@.len());
    assert("sh"@.len() != "test"@.len());
    assert("sh"@[0] != "py"@[0]);
    assert("sh"@.len() != "python"@.len());
    assert("shell"@.len() != "test"@.len() && "shell"@.len() != "py"@.len());
    assert("shell"@.len() != "python"@.len());
    assert("lua"@.len() != "test"@.len() && "lua"@.len() != "py"@.len());
    assert("lua"@.len() != "python"@.len() && "lua"@.len() != "sh"@.len());
    assert("lua"@.len() != "shell"@.len());
    assert("hs"@.len() != "test"@.len() && "hs"@[0] != "py"@[0] && "hs"@[0] != "sh"@[0]);
    assert("hs"@.len() != "python"@.len() && "hs"@.len() != "shell"@.len());
    assert("hs"@.len() != "lua"@.len());
    assert("haskell"@.len() != "test"@.len() && "haskell"@.len() != "py"@.len());
    assert("haskell"@.len() != "python"@.len() && "haskell"@.len() != "sh"@.len());
    assert("haskell"@.len() != "shell"@.len() && "haskell"@.len() != "lua"@.len());
}

fn same_text(a: &str, b: &str) -> (r: bool)
    ensures
        r == (a@ == b@),
{
    let n = a.unicode_len();
    if n != b.unicode_len() {
        return false;
    }
    let mut i: usize = 0;
    while i < n
        invariant
            n == a@.len(),
            n == b@.len(),
            i <= n,
            forall|k: int| 0 <= k < i ==> a@[k] == b@[k],
        decreases n - i,
    {
        if a.get_char(i) != b.get_char(i) {
            return false;
        }
        i = i + 1;
    }
    assert(a@ =~= b@);
    true
}

/// Maps a lowercase language tag to its toolchain command: `test` runs a fixed
/// diagnostic with no source, `py`/`python`, `sh`/`shell`, `lua` and
/// `hs`/`haskell` stage `code` under their extension and run it. Any other tag
/// is refused with an error reply that names it verbatim.
pub fn resolve_language(lang: &str, code: &str) -> (r: Result<ExecutionRequest, String>)
    ensures
        plan_view(r) == resolution(lang@, code@),
{
    if same_text(lang, "test") {
        return Ok(
            ExecutionRequest {
                command: String::from_str("echo Hello, World!"),
                source: String::new(),
            },
        );
    }
    let command = if same_text(lang, "py") || same_text(lang, "python") {
        "mv main.cpp main.py && python main.py"
    } else if same_text(lang, "sh") || same_text(lang, "shell") {
        "mv main.cpp main.sh && sh main.sh"
    } else if same_text(lang, "lua") {
        "mv main.cpp main.lua && lua main.lua"
    } else if same_text(lang, "hs") || same_text(lang, "haskell") {
        "mv main.cpp main.hs && runhaskell main.hs"
    } else {
        let mut e = String::from_str("Unknown language `");
        e.append(lang);
        e.append("`.");
        return Err(e);
    };
    Ok(ExecutionRequest { command: String::from_str(command), source: String::from_str(code) })
}

/// An `exec` message whose prefix holds the command word, followed by one
/// well-formed block, is resolved by the lower-case form of its tag: each alias,
/// in any letter case, selects its documented command with the block's body
/// (none for the diagnostic alias), and any other tag is refused by name.
pub proof fn lemma_exec_selects_alias(p: Seq<char>, tag: Seq<char>, body: Seq<char>)
    requires
        exists|e: int| trigger_at(p, e),
        tag.len() > 0,
        forall|k: int| 0 <= k < tag.len() ==> is_tag_char(#[trigger] tag[k]),
        body.len() > 0,
        forall|j: int| !#[trigger] fence_at(body, j),
    ensures
        exec_plan(p + "```"@ + tag + "\n"@ + body + "```"@) == resolution(ascii_lower(tag), body),
        ascii_lower(tag) == "test"@ ==> exec_plan(p + "```"@ + tag + "\n"@ + body + "```"@)
            == Ok::<(Seq<char>, Seq<char>), Seq<char>>(("echo Hello, World!"@, Seq::empty())),
        ascii_lower(tag) == "py"@ || ascii_lower(tag) == "python"@ ==> exec_plan(
            p + "```"@ + tag + "\n"@ + body + "```"@,
        ) == Ok::<(Seq<char>, Seq<char>), Seq<char>>(
            ("mv main.cpp main.py && python main.py"@, body),
        ),
        ascii_lower(tag) == "sh"@ || ascii_lower(tag) == "shell"@ ==> exec_plan(
            p + "```"@ + tag + "\n"@ + body + "```"@,
        ) == Ok::<(Seq<char>, Seq<char>), Seq<char>>(("mv main.cpp main.sh && sh main.sh"@, body)),
        ascii_lower(tag) == "lua"@ ==> exec_plan(p + "```"@ + tag + "\n"@ + body + "```"@)
            == Ok::<(Seq<char>, Seq<char>), Seq<char>>(
            ("mv main.cpp main.lua && lua main.lua"@, body),
        ),
        ascii_lower(tag) == "hs"@ || ascii_lower(tag) == "haskell"@ ==> exec_plan(
            p + "```"@ + tag + "\n"@ + body + "```"@,
        ) == Ok::<(Seq<char>, Seq<char>), Seq<char>>(
            ("mv main.cpp main.hs && runhaskell main.hs"@, body),
        ),
{
    lemma_single_block(p, tag, body);
    lemma_alias_table(body);
}

/// Decides what an `exec` message asks for: the code block is extracted, its
/// tag lowercased and resolved. A message without a usable block gets the
/// format error reply, an unknown tag the unknown-language reply.
pub fn plan_exec(message: &str) -> (r: Result<ExecutionRequest, String>)
    ensures
        plan_view(r) == exec_plan(message@),
{
    match extract_code_block(message) {
        None => Err(String::from_str("Invalid format; expected a codeblock with a language set.")),
        Some(block) => {
            assert(all_ascii(block.language@)) by {
                assert forall|i: int| 0 <= i < block.language@.len() implies (
                #[trigger] block.language@[i] as u32) < 128 by {
                    assert(is_tag_char(block.language@[i]));
                }
            }
            let lang = lowercase(block.language.as_str());
            resolve_language(lang.as_str(), block.body.as_str())
        },
    }
}

} // verus!
