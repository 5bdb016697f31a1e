use vstd::prelude::*;
use vstd::string::{StrSliceExecFns, StringExecFns};

verus! {

/// A fenced code block taken from a message: the declared language tag as
/// written, and the raw source text between the tag's newline and the closing fence.
#[derive(Debug, PartialEq, Eq)]
pub struct CodeBlock {
    pub language: String,
    pub body: String,
}

/// Three backticks start at `i`.
pub open spec fn fence_at(s: Seq<char>, i: int) -> bool {
    0 <= i && i + 3 <= s.len() && s[i] == '`' && s[i + 1] == '`' && s[i + 2] == '`'
}

/// The command word `exec` starts at `i` (case-sensitive).
pub open spec fn trigger_at(s: Seq<char>, i: int) -> bool {
    0 <= i && i + 4 <= s.len() && s[i] == 'e' && s[i + 1] == 'x' && s[i + 2] == 'e' && s[i
        + 3] == 'c'
}

/// Characters allowed in a language tag: ASCII letters and digits, `_`, `-` and `+`.
pub open spec fn is_tag_char(c: char) -> bool {
    ('a' <= c && c <= 'z') || ('A' <= c && c <= 'Z') || ('0' <= c && c <= '9') || c == '_' || c
        == '-' || c == '+'
}

/// `s[start..end]` is a non-empty run of tag characters.
pub open spec fn tag_run(s: Seq<char>, start: int, end: int) -> bool {
    0 <= start < end <= s.len() && forall|k: int| start <= k < end ==> is_tag_char(#[trigger] s[k])
}

/// An opening fence at `f`, preceded somewhere by the command word, directly
/// followed by a language tag that ends with the newline at `nl`.
pub open spec fn opens_block(s: Seq<char>, f: int, nl: int) -> bool {
    &&& fence_at(s, f)
    &&& tag_run(s, f + 3, nl)
    &&& nl < s.len()
    &&& s[nl] == '\n'
    &&& exists|e: int| trigger_at(s, e) && e + 4 <= f
}

/// A complete block: the opening at `f`/`nl`, a non-empty body, and a closing fence at `c`.
pub open spec fn block_at(s: Seq<char>, f: int, nl: int, c: int) -> bool {
    opens_block(s, f, nl) && nl + 2 <= c && fence_at(s, c)
}

/// The block that extraction picks: among all complete blocks, the latest
/// opening fence, and the body runs greedily up to the last closing fence.
pub open spec fn chosen_at(s: Seq<char>, f: int, nl: int, c: int) -> bool {
    &&& block_at(s, f, nl, c)
    &&& forall|f2: int, nl2: int, c2: int| #[trigger]
        block_at(s, f2, nl2, c2) ==> f2 <= f && c2 <= c
}

/// What extraction yields on `s`: the language tag and the body of the chosen
/// block, or `None` when `s` holds no complete block.
pub open spec fn block_of(s: Seq<char>) -> Option<(Seq<char>, Seq<char>)> {
    if exists|f: int, nl: int, c: int| chosen_at(s, f, nl, c) {
        let (f, nl, c) = choose|f: int, nl: int, c: int| chosen_at(s, f, nl, c);
        Some((s.subrange(f + 3, nl), s.subrange(nl + 1, c)))
    } else {
        None
    }
}

/// Where the tag starting at `f + 3` ends, it ends at the same newline.
proof fn lemma_newline_unique(s: Seq<char>, f: int, nl: int, nl2: int)
    requires
        opens_block(s, f, nl),
        opens_block(s, f, nl2),
    ensures
        nl == nl2,
{
    if nl < nl2 {
        assert(is_tag_char(s[nl]));
    } else if nl2 < nl {
        assert(is_tag_char(s[nl2]));
    }
}

/// Any complete block has a chosen one, and the chosen one is unique.
proof fn lemma_chosen_unique(s: Seq<char>, f: int, nl: int, c: int, f2: int, nl2: int, c2: int)
    requires
        chosen_at(s, f, nl, c),
        chosen_at(s, f2, nl2, c2),
    ensures
        f == f2 && nl == nl2 && c == c2,
{
    assert(block_at(s, f2, nl2, c2));
    assert(block_at(s, f, nl, c));
    lemma_newline_unique(s, f, nl, nl2);
}

/// A message whose prefix holds the command word, followed by one block with a
/// well-formed fence, tag and body (the body holding no run of three
/// backticks), yields that tag and that body exactly, whatever else the prefix holds.
pub proof fn lemma_single_block(p: Seq<char>, tag: Seq<char>, body: Seq<char>)
    requires
        exists|e: int| trigger_at(p, e),
        tag.len() > 0,
        forall|k: int| 0 <= k < tag.len() ==> is_tag_char(#[trigger] tag[k]),
        body.len() > 0,
        forall|j: int| !#[trigger] fence_at(body, j),
    ensures
        block_of(p + "```"@ + tag + "\n"@ + body + "```"@) == Some((tag, body)),
{
    reveal_strlit("```");
    reveal_strlit("\n");
    let s = p + "```"@ + tag + "\n"@ + body + "```"@;
    let f = p.len() as int;
    let nl = f + 3 + tag.len();
    let c = nl + 1 + body.len();
    assert(s.len() == c + 3);
    assert forall|k: int| 0 <= k < f implies s[k] == p[k] by {}
    assert forall|k: int| f <= k < f + 3 implies s[k] == '`' by {}
    assert forall|k: int| f + 3 <= k < nl implies s[k] == tag[k - f - 3] by {}
    assert(s[nl] == '\n');
    assert forall|k: int| nl + 1 <= k < c implies s[k] == body[k - nl - 1] by {}
    assert forall|k: int| c <= k < c + 3 implies s[k] == '`' by {}
    let e = choose|e: int| trigger_at(p, e);
    assert(trigger_at(s, e));
    assert(tag_run(s, f + 3, nl));
    assert(block_at(s, f, nl, c));
    assert forall|f2: int, nl2: int, c2: int| #[trigger] block_at(s, f2, nl2, c2) implies f2 <= f
        && c2 <= c by {
        assert(fence_at(s, c2));
        if f2 > f {
            assert(fence_at(s, f2));
            assert(is_tag_char(s[f2 + 3]));
            if f2 < f + 3 {
                assert(s[f + 3] == tag[0]);
                assert(is_tag_char(tag[0]));
            } else if f2 < nl {
                assert(is_tag_char(tag[f2 - f - 3]));
            } else if f2 == nl {
            } else if f2 + 3 <= c {
                let j = f2 - nl - 1;
                assert(s[f2] == body[j]);
                assert(s[f2 + 1] == body[j + 1]);
                assert(s[f2 + 2] == body[j + 2]);
                assert(fence_at(body, j));
            } else {
                assert(s[f2 + 3] == '`');
            }
        }
    }
    assert(chosen_at(s, f, nl, c));
    let (cf, cnl, cc) = choose|f: int, nl: int, c: int| chosen_at(s, f, nl, c);
    lemma_chosen_unique(s, f, nl, c, cf, cnl, cc);
    assert(s.subrange(f + 3, nl) =~= tag);
    assert(s.subrange(nl + 1, c) =~= body);
}

/// The characters of `s`, one per element.
fn chars_of(s: &str) -> (v: Vec<char>)
    ensures
        v@ == s@,
{
    let n = s.unicode_len();
    let mut v: Vec<char> = Vec::new();
    let mut i: usize = 0;
    while i < n
        invariant
            n == s@.len(),
            i <= n,
            v@ == s@.subrange(0, i as int),
        decreases n - i,
    {
        v.push(s.get_char(i));
        i = i + 1;
    }
    v
}

fn is_fence(v: &Vec<char>, i: usize) -> (r: bool)
    ensures
        r == fence_at(v@, i as int),
{
    i < v.len() && v.len() - i >= 3 && v[i] == '`' && v[i + 1] == '`' && v[i + 2] == '`'
}

fn is_trigger(v: &Vec<char>, i: usize) -> (r: bool)
    ensures
        r == trigger_at(v@, i as int),
{
    i < v.len() && v.len() - i >= 4 && v[i] == 'e' && v[i + 1] == 'x' && v[i + 2] == 'e' && v[i
        + 3] == 'c'
}

fn tag_char(c: char) -> (r: bool)
    ensures
        r == is_tag_char(c),
{
    ('a' <= c && c <= 'z') || ('A' <= c && c <= 'Z') || ('0' <= c && c <= '9') || c == '_' || c
        == '-' || c == '+'
}

/// Position of the last fence in `v`.
fn last_fence(v: &Vec<char>) -> (r: Option<usize>)
    ensures
        match r {
            Some(c) => fence_at(v@, c as int) && forall|j: int| #[trigger]
                fence_at(v@, j) ==> j <= c,
            None => forall|j: int| !#[trigger] fence_at(v@, j),
        },
{
    let mut last: Option<usize> = None;
    let mut i: usize = 0;
    while i < v.len()
        invariant
            i <= v.len(),
            match last {
                Some(c) => c < i && fence_at(v@, c as int) && forall|j: int|
                    #[trigger] fence_at(v@, j) && j < i ==> j <= c,
                None => forall|j: int| #[trigger] fence_at(v@, j) && j < i ==> false,
            },
        decreases v.len() - i,
    {
        if is_fence(v, i) {
            last = Some(i);
        }
        i = i + 1;
    }
    last
}

/// Position of the first command word in `v`.
fn first_trigger(v: &Vec<char>) -> (r: Option<usize>)
    ensures
        match r {
            Some(e) => trigger_at(v@, e as int) && forall|j: int| #[trigger]
                trigger_at(v@, j) ==> e <= j,
            None => forall|j: int| !#[trigger] trigger_at(v@, j),
        },
{
    let mut i: usize = 0;
    while i < v.len()
        invariant
            i <= v.len(),
            forall|j: int| #[trigger] trigger_at(v@, j) && j < i ==> false,
        decreases v.len() - i,
    {
        if is_trigger(v, i) {
            return Some(i);
        }
        i = i + 1;
    }
    None
}

/// Where the tag after a fence at `f` ends in a newline, the newline's position.
fn tag_newline(v: &Vec<char>, f: usize) -> (r: Option<usize>)
    requires
        fence_at(v@, f as int),
    ensures
        match r {
            Some(nl) => tag_run(v@, f + 3, nl as int) && nl < v.len() && v@[nl as int] == '\n',
            None => forall|nl: int|
                !(tag_run(v@, f + 3, nl) && nl < v.len() && #[trigger] v@[nl] == '\n'),
        },
{
    assert(v@.len() == v.len());
    let start = f + 3;
    let mut j: usize = start;
    while j < v.len() && tag_char(v[j])
        invariant
            start <= j <= v.len(),
            forall|k: int| start <= k < j ==> is_tag_char(#[trigger] v@[k]),
        decreases v.len() - j,
    {
        j = j + 1;
    }
    if j > start && j < v.len() && v[j] == '\n' {
        Some(j)
    } else {
        assert forall|nl: int|
            !(tag_run(v@, f + 3, nl) && nl < v.len() && #[trigger] v@[nl] == '\n') by {
            if tag_run(v@, f + 3, nl) && nl < v.len() && v@[nl] == '\n' {
                if nl < j {
                    assert(is_tag_char(v@[nl]));
                } else if nl > j {
                    assert(is_tag_char(v@[j as int]));
                }
            }
        }
        None
    }
}

/// Finds the fenced code block of an `exec` message. The opening fence must
/// follow the word `exec` and be directly followed by a language tag and a
/// newline. Of several blocks, the one with the latest such opening fence is
/// taken, and its body extends to the last closing fence of the message (greedy).
pub fn extract_code_block(message: &str) -> (r: Option<CodeBlock>)
    ensures
        r is None <==> block_of(message@) is None,
        r matches Some(b) ==> block_of(message@) == Some((b.language@, b.body@)),
        r is None <==> forall|f: int, nl: int, c: int| !block_at(message@, f, nl, c),
        r matches Some(b) ==> forall|k: int|
            0 <= k < b.language@.len() ==> is_tag_char(#[trigger] b.language@[k]),
{
    let ghost s = message@;
    let v = chars_of(message);
    let last = last_fence(&v);
    let first = first_trigger(&v);
    if last.is_none() || first.is_none() {
        assert forall|f: int, nl: int, c: int| !block_at(s, f, nl, c) by {
            if block_at(s, f, nl, c) {
                assert(fence_at(v@, c));
                assert(exists|e: int| trigger_at(s, e) && e + 4 <= f);
                let e = choose|e: int| trigger_at(s, e) && e + 4 <= f;
                assert(trigger_at(v@, e));
            }
        }
        assert(!exists|f: int, nl: int, c: int| chosen_at(s, f, nl, c));
        return None;
    }
    let c = last.unwrap();
    let e0 = first.unwrap();
    assert(v@.len() == v.len());
    // scan every candidate opening fence, keeping the latest one that works
    let mut best: Option<(usize, usize)> = None;
    let mut f: usize = e0 + 4;
    while f < c
        invariant
            v@ == s,
            e0 + 4 <= f,
            f <= c || f == e0 + 4,
            c < v.len(),
            fence_at(s, c as int),
            forall|j: int| #[trigger] fence_at(s, j) ==> j <= c,
            trigger_at(s, e0 as int),
            forall|j: int| #[trigger] trigger_at(s, j) ==> e0 <= j,
            match best {
                Some((bf, bnl)) => bf < f && block_at(s, bf as int, bnl as int, c as int)
                    && forall|f2: int, nl2: int, c2: int| #[trigger]
                    block_at(s, f2, nl2, c2) && f2 < f ==> f2 <= bf,
                None => forall|f2: int, nl2: int, c2: int| #[trigger]
                    block_at(s, f2, nl2, c2) && f2 < f ==> false,
            },
        decreases c - f,
    {
        if is_fence(&v, f) {
            match tag_newline(&v, f) {
                Some(nl) => {
                    if nl + 2 <= c {
                        assert(trigger_at(s, e0 as int) && e0 + 4 <= f);
                        assert(block_at(s, f as int, nl as int, c as int));
                        best = Some((f, nl));
                    } else {
                        assert forall|f2: int, nl2: int, c2: int| #[trigger]
                            block_at(s, f2, nl2, c2) && f2 == f implies false by {
                            assert(s[nl2] == '\n');
                            if nl2 != nl {
                                assert(!(tag_run(s, f + 3, nl2) && nl2 < s.len() && s[nl2]
                                    == '\n')) by {
                                    if tag_run(s, f + 3, nl2) && nl2 < s.len() && s[nl2] == '\n' {
                                        if nl2 < nl {
                                            assert(is_tag_char(s[nl2]));
                                        } else {
                                            assert(is_tag_char(s[nl as int]));
                                        }
                                    }
                                }
                            }
                            assert(fence_at(s, c2));
                        }
                    }
                },
                None => {
                    assert forall|f2: int, nl2: int, c2: int| #[trigger]
                        block_at(s, f2, nl2, c2) && f2 == f implies false by {
                        assert(s[nl2] == '\n');
                    }
                },
            }
        }
        f = f + 1;
    }
    assert forall|f2: int, nl2: int, c2: int| #[trigger] block_at(s, f2, nl2, c2) implies f2
        < f by {
        assert(fence_at(s, c2));
        assert(c2 >= f2 + 6);
    }
    match best {
        None => {
            assert(!exists|f: int, nl: int, c: int| chosen_at(s, f, nl, c));
            None
        },
        Some((bf, bnl)) => {
            assert forall|f2: int, nl2: int, c2: int| #[trigger] block_at(s, f2, nl2, c2) implies f2
                <= bf && c2 <= c by {
                assert(fence_at(s, c2));
            }
            assert(chosen_at(s, bf as int, bnl as int, c as int));
            proof {
                let (cf, cnl, cc) = choose|f: int, nl: int, c: int| chosen_at(s, f, nl, c);
                lemma_chosen_unique(s, bf as int, bnl as int, c as int, cf, cnl, cc);
            }
            let language = String::from_str(message.substring_char(bf + 3, bnl));
            let body = String::from_str(message.substring_char(bnl + 1, c));
            Some(CodeBlock { language, body })
        },
    }
}

} // verus!
