//! The tokenizer: source text to tokens, comments removed.

use crate::text::{Token, Tokens};
use vstd::prelude::*;

verus! {

/// Whether `c` ends a pending token when it stands outside a quoted string.
pub open spec fn is_separator(c: char) -> bool {
    c == ' ' || c == '\t' || c == '\n' || c == ';'
}

/// Whether a separator is also a token of its own.
pub open spec fn is_structural(c: char) -> bool {
    c == '\n' || c == ';'
}

/// What the scanner knows after reading a prefix of the source.
pub struct ScanState {
    /// The tokens completed so far.
    pub tokens: Tokens,
    /// The characters of the token that is being read.
    pub pending: Token,
    /// Whether the scanner stands inside a quoted string.
    pub in_quote: bool,
    /// Whether the character read last was an unescaped backslash: a backslash
    /// that does not itself follow an unescaped backslash. In a run of
    /// backslashes the first, third, fifth, ... are unescaped.
    pub escaping: bool,
}

/// The state before any character is read.
pub open spec fn scan_start() -> ScanState {
    ScanState { tokens: Seq::empty(), pending: Seq::empty(), in_quote: false, escaping: false }
}

/// `tokens` followed by `pending`, if `pending` holds anything.
pub open spec fn flushed(tokens: Tokens, pending: Token) -> Tokens {
    if pending.len() > 0 {
        tokens.push(pending)
    } else {
        tokens
    }
}

/// The state after reading one more character.
///
/// Outside quotes a separator ends the pending token, and `;` and newline are
/// then emitted as tokens of their own. Every other character joins the
/// pending token. A `"` enters or leaves a quoted string unless the character
/// just before it was an unescaped backslash: `\"` does not toggle, `\\"`
/// does, because there the second backslash is escaped by the first.
pub open spec fn scan_step(st: ScanState, c: char) -> ScanState {
    if is_separator(c) && !st.in_quote {
        let done = flushed(st.tokens, st.pending);
        ScanState {
            tokens: if is_structural(c) {
                done.push(seq![c])
            } else {
                done
            },
            pending: Seq::empty(),
            in_quote: false,
            escaping: false,
        }
    } else {
        ScanState {
            tokens: st.tokens,
            pending: st.pending.push(c),
            in_quote: if c == '"' && !st.escaping {
                !st.in_quote
            } else {
                st.in_quote
            },
            escaping: c == '\\' && !st.escaping,
        }
    }
}

/// The state that `st` becomes by reading all of `src`, from left to right.
pub open spec fn scan_from(st: ScanState, src: Seq<char>) -> ScanState
    decreases src.len(),
{
    if src.len() == 0 {
        st
    } else {
        scan_step(scan_from(st, src.drop_last()), src.last())
    }
}

/// The state after reading all of `src` from the start.
pub open spec fn scan(src: Seq<char>) -> ScanState {
    scan_from(scan_start(), src)
}

/// The tokens of `src` before comments are removed: what the scanner has
/// completed at the end of input, and the pending token if there is one.
pub open spec fn raw_tokens(src: Seq<char>) -> Tokens {
    let end = scan(src);
    flushed(end.tokens, end.pending)
}

/// Reading one more character of `src` is one step from the state before it.
proof fn lemma_scan_next(src: Seq<char>, i: int)
    requires
        0 <= i < src.len(),
    ensures
        scan(src.take(i + 1)) == scan_step(scan(src.take(i)), src[i]),
{
    assert(src.take(i + 1).drop_last() == src.take(i));
}

/// Splits source text into raw tokens, newline tokens and comments included.
pub fn raw_tokenize_dot(dot_str: String) -> (tokens: Vec<String>)
    ensures
        tokens.deep_view() == raw_tokens(dot_str@),
{
    let mut tokens: Vec<String> = Vec::new();
    let mut token = String::new();
    let mut in_quote = false;
    let mut escaping = false;
    assert(tokens.deep_view() == Tokens::empty());
    for c in it: dot_str.as_str().chars()
        invariant
            it.seq() == dot_str@,
            scan(dot_str@.take(it.index())) == (ScanState {
                tokens: tokens.deep_view(),
                pending: token@,
                in_quote,
                escaping,
            }),
    {
        proof {
            lemma_scan_next(dot_str@, it.index());
        }
        let ghost before = tokens.deep_view();
        if (c == ' ' || c == '\t' || c == '\n' || c == ';') && !in_quote {
            if !token.as_str().is_empty() {
                tokens.push(token);
                token = String::new();
            }
            assert(tokens.deep_view() == flushed(before, scan(dot_str@.take(it.index())).pending));
            if c == ';' || c == '\n' {
                let ghost flushed_before = tokens.deep_view();
                let mut mark = String::new();
                mark.push(c);
                tokens.push(mark);
                assert(tokens.deep_view() == flushed_before.push(seq![c]));
            }
            escaping = false;
        } else {
            if c == '"' && !escaping {
                in_quote = !in_quote;
            }
            token.push(c);
            escaping = c == '\\' && !escaping;
        }
    }
    assert(dot_str@.take(dot_str@.len() as int) == dot_str@);
    let ghost before = tokens.deep_view();
    if !token.as_str().is_empty() {
        tokens.push(token);
    }
    assert(tokens.deep_view() == flushed(before, scan(dot_str@).pending));
    tokens
}

/// The token that a newline in the source becomes.
pub open spec fn newline_token() -> Token {
    seq!['\n']
}

/// Where the comment remover stands between two tokens.
#[derive(Clone, Copy, Debug, PartialEq, Eq)]
pub enum CommentMode {
    /// Outside any comment.
    Code,
    /// Inside a `//` comment, which the next newline token ends.
    Line,
    /// Inside a `/*` comment, which the next `*/` token ends.
    Block,
}

/// What the comment remover knows after reading a prefix of the tokens.
pub struct StripState {
    /// The tokens kept so far.
    pub kept: Tokens,
    /// The mode in which the next token is read.
    pub mode: CommentMode,
}

/// The state after reading one more token.
///
/// Inside a comment every token is dropped, the one that ends the comment
/// too. Outside, `//` and `/*` open a comment and are dropped, newline tokens
/// are dropped, and every other token is kept.
pub open spec fn strip_step(st: StripState, t: Token) -> StripState {
    match st.mode {
        CommentMode::Line => StripState {
            kept: st.kept,
            mode: if t == newline_token() {
                CommentMode::Code
            } else {
                CommentMode::Line
            },
        },
        CommentMode::Block => StripState {
            kept: st.kept,
            mode: if t == "*/"@ {
                CommentMode::Code
            } else {
                CommentMode::Block
            },
        },
        CommentMode::Code => if t == "//"@ {
            StripState { kept: st.kept, mode: CommentMode::Line }
        } else if t == "/*"@ {
            StripState { kept: st.kept, mode: CommentMode::Block }
        } else if t == newline_token() {
            st
        } else {
            StripState { kept: st.kept.push(t), mode: CommentMode::Code }
        },
    }
}

/// The state that `st` becomes by reading all of `ts`, from left to right.
pub open spec fn strip_from(st: StripState, ts: Tokens) -> StripState
    decreases ts.len(),
{
    if ts.len() == 0 {
        st
    } else {
        strip_step(strip_from(st, ts.drop_last()), ts.last())
    }
}

/// The state after reading all of `ts`, starting outside any comment with
/// nothing kept.
pub open spec fn strip(ts: Tokens) -> StripState {
    strip_from(StripState { kept: Seq::empty(), mode: CommentMode::Code }, ts)
}

/// `ts` without its comments and without its newline tokens.
///
/// A comment that is still open at the end swallows the rest.
pub open spec fn without_comments(ts: Tokens) -> Tokens {
    strip(ts).kept
}

/// The tokens of `src`: its raw tokens without comments and newlines.
pub open spec fn tokens_of(src: Seq<char>) -> Tokens {
    without_comments(raw_tokens(src))
}

/// Whether the comment remover keeps `t` when it meets it outside a comment.
pub open spec fn is_kept_in_code(t: Token) -> bool {
    t != "//"@ && t != "/*"@ && t != newline_token()
}

/// Reading one more token of `ts` is one step from the state before it.
proof fn lemma_strip_next(ts: Tokens, i: int)
    requires
        0 <= i < ts.len(),
    ensures
        strip(ts.take(i + 1)) == strip_step(strip(ts.take(i)), ts[i]),
{
    assert(ts.take(i + 1).drop_last() == ts.take(i));
}

/// The text of the literal `"\n"` is the newline token.
proof fn lemma_newline_literal()
    ensures
        "\n"@ == newline_token(),
{
    reveal_strlit("\n");
    assert("\n"@ =~= newline_token());
}

/// Removes `//` and `/* */` comments and every newline token.
pub fn remove_comments(tokens: Vec<String>) -> (kept: Vec<String>)
    ensures
        kept.deep_view() == without_comments(tokens.deep_view()),
{
    let line_start = String::from_str("//");
    let block_start = String::from_str("/*");
    let block_end = String::from_str("*/");
    let newline = String::from_str("\n");
    proof {
        lemma_newline_literal();
    }
    let mut kept: Vec<String> = Vec::new();
    let mut mode = CommentMode::Code;
    let mut i: usize = 0;
    assert(kept.deep_view() == Tokens::empty());
    while i < tokens.len()
        invariant
            i <= tokens.len(),
            line_start@ == "//"@,
            block_start@ == "/*"@,
            block_end@ == "*/"@,
            newline@ == newline_token(),
            strip(tokens.deep_view().take(i as int)) == (StripState { kept: kept.deep_view(), mode }),
        decreases tokens.len() - i,
    {
        proof {
            lemma_strip_next(tokens.deep_view(), i as int);
        }
        let token = &tokens[i];
        let ghost before = kept.deep_view();
        match mode {
            CommentMode::Line => {
                if *token == newline {
                    mode = CommentMode::Code;
                }
            },
            CommentMode::Block => {
                if *token == block_end {
                    mode = CommentMode::Code;
                }
            },
            CommentMode::Code => {
                if *token == line_start {
                    mode = CommentMode::Line;
                } else if *token == block_start {
                    mode = CommentMode::Block;
                } else if *token != newline {
                    kept.push(token.clone());
                    assert(kept.deep_view() == before.push(token@));
                }
            },
        }
        i += 1;
    }
    assert(tokens.deep_view().take(tokens.len() as int) == tokens.deep_view());
    kept
}

/// Splits source text into tokens and removes comments and newlines.
pub fn tokenize(dot_str: String) -> (tokens: Vec<String>)
    ensures
        tokens.deep_view() == tokens_of(dot_str@),
{
    let raw = raw_tokenize_dot(dot_str);
    remove_comments(raw)
}

} // verus!
