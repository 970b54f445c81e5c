//! What holds of every text: theorems about the scanner and the comment
//! remover of [`crate::tokenize`].

use crate::text::{Token, Tokens};
use crate::tokenize::{
    flushed, is_kept_in_code, is_separator, is_structural, newline_token, raw_tokens, scan,
    scan_from, scan_start, scan_step, strip, strip_from, strip_step, tokens_of, without_comments,
    CommentMode, ScanState, StripState,
};
use vstd::prelude::*;

verus! {

/// Reading `a` and then `b` is reading `a + b`.
pub proof fn lemma_scan_from_concat(st: ScanState, a: Seq<char>, b: Seq<char>)
    ensures
        scan_from(st, a + b) == scan_from(scan_from(st, a), b),
    decreases b.len(),
{
    if b.len() == 0 {
        assert(a + b == a);
    } else {
        lemma_scan_from_concat(st, a, b.drop_last());
        assert((a + b).drop_last() == a + b.drop_last());
    }
}

/// `st` with `done` put before its completed tokens.
pub open spec fn after_tokens(done: Tokens, st: ScanState) -> ScanState {
    ScanState { tokens: done + st.tokens, ..st }
}

/// Tokens that are complete do not change what is read after them.
pub proof fn lemma_scan_from_after_tokens(done: Tokens, st: ScanState, src: Seq<char>)
    ensures
        scan_from(after_tokens(done, st), src) == after_tokens(done, scan_from(st, src)),
    decreases src.len(),
{
    if src.len() > 0 {
        lemma_scan_from_after_tokens(done, st, src.drop_last());
        let before = scan_from(st, src.drop_last());
        let c = src.last();
        let lhs = scan_step(after_tokens(done, before), c);
        let rhs = after_tokens(done, scan_step(before, c));
        assert(flushed(done + before.tokens, before.pending) == done + flushed(
            before.tokens,
            before.pending,
        ));
        assert(lhs.tokens == rhs.tokens);
    } else {
        assert(scan_from(st, src) == st);
    }
}

/// A separator outside quotes splits the text: the tokens of the whole are
/// the tokens of what stands before it, the separator itself if it is `;` or
/// a newline, and the tokens of what stands after it.
pub proof fn lemma_separator_splits(before: Seq<char>, c: char, after: Seq<char>)
    requires
        is_separator(c),
        !scan(before).in_quote,
    ensures
        raw_tokens(before + seq![c] + after) == raw_tokens(before) + (if is_structural(c) {
            seq![seq![c]]
        } else {
            Seq::empty()
        }) + raw_tokens(after),
{
    let mark: Tokens = if is_structural(c) {
        seq![seq![c]]
    } else {
        Seq::empty()
    };
    let done = raw_tokens(before) + mark;
    lemma_scan_from_concat(scan_start(), before + seq![c], after);
    lemma_scan_from_concat(scan_start(), before, seq![c]);
    assert(scan_from(scan(before), seq![c]) == scan_step(scan(before), c)) by {
        assert(seq![c].drop_last() == Seq::<char>::empty());
        assert(scan_from(scan(before), Seq::<char>::empty()) == scan(before));
    }
    let at_split = scan(before + seq![c]);
    assert(at_split.tokens == done);
    assert(done + scan_start().tokens == done);
    assert(at_split == after_tokens(done, scan_start()));
    lemma_scan_from_after_tokens(done, scan_start(), after);
    let end = scan(after);
    assert(flushed(done + end.tokens, end.pending) == done + flushed(end.tokens, end.pending));
}

/// Text in which every separator stands inside quotes stays in one piece, as
/// far as it has been read.
proof fn lemma_unbroken_prefix(src: Seq<char>, n: int)
    requires
        0 <= n <= src.len(),
        forall|i: int|
            0 <= i < src.len() && is_separator(#[trigger] src[i]) ==> scan(src.take(i)).in_quote,
    ensures
        scan(src.take(n)).tokens == Tokens::empty(),
        scan(src.take(n)).pending == src.take(n),
    decreases n,
{
    if n > 0 {
        lemma_unbroken_prefix(src, n - 1);
        assert(src.take(n).drop_last() == src.take(n - 1));
        assert(src.take(n).last() == src[n - 1]);
        assert(src.take(n - 1).push(src[n - 1]) == src.take(n));
    } else {
        assert(src.take(0) == Seq::<char>::empty());
    }
}

/// Text in which every separator stands inside quotes is one token: a quoted
/// string is atomic, whatever whitespace, `;` or comment markers it holds.
pub proof fn lemma_unbroken_text_is_one_token(src: Seq<char>)
    requires
        src.len() > 0,
        forall|i: int|
            0 <= i < src.len() && is_separator(#[trigger] src[i]) ==> scan(src.take(i)).in_quote,
    ensures
        raw_tokens(src) == seq![src],
{
    lemma_unbroken_prefix(src, src.len() as int);
    assert(src.take(src.len() as int) == src);
    assert(Tokens::empty().push(src) == seq![src]);
}

/// A run of `n` backslashes.
pub open spec fn backslashes(n: nat) -> Seq<char> {
    Seq::new(n, |i: int| '\\')
}

/// Backslashes escape one another in pairs: after a run of them that starts
/// where no escape is pending, an escape is pending exactly if the run has odd
/// length. The run neither enters nor leaves a quoted string.
pub proof fn lemma_backslash_run(src: Seq<char>, n: nat)
    requires
        !scan(src).escaping,
    ensures
        scan(src + backslashes(n)).escaping == (n % 2 == 1),
        scan(src + backslashes(n)).in_quote == scan(src).in_quote,
    decreases n,
{
    if n == 0 {
        assert(src + backslashes(0) == src);
    } else {
        lemma_backslash_run(src, (n - 1) as nat);
        let whole = src + backslashes(n);
        assert(whole.drop_last() == src + backslashes((n - 1) as nat));
        assert(whole.last() == '\\');
    }
}

/// A `"` enters or leaves a quoted string unless an unescaped backslash
/// stands just before it: after an even run of backslashes it toggles, after
/// an odd run it does not.
pub proof fn lemma_quote_after_backslashes(src: Seq<char>, n: nat)
    requires
        !scan(src).escaping,
    ensures
        scan(src + backslashes(n) + seq!['"']).in_quote == (if n % 2 == 0 {
            !scan(src).in_quote
        } else {
            scan(src).in_quote
        }),
{
    lemma_backslash_run(src, n);
    let whole = src + backslashes(n) + seq!['"'];
    assert(whole.drop_last() == src + backslashes(n));
    assert(whole.last() == '"');
}

/// No raw token is empty.
pub proof fn lemma_raw_tokens_nonempty(src: Seq<char>)
    ensures
        forall|i: int| 0 <= i < raw_tokens(src).len() ==> (#[trigger] raw_tokens(src)[i]).len() > 0,
{
    lemma_scanned_tokens_nonempty(src);
}

/// No token that the scanner has completed is empty.
proof fn lemma_scanned_tokens_nonempty(src: Seq<char>)
    ensures
        forall|i: int| 0 <= i < scan(src).tokens.len() ==> (#[trigger] scan(src).tokens[i]).len() > 0,
    decreases src.len(),
{
    if src.len() > 0 {
        lemma_scanned_tokens_nonempty(src.drop_last());
        let before = scan(src.drop_last());
        let after = scan(src);
        let done = flushed(before.tokens, before.pending);
        assert forall|i: int| 0 <= i < after.tokens.len() implies (#[trigger] after.tokens[i]).len()
            > 0 by {
            if i < before.tokens.len() {
                assert(after.tokens[i] == before.tokens[i]);
            } else if i < done.len() {
                assert(after.tokens[i] == before.pending);
            } else {
                assert(after.tokens[i] == seq![src.last()]);
            }
        }
    }
}

/// What comment removal keeps holds no comment opener and no newline token.
pub proof fn lemma_without_comments_clean(ts: Tokens)
    ensures
        forall|i: int|
            0 <= i < without_comments(ts).len() ==> is_kept_in_code(#[trigger] without_comments(ts)[i]),
    decreases ts.len(),
{
    if ts.len() > 0 {
        lemma_without_comments_clean(ts.drop_last());
        let before = without_comments(ts.drop_last());
        let after = without_comments(ts);
        assert forall|i: int| 0 <= i < after.len() implies is_kept_in_code(#[trigger] after[i]) by {
            if i < before.len() {
                assert(after[i] == before[i]);
            } else {
                assert(after[i] == ts.last());
            }
        }
    }
}

/// Comment removal changes nothing in tokens that hold no comment opener and
/// no newline token.
pub proof fn lemma_clean_tokens_are_kept(ts: Tokens)
    requires
        forall|i: int| 0 <= i < ts.len() ==> is_kept_in_code(#[trigger] ts[i]),
    ensures
        strip(ts) == (StripState { kept: ts, mode: CommentMode::Code }),
    decreases ts.len(),
{
    if ts.len() > 0 {
        lemma_clean_tokens_are_kept(ts.drop_last());
        assert(is_kept_in_code(ts[ts.len() - 1]));
        assert(ts.drop_last().push(ts.last()) == ts);
    } else {
        assert(ts == Tokens::empty());
    }
}

/// Removing comments a second time changes nothing.
pub proof fn lemma_without_comments_idempotent(ts: Tokens)
    ensures
        without_comments(without_comments(ts)) == without_comments(ts),
{
    lemma_without_comments_clean(ts);
    lemma_clean_tokens_are_kept(without_comments(ts));
}

/// Reading `a` and then `b` is reading `a + b`.
pub proof fn lemma_strip_from_concat(st: StripState, a: Tokens, b: Tokens)
    ensures
        strip_from(st, a + b) == strip_from(strip_from(st, a), b),
    decreases b.len(),
{
    if b.len() == 0 {
        assert(a + b == a);
    } else {
        lemma_strip_from_concat(st, a, b.drop_last());
        assert((a + b).drop_last() == a + b.drop_last());
    }
}

/// Inside a line comment, tokens other than newline change nothing.
proof fn lemma_line_comment_body(st: StripState, body: Tokens)
    requires
        st.mode is Line,
        forall|i: int| 0 <= i < body.len() ==> #[trigger] body[i] != newline_token(),
    ensures
        strip_from(st, body) == st,
    decreases body.len(),
{
    if body.len() > 0 {
        lemma_line_comment_body(st, body.drop_last());
        assert(body.last() == body[body.len() - 1]);
    }
}

/// Inside a block comment, tokens other than `*/` change nothing.
proof fn lemma_block_comment_body(st: StripState, body: Tokens)
    requires
        st.mode is Block,
        forall|i: int| 0 <= i < body.len() ==> #[trigger] body[i] != "*/"@,
    ensures
        strip_from(st, body) == st,
    decreases body.len(),
{
    if body.len() > 0 {
        lemma_block_comment_body(st, body.drop_last());
        assert(body.last() == body[body.len() - 1]);
    }
}

/// A line comment leaves no trace: `//`, any tokens but newline and the
/// newline that ends them can be put between `before` and `after`, wherever
/// `before` ends outside a comment, and the same tokens are kept.
pub proof fn lemma_line_comment_transparent(before: Tokens, body: Tokens, after: Tokens)
    requires
        strip(before).mode is Code,
        forall|i: int| 0 <= i < body.len() ==> #[trigger] body[i] != newline_token(),
    ensures
        without_comments(before + seq!["//"@] + body + seq![newline_token()] + after)
            == without_comments(before + after),
{
    let start = StripState { kept: Seq::empty(), mode: CommentMode::Code };
    let at_comment = strip(before);
    let inside = StripState { kept: at_comment.kept, mode: CommentMode::Line };
    lemma_strip_from_concat(start, before + seq!["//"@] + body + seq![newline_token()], after);
    lemma_strip_from_concat(start, before + seq!["//"@] + body, seq![newline_token()]);
    lemma_strip_from_concat(start, before + seq!["//"@], body);
    lemma_strip_from_concat(start, before, seq!["//"@]);
    lemma_strip_from_concat(start, before, after);
    lemma_strip_one(at_comment, "//"@);
    lemma_line_comment_body(inside, body);
    lemma_strip_one(inside, newline_token());
}

/// A block comment leaves no trace: `/*`, any tokens but `*/` and the `*/`
/// that ends them can be put between `before` and `after`, wherever `before`
/// ends outside a comment, and the same tokens are kept.
pub proof fn lemma_block_comment_transparent(before: Tokens, body: Tokens, after: Tokens)
    requires
        strip(before).mode is Code,
        forall|i: int| 0 <= i < body.len() ==> #[trigger] body[i] != "*/"@,
    ensures
        without_comments(before + seq!["/*"@] + body + seq!["*/"@] + after) == without_comments(
            before + after,
        ),
{
    let start = StripState { kept: Seq::empty(), mode: CommentMode::Code };
    let at_comment = strip(before);
    let inside = StripState { kept: at_comment.kept, mode: CommentMode::Block };
    lemma_strip_from_concat(start, before + seq!["/*"@] + body + seq!["*/"@], after);
    lemma_strip_from_concat(start, before + seq!["/*"@] + body, seq!["*/"@]);
    lemma_strip_from_concat(start, before + seq!["/*"@], body);
    lemma_strip_from_concat(start, before, seq!["/*"@]);
    lemma_strip_from_concat(start, before, after);
    assert("/*"@ != "//"@) by {
        reveal_strlit("/*");
        reveal_strlit("//");
        assert("/*"@[1] != "//"@[1]);
    }
    lemma_strip_one(at_comment, "/*"@);
    lemma_block_comment_body(inside, body);
    lemma_strip_one(inside, "*/"@);
}

/// A block comment that nothing ends swallows the rest: after `/*`, tokens
/// other than `*/` add nothing to what was kept before.
pub proof fn lemma_unterminated_block_comment(before: Tokens, body: Tokens)
    requires
        strip(before).mode is Code,
        forall|i: int| 0 <= i < body.len() ==> #[trigger] body[i] != "*/"@,
    ensures
        without_comments(before + seq!["/*"@] + body) == without_comments(before),
{
    let start = StripState { kept: Seq::empty(), mode: CommentMode::Code };
    let at_comment = strip(before);
    let inside = StripState { kept: at_comment.kept, mode: CommentMode::Block };
    lemma_strip_from_concat(start, before + seq!["/*"@], body);
    lemma_strip_from_concat(start, before, seq!["/*"@]);
    assert("/*"@ != "//"@) by {
        reveal_strlit("/*");
        reveal_strlit("//");
        assert("/*"@[1] != "//"@[1]);
    }
    lemma_strip_one(at_comment, "/*"@);
    lemma_block_comment_body(inside, body);
}

/// Reading a single token is one step.
proof fn lemma_strip_one(st: StripState, t: Token)
    ensures
        strip_from(st, seq![t]) == strip_step(st, t),
{
    assert(seq![t].drop_last() == Tokens::empty());
    assert(strip_from(st, Tokens::empty()) == st);
}

/// Tokenized text is a fixed point of comment removal.
pub proof fn lemma_tokens_fixed_point(src: Seq<char>)
    ensures
        without_comments(tokens_of(src)) == tokens_of(src),
{
    lemma_without_comments_idempotent(raw_tokens(src));
}

} // verus!
