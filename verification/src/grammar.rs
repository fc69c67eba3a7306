//! The lexical grammar as a mathematical function: what token (if any) each
//! cursor position yields, how far the cursor advances, and the token
//! sequence an entire input lexes to.  The executable scanner is verified
//! against these definitions.

use vstd::prelude::*;

use crate::token::LexingError;
use crate::token::MultiLineComment;
use crate::token::SpecToken;

verus! {

/// First character of an identifier: `[_a-zA-Z]`.
pub open spec fn is_ident_start(c: char) -> bool {
    c == '_' || (97 <= c as u32 && c as u32 <= 122) || (65 <= c as u32 && c as u32 <= 90)
}

/// Continuation character of an identifier: `[_a-zA-Z0-9]`.
pub open spec fn is_ident_continue(c: char) -> bool {
    is_ident_start(c) || is_digit(c)
}

/// An ASCII decimal digit.
pub open spec fn is_digit(c: char) -> bool {
    48 <= c as u32 && c as u32 <= 57
}

/// Horizontal whitespace: space, tab, carriage return, form feed.  Newline
/// is deliberately excluded: it is a significant token of its own.
pub open spec fn is_hspace(c: char) -> bool {
    c == ' ' || c == '\t' || c == '\r' || c == '\u{000C}'
}

/// The numeric value of a digit character.
pub open spec fn digit_of(c: char) -> nat
    recommends
        is_digit(c),
{
    (c as u32 - 48) as nat
}

/// Length of the run of identifier-continuation characters starting at `i`.
pub open spec fn ident_tail_len(s: Seq<char>, i: int) -> int
    decreases s.len() - i,
{
    if 0 <= i < s.len() && is_ident_continue(s[i]) {
        1 + ident_tail_len(s, i + 1)
    } else {
        0
    }
}

/// Length of the run of digit characters starting at `i`.
pub open spec fn digit_run_len(s: Seq<char>, i: int) -> int
    decreases s.len() - i,
{
    if 0 <= i < s.len() && is_digit(s[i]) {
        1 + digit_run_len(s, i + 1)
    } else {
        0
    }
}

/// Length of the run of non-newline characters starting at `i` (the body of
/// a line comment).
pub open spec fn line_body_len(s: Seq<char>, i: int) -> int
    decreases s.len() - i,
{
    if 0 <= i < s.len() && s[i] != '\n' {
        1 + line_body_len(s, i + 1)
    } else {
        0
    }
}

/// Length of the run of horizontal whitespace starting at `i`.
pub open spec fn hspace_len(s: Seq<char>, i: int) -> int
    decreases s.len() - i,
{
    if 0 <= i < s.len() && is_hspace(s[i]) {
        1 + hspace_len(s, i + 1)
    } else {
        0
    }
}

/// The value of the digit run `s[i .. i + n]`, most significant digit first.
pub open spec fn digits_val(s: Seq<char>, i: int, n: int) -> nat
    decreases n,
{
    if n <= 0 {
        0
    } else {
        digits_val(s, i, n - 1) * 10 + digit_of(s[i + n - 1])
    }
}

/// A digit run's value never shrinks as the run grows.
pub proof fn lemma_digits_val_mono(s: Seq<char>, i: int, n: int, m: int)
    requires
        0 <= n <= m,
    ensures
        digits_val(s, i, n) <= digits_val(s, i, m),
    decreases m,
{
    if n < m {
        lemma_digits_val_mono(s, i, n, m - 1);
    }
}

/// What the nested-comment sub-scan sees at position `i`: a `/*` opener, a
/// `*/` closer, or one other character.  Openers are recognized before
/// closers, and both before the catch-all, exactly as the sub-scan's
/// pattern priority demands.
pub open spec fn comment_class_at(s: Seq<char>, i: int) -> MultiLineComment {
    if i + 1 < s.len() && s[i] == '/' && s[i + 1] == '*' {
        MultiLineComment::Open
    } else if i + 1 < s.len() && s[i] == '*' && s[i + 1] == '/' {
        MultiLineComment::Close
    } else {
        MultiLineComment::Other
    }
}

/// How many characters one sub-scan step consumes.
pub open spec fn comment_class_len(c: MultiLineComment) -> int {
    match c {
        MultiLineComment::Open => 2,
        MultiLineComment::Close => 2,
        MultiLineComment::Other => 1,
    }
}

/// The nested-comment sub-scan: starting at position `i` with `depth`
/// unmatched openers, `Some(j)` gives the position just after the closer
/// that brings the depth to zero; `None` means the input ends first and the
/// comment is unclosed.  The scan stops exactly when the depth reaches
/// zero: a stray `*/` beyond the matching closer is not comment content and
/// is left for the primary scanner, which re-lexes it as `*` then `/`.
pub open spec fn comment_scan(s: Seq<char>, i: int, depth: nat) -> Option<int>
    decreases s.len() - i,
{
    if depth == 0 {
        Some(i)
    } else if !(0 <= i < s.len()) {
        None
    } else {
        match comment_class_at(s, i) {
            MultiLineComment::Open => comment_scan(s, i + 2, depth + 1),
            MultiLineComment::Close => comment_scan(s, i + 2, (depth - 1) as nat),
            MultiLineComment::Other => comment_scan(s, i + 1, depth),
        }
    }
}

/// One step of the primary scan at position `i` (which must be in range):
/// the token or error emitted, if any, and the position the cursor advances
/// to.  The branch order realizes the pattern priority: identifiers (with
/// the keywords `let` and `dup` winning over `Name` at equal length), the
/// lambda markers, numeric literals, comments before the `/` operator and
/// the two-character operators before their one-character prefixes
/// (maximal munch), the remaining operators and punctuation, the
/// significant newline, discarded horizontal whitespace, and the
/// `InvalidCharacter` fallback.  An unclosed comment is terminal for its
/// lexeme: the `UnclosedComment` error accounts for everything from the
/// opener to the end of the input, so nothing after the opener is re-lexed.
pub open spec fn step(s: Seq<char>, i: int) -> (Option<SpecToken>, int)
    recommends
        0 <= i < s.len(),
{
    let c = s[i];
    if is_ident_start(c) {
        let j = i + 1 + ident_tail_len(s, i + 1);
        let w = s.subrange(i, j);
        if w == "let"@ {
            (Some(SpecToken::Let), j)
        } else if w == "dup"@ {
            (Some(SpecToken::Dup), j)
        } else {
            (Some(SpecToken::Name(w)), j)
        }
    } else if c == '@' || c == '\u{03bb}' {
        (Some(SpecToken::Lambda), i + 1)
    } else if is_digit(c) {
        let j = i + digit_run_len(s, i);
        let v = digits_val(s, i, digit_run_len(s, i));
        if v <= u64::MAX {
            (Some(SpecToken::Number(v)), j)
        } else {
            (Some(SpecToken::Error(LexingError::InvalidCharacter)), j)
        }
    } else if c == '/' && i + 1 < s.len() && s[i + 1] == '/' {
        (None, i + 2 + line_body_len(s, i + 2))
    } else if c == '/' && i + 1 < s.len() && s[i + 1] == '*' {
        match comment_scan(s, i + 2, 1) {
            Some(j) => (None, j),
            None => (Some(SpecToken::Error(LexingError::UnclosedComment)), s.len() as int),
        }
    } else if c == '=' {
        if i + 1 < s.len() && s[i + 1] == '=' {
            (Some(SpecToken::EqualsEquals), i + 2)
        } else {
            (Some(SpecToken::Equals), i + 1)
        }
    } else if c == '!' && i + 1 < s.len() && s[i + 1] == '=' {
        (Some(SpecToken::NotEquals), i + 2)
    } else if c == '<' {
        if i + 1 < s.len() && s[i + 1] == '=' {
            (Some(SpecToken::Lte), i + 2)
        } else if i + 1 < s.len() && s[i + 1] == '<' {
            (Some(SpecToken::Shl), i + 2)
        } else {
            (Some(SpecToken::Ltn), i + 1)
        }
    } else if c == '>' {
        if i + 1 < s.len() && s[i + 1] == '=' {
            (Some(SpecToken::Gte), i + 2)
        } else if i + 1 < s.len() && s[i + 1] == '>' {
            (Some(SpecToken::Shr), i + 2)
        } else {
            (Some(SpecToken::Gtn), i + 1)
        }
    } else if c == '+' {
        (Some(SpecToken::Add), i + 1)
    } else if c == '-' {
        (Some(SpecToken::Sub), i + 1)
    } else if c == '*' {
        (Some(SpecToken::Mul), i + 1)
    } else if c == '/' {
        (Some(SpecToken::Div), i + 1)
    } else if c == '%' {
        (Some(SpecToken::Mod), i + 1)
    } else if c == '&' {
        (Some(SpecToken::And), i + 1)
    } else if c == '|' {
        (Some(SpecToken::Or), i + 1)
    } else if c == '^' {
        (Some(SpecToken::Xor), i + 1)
    } else if c == ';' {
        (Some(SpecToken::Semicolon), i + 1)
    } else if c == '(' {
        (Some(SpecToken::LParen), i + 1)
    } else if c == ')' {
        (Some(SpecToken::RParen), i + 1)
    } else if c == '\n' {
        (Some(SpecToken::NewLine), i + 1)
    } else if is_hspace(c) {
        (None, i + hspace_len(s, i))
    } else {
        (Some(SpecToken::Error(LexingError::InvalidCharacter)), i + 1)
    }
}

/// A successful comment sub-scan never moves backward and ends within the
/// input.
pub proof fn lemma_comment_scan_range(s: Seq<char>, i: int, depth: nat)
    requires
        0 <= i <= s.len(),
        comment_scan(s, i, depth) is Some,
    ensures
        i <= comment_scan(s, i, depth)->Some_0 <= s.len(),
    decreases s.len() - i,
{
    if depth == 0 {
    } else if !(0 <= i < s.len()) {
    } else {
        match comment_class_at(s, i) {
            MultiLineComment::Open => lemma_comment_scan_range(s, i + 2, depth + 1),
            MultiLineComment::Close => lemma_comment_scan_range(s, i + 2, (depth - 1) as nat),
            MultiLineComment::Other => lemma_comment_scan_range(s, i + 1, depth),
        }
    }
}

/// Character runs stay within the input.
pub proof fn lemma_run_len_bounds(s: Seq<char>, i: int)
    requires
        0 <= i <= s.len(),
    ensures
        0 <= ident_tail_len(s, i) <= s.len() - i,
        0 <= digit_run_len(s, i) <= s.len() - i,
        0 <= line_body_len(s, i) <= s.len() - i,
        0 <= hspace_len(s, i) <= s.len() - i,
    decreases s.len() - i,
{
    if i < s.len() {
        lemma_run_len_bounds(s, i + 1);
    }
}

/// Every scan step makes strict forward progress and stays within the
/// input: the guarantee that scanning terminates on every input.
pub proof fn lemma_step_in_range(s: Seq<char>, i: int)
    requires
        0 <= i < s.len(),
    ensures
        i < step(s, i).1 <= s.len(),
{
    lemma_run_len_bounds(s, i);
    if i + 1 <= s.len() {
        lemma_run_len_bounds(s, i + 1);
    }
    if i + 2 <= s.len() {
        lemma_run_len_bounds(s, i + 2);
    }
    let c = s[i];
    if !is_ident_start(c) && !(c == '@' || c == '\u{03bb}') && !is_digit(c) && c == '/' && i + 1
        < s.len() && s[i + 1] == '*' {
        if comment_scan(s, i + 2, 1) is Some {
            lemma_comment_scan_range(s, i + 2, 1);
        }
    }
    if is_digit(c) {
        assert(digit_run_len(s, i) >= 1);
    }
    if is_hspace(c) {
        assert(hspace_len(s, i) >= 1);
    }
}

/// The token sequence the input lexes to, scanning from position `i`:
/// tokens and inline errors in order, with whitespace and comments
/// discarded.
pub open spec fn scan_from(s: Seq<char>, i: int) -> Seq<SpecToken>
    decreases s.len() - i,
        when 0 <= i <= s.len()
        via scan_from_decreases
{
    if i >= s.len() {
        Seq::empty()
    } else {
        match step(s, i) {
            (Some(t), j) => seq![t] + scan_from(s, j),
            (None, j) => scan_from(s, j),
        }
    }
}

#[via_fn]
proof fn scan_from_decreases(s: Seq<char>, i: int) {
    if i < s.len() {
        lemma_step_in_range(s, i);
    }
}

/// The whole input's token sequence.
pub open spec fn scan(s: Seq<char>) -> Seq<SpecToken> {
    scan_from(s, 0)
}

/// The step at position `i` matches a real pattern: it does not fall back
/// to an error result (no stray character, no unclosed comment, no
/// overflowing numeral).
pub open spec fn step_ok(s: Seq<char>, i: int) -> bool {
    !(step(s, i).0 matches Some(SpecToken::Error(_)))
}

/// The input from position `i` onward is drawn wholly from the grammar:
/// every scan step matches a real pattern.
pub open spec fn grammatical_from(s: Seq<char>, i: int) -> bool
    decreases s.len() - i,
        when 0 <= i <= s.len()
        via grammatical_from_decreases
{
    if i >= s.len() {
        true
    } else {
        step_ok(s, i) && grammatical_from(s, step(s, i).1)
    }
}

#[via_fn]
proof fn grammatical_from_decreases(s: Seq<char>, i: int) {
    if i < s.len() {
        lemma_step_in_range(s, i);
    }
}

/// The whole input is drawn from the grammar.
pub open spec fn grammatical(s: Seq<char>) -> bool {
    grammatical_from(s, 0)
}

proof fn lemma_no_error_tokens_from(s: Seq<char>, i: int)
    requires
        0 <= i <= s.len(),
        grammatical_from(s, i),
    ensures
        forall|k: int|
            0 <= k < scan_from(s, i).len() ==> !(#[trigger] scan_from(s, i)[k] matches SpecToken::Error(_)),
    decreases s.len() - i,
{
    if i < s.len() {
        lemma_step_in_range(s, i);
        let r = step(s, i);
        lemma_no_error_tokens_from(s, r.1);
        match r.0 {
            Some(t) => {
                assert(scan_from(s, i) == seq![t] + scan_from(s, r.1));
                assert forall|k: int| 0 <= k < scan_from(s, i).len() implies !(#[trigger] scan_from(
                    s,
                    i,
                )[k] matches SpecToken::Error(_)) by {
                    if k > 0 {
                        assert(scan_from(s, i)[k] == scan_from(s, r.1)[k - 1]);
                    }
                }
            },
            None => {},
        }
    }
}

/// Law: an input drawn wholly from the grammar — no stray characters, all
/// comments properly nested and closed, every numeral in range — lexes
/// with no error results in its token stream.
pub proof fn lemma_grammatical_no_errors(s: Seq<char>)
    requires
        grammatical(s),
    ensures
        forall|k: int|
            0 <= k < scan(s).len() ==> !(#[trigger] scan(s)[k] matches SpecToken::Error(_)),
{
    lemma_no_error_tokens_from(s, 0);
}

proof fn lemma_no_discarded_tokens_from(s: Seq<char>, i: int)
    requires
        0 <= i <= s.len(),
    ensures
        forall|k: int|
            0 <= k < scan_from(s, i).len() ==> !(#[trigger] scan_from(s, i)[k]
                matches SpecToken::SingleLineComment) && !(scan_from(s, i)[k]
                matches SpecToken::MultiLineComment) && !(scan_from(s, i)[k]
                matches SpecToken::Whitespace),
    decreases s.len() - i,
{
    if i < s.len() {
        lemma_step_in_range(s, i);
        let r = step(s, i);
        lemma_no_discarded_tokens_from(s, r.1);
        match r.0 {
            Some(t) => {
                assert(scan_from(s, i) == seq![t] + scan_from(s, r.1));
                assert forall|k: int| 0 <= k < scan_from(s, i).len() implies !(#[trigger] scan_from(
                    s,
                    i,
                )[k] matches SpecToken::SingleLineComment) && !(scan_from(s, i)[k]
                    matches SpecToken::MultiLineComment) && !(scan_from(s, i)[k]
                    matches SpecToken::Whitespace) by {
                    if k > 0 {
                        assert(scan_from(s, i)[k] == scan_from(s, r.1)[k - 1]);
                    }
                }
            },
            None => {},
        }
    }
}

/// Law: the discarded categories — comments of either kind and horizontal
/// whitespace — never appear in any input's token stream.
pub proof fn lemma_no_discarded_tokens(s: Seq<char>)
    ensures
        forall|k: int|
            0 <= k < scan(s).len() ==> !(#[trigger] scan(s)[k] matches SpecToken::SingleLineComment)
                && !(scan(s)[k] matches SpecToken::MultiLineComment) && !(scan(s)[k]
                matches SpecToken::Whitespace),
{
    lemma_no_discarded_tokens_from(s, 0);
}

} // verus!
