//! The executable scanner, verified against the grammar: a forward-only
//! cursor, one token or error per pull, and a nested-comment sub-scan with
//! explicit depth counting.

use vstd::prelude::*;
use vstd::string::StrSliceExecFns;

use crate::grammar;
use crate::token::LexingError;
use crate::token::MultiLineComment;
use crate::token::SpecToken;
use crate::token::Token;
use crate::token::string_of_chars;

verus! {

fn ident_start_at(c: char) -> (b: bool)
    ensures
        b == grammar::is_ident_start(c),
{
    let u: u32 = c as u32;
    c == '_' || (97 <= u && u <= 122) || (65 <= u && u <= 90)
}

fn ident_continue_at(c: char) -> (b: bool)
    ensures
        b == grammar::is_ident_continue(c),
{
    let u: u32 = c as u32;
    c == '_' || (97 <= u && u <= 122) || (65 <= u && u <= 90) || (48 <= u && u <= 57)
}

fn digit_at(c: char) -> (b: bool)
    ensures
        b == grammar::is_digit(c),
{
    let u: u32 = c as u32;
    48 <= u && u <= 57
}

fn hspace_at(c: char) -> (b: bool)
    ensures
        b == grammar::is_hspace(c),
{
    c == ' ' || c == '\t' || c == '\r' || c == '\u{000C}'
}

/// The position just past the run of identifier-continuation characters
/// starting at `i`.
fn ident_end(src: &Vec<char>, i: usize) -> (r: usize)
    requires
        i <= src@.len(),
    ensures
        r as int == i + grammar::ident_tail_len(src@, i as int),
        i <= r <= src@.len(),
{
    let ghost s = src@;
    let mut k: usize = i;
    while k < src.len() && ident_continue_at(src[k])
        invariant
            i <= k <= s.len(),
            src@ == s,
            grammar::ident_tail_len(s, i as int) == k - i + grammar::ident_tail_len(s, k as int),
        decreases s.len() - k,
    {
        k = k + 1;
    }
    proof {
        assert(grammar::ident_tail_len(s, k as int) == 0);
    }
    k
}

/// The position just past the run of digits starting at `i`.
fn digit_end(src: &Vec<char>, i: usize) -> (r: usize)
    requires
        i <= src@.len(),
    ensures
        r as int == i + grammar::digit_run_len(src@, i as int),
        i <= r <= src@.len(),
        forall|k: int| i <= k < r ==> grammar::is_digit(#[trigger] src@[k]),
{
    let ghost s = src@;
    let mut k: usize = i;
    while k < src.len() && digit_at(src[k])
        invariant
            i <= k <= s.len(),
            src@ == s,
            grammar::digit_run_len(s, i as int) == k - i + grammar::digit_run_len(s, k as int),
            forall|q: int| i <= q < k ==> grammar::is_digit(#[trigger] s[q]),
        decreases s.len() - k,
    {
        k = k + 1;
    }
    proof {
        assert(grammar::digit_run_len(s, k as int) == 0);
    }
    k
}

/// The position just past the run of non-newline characters starting at
/// `i`: the end of a line comment's body.
fn line_end(src: &Vec<char>, i: usize) -> (r: usize)
    requires
        i <= src@.len(),
    ensures
        r as int == i + grammar::line_body_len(src@, i as int),
        i <= r <= src@.len(),
{
    let ghost s = src@;
    let mut k: usize = i;
    while k < src.len() && src[k] != '\n'
        invariant
            i <= k <= s.len(),
            src@ == s,
            grammar::line_body_len(s, i as int) == k - i + grammar::line_body_len(s, k as int),
        decreases s.len() - k,
    {
        k = k + 1;
    }
    proof {
        assert(grammar::line_body_len(s, k as int) == 0);
    }
    k
}

/// The position just past the run of horizontal whitespace starting at `i`.
fn hspace_end(src: &Vec<char>, i: usize) -> (r: usize)
    requires
        i <= src@.len(),
    ensures
        r as int == i + grammar::hspace_len(src@, i as int),
        i <= r <= src@.len(),
{
    let ghost s = src@;
    let mut k: usize = i;
    while k < src.len() && hspace_at(src[k])
        invariant
            i <= k <= s.len(),
            src@ == s,
            grammar::hspace_len(s, i as int) == k - i + grammar::hspace_len(s, k as int),
        decreases s.len() - k,
    {
        k = k + 1;
    }
    proof {
        assert(grammar::hspace_len(s, k as int) == 0);
    }
    k
}

/// One step of the nested-comment sub-scan at position `i`: which of the
/// three patterns matches, and the position after it.
pub fn comment_step(src: &Vec<char>, i: usize) -> (r: (MultiLineComment, usize))
    requires
        i < src@.len(),
    ensures
        r.0 == grammar::comment_class_at(src@, i as int),
        r.1 as int == i + grammar::comment_class_len(r.0),
{
    let n = src.len();
    if i + 1 < n && src[i] == '/' && src[i + 1] == '*' {
        (MultiLineComment::Open, i + 2)
    } else if i + 1 < n && src[i] == '*' && src[i + 1] == '/' {
        (MultiLineComment::Close, i + 2)
    } else {
        (MultiLineComment::Other, i + 1)
    }
}

/// The nested-comment sub-scan, entered just after a `/*` opener (so with
/// depth one): `Some(j)` is the position after the closer that matches the
/// opener, `None` means the comment is unclosed.  Depth is tracked by an
/// explicit counter, iteratively and stack-free, so arbitrarily deep
/// nesting costs no call-stack growth.
pub fn comment_close(src: &Vec<char>, i: usize) -> (r: Option<usize>)
    requires
        i <= src@.len(),
    ensures
        match r {
            Some(j) => grammar::comment_scan(src@, i as int, 1) == Some(j as int),
            None => grammar::comment_scan(src@, i as int, 1) is None,
        },
{
    let ghost s = src@;
    let mut cur: usize = i;
    let mut depth: usize = 1;
    loop
        invariant
            i <= cur <= s.len(),
            src@ == s,
            depth >= 1,
            2 * depth <= 2 + cur - i,
            grammar::comment_scan(s, i as int, 1) == grammar::comment_scan(
                s,
                cur as int,
                depth as nat,
            ),
        decreases s.len() - cur,
    {
        if cur >= src.len() {
            return None;
        }
        let (cls, nxt) = comment_step(src, cur);
        match cls {
            MultiLineComment::Open => {
                depth = depth + 1;
                cur = nxt;
            },
            MultiLineComment::Close => {
                depth = depth - 1;
                cur = nxt;
                if depth == 0 {
                    return Some(cur);
                }
            },
            MultiLineComment::Other => {
                cur = nxt;
            },
        }
    }
}

/// The value of the digit run `src[i .. j]`, or `None` when it exceeds the
/// numeric payload's range.
fn digits_value(src: &Vec<char>, i: usize, j: usize) -> (r: Option<u64>)
    requires
        i <= j <= src@.len(),
        forall|k: int| i <= k < j ==> grammar::is_digit(#[trigger] src@[k]),
    ensures
        match r {
            Some(v) => v as nat == grammar::digits_val(src@, i as int, j - i),
            None => grammar::digits_val(src@, i as int, j - i) > u64::MAX,
        },
{
    let ghost s = src@;
    let mut k: usize = i;
    let mut val: u64 = 0;
    while k < j
        invariant
            i <= k <= j <= s.len(),
            src@ == s,
            forall|q: int| i <= q < j ==> grammar::is_digit(#[trigger] s[q]),
            val as nat == grammar::digits_val(s, i as int, k - i),
        decreases j - k,
    {
        let c = src[k];
        let d: u64 = (c as u32 - 48) as u64;
        let scaled = match val.checked_mul(10) {
            Some(m) => m.checked_add(d),
            None => None,
        };
        match scaled {
            Some(next) => {
                proof {
                    assert(grammar::digits_val(s, i as int, k + 1 - i) == grammar::digits_val(
                        s,
                        i as int,
                        k - i,
                    ) * 10 + grammar::digit_of(s[k as int]));
                }
                val = next;
                k = k + 1;
            },
            None => {
                proof {
                    assert(grammar::digits_val(s, i as int, k + 1 - i) == grammar::digits_val(
                        s,
                        i as int,
                        k - i,
                    ) * 10 + grammar::digit_of(s[k as int]));
                    assert(grammar::digits_val(s, i as int, k + 1 - i) > u64::MAX);
                    grammar::lemma_digits_val_mono(s, i as int, k + 1 - i, j - i);
                }
                return None;
            },
        }
    }
    Some(val)
}

/// Copies `src[i .. j]` into a fresh vector.
fn copy_range(src: &Vec<char>, i: usize, j: usize) -> (r: Vec<char>)
    requires
        i <= j <= src@.len(),
    ensures
        r@ == src@.subrange(i as int, j as int),
{
    let ghost s = src@;
    let mut out: Vec<char> = Vec::new();
    let mut k: usize = i;
    while k < j
        invariant
            i <= k <= j <= s.len(),
            src@ == s,
            out@ == s.subrange(i as int, k as int),
        decreases j - k,
    {
        out.push(src[k]);
        k = k + 1;
        proof {
            assert(out@ =~= s.subrange(i as int, k as int));
        }
    }
    out
}

/// One step of the primary scan at position `i`: the token or error
/// emitted, if any, and the position the cursor advances to.
#[verifier::rlimit(50)]
fn scan_step(src: &Vec<char>, i: usize) -> (r: (Option<Token>, usize))
    requires
        i < src@.len(),
    ensures
        r.0.deep_view() == grammar::step(src@, i as int).0,
        r.1 as int == grammar::step(src@, i as int).1,
        i < r.1 <= src@.len(),
{
    proof {
        grammar::lemma_step_in_range(src@, i as int);
    }
    let ghost s = src@;
    let n = src.len();
    let c = src[i];
    if ident_start_at(c) {
        let j = ident_end(src, i + 1);
        let ghost w = s.subrange(i as int, j as int);
        proof {
            reveal_strlit("let");
            reveal_strlit("dup");
        }
        let is_let = j - i == 3 && src[i] == 'l' && src[i + 1] == 'e' && src[i + 2] == 't';
        let is_dup = j - i == 3 && src[i] == 'd' && src[i + 1] == 'u' && src[i + 2] == 'p';
        proof {
            if is_let {
                assert(w =~= "let"@);
            } else if w == "let"@ {
                assert(w.len() == 3);
                assert(s[i as int] == w[0] && s[i + 1] == w[1] && s[i + 2] == w[2]);
                assert(false);
            }
            if is_dup {
                assert(w =~= "dup"@);
            } else if w == "dup"@ {
                assert(w.len() == 3);
                assert(s[i as int] == w[0] && s[i + 1] == w[1] && s[i + 2] == w[2]);
                assert(false);
            }
        }
        if is_let {
            (Some(Token::Let), j)
        } else if is_dup {
            (Some(Token::Dup), j)
        } else {
            let word = copy_range(src, i, j);
            let name = string_of_chars(&word);
            (Some(Token::Name(name)), j)
        }
    } else if c == '@' || c == '\u{03bb}' {
        (Some(Token::Lambda), i + 1)
    } else if digit_at(c) {
        let j = digit_end(src, i);
        match digits_value(src, i, j) {
            Some(v) => (Some(Token::Number(v)), j),
            None => (Some(Token::Error(LexingError::InvalidCharacter)), j),
        }
    } else if c == '/' && i + 1 < n && src[i + 1] == '/' {
        let j = line_end(src, i + 2);
        (None, j)
    } else if c == '/' && i + 1 < n && src[i + 1] == '*' {
        match comment_close(src, i + 2) {
            Some(j) => (None, j),
            None => (Some(Token::Error(LexingError::UnclosedComment)), src.len()),
        }
    } else if c == '=' {
        if i + 1 < n && src[i + 1] == '=' {
            (Some(Token::EqualsEquals), i + 2)
        } else {
            (Some(Token::Equals), i + 1)
        }
    } else if c == '!' && i + 1 < n && src[i + 1] == '=' {
        (Some(Token::NotEquals), i + 2)
    } else if c == '<' {
        if i + 1 < n && src[i + 1] == '=' {
            (Some(Token::Lte), i + 2)
        } else if i + 1 < n && src[i + 1] == '<' {
            (Some(Token::Shl), i + 2)
        } else {
            (Some(Token::Ltn), i + 1)
        }
    } else if c == '>' {
        if i + 1 < n && src[i + 1] == '=' {
            (Some(Token::Gte), i + 2)
        } else if i + 1 < n && src[i + 1] == '>' {
            (Some(Token::Shr), i + 2)
        } else {
            (Some(Token::Gtn), i + 1)
        }
    } else if c == '+' {
        (Some(Token::Add), i + 1)
    } else if c == '-' {
        (Some(Token::Sub), i + 1)
    } else if c == '*' {
        (Some(Token::Mul), i + 1)
    } else if c == '/' {
        (Some(Token::Div), i + 1)
    } else if c == '%' {
        (Some(Token::Mod), i + 1)
    } else if c == '&' {
        (Some(Token::And), i + 1)
    } else if c == '|' {
        (Some(Token::Or), i + 1)
    } else if c == '^' {
        (Some(Token::Xor), i + 1)
    } else if c == ';' {
        (Some(Token::Semicolon), i + 1)
    } else if c == '(' {
        (Some(Token::LParen), i + 1)
    } else if c == ')' {
        (Some(Token::RParen), i + 1)
    } else if c == '\n' {
        (Some(Token::NewLine), i + 1)
    } else {
        let b = hspace_at(c);
        if b {
            let j = hspace_end(src, i);
            (None, j)
        } else {
            (Some(Token::Error(LexingError::InvalidCharacter)), i + 1)
        }
    }
}

/// A forward-only cursor over one source text.
pub struct Scanner {
    src: Vec<char>,
    pos: usize,
}

impl Scanner {
    /// The source text being scanned.
    pub closed spec fn text(&self) -> Seq<char> {
        self.src@
    }

    /// The cursor: every character before it is already accounted for.
    pub closed spec fn cursor(&self) -> int {
        self.pos as int
    }

    /// The cursor never leaves the input.
    pub closed spec fn well_formed(&self) -> bool {
        self.pos <= self.src.len()
    }

    /// A fresh scanner over the given characters, cursor at the start.
    pub fn new(src: Vec<char>) -> (r: Scanner)
        ensures
            r.well_formed(),
            r.text() == src@,
            r.cursor() == 0,
    {
        Scanner { src, pos: 0 }
    }

    /// A fresh scanner over the given text, cursor at the start.
    pub fn from_text(src: &str) -> (r: Scanner)
        ensures
            r.well_formed(),
            r.text() == src@,
            r.cursor() == 0,
    {
        let n = src.unicode_len();
        let mut v: Vec<char> = Vec::new();
        let mut k: usize = 0;
        while k < n
            invariant
                k <= n,
                n == src@.len(),
                v@ == src@.subrange(0, k as int),
            decreases n - k,
        {
            v.push(src.get_char(k));
            k = k + 1;
            proof {
                assert(v@ =~= src@.subrange(0, k as int));
            }
        }
        proof {
            assert(v@ =~= src@);
        }
        Scanner::new(v)
    }

    /// The cursor's current character offset.
    pub fn pos(&self) -> (r: usize)
        ensures
            r == self.cursor(),
    {
        self.pos
    }

    /// Pulls the next token or inline error, with the half-open span
    /// `[a, b)` of the lexeme that produced it; `None` signals the end of
    /// the input.  Skipped whitespace and comments lie between the old
    /// cursor and `a` and contribute nothing to the token sequence; the
    /// emitted value is exactly what one scan step at `a` yields.
    pub fn next_spanned(&mut self) -> (r: Option<(Token, usize, usize)>)
        requires
            old(self).well_formed(),
        ensures
            final(self).well_formed(),
            final(self).text() == old(self).text(),
            old(self).cursor() <= final(self).cursor() <= old(self).text().len(),
            match r {
                Some(tab) => {
                    let (t, a, b) = tab;
                    &&& old(self).cursor() <= a < old(self).text().len()
                    &&& b as int == final(self).cursor()
                    &&& a < b
                    &&& grammar::scan_from(old(self).text(), old(self).cursor())
                        == grammar::scan_from(old(self).text(), a as int)
                    &&& grammar::step(old(self).text(), a as int) == (
                        Some(t@),
                        b as int,
                    )
                },
                None => {
                    &&& final(self).cursor() == old(self).text().len()
                    &&& grammar::scan_from(old(self).text(), old(self).cursor())
                        == Seq::<SpecToken>::empty()
                },
            },
    {
        let ghost s = self.src@;
        let ghost start = self.pos as int;
        while self.pos < self.src.len()
            invariant
                self.src@ == s,
                s == old(self).text(),
                start == old(self).cursor(),
                0 <= start <= self.pos <= s.len(),
                grammar::scan_from(s, start) == grammar::scan_from(s, self.pos as int),
            decreases s.len() - self.pos,
        {
            let a = self.pos;
            let (emit, j) = scan_step(&self.src, a);
            match emit {
                Some(t) => {
                    self.pos = j;
                    return Some((t, a, j));
                },
                None => {
                    proof {
                        assert(grammar::scan_from(s, a as int) == grammar::scan_from(s, j as int));
                    }
                    self.pos = j;
                },
            }
        }
        None
    }

    /// Pulls the next token or inline error; `None` signals the end of the
    /// input.  The emitted value is the head of the remaining token
    /// sequence, and the cursor only ever moves forward.
    pub fn next(&mut self) -> (r: Option<Token>)
        requires
            old(self).well_formed(),
        ensures
            final(self).well_formed(),
            final(self).text() == old(self).text(),
            old(self).cursor() <= final(self).cursor() <= old(self).text().len(),
            match r {
                Some(t) => {
                    &&& grammar::scan_from(old(self).text(), old(self).cursor()) == seq![t@]
                        + grammar::scan_from(old(self).text(), final(self).cursor())
                    &&& old(self).cursor() < final(self).cursor()
                },
                None => {
                    &&& final(self).cursor() == old(self).text().len()
                    &&& grammar::scan_from(old(self).text(), old(self).cursor())
                        == Seq::<SpecToken>::empty()
                },
            },
    {
        let ghost s = self.src@;
        let ghost start = self.pos as int;
        match self.next_spanned() {
            Some((t, a, b)) => {
                proof {
                    assert(grammar::scan_from(s, a as int) == seq![t@] + grammar::scan_from(
                        s,
                        b as int,
                    ));
                }
                Some(t)
            },
            None => None,
        }
    }
}

/// Lexes the whole input: the token stream, errors inline, in source
/// order.
pub fn tokenize(src: &str) -> (r: Vec<Token>)
    ensures
        r.deep_view() == grammar::scan(src@),
{
    let mut sc = Scanner::from_text(src);
    let mut out: Vec<Token> = Vec::new();
    loop
        invariant
            sc.well_formed(),
            sc.text() == src@,
            grammar::scan(src@) == out.deep_view() + grammar::scan_from(src@, sc.cursor()),
        decreases src@.len() - sc.cursor(),
    {
        let ghost before = out.deep_view();
        match sc.next() {
            Some(t) => {
                out.push(t);
                proof {
                    assert(out.deep_view() =~= before + seq![t@]);
                    assert(grammar::scan(src@) =~= out.deep_view() + grammar::scan_from(
                        src@,
                        sc.cursor(),
                    ));
                }
            },
            None => {
                proof {
                    assert(grammar::scan(src@) =~= out.deep_view());
                }
                return out;
            },
        }
    }
}

} // verus!
