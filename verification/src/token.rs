//! The token vocabulary: the lexical categories the scanner can emit, the
//! error taxonomy, and the mathematical model (`SpecToken`) that contracts
//! speak of.

use vstd::prelude::*;

verus! {

/// The ways a single scan step can fail.  `InvalidCharacter` is the
/// default / fallback kind, raised when no pattern matches at the cursor
/// (and also when a digit run does not fit the numeric payload);
/// `UnclosedComment` is raised when a `/*` opener is never matched by its
/// closing `*/`.
#[derive(Debug, Clone, Copy, PartialEq, Eq, Structural)]
pub enum LexingError {
    UnclosedComment,
    InvalidCharacter,
}

impl Default for LexingError {
    fn default() -> (r: Self)
        ensures
            r == LexingError::InvalidCharacter,
    {
        LexingError::InvalidCharacter
    }
}

/// One lexical unit of the language.  `Name` and `Number` carry payloads;
/// every other variant is data-less.  `Error` embeds a lexing failure inline
/// in the token stream.  The `SingleLineComment`, `MultiLineComment` and
/// `Whitespace` variants name the discarded categories: the scanner never
/// emits them, but they take part in the canonical rendering.
#[derive(Debug, Clone, PartialEq)]
pub enum Token {
    Name(String),
    Lambda,
    Let,
    Dup,
    Equals,
    Number(u64),
    Add,
    Sub,
    Mul,
    Div,
    Mod,
    And,
    Or,
    Xor,
    Shl,
    Shr,
    Ltn,
    Lte,
    Gtn,
    Gte,
    EqualsEquals,
    NotEquals,
    Semicolon,
    LParen,
    RParen,
    NewLine,
    SingleLineComment,
    MultiLineComment,
    Whitespace,
    Error(LexingError),
}

/// The mathematical model of a token: identical to `Token`, with the
/// identifier text abstracted to a `Seq<char>` and the numeric payload to a
/// `nat`.
pub enum SpecToken {
    Name(Seq<char>),
    Lambda,
    Let,
    Dup,
    Equals,
    Number(nat),
    Add,
    Sub,
    Mul,
    Div,
    Mod,
    And,
    Or,
    Xor,
    Shl,
    Shr,
    Ltn,
    Lte,
    Gtn,
    Gte,
    EqualsEquals,
    NotEquals,
    Semicolon,
    LParen,
    RParen,
    NewLine,
    SingleLineComment,
    MultiLineComment,
    Whitespace,
    Error(LexingError),
}

impl View for Token {
    type V = SpecToken;

    open spec fn view(&self) -> SpecToken {
        match self {
            Token::Name(s) => SpecToken::Name(s@),
            Token::Lambda => SpecToken::Lambda,
            Token::Let => SpecToken::Let,
            Token::Dup => SpecToken::Dup,
            Token::Equals => SpecToken::Equals,
            Token::Number(n) => SpecToken::Number(*n as nat),
            Token::Add => SpecToken::Add,
            Token::Sub => SpecToken::Sub,
            Token::Mul => SpecToken::Mul,
            Token::Div => SpecToken::Div,
            Token::Mod => SpecToken::Mod,
            Token::And => SpecToken::And,
            Token::Or => SpecToken::Or,
            Token::Xor => SpecToken::Xor,
            Token::Shl => SpecToken::Shl,
            Token::Shr => SpecToken::Shr,
            Token::Ltn => SpecToken::Ltn,
            Token::Lte => SpecToken::Lte,
            Token::Gtn => SpecToken::Gtn,
            Token::Gte => SpecToken::Gte,
            Token::EqualsEquals => SpecToken::EqualsEquals,
            Token::NotEquals => SpecToken::NotEquals,
            Token::Semicolon => SpecToken::Semicolon,
            Token::LParen => SpecToken::LParen,
            Token::RParen => SpecToken::RParen,
            Token::NewLine => SpecToken::NewLine,
            Token::SingleLineComment => SpecToken::SingleLineComment,
            Token::MultiLineComment => SpecToken::MultiLineComment,
            Token::Whitespace => SpecToken::Whitespace,
            Token::Error(e) => SpecToken::Error(*e),
        }
    }
}

impl DeepView for Token {
    type V = SpecToken;

    open spec fn deep_view(&self) -> SpecToken {
        self.view()
    }
}

/// Relies on `String::push`: appends exactly one character to the string.
#[verifier::external_body]
fn push_char(s: &mut String, c: char)
    ensures
        final(s)@ == old(s)@.push(c),
{
    s.push(c);
}

/// Builds the string holding exactly the given characters, in order.
pub(crate) fn string_of_chars(v: &Vec<char>) -> (r: String)
    ensures
        r@ == v@,
{
    let mut s = String::new();
    let mut k: usize = 0;
    while k < v.len()
        invariant
            k <= v@.len(),
            s@ == v@.subrange(0, k as int),
        decreases v@.len() - k,
    {
        push_char(&mut s, v[k]);
        k = k + 1;
        proof {
            assert(s@ =~= v@.subrange(0, k as int));
        }
    }
    proof {
        assert(s@ =~= v@);
    }
    s
}

/// The digit character for a value below ten.
pub open spec fn digit_char(d: nat) -> char {
    if d == 0 {
        '0'
    } else if d == 1 {
        '1'
    } else if d == 2 {
        '2'
    } else if d == 3 {
        '3'
    } else if d == 4 {
        '4'
    } else if d == 5 {
        '5'
    } else if d == 6 {
        '6'
    } else if d == 7 {
        '7'
    } else if d == 8 {
        '8'
    } else {
        '9'
    }
}

/// The decimal rendering of a number: most significant digit first, no
/// leading zero except for zero itself.
pub open spec fn spec_decimal(n: nat) -> Seq<char>
    decreases n,
{
    if n < 10 {
        seq![digit_char(n)]
    } else {
        spec_decimal(n / 10).push(digit_char(n % 10))
    }
}

fn digit_char_exec(d: u64) -> (c: char)
    requires
        d < 10,
    ensures
        c == digit_char(d as nat),
{
    match d {
        0 => '0',
        1 => '1',
        2 => '2',
        3 => '3',
        4 => '4',
        5 => '5',
        6 => '6',
        7 => '7',
        8 => '8',
        _ => '9',
    }
}

/// The decimal rendering of a numeric payload.
fn decimal_string(n: u64) -> (r: String)
    ensures
        r@ == spec_decimal(n as nat),
{
    let mut digits: Vec<char> = Vec::new();
    let mut m: u64 = n;
    while m >= 10
        invariant
            spec_decimal(n as nat) == spec_decimal(m as nat) + digits@,
        decreases m,
    {
        let c = digit_char_exec(m % 10);
        digits.insert(0, c);
        proof {
            assert(spec_decimal(m as nat) == spec_decimal((m as nat) / 10).push(
                digit_char((m as nat) % 10),
            ));
            assert((m as nat) / 10 == (m / 10) as nat);
            assert((m as nat) % 10 == (m % 10) as nat);
            assert(spec_decimal(n as nat) =~= spec_decimal((m / 10) as nat) + digits@);
        }
        m = m / 10;
    }
    let c = digit_char_exec(m);
    digits.insert(0, c);
    proof {
        assert(spec_decimal(m as nat) =~= seq![digit_char(m as nat)]);
        assert(spec_decimal(n as nat) =~= digits@);
    }
    string_of_chars(&digits)
}

/// The canonical rendering of a token: the literal text of fixed tokens,
/// the payload of `Name` and `Number`, and a bracketed label for the
/// non-content categories.
pub open spec fn spec_render(t: SpecToken) -> Seq<char> {
    match t {
        SpecToken::Name(s) => s,
        SpecToken::Lambda => "\u{03bb}"@,
        SpecToken::Let => "let"@,
        SpecToken::Dup => "dup"@,
        SpecToken::Equals => "="@,
        SpecToken::Number(n) => spec_decimal(n),
        SpecToken::Add => "+"@,
        SpecToken::Sub => "-"@,
        SpecToken::Mul => "*"@,
        SpecToken::Div => "/"@,
        SpecToken::Mod => "%"@,
        SpecToken::And => "&"@,
        SpecToken::Or => "|"@,
        SpecToken::Xor => "^"@,
        SpecToken::Shl => "<<"@,
        SpecToken::Shr => ">>"@,
        SpecToken::Ltn => "<"@,
        SpecToken::Lte => "<="@,
        SpecToken::Gtn => ">"@,
        SpecToken::Gte => ">="@,
        SpecToken::EqualsEquals => "=="@,
        SpecToken::NotEquals => "!="@,
        SpecToken::Semicolon => ";"@,
        SpecToken::LParen => "("@,
        SpecToken::RParen => ")"@,
        SpecToken::NewLine => "<NewLine>"@,
        SpecToken::SingleLineComment => "<SingleLineComment>"@,
        SpecToken::MultiLineComment => "<MultiLineComment>"@,
        SpecToken::Whitespace => "<Whitespace>"@,
        SpecToken::Error(LexingError::InvalidCharacter) => "<InvalidCharacter>"@,
        SpecToken::Error(LexingError::UnclosedComment) => "<UnclosedComment>"@,
    }
}

impl Token {
    /// The canonical, deterministic text of this token, for diagnostics
    /// and logging; it is never re-lexed.
    pub fn render(&self) -> (r: String)
        ensures
            r@ == spec_render(self@),
    {
        match self {
            Token::Name(s) => s.clone(),
            Token::Lambda => "\u{03bb}".to_owned(),
            Token::Let => "let".to_owned(),
            Token::Dup => "dup".to_owned(),
            Token::Equals => "=".to_owned(),
            Token::Number(n) => decimal_string(*n),
            Token::Add => "+".to_owned(),
            Token::Sub => "-".to_owned(),
            Token::Mul => "*".to_owned(),
            Token::Div => "/".to_owned(),
            Token::Mod => "%".to_owned(),
            Token::And => "&".to_owned(),
            Token::Or => "|".to_owned(),
            Token::Xor => "^".to_owned(),
            Token::Shl => "<<".to_owned(),
            Token::Shr => ">>".to_owned(),
            Token::Ltn => "<".to_owned(),
            Token::Lte => "<=".to_owned(),
            Token::Gtn => ">".to_owned(),
            Token::Gte => ">=".to_owned(),
            Token::EqualsEquals => "==".to_owned(),
            Token::NotEquals => "!=".to_owned(),
            Token::Semicolon => ";".to_owned(),
            Token::LParen => "(".to_owned(),
            Token::RParen => ")".to_owned(),
            Token::NewLine => "<NewLine>".to_owned(),
            Token::SingleLineComment => "<SingleLineComment>".to_owned(),
            Token::MultiLineComment => "<MultiLineComment>".to_owned(),
            Token::Whitespace => "<Whitespace>".to_owned(),
            Token::Error(LexingError::InvalidCharacter) => "<InvalidCharacter>".to_owned(),
            Token::Error(LexingError::UnclosedComment) => "<UnclosedComment>".to_owned(),
        }
    }
}

/// Classification of one step of the nested-comment sub-scan: a `/*`
/// opener, a `*/` closer, or any other single character (newlines
/// included, so comments may span lines).
#[derive(Debug, Clone, Copy, PartialEq, Eq, Structural)]
pub enum MultiLineComment {
    Open,
    Close,
    Other,
}

} // verus!
