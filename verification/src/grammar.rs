//! The grammar of a statement, and the recognizer that turns a line of
//! text into a tree of tokens.
//!
//! The grammar is a parsing expression grammar: every rule is a function
//! from a place in the text to the token that starts there and its length,
//! alternatives are tried in order and the first that matches counts.
//! Blanks and tabs may stand between the parts of a statement, but not
//! inside a number or a symbol. The words `solve`, `for` and `plot` end
//! where they are spelled out: no letter, digit or underscore follows.
//!
//! ```text
//! statement  := assignment | solve_for | function | plot | expr
//! assignment := symbol ":=" expr
//! solve_for  := "solve" expr "=" expr "for" symbol
//! function   := symbol "(" (symbol ("," symbol)*)? ")" ":=" expr
//! plot       := "plot" symbol
//! expr       := term (operator term)*
//! term       := number | fun_call | symbol | "(" expr ")"
//! fun_call   := symbol "(" (expr ("," expr)*)? ")"
//! operator   := "+" | "-" | "*" | "/" | "%" | "^"
//! number     := integer ("." digit*)? (("e" | "E") integer)?
//! integer    := ("+" | "-")? digit+
//! symbol     := letter (letter | digit | "_")*
//! ```

use vstd::prelude::*;
use vstd::string::StringSliceAdditionalSpecFns;

verus! {

/// The rules of the grammar that leave a token.
#[derive(Debug, PartialEq, Eq, Structural, Clone, Copy)]
pub enum Rule {
    Num,
    Symbol,
    Add,
    Subtract,
    Multiply,
    Divide,
    Rem,
    Power,
    FunCall,
    Expr,
    Assignment,
    SolveFor,
    Function,
    Plot,
    EndOfInput,
}

/// A token: the rule that matched, the text it matched, and the tokens of
/// the rules that matched inside it.
#[derive(Debug, PartialEq)]
pub struct Pair {
    pub rule: Rule,
    pub text: String,
    pub inner: Vec<Pair>,
}

/// The model of a [`Pair`].
pub struct Token {
    pub rule: Rule,
    pub text: Seq<char>,
    pub inner: Seq<Token>,
}

/// The model of a token.
pub open spec fn token_of(p: Pair) -> Token
    decreases p,
{
    Token {
        rule: p.rule,
        text: p.text@,
        inner: Seq::new(
            p.inner@.len(),
            |i: int|
                if 0 <= i < p.inner@.len() {
                    token_of(p.inner@[i])
                } else {
                    Token { rule: Rule::EndOfInput, text: Seq::empty(), inner: Seq::empty() }
                },
        ),
    }
}

impl View for Pair {
    type V = Token;

    open spec fn view(&self) -> Token {
        token_of(*self)
    }
}

/// The models of a sequence of tokens.
pub open spec fn tokens_of(pairs: Seq<Pair>) -> Seq<Token> {
    Seq::new(pairs.len(), |i: int| pairs[i]@)
}

/// The view of a token is the token of the views.
pub proof fn view_of_pair(p: Pair)
    ensures
        p@ == (Token { rule: p.rule, text: p.text@, inner: tokens_of(p.inner@) }),
{
    assert(token_of(p).inner =~= tokens_of(p.inner@));
}

/// The codes of the characters that the grammar names.
pub const TAB: u8 = 9;

pub const SPACE: u8 = 32;

pub const PERCENT: u8 = 37;

pub const OPEN: u8 = 40;

pub const CLOSE: u8 = 41;

pub const STAR: u8 = 42;

pub const PLUS: u8 = 43;

pub const COMMA: u8 = 44;

pub const MINUS: u8 = 45;

pub const DOT: u8 = 46;

pub const SLASH: u8 = 47;

pub const COLON: u8 = 58;

pub const EQUALS: u8 = 61;

pub const CARET: u8 = 94;

pub const UNDERSCORE: u8 = 95;

pub const UPPER_E: u8 = 69;

pub const LOWER_E: u8 = 101;

pub const LOWER_F: u8 = 102;

pub const LOWER_L: u8 = 108;

pub const LOWER_O: u8 = 111;

pub const LOWER_P: u8 = 112;

pub const LOWER_R: u8 = 114;

pub const LOWER_S: u8 = 115;

pub const LOWER_T: u8 = 116;

pub const LOWER_V: u8 = 118;

/// The classes of characters that come in runs.
#[derive(Debug, PartialEq, Eq, Structural, Clone, Copy)]
pub enum Class {
    /// A blank or a tab.
    Blank,
    /// A decimal digit.
    Digit,
    /// A letter, a digit or an underscore.
    Word,
}

/// `b` is the code of a decimal digit.
pub open spec fn is_digit(b: u8) -> bool {
    48 <= b <= 57
}

/// `b` is the code of a letter of the Latin alphabet.
pub open spec fn is_letter(b: u8) -> bool {
    (65 <= b <= 90) || (97 <= b <= 122)
}

/// `b` is the code of a character of `class`.
pub open spec fn belongs(b: u8, class: Class) -> bool {
    match class {
        Class::Blank => b == SPACE || b == TAB,
        Class::Digit => is_digit(b),
        Class::Word => is_letter(b) || is_digit(b) || b == UNDERSCORE,
    }
}

/// How much of `s` is left at `i`.
pub open spec fn left(s: Seq<char>, i: int) -> nat {
    if i <= s.len() {
        (s.len() - i) as nat
    } else {
        0
    }
}

/// The character at `i` has the code `code`.
pub open spec fn code_at(s: Seq<char>, i: int, code: u8) -> bool {
    0 <= i < s.len() && s[i] as u8 == code
}

/// How many characters of `class` stand in a row at `i`.
pub open spec fn run(s: Seq<char>, i: int, class: Class) -> nat
    decreases left(s, i),
{
    if 0 <= i < s.len() && belongs(s[i] as u8, class) {
        1 + run(s, i + 1, class)
    } else {
        0
    }
}

/// The place of the first character at or after `i` that is no blank.
pub open spec fn past_blanks(s: Seq<char>, i: int) -> int {
    i + run(s, i, Class::Blank)
}

/// The length of the integer at `i`: an optional sign and digits.
pub open spec fn integer(s: Seq<char>, i: int) -> Option<nat> {
    let sign: nat = if code_at(s, i, PLUS) || code_at(s, i, MINUS) {
        1
    } else {
        0
    };
    let digits = run(s, i + sign, Class::Digit);
    if digits > 0 {
        Some(sign + digits)
    } else {
        None
    }
}

/// The length of the number at `i`: an integer, then optionally a point
/// and digits, then optionally `e` or `E` and an integer.
pub open spec fn number(s: Seq<char>, i: int) -> Option<nat> {
    match integer(s, i) {
        None => None,
        Some(whole) => {
            let fraction: nat = if code_at(s, i + whole, DOT) {
                1 + run(s, i + whole + 1, Class::Digit)
            } else {
                0
            };
            let j = i + whole + fraction;
            let exponent: nat = if code_at(s, j, LOWER_E) || code_at(s, j, UPPER_E) {
                match integer(s, j + 1) {
                    Some(digits) => 1 + digits,
                    None => 0,
                }
            } else {
                0
            };
            Some(whole + fraction + exponent)
        },
    }
}

/// The length of the symbol at `i`: a letter, then letters, digits and
/// underscores.
pub open spec fn symbol(s: Seq<char>, i: int) -> Option<nat> {
    if 0 <= i < s.len() && is_letter(s[i] as u8) {
        Some(1 + run(s, i + 1, Class::Word))
    } else {
        None
    }
}

/// The operator at `i`.
pub open spec fn operator(s: Seq<char>, i: int) -> Option<Rule> {
    if code_at(s, i, PLUS) {
        Some(Rule::Add)
    } else if code_at(s, i, MINUS) {
        Some(Rule::Subtract)
    } else if code_at(s, i, STAR) {
        Some(Rule::Multiply)
    } else if code_at(s, i, SLASH) {
        Some(Rule::Divide)
    } else if code_at(s, i, PERCENT) {
        Some(Rule::Rem)
    } else if code_at(s, i, CARET) {
        Some(Rule::Power)
    } else {
        None
    }
}

/// The token of `rule` that spans `s` from `i` to `j` and holds `inner`.
pub open spec fn node(rule: Rule, s: Seq<char>, i: int, j: int, inner: Seq<Token>) -> Token {
    Token { rule, text: s.subrange(i, j), inner }
}

/// The token of `rule` that spans `s` from `i` to `j` and holds nothing.
pub open spec fn leaf(rule: Rule, s: Seq<char>, i: int, j: int) -> Token {
    node(rule, s, i, j, Seq::empty())
}

/// A token and the length of the text that it was made from.
pub struct Parsed {
    pub token: Token,
    pub len: nat,
}

/// Tokens and the place where the text that they were made from ends.
pub struct ParsedList {
    pub tokens: Seq<Token>,
    pub end: int,
}

/// The term at `i`: a number, a call, a symbol, or an expression in
/// brackets, which leaves the token of the expression.
pub open spec fn term(s: Seq<char>, i: int) -> Option<Parsed>
    decreases left(s, i), 2nat,
{
    match number(s, i) {
        Some(n) => Some(Parsed { token: leaf(Rule::Num, s, i, i + n), len: n }),
        None => match fun_call(s, i) {
            Some(p) => Some(p),
            None => match symbol(s, i) {
                Some(n) => Some(Parsed { token: leaf(Rule::Symbol, s, i, i + n), len: n }),
                None => if code_at(s, i, OPEN) {
                    let a = past_blanks(s, i + 1);
                    match expr(s, a) {
                        Some(p) => {
                            let c = past_blanks(s, a + p.len);
                            if code_at(s, c, CLOSE) {
                                Some(Parsed { token: p.token, len: (c + 1 - i) as nat })
                            } else {
                                None
                            }
                        },
                        None => None,
                    }
                } else {
                    None
                },
            },
        },
    }
}

/// The call at `i`: a symbol, and in brackets the arguments, separated by
/// commas. Its token holds the symbol and the arguments.
pub open spec fn fun_call(s: Seq<char>, i: int) -> Option<Parsed>
    decreases left(s, i), 1nat,
{
    match symbol(s, i) {
        None => None,
        Some(n) => {
            let k = past_blanks(s, i + n);
            if code_at(s, k, OPEN) {
                let a = past_blanks(s, k + 1);
                let name = leaf(Rule::Symbol, s, i, i + n);
                let list = match expr(s, a) {
                    Some(p) => more_arguments(s, a + p.len, seq![name, p.token]),
                    None => ParsedList { tokens: seq![name], end: a },
                };
                let c = past_blanks(s, list.end);
                if code_at(s, c, CLOSE) {
                    Some(
                        Parsed {
                            token: node(Rule::FunCall, s, i, c + 1, list.tokens),
                            len: (c + 1 - i) as nat,
                        },
                    )
                } else {
                    None
                }
            } else {
                None
            }
        },
    }
}

/// The arguments after the one that ends at `j`: `found`, and one more
/// for each comma that an expression follows.
pub open spec fn more_arguments(s: Seq<char>, j: int, found: Seq<Token>) -> ParsedList
    decreases left(s, j), 0nat,
{
    let c = past_blanks(s, j);
    if code_at(s, c, COMMA) {
        let a = past_blanks(s, c + 1);
        match expr(s, a) {
            Some(p) => more_arguments(s, a + p.len, found.push(p.token)),
            None => ParsedList { tokens: found, end: j },
        }
    } else {
        ParsedList { tokens: found, end: j }
    }
}

/// The expression at `i`: a term, then operators and terms in turn. Its
/// token holds them in the order of the text.
pub open spec fn expr(s: Seq<char>, i: int) -> Option<Parsed>
    decreases left(s, i), 3nat,
{
    match term(s, i) {
        None => None,
        Some(p) => {
            let list = more_terms(s, i + p.len, seq![p.token]);
            Some(
                Parsed {
                    token: node(Rule::Expr, s, i, list.end, list.tokens),
                    len: (list.end - i) as nat,
                },
            )
        },
    }
}

/// The operators and terms after the term that ends at `j`: `found`, and
/// two more tokens for each operator that a term follows.
pub open spec fn more_terms(s: Seq<char>, j: int, found: Seq<Token>) -> ParsedList
    decreases left(s, j), 0nat,
{
    let c = past_blanks(s, j);
    match operator(s, c) {
        Some(rule) => {
            let a = past_blanks(s, c + 1);
            match term(s, a) {
                Some(p) => more_terms(
                    s,
                    a + p.len,
                    found.push(leaf(rule, s, c, c + 1)).push(p.token),
                ),
                None => ParsedList { tokens: found, end: j },
            }
        },
        None => ParsedList { tokens: found, end: j },
    }
}

/// The text `:=` stands at `i`.
pub open spec fn becomes_at(s: Seq<char>, i: int) -> bool {
    code_at(s, i, COLON) && code_at(s, i + 1, EQUALS)
}

/// No letter, digit or underscore stands at `i`.
pub open spec fn word_ends(s: Seq<char>, i: int) -> bool {
    !(0 <= i < s.len() && belongs(s[i] as u8, Class::Word))
}

/// The word `solve` stands at `i`.
pub open spec fn solve_at(s: Seq<char>, i: int) -> bool {
    code_at(s, i, LOWER_S) && code_at(s, i + 1, LOWER_O) && code_at(s, i + 2, LOWER_L) && code_at(s, i + 3, LOWER_V) && code_at(s, i + 4, LOWER_E) && word_ends(s, i + 5)
}

/// The word `for` stands at `i`.
pub open spec fn for_at(s: Seq<char>, i: int) -> bool {
    code_at(s, i, LOWER_F) && code_at(s, i + 1, LOWER_O) && code_at(s, i + 2, LOWER_R) && word_ends(s, i + 3)
}

/// The word `plot` stands at `i`.
pub open spec fn plot_at(s: Seq<char>, i: int) -> bool {
    code_at(s, i, LOWER_P) && code_at(s, i + 1, LOWER_L) && code_at(s, i + 2, LOWER_O) && code_at(s, i + 3, LOWER_T) && word_ends(s, i + 4)
}

/// The assignment at `i`. Its token holds the symbol and the expression.
pub open spec fn assignment(s: Seq<char>, i: int) -> Option<Parsed> {
    match symbol(s, i) {
        None => None,
        Some(n) => {
            let a = past_blanks(s, i + n);
            if becomes_at(s, a) {
                let b = past_blanks(s, a + 2);
                match expr(s, b) {
                    Some(p) => Some(
                        Parsed {
                            token: node(
                                Rule::Assignment,
                                s,
                                i,
                                b + p.len,
                                seq![leaf(Rule::Symbol, s, i, i + n), p.token],
                            ),
                            len: (b + p.len - i) as nat,
                        },
                    ),
                    None => None,
                }
            } else {
                None
            }
        },
    }
}

/// The equation to solve at `i`. Its token holds the two sides and the
/// symbol.
pub open spec fn solve_for(s: Seq<char>, i: int) -> Option<Parsed> {
    if solve_at(s, i) {
        let a = past_blanks(s, i + 5);
        match expr(s, a) {
            None => None,
            Some(lhs) => {
                let c = past_blanks(s, a + lhs.len);
                if code_at(s, c, EQUALS) {
                    let d = past_blanks(s, c + 1);
                    match expr(s, d) {
                        None => None,
                        Some(rhs) => {
                            let f = past_blanks(s, d + rhs.len);
                            if for_at(s, f) {
                                let g = past_blanks(s, f + 3);
                                match symbol(s, g) {
                                    None => None,
                                    Some(n) => Some(
                                        Parsed {
                                            token: node(
                                                Rule::SolveFor,
                                                s,
                                                i,
                                                g + n,
                                                seq![
                                                    lhs.token,
                                                    rhs.token,
                                                    leaf(Rule::Symbol, s, g, g + n),
                                                ],
                                            ),
                                            len: (g + n - i) as nat,
                                        },
                                    ),
                                }
                            } else {
                                None
                            }
                        },
                    }
                } else {
                    None
                }
            },
        }
    } else {
        None
    }
}

/// The parameters after the one that ends at `j`: `found`, and one more
/// for each comma that a symbol follows.
pub open spec fn more_parameters(s: Seq<char>, j: int, found: Seq<Token>) -> ParsedList
    decreases left(s, j),
{
    let c = past_blanks(s, j);
    if code_at(s, c, COMMA) {
        let a = past_blanks(s, c + 1);
        match symbol(s, a) {
            Some(n) => more_parameters(s, a + n, found.push(leaf(Rule::Symbol, s, a, a + n))),
            None => ParsedList { tokens: found, end: j },
        }
    } else {
        ParsedList { tokens: found, end: j }
    }
}

/// The definition of a function at `i`. Its token holds the name, the
/// parameters and the expression.
pub open spec fn function(s: Seq<char>, i: int) -> Option<Parsed> {
    match symbol(s, i) {
        None => None,
        Some(n) => {
            let k = past_blanks(s, i + n);
            if code_at(s, k, OPEN) {
                let a = past_blanks(s, k + 1);
                let name = leaf(Rule::Symbol, s, i, i + n);
                let list = match symbol(s, a) {
                    Some(m) => more_parameters(
                        s,
                        a + m,
                        seq![name, leaf(Rule::Symbol, s, a, a + m)],
                    ),
                    None => ParsedList { tokens: seq![name], end: a },
                };
                let c = past_blanks(s, list.end);
                let d = past_blanks(s, c + 1);
                if code_at(s, c, CLOSE) && becomes_at(s, d) {
                    let b = past_blanks(s, d + 2);
                    match expr(s, b) {
                        Some(p) => Some(
                            Parsed {
                                token: node(
                                    Rule::Function,
                                    s,
                                    i,
                                    b + p.len,
                                    list.tokens.push(p.token),
                                ),
                                len: (b + p.len - i) as nat,
                            },
                        ),
                        None => None,
                    }
                } else {
                    None
                }
            } else {
                None
            }
        },
    }
}

/// The request for a plot at `i`. Its token holds the symbol.
pub open spec fn plot(s: Seq<char>, i: int) -> Option<Parsed> {
    if plot_at(s, i) {
        let a = past_blanks(s, i + 4);
        match symbol(s, a) {
            Some(n) => Some(
                Parsed {
                    token: node(Rule::Plot, s, i, a + n, seq![leaf(Rule::Symbol, s, a, a + n)]),
                    len: (a + n - i) as nat,
                },
            ),
            None => None,
        }
    } else {
        None
    }
}

/// The first of the five kinds of statement that matches at `i`.
pub open spec fn any_statement(s: Seq<char>, i: int) -> Option<Parsed> {
    match assignment(s, i) {
        Some(p) => Some(p),
        None => match solve_for(s, i) {
            Some(p) => Some(p),
            None => match function(s, i) {
                Some(p) => Some(p),
                None => match plot(s, i) {
                    Some(p) => Some(p),
                    None => expr(s, i),
                },
            },
        },
    }
}

/// The token that marks the end of the text.
pub open spec fn end_of_input() -> Token {
    Token { rule: Rule::EndOfInput, text: Seq::empty(), inner: Seq::empty() }
}

/// Every character of `s` is an ASCII character.
pub open spec fn plain(s: Seq<char>) -> bool {
    forall|i: int| 0 <= i < s.len() ==> '\0' <= #[trigger] s[i] <= '\u{7f}'
}

/// The tokens of the line `s`: those of the one statement that it holds
/// between blanks, and the mark of the end. A line that holds a character
/// outside ASCII, no statement, or more than a statement has none.
pub open spec fn statement(s: Seq<char>) -> Option<Seq<Token>> {
    if !plain(s) {
        None
    } else {
        let i = past_blanks(s, 0);
        match any_statement(s, i) {
            None => None,
            Some(p) => if past_blanks(s, i + p.len) == s.len() {
                Some(seq![p.token, end_of_input()])
            } else {
                None
            },
        }
    }
}

fn is_letter_code(b: u8) -> (r: bool)
    ensures
        r == is_letter(b),
{
    (65 <= b && b <= 90) || (97 <= b && b <= 122)
}

fn is_of_class(b: u8, class: Class) -> (r: bool)
    ensures
        r == belongs(b, class),
{
    match class {
        Class::Blank => b == SPACE || b == TAB,
        Class::Digit => 48 <= b && b <= 57,
        Class::Word => is_letter_code(b) || (48 <= b && b <= 57) || b == UNDERSCORE,
    }
}

/// The recognizer of the grammar.
#[derive(Debug, PartialEq, Eq, Structural, Clone, Copy)]
pub struct EquationParser;

/// A line of text under recognition.
struct Line<'a> {
    text: &'a str,
    len: usize,
}

impl<'a> Line<'a> {
    spec fn wf(&self) -> bool {
        self.text.is_ascii() && self.len == self.text@.len()
    }

    spec fn chars(&self) -> Seq<char> {
        self.text@
    }

    fn is(&self, i: usize, code: u8) -> (r: bool)
        requires
            self.wf(),
        ensures
            r == code_at(self.chars(), i as int, code),
    {
        i < self.len && self.text.get_ascii(i) == code
    }

    fn after(&self, i: usize, class: Class) -> (j: usize)
        requires
            self.wf(),
            i <= self.len,
        ensures
            j == i + run(self.chars(), i as int, class),
            j <= self.len,
    {
        let mut j: usize = i;
        loop
            invariant
                self.wf(),
                i <= j <= self.len,
                i + run(self.chars(), i as int, class) == j + run(self.chars(), j as int, class),
            decreases self.len - j,
        {
            if j >= self.len {
                return j;
            }
            if !is_of_class(self.text.get_ascii(j), class) {
                return j;
            }
            j += 1;
        }
    }

    fn past_blanks(&self, i: usize) -> (j: usize)
        requires
            self.wf(),
            i <= self.len,
        ensures
            j == past_blanks(self.chars(), i as int),
            j <= self.len,
    {
        self.after(i, Class::Blank)
    }

    fn integer(&self, i: usize) -> (r: Option<usize>)
        requires
            self.wf(),
            i <= self.len,
        ensures
            match integer(self.chars(), i as int) {
                Some(n) => r == Some((i + n) as usize) && i + n <= self.len,
                None => r is None,
            },
    {
        let start: usize = if self.is(i, PLUS) || self.is(i, MINUS) {
            i + 1
        } else {
            i
        };
        let end = self.after(start, Class::Digit);
        if end > start {
            Some(end)
        } else {
            None
        }
    }

    fn number(&self, i: usize) -> (r: Option<usize>)
        requires
            self.wf(),
            i <= self.len,
        ensures
            match number(self.chars(), i as int) {
                Some(n) => r == Some((i + n) as usize) && i + n <= self.len,
                None => r is None,
            },
    {
        let whole = match self.integer(i) {
            Some(j) => j,
            None => {
                return None;
            },
        };
        let fraction: usize = if self.is(whole, DOT) {
            self.after(whole + 1, Class::Digit)
        } else {
            whole
        };
        if self.is(fraction, LOWER_E) || self.is(fraction, UPPER_E) {
            match self.integer(fraction + 1) {
                Some(j) => Some(j),
                None => Some(fraction),
            }
        } else {
            Some(fraction)
        }
    }

    fn symbol(&self, i: usize) -> (r: Option<usize>)
        requires
            self.wf(),
            i <= self.len,
        ensures
            match symbol(self.chars(), i as int) {
                Some(n) => r == Some((i + n) as usize) && i + n <= self.len,
                None => r is None,
            },
    {
        if i >= self.len {
            return None;
        }
        if is_letter_code(self.text.get_ascii(i)) {
            Some(self.after(i + 1, Class::Word))
        } else {
            None
        }
    }

    fn operator(&self, i: usize) -> (r: Option<Rule>)
        requires
            self.wf(),
        ensures
            r == operator(self.chars(), i as int),
    {
        if self.is(i, PLUS) {
            Some(Rule::Add)
        } else if self.is(i, MINUS) {
            Some(Rule::Subtract)
        } else if self.is(i, STAR) {
            Some(Rule::Multiply)
        } else if self.is(i, SLASH) {
            Some(Rule::Divide)
        } else if self.is(i, PERCENT) {
            Some(Rule::Rem)
        } else if self.is(i, CARET) {
            Some(Rule::Power)
        } else {
            None
        }
    }

    fn word_ends(&self, i: usize) -> (r: bool)
        requires
            self.wf(),
        ensures
            r == word_ends(self.chars(), i as int),
    {
        if i >= self.len {
            return true;
        }
        !is_of_class(self.text.get_ascii(i), Class::Word)
    }

    fn becomes_at(&self, i: usize) -> (r: bool)
        requires
            self.wf(),
            i <= self.len,
        ensures
            r == becomes_at(self.chars(), i as int),
    {
        self.is(i, COLON) && self.is(i + 1, EQUALS)
    }

    fn node(&self, rule: Rule, i: usize, j: usize, inner: Vec<Pair>) -> (r: Pair)
        requires
            self.wf(),
            i <= j <= self.len,
        ensures
            r@ == node(rule, self.chars(), i as int, j as int, tokens_of(inner@)),
    {
        let r = Pair { rule, text: self.text.substring_ascii(i, j).to_owned(), inner };
        proof {
            view_of_pair(r);
        }
        r
    }

    fn leaf(&self, rule: Rule, i: usize, j: usize) -> (r: Pair)
        requires
            self.wf(),
            i <= j <= self.len,
        ensures
            r@ == leaf(rule, self.chars(), i as int, j as int),
    {
        let inner: Vec<Pair> = Vec::new();
        assert(tokens_of(inner@) =~= Seq::<Token>::empty());
        self.node(rule, i, j, inner)
    }

    fn term(&self, i: usize) -> (r: Option<(Pair, usize)>)
        requires
            self.wf(),
            i <= self.len,
        ensures
            match term(self.chars(), i as int) {
                Some(p) => r matches Some((pair, end)) && pair@ == p.token && end == i + p.len
                    && end <= self.len,
                None => r is None,
            },
        decreases self.len - i, 2nat,
    {
        if let Some(j) = self.number(i) {
            return Some((self.leaf(Rule::Num, i, j), j));
        }
        if let Some(found) = self.fun_call(i) {
            return Some(found);
        }
        if let Some(j) = self.symbol(i) {
            return Some((self.leaf(Rule::Symbol, i, j), j));
        }
        if !self.is(i, OPEN) {
            return None;
        }
        let a = self.past_blanks(i + 1);
        let (pair, j) = match self.expr(a) {
            Some(found) => found,
            None => {
                return None;
            },
        };
        let c = self.past_blanks(j);
        if self.is(c, CLOSE) {
            Some((pair, c + 1))
        } else {
            None
        }
    }

    fn fun_call(&self, i: usize) -> (r: Option<(Pair, usize)>)
        requires
            self.wf(),
            i <= self.len,
        ensures
            match fun_call(self.chars(), i as int) {
                Some(p) => r matches Some((pair, end)) && pair@ == p.token && end == i + p.len
                    && end <= self.len,
                None => r is None,
            },
        decreases self.len - i, 1nat,
    {
        let ghost s = self.chars();
        let n = match self.symbol(i) {
            Some(j) => j,
            None => {
                return None;
            },
        };
        let k = self.past_blanks(n);
        if !self.is(k, OPEN) {
            return None;
        }
        let a = self.past_blanks(k + 1);
        let mut inner: Vec<Pair> = Vec::new();
        inner.push(self.leaf(Rule::Symbol, i, n));
        let mut end: usize = a;
        if let Some((first, j)) = self.expr(a) {
            inner.push(first);
            end = j;
            assert(tokens_of(inner@) =~= seq![
                leaf(Rule::Symbol, s, i as int, n as int),
                expr(s, a as int)->Some_0.token,
            ]);
            let ghost whole = more_arguments(s, j as int, tokens_of(inner@));
            loop
                invariant
                    self.wf(),
                    s == self.chars(),
                    a <= end <= self.len,
                    i < a,
                    whole == more_arguments(s, end as int, tokens_of(inner@)),
                ensures
                    whole == (ParsedList { tokens: tokens_of(inner@), end: end as int }),
                    a <= end <= self.len,
                decreases self.len - end,
            {
                let c = self.past_blanks(end);
                if !self.is(c, COMMA) {
                    break;
                }
                let b = self.past_blanks(c + 1);
                match self.expr(b) {
                    Some((next, j)) => {
                        let ghost before = tokens_of(inner@);
                        inner.push(next);
                        assert(tokens_of(inner@) =~= before.push(next@));
                        end = j;
                    },
                    None => {
                        break;
                    },
                }
            }
        } else {
            assert(tokens_of(inner@) =~= seq![leaf(Rule::Symbol, s, i as int, n as int)]);
        }
        let c = self.past_blanks(end);
        if self.is(c, CLOSE) {
            Some((self.node(Rule::FunCall, i, c + 1, inner), c + 1))
        } else {
            None
        }
    }

    fn expr(&self, i: usize) -> (r: Option<(Pair, usize)>)
        requires
            self.wf(),
            i <= self.len,
        ensures
            match expr(self.chars(), i as int) {
                Some(p) => r matches Some((pair, end)) && pair@ == p.token && end == i + p.len
                    && end <= self.len,
                None => r is None,
            },
        decreases self.len - i, 3nat,
    {
        let ghost s = self.chars();
        let (first, j) = match self.term(i) {
            Some(found) => found,
            None => {
                return None;
            },
        };
        let mut inner: Vec<Pair> = Vec::new();
        inner.push(first);
        assert(tokens_of(inner@) =~= seq![term(s, i as int)->Some_0.token]);
        let mut end: usize = j;
        let ghost whole = more_terms(s, j as int, tokens_of(inner@));
        loop
            invariant
                self.wf(),
                s == self.chars(),
                i <= end <= self.len,
                whole == more_terms(s, end as int, tokens_of(inner@)),
            ensures
                whole == (ParsedList { tokens: tokens_of(inner@), end: end as int }),
                i <= end <= self.len,
            decreases self.len - end,
        {
            let c = self.past_blanks(end);
            let rule = match self.operator(c) {
                Some(rule) => rule,
                None => {
                    break;
                },
            };
            let a = self.past_blanks(c + 1);
            match self.term(a) {
                Some((next, j)) => {
                    let ghost before = tokens_of(inner@);
                    let sign = self.leaf(rule, c, c + 1);
                    inner.push(sign);
                    inner.push(next);
                    assert(tokens_of(inner@) =~= before.push(sign@).push(next@));
                    end = j;
                },
                None => {
                    break;
                },
            }
        }
        Some((self.node(Rule::Expr, i, end, inner), end))
    }

    fn assignment(&self, i: usize) -> (r: Option<(Pair, usize)>)
        requires
            self.wf(),
            i <= self.len,
        ensures
            match assignment(self.chars(), i as int) {
                Some(p) => r matches Some((pair, end)) && pair@ == p.token && end == i + p.len
                    && end <= self.len,
                None => r is None,
            },
    {
        let ghost s = self.chars();
        let n = match self.symbol(i) {
            Some(j) => j,
            None => {
                return None;
            },
        };
        let a = self.past_blanks(n);
        if !self.becomes_at(a) {
            return None;
        }
        let b = self.past_blanks(a + 2);
        match self.expr(b) {
            Some((op, end)) => {
                let mut inner: Vec<Pair> = Vec::new();
                inner.push(self.leaf(Rule::Symbol, i, n));
                inner.push(op);
                assert(tokens_of(inner@) =~= seq![
                    leaf(Rule::Symbol, s, i as int, n as int),
                    op@,
                ]);
                Some((self.node(Rule::Assignment, i, end, inner), end))
            },
            None => None,
        }
    }

    fn solve_for(&self, i: usize) -> (r: Option<(Pair, usize)>)
        requires
            self.wf(),
            i <= self.len,
        ensures
            match solve_for(self.chars(), i as int) {
                Some(p) => r matches Some((pair, end)) && pair@ == p.token && end == i + p.len
                    && end <= self.len,
                None => r is None,
            },
    {
        let ghost s = self.chars();
        if !(self.is(i, LOWER_S) && self.is(i + 1, LOWER_O) && self.is(i + 2, LOWER_L) && self.is(i + 3, LOWER_V)
            && self.is(i + 4, LOWER_E) && self.word_ends(i + 5)) {
            return None;
        }
        let a = self.past_blanks(i + 5);
        let (lhs, j) = match self.expr(a) {
            Some(found) => found,
            None => {
                return None;
            },
        };
        let c = self.past_blanks(j);
        if !self.is(c, EQUALS) {
            return None;
        }
        let d = self.past_blanks(c + 1);
        let (rhs, j) = match self.expr(d) {
            Some(found) => found,
            None => {
                return None;
            },
        };
        let f = self.past_blanks(j);
        if !(self.is(f, LOWER_F) && self.is(f + 1, LOWER_O) && self.is(f + 2, LOWER_R) && self.word_ends(
            f + 3,
        )) {
            return None;
        }
        let g = self.past_blanks(f + 3);
        match self.symbol(g) {
            Some(end) => {
                let sym = self.leaf(Rule::Symbol, g, end);
                let ghost tokens = seq![lhs@, rhs@, sym@];
                let mut inner: Vec<Pair> = Vec::new();
                inner.push(lhs);
                inner.push(rhs);
                inner.push(sym);
                assert(tokens_of(inner@) =~= tokens);
                Some((self.node(Rule::SolveFor, i, end, inner), end))
            },
            None => None,
        }
    }

    fn function(&self, i: usize) -> (r: Option<(Pair, usize)>)
        requires
            self.wf(),
            i <= self.len,
        ensures
            match function(self.chars(), i as int) {
                Some(p) => r matches Some((pair, end)) && pair@ == p.token && end == i + p.len
                    && end <= self.len,
                None => r is None,
            },
    {
        let ghost s = self.chars();
        let n = match self.symbol(i) {
            Some(j) => j,
            None => {
                return None;
            },
        };
        let k = self.past_blanks(n);
        if !self.is(k, OPEN) {
            return None;
        }
        let a = self.past_blanks(k + 1);
        let mut inner: Vec<Pair> = Vec::new();
        inner.push(self.leaf(Rule::Symbol, i, n));
        let mut end: usize = a;
        if let Some(j) = self.symbol(a) {
            inner.push(self.leaf(Rule::Symbol, a, j));
            end = j;
            assert(tokens_of(inner@) =~= seq![
                leaf(Rule::Symbol, s, i as int, n as int),
                leaf(Rule::Symbol, s, a as int, j as int),
            ]);
            let ghost whole = more_parameters(s, j as int, tokens_of(inner@));
            loop
                invariant
                    self.wf(),
                    s == self.chars(),
                    a <= end <= self.len,
                    whole == more_parameters(s, end as int, tokens_of(inner@)),
                ensures
                    whole == (ParsedList { tokens: tokens_of(inner@), end: end as int }),
                    a <= end <= self.len,
                decreases self.len - end,
            {
                let c = self.past_blanks(end);
                if !self.is(c, COMMA) {
                    break;
                }
                let b = self.past_blanks(c + 1);
                match self.symbol(b) {
                    Some(j) => {
                        let ghost before = tokens_of(inner@);
                        let next = self.leaf(Rule::Symbol, b, j);
                        inner.push(next);
                        assert(tokens_of(inner@) =~= before.push(
                            leaf(Rule::Symbol, s, b as int, j as int),
                        ));
                        end = j;
                    },
                    None => {
                        break;
                    },
                }
            }
        } else {
            assert(tokens_of(inner@) =~= seq![leaf(Rule::Symbol, s, i as int, n as int)]);
        }
        let c = self.past_blanks(end);
        if !self.is(c, CLOSE) {
            return None;
        }
        let d = self.past_blanks(c + 1);
        if !self.becomes_at(d) {
            return None;
        }
        let b = self.past_blanks(d + 2);
        match self.expr(b) {
            Some((body, end)) => {
                let ghost before = tokens_of(inner@);
                inner.push(body);
                assert(tokens_of(inner@) =~= before.push(body@));
                Some((self.node(Rule::Function, i, end, inner), end))
            },
            None => None,
        }
    }

    fn plot(&self, i: usize) -> (r: Option<(Pair, usize)>)
        requires
            self.wf(),
            i <= self.len,
        ensures
            match plot(self.chars(), i as int) {
                Some(p) => r matches Some((pair, end)) && pair@ == p.token && end == i + p.len
                    && end <= self.len,
                None => r is None,
            },
    {
        let ghost s = self.chars();
        if !(self.is(i, LOWER_P) && self.is(i + 1, LOWER_L) && self.is(i + 2, LOWER_O) && self.is(i + 3, LOWER_T)
            && self.word_ends(i + 4)) {
            return None;
        }
        let a = self.past_blanks(i + 4);
        match self.symbol(a) {
            Some(end) => {
                let sym = self.leaf(Rule::Symbol, a, end);
                let mut inner: Vec<Pair> = Vec::new();
                inner.push(sym);
                assert(tokens_of(inner@) =~= seq![leaf(Rule::Symbol, s, a as int, end as int)]);
                Some((self.node(Rule::Plot, i, end, inner), end))
            },
            None => None,
        }
    }

    fn any_statement(&self, i: usize) -> (r: Option<(Pair, usize)>)
        requires
            self.wf(),
            i <= self.len,
        ensures
            match any_statement(self.chars(), i as int) {
                Some(p) => r matches Some((pair, end)) && pair@ == p.token && end == i + p.len
                    && end <= self.len,
                None => r is None,
            },
    {
        if let Some(found) = self.assignment(i) {
            return Some(found);
        }
        if let Some(found) = self.solve_for(i) {
            return Some(found);
        }
        if let Some(found) = self.function(i) {
            return Some(found);
        }
        if let Some(found) = self.plot(i) {
            return Some(found);
        }
        self.expr(i)
    }
}

impl EquationParser {
    /// Recognizes the statement of the line `cmd`.
    pub fn parse(cmd: &str) -> (r: Option<Vec<Pair>>)
        ensures
            match statement(cmd@) {
                Some(tokens) => r matches Some(pairs) && tokens_of(pairs@) == tokens,
                None => r is None,
            },
    {
        if !cmd.is_ascii() {
            return None;
        }
        proof {
            vstd::string::is_ascii_spec_bytes(cmd);
        }
        let len = cmd.as_bytes().len();
        let line = Line { text: cmd, len };
        let i = line.past_blanks(0);
        let (pair, j) = match line.any_statement(i) {
            Some(found) => found,
            None => {
                return None;
            },
        };
        if line.past_blanks(j) != line.len {
            return None;
        }
        let end = Pair { rule: Rule::EndOfInput, text: String::new(), inner: Vec::new() };
        proof {
            view_of_pair(end);
            assert(end@.inner =~= Seq::<Token>::empty());
        }
        let ghost tokens = seq![pair@, end@];
        let mut pairs: Vec<Pair> = Vec::new();
        pairs.push(pair);
        pairs.push(end);
        Some(pairs)
    }
}

/// A run holds characters of its class only, ends inside the text, and
/// ends where the text ends or a character of another class stands.
pub proof fn run_counts(s: Seq<char>, i: int, class: Class)
    requires
        0 <= i <= s.len(),
    ensures
        i + run(s, i, class) <= s.len(),
        forall|j: int| i <= j < i + run(s, i, class) ==> belongs(#[trigger] s[j] as u8, class),
        i + run(s, i, class) == s.len() || !belongs(s[i + run(s, i, class)] as u8, class),
    decreases left(s, i),
{
    if i < s.len() && belongs(s[i] as u8, class) {
        run_counts(s, i + 1, class);
    }
}

/// A stretch of characters of one class that ends where the text ends or
/// a character of another class stands is a run.
pub proof fn run_is(s: Seq<char>, i: int, k: nat, class: Class)
    requires
        0 <= i,
        i + k <= s.len(),
        forall|j: int| i <= j < i + k ==> belongs(#[trigger] s[j] as u8, class),
        i + k == s.len() || !belongs(s[i + k] as u8, class),
    ensures
        run(s, i, class) == k,
    decreases k,
{
    if k > 0 {
        run_is(s, i + 1, (k - 1) as nat, class);
    }
}

/// A run in the rest of a text is the run in that rest taken alone.
pub proof fn run_in_rest(s: Seq<char>, b: int, i: int, class: Class)
    requires
        0 <= b <= s.len(),
        0 <= i,
    ensures
        run(s, b + i, class) == run(s.subrange(b, s.len() as int), i, class),
    decreases left(s, b + i),
{
    if b + i < s.len() {
        if belongs(s[b + i] as u8, class) {
            run_in_rest(s, b, i + 1, class);
        }
    }
}

/// The integer in the rest of a text is the integer in that rest taken
/// alone.
pub proof fn integer_in_rest(s: Seq<char>, b: int, i: int)
    requires
        0 <= b <= s.len(),
        0 <= i,
    ensures
        integer(s, b + i) == integer(s.subrange(b, s.len() as int), i),
{
    run_in_rest(s, b, i + 1, Class::Digit);
}

/// The number in the rest of a text is the number in that rest taken
/// alone.
pub proof fn number_in_rest(s: Seq<char>, b: int, i: int)
    requires
        0 <= b <= s.len(),
        0 <= i,
    ensures
        number(s, b + i) == number(s.subrange(b, s.len() as int), i),
{
    let v = s.subrange(b, s.len() as int);
    integer_in_rest(s, b, i);
    match integer(v, i) {
        None => {},
        Some(whole) => {
            run_in_rest(s, b, i + whole + 1, Class::Digit);
            let fraction: nat = if code_at(v, i + whole, DOT) {
                1 + run(v, i + whole + 1, Class::Digit)
            } else {
                0
            };
            let j = i + whole + fraction;
            integer_in_rest(s, b, j + 1);
        },
    }
}

/// The text `a` is a symbol from end to end.
pub open spec fn is_symbol(a: Seq<char>) -> bool {
    plain(a) && symbol(a, 0) == Some(a.len())
}

/// The text `v` is a number from end to end.
pub open spec fn is_number(v: Seq<char>) -> bool {
    plain(v) && number(v, 0) == Some(v.len())
}

/// The tokens of a line that holds a symbol and nothing else: those of
/// the expression of that symbol. The words `solve`, `for` and `plot`
/// are symbols where they stand alone.
#[verifier::rlimit(40)]
pub proof fn line_of_a_symbol(a: Seq<char>)
    requires
        is_symbol(a),
    ensures
        statement(a) == Some(
            seq![
                node(
                    Rule::Expr,
                    a,
                    0,
                    a.len() as int,
                    seq![leaf(Rule::Symbol, a, 0, a.len() as int)],
                ),
                end_of_input(),
            ],
        ),
{
    run_counts(a, 1, Class::Word);
    assert(fun_call(a, 0) is None);
}

/// The line that assigns the number `v` to the symbol `a`.
pub open spec fn assignment_line(a: Seq<char>, v: Seq<char>) -> Seq<char> {
    a + " := "@ + v
}

/// The text `s` is `a`, then a blank, `:=`, a blank, then `v`.
spec fn laid_out(s: Seq<char>, a: Seq<char>, v: Seq<char>) -> bool {
    let n = a.len() as int;
    &&& s.len() == n + 4 + v.len()
    &&& forall|j: int| 0 <= j < n ==> #[trigger] s[j] == a[j]
    &&& s[n] as u8 == SPACE
    &&& s[n + 1] as u8 == COLON
    &&& s[n + 2] as u8 == EQUALS
    &&& s[n + 3] as u8 == SPACE
    &&& forall|j: int| 0 <= j < v.len() ==> #[trigger] s[n + 4 + j] == v[j]
    &&& s.subrange(0, n) == a
    &&& s.subrange(n + 4, s.len() as int) == v
    &&& plain(s)
}

#[verifier::rlimit(40)]
proof fn assignment_line_is_laid_out(a: Seq<char>, v: Seq<char>)
    requires
        plain(a),
        plain(v),
    ensures
        laid_out(assignment_line(a, v), a, v),
{
    reveal_strlit(" := ");
    let s = assignment_line(a, v);
    let n = a.len() as int;
    assert(s.subrange(0, n) =~= a);
    assert(s.subrange(n + 4, s.len() as int) =~= v);
}

/// In a line laid out as an assignment, the symbol is found and the
/// sign of assignment after it.
#[verifier::rlimit(40)]
proof fn target_of_assignment(s: Seq<char>, a: Seq<char>, v: Seq<char>)
    requires
        laid_out(s, a, v),
        is_symbol(a),
        v.len() > 0,
        !belongs(v[0] as u8, Class::Blank),
    ensures
        past_blanks(s, 0) == 0,
        symbol(s, 0) == Some(a.len()),
        past_blanks(s, a.len() as int) == a.len() + 1,
        becomes_at(s, a.len() as int + 1),
        past_blanks(s, a.len() as int + 3) == a.len() + 4,
{
    let n = a.len() as int;
    run_counts(a, 1, Class::Word);
    run_is(s, 1, (n - 1) as nat, Class::Word);
    run_is(s, n, 1, Class::Blank);
    run_is(s, n + 3, 1, Class::Blank);
}

/// In a line laid out as an assignment, the expression after the sign of
/// assignment is the number, and it ends the line.
#[verifier::rlimit(40)]
proof fn value_of_assignment(s: Seq<char>, a: Seq<char>, v: Seq<char>)
    requires
        laid_out(s, a, v),
        is_number(v),
    ensures
        expr(s, a.len() as int + 4) == Some(
            Parsed {
                token: node(
                    Rule::Expr,
                    s,
                    a.len() as int + 4,
                    s.len() as int,
                    seq![leaf(Rule::Num, s, a.len() as int + 4, s.len() as int)],
                ),
                len: v.len(),
            },
        ),
        past_blanks(s, s.len() as int) == s.len(),
{
    let b = a.len() as int + 4;
    number_in_rest(s, b, 0);
}

/// The tokens of the line `a := v`, where `a` is a symbol and `v` a
/// number: those of the assignment of the expression of that number to
/// that symbol.
#[verifier::rlimit(40)]
pub proof fn line_of_an_assignment(a: Seq<char>, v: Seq<char>)
    requires
        is_symbol(a),
        is_number(v),
    ensures
        ({
            let s = assignment_line(a, v);
            let b = a.len() as int + 4;
            &&& s.subrange(0, a.len() as int) == a
            &&& s.subrange(b, s.len() as int) == v
            &&& statement(s) == Some(
                seq![
                    node(
                        Rule::Assignment,
                        s,
                        0,
                        s.len() as int,
                        seq![
                            leaf(Rule::Symbol, s, 0, a.len() as int),
                            node(
                                Rule::Expr,
                                s,
                                b,
                                s.len() as int,
                                seq![leaf(Rule::Num, s, b, s.len() as int)],
                            ),
                        ],
                    ),
                    end_of_input(),
                ],
            )
        }),
{
    let s = assignment_line(a, v);
    assignment_line_is_laid_out(a, v);
    target_of_assignment(s, a, v);
    value_of_assignment(s, a, v);
}

/// `rule` is the rule of an operator.
pub open spec fn is_operator(rule: Rule) -> bool {
    rule == Rule::Add || rule == Rule::Subtract || rule == Rule::Multiply || rule == Rule::Divide
        || rule == Rule::Rem || rule == Rule::Power
}

/// The token `t` has the form of an operand: a number, a symbol, a call
/// whose arguments are expressions of that form, or an expression in
/// which operands of that form and operators alternate, from an operand
/// to an operand.
pub open spec fn well_formed(t: Token) -> bool
    decreases t, 0nat,
{
    match t.rule {
        Rule::Num => true,
        Rule::Symbol => true,
        Rule::FunCall => t.inner.len() >= 1 && well_formed_arguments(t.inner, t.inner.len()),
        Rule::Expr => t.inner.len() % 2 == 1 && well_formed_list(t.inner, t.inner.len()),
        _ => false,
    }
}

/// Among the first `n` of `pairs`, operands of the form of [`well_formed`]
/// and operators alternate.
pub open spec fn well_formed_list(pairs: Seq<Token>, n: nat) -> bool
    decreases pairs, n,
{
    if n == 0 || n > pairs.len() {
        true
    } else {
        &&& well_formed_list(pairs, (n - 1) as nat)
        &&& if (n - 1) % 2 == 0 {
            well_formed(pairs[n - 1])
        } else {
            is_operator(pairs[n - 1].rule)
        }
    }
}

/// From the second to the `n`th, the `pairs` are expressions of the form
/// of [`well_formed`].
pub open spec fn well_formed_arguments(pairs: Seq<Token>, n: nat) -> bool
    decreases pairs, n,
{
    if n <= 1 || n > pairs.len() {
        true
    } else {
        &&& well_formed_arguments(pairs, (n - 1) as nat)
        &&& pairs[n - 1].rule == Rule::Expr
        &&& well_formed(pairs[n - 1])
    }
}

/// What holds of a list of operands and operators holds of each.
pub proof fn well_formed_list_at(pairs: Seq<Token>, n: nat, i: int)
    requires
        well_formed_list(pairs, n),
        0 <= i < n <= pairs.len(),
    ensures
        i % 2 == 0 ==> well_formed(pairs[i]),
        i % 2 == 1 ==> is_operator(pairs[i].rule),
    decreases n,
{
    if i < n - 1 {
        well_formed_list_at(pairs, (n - 1) as nat, i);
    }
}

/// What holds of a list of arguments holds of each.
pub proof fn well_formed_arguments_at(pairs: Seq<Token>, n: nat, i: int)
    requires
        well_formed_arguments(pairs, n),
        1 <= i < n <= pairs.len(),
    ensures
        pairs[i].rule == Rule::Expr,
        well_formed(pairs[i]),
    decreases n,
{
    if i < n - 1 {
        well_formed_arguments_at(pairs, (n - 1) as nat, i);
    }
}

proof fn well_formed_list_grows(found: Seq<Token>, t: Token, n: nat)
    requires
        n <= found.len(),
        well_formed_list(found, n),
    ensures
        well_formed_list(found.push(t), n),
    decreases n,
{
    if n > 0 {
        well_formed_list_grows(found, t, (n - 1) as nat);
    }
}

proof fn well_formed_arguments_grow(found: Seq<Token>, t: Token, n: nat)
    requires
        n <= found.len(),
        well_formed_arguments(found, n),
    ensures
        well_formed_arguments(found.push(t), n),
    decreases n,
{
    if n > 1 {
        well_formed_arguments_grow(found, t, (n - 1) as nat);
    }
}

/// The term that the grammar finds has the form of an operand.
pub proof fn term_is_well_formed(s: Seq<char>, i: int)
    ensures
        term(s, i) matches Some(p) ==> well_formed(p.token),
    decreases left(s, i), 2nat,
{
    match number(s, i) {
        Some(n) => {},
        None => match fun_call(s, i) {
            Some(p) => {
                fun_call_is_well_formed(s, i);
            },
            None => match symbol(s, i) {
                Some(n) => {},
                None => if code_at(s, i, OPEN) {
                    expr_is_well_formed(s, past_blanks(s, i + 1));
                },
            },
        },
    }
}

/// The call that the grammar finds has the form of an operand.
pub proof fn fun_call_is_well_formed(s: Seq<char>, i: int)
    ensures
        fun_call(s, i) matches Some(p) ==> p.token.rule == Rule::FunCall && well_formed(p.token),
    decreases left(s, i), 1nat,
{
    match symbol(s, i) {
        None => {},
        Some(n) => {
            let k = past_blanks(s, i + n);
            if code_at(s, k, OPEN) {
                let a = past_blanks(s, k + 1);
                let name = leaf(Rule::Symbol, s, i, i + n);
                match expr(s, a) {
                    Some(p) => {
                        expr_is_well_formed(s, a);
                        let found = seq![name, p.token];
                        assert(well_formed_arguments(found, 1));
                        more_arguments_are_well_formed(s, a + p.len, found);
                    },
                    None => {
                    },
                }
            }
        },
    }
}

proof fn more_arguments_are_well_formed(s: Seq<char>, j: int, found: Seq<Token>)
    requires
        found.len() >= 1,
        well_formed_arguments(found, found.len()),
    ensures
        more_arguments(s, j, found).tokens.len() >= 1,
        well_formed_arguments(
            more_arguments(s, j, found).tokens,
            more_arguments(s, j, found).tokens.len(),
        ),
    decreases left(s, j), 0nat,
{
    let c = past_blanks(s, j);
    if code_at(s, c, COMMA) {
        let a = past_blanks(s, c + 1);
        match expr(s, a) {
            Some(p) => {
                expr_is_well_formed(s, a);
                let grown = found.push(p.token);
                well_formed_arguments_grow(found, p.token, found.len());
                more_arguments_are_well_formed(s, a + p.len, grown);
            },
            None => {},
        }
    }
}

/// The expression that the grammar finds has the form of an operand.
pub proof fn expr_is_well_formed(s: Seq<char>, i: int)
    ensures
        expr(s, i) matches Some(p) ==> p.token.rule == Rule::Expr && well_formed(p.token),
    decreases left(s, i), 3nat,
{
    match term(s, i) {
        None => {},
        Some(p) => {
            term_is_well_formed(s, i);
            let found = seq![p.token];
            assert(well_formed_list(found, 0));
            more_terms_are_well_formed(s, i + p.len, found);
        },
    }
}

proof fn more_terms_are_well_formed(s: Seq<char>, j: int, found: Seq<Token>)
    requires
        found.len() % 2 == 1,
        well_formed_list(found, found.len()),
    ensures
        more_terms(s, j, found).tokens.len() % 2 == 1,
        well_formed_list(more_terms(s, j, found).tokens, more_terms(s, j, found).tokens.len()),
    decreases left(s, j), 0nat,
{
    let c = past_blanks(s, j);
    match operator(s, c) {
        Some(rule) => {
            let a = past_blanks(s, c + 1);
            match term(s, a) {
                Some(p) => {
                    term_is_well_formed(s, a);
                    let sign = leaf(rule, s, c, c + 1);
                    let with_sign = found.push(sign);
                    let grown = with_sign.push(p.token);
                    well_formed_list_grows(found, sign, found.len());
                    well_formed_list_grows(with_sign, p.token, with_sign.len());
                    more_terms_are_well_formed(s, a + p.len, grown);
                },
                None => {},
            }
        },
        None => {},
    }
}

/// Every token of `pairs` from the second on is a symbol.
pub open spec fn symbols_follow(pairs: Seq<Token>) -> bool {
    forall|i: int| 1 <= i < pairs.len() ==> (#[trigger] pairs[i]).rule == Rule::Symbol
}

proof fn more_parameters_are_symbols(s: Seq<char>, j: int, found: Seq<Token>)
    requires
        found.len() >= 1,
        symbols_follow(found),
    ensures
        more_parameters(s, j, found).tokens.len() >= 1,
        symbols_follow(more_parameters(s, j, found).tokens),
        more_parameters(s, j, found).tokens[0] == found[0],
    decreases left(s, j),
{
    let c = past_blanks(s, j);
    if code_at(s, c, COMMA) {
        let a = past_blanks(s, c + 1);
        match symbol(s, a) {
            Some(n) => {
                let grown = found.push(leaf(Rule::Symbol, s, a, a + n));
                more_parameters_are_symbols(s, a + n, grown);
            },
            None => {},
        }
    }
}

/// The form of the tokens of a statement: those of an assignment are a
/// symbol and an expression, those of an equation two expressions and a
/// symbol, those of a definition symbols and an expression, those of a
/// request for a plot one symbol; the expressions have the form of
/// [`well_formed`].
pub open spec fn well_formed_statement(t: Token) -> bool {
    match t.rule {
        Rule::Assignment => {
            &&& t.inner.len() == 2
            &&& t.inner[0].rule == Rule::Symbol
            &&& t.inner[1].rule == Rule::Expr
            &&& well_formed(t.inner[1])
        },
        Rule::SolveFor => {
            &&& t.inner.len() == 3
            &&& t.inner[0].rule == Rule::Expr
            &&& well_formed(t.inner[0])
            &&& t.inner[1].rule == Rule::Expr
            &&& well_formed(t.inner[1])
            &&& t.inner[2].rule == Rule::Symbol
        },
        Rule::Function => {
            &&& t.inner.len() >= 2
            &&& t.inner[0].rule == Rule::Symbol
            &&& forall|i: int| 1 <= i < t.inner.len() - 1 ==> (#[trigger] t.inner[i]).rule == Rule::Symbol
            &&& t.inner[t.inner.len() - 1].rule == Rule::Expr
            &&& well_formed(t.inner[t.inner.len() - 1])
        },
        Rule::Plot => t.inner.len() == 1 && t.inner[0].rule == Rule::Symbol,
        Rule::Expr => well_formed(t),
        _ => false,
    }
}

/// The definition that the grammar finds has the form of a statement.
#[verifier::rlimit(50)]
proof fn function_is_well_formed(s: Seq<char>, i: int)
    ensures
        function(s, i) matches Some(p) ==> p.token.rule == Rule::Function
            && well_formed_statement(p.token),
{
    match symbol(s, i) {
        None => {},
        Some(n) => {
            let k = past_blanks(s, i + n);
            if code_at(s, k, OPEN) {
                let a = past_blanks(s, k + 1);
                let name = leaf(Rule::Symbol, s, i, i + n);
                let list = match symbol(s, a) {
                    Some(m) => more_parameters(
                        s,
                        a + m,
                        seq![name, leaf(Rule::Symbol, s, a, a + m)],
                    ),
                    None => ParsedList { tokens: seq![name], end: a },
                };
                match symbol(s, a) {
                    Some(m) => {
                        let found = seq![name, leaf(Rule::Symbol, s, a, a + m)];
                        more_parameters_are_symbols(s, a + m, found);
                    },
                    None => {
                    },
                }
                let c = past_blanks(s, list.end);
                let d = past_blanks(s, c + 1);
                if code_at(s, c, CLOSE) && becomes_at(s, d) {
                    let b = past_blanks(s, d + 2);
                    match expr(s, b) {
                        Some(p) => {
                            expr_is_well_formed(s, b);
                        },
                        None => {},
                    }
                }
            }
        },
    }
}

/// The tokens of a line have the form of a statement.
#[verifier::rlimit(50)]
pub proof fn statement_is_well_formed(s: Seq<char>)
    ensures
        statement(s) matches Some(tokens) ==> tokens.len() == 2 && well_formed_statement(tokens[0]),
{
    let i = past_blanks(s, 0);
    expr_is_well_formed(s, i);
    function_is_well_formed(s, i);
    match symbol(s, i) {
        Some(n) => {
            expr_is_well_formed(s, past_blanks(s, past_blanks(s, i + n) + 2));
        },
        None => {},
    }
    if solve_at(s, i) {
        let a = past_blanks(s, i + 5);
        expr_is_well_formed(s, a);
        match expr(s, a) {
            Some(lhs) => {
                let c = past_blanks(s, a + lhs.len);
                expr_is_well_formed(s, past_blanks(s, c + 1));
            },
            None => {},
        }
    }
}

} // verus!
