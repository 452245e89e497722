//! The operator table and the tokenizer.
//!
//! An [`OptMap`] maps operator lexemes to their precedence, arity and
//! semantics.  It is built with the twelve binary built-ins and logical
//! negation pre-registered, and callers may register further lexemes or
//! shadow existing ones.  [`parser_tokens`] scans an expression string
//! left to right into a token sequence, using the table's longest-match
//! rule to recognize multi-character operators.

use vstd::prelude::*;
use vstd::string::StringSliceAdditionalSpecFns;

use crate::error::{SyntaxError, SyntaxErrorKind};

verus! {

broadcast use vstd::std_specs::vec::group_vec_axioms;

/// Whether an operator takes one operand or two.
#[derive(Clone, Copy, Debug, PartialEq, Eq, Structural)]
pub enum Arity {
    Unary,
    Binary,
}

/// The semantics an operator lexeme stands for.
#[derive(Clone, Copy, Debug, PartialEq, Eq, Structural)]
pub enum OpKind {
    /// `==`: structural equality.
    CmpEq,
    /// `!=`: structural inequality.
    CmpNe,
    /// `>`: ordering.
    CmpGt,
    /// `>=`: ordering.
    CmpGe,
    /// `<`: ordering.
    CmpLt,
    /// `<=`: ordering.
    CmpLe,
    /// `&&`: short-circuit conjunction.
    LogAnd,
    /// `||`: short-circuit disjunction.
    LogOr,
    /// `+`: numeric addition, overloaded as text concatenation.
    ArithAdd,
    /// `-`: numeric subtraction.
    ArithSub,
    /// `*`: numeric multiplication.
    ArithMul,
    /// `/`: numeric division.
    ArithDiv,
    /// `!`: logical negation.
    LogNot,
    /// Prefix `-`: numeric negation.
    ArithNeg,
}

/// Precedence, arity and semantics of an operator, without its lexeme.
/// Tokens and AST nodes carry this resolved form.
#[derive(Clone, Copy, Debug, PartialEq, Eq, Structural)]
pub struct OpInfo {
    /// Binding strength; higher binds tighter.  Equal precedence associates
    /// left to right.
    pub precedence: u32,
    pub arity: Arity,
    pub semantics: OpKind,
}

/// A registered operator: a lexeme together with its resolved form.
pub struct OperatorSpec {
    pub lexeme: Vec<u8>,
    pub info: OpInfo,
}

/// The mathematical model of a registered operator.
pub struct SpecOperator {
    pub lexeme: Seq<u8>,
    pub info: OpInfo,
}

impl View for OperatorSpec {
    type V = SpecOperator;

    open spec fn view(&self) -> SpecOperator {
        SpecOperator { lexeme: self.lexeme@, info: self.info }
    }
}

impl Clone for OperatorSpec {
    fn clone(&self) -> (r: Self)
        ensures
            r@ == self@,
    {
        OperatorSpec { lexeme: crate::value::bytes_clone(&self.lexeme), info: self.info }
    }
}

/// The operator table: an ordered list of registered operators, searched
/// front to back, so an entry registered later (inserted at the front)
/// shadows an earlier one with the same lexeme.
pub struct OptMap {
    entries: Vec<OperatorSpec>,
}

impl View for OptMap {
    type V = Seq<SpecOperator>;

    closed spec fn view(&self) -> Seq<SpecOperator> {
        view_table(self.entries@)
    }
}

/// The models of the table entries, in order.
pub open spec fn view_table(s: Seq<OperatorSpec>) -> Seq<SpecOperator>
    decreases s.len(),
{
    if s.len() == 0 {
        Seq::empty()
    } else {
        view_table(s.drop_last()).push(s.last()@)
    }
}

/// `view_table` maps the sequence pointwise.
pub proof fn lemma_view_table_index(s: Seq<OperatorSpec>)
    ensures
        view_table(s).len() == s.len(),
        forall|i: int| 0 <= i < s.len() ==> view_table(s)[i] == s[i]@,
    decreases s.len(),
{
    if s.len() > 0 {
        lemma_view_table_index(s.drop_last());
    }
}

/// Whether the lexeme of operator `op` matches the input `s` at position
/// `pos`.  Empty lexemes never match, so a match always consumes input.
pub open spec fn spec_match_at(s: Seq<u8>, pos: int, lexeme: Seq<u8>) -> bool {
    &&& lexeme.len() >= 1
    &&& 0 <= pos
    &&& pos + lexeme.len() <= s.len()
    &&& s.subrange(pos, pos + lexeme.len() as int) == lexeme
}

/// The longest registered operator whose lexeme matches `s` at `pos`; among
/// equally long matches the one registered first (closest to the front) wins.
pub open spec fn spec_longest_match(t: Seq<SpecOperator>, s: Seq<u8>, pos: int) -> Option<
    SpecOperator,
>
    decreases t.len(),
{
    if t.len() == 0 {
        None
    } else {
        let rest = spec_longest_match(t.drop_first(), s, pos);
        if spec_match_at(s, pos, t[0].lexeme) {
            match rest {
                Option::None => Option::Some(t[0]),
                Option::Some(b) => if b.lexeme.len() > t[0].lexeme.len() {
                    Option::Some(b)
                } else {
                    Option::Some(t[0])
                },
            }
        } else {
            rest
        }
    }
}

/// Whether `op.lexeme` is a prefix of `s` starting at `pos`.
fn match_at(s: &Vec<u8>, pos: usize, lexeme: &Vec<u8>) -> (r: bool)
    ensures
        r == spec_match_at(s@, pos as int, lexeme@),
{
    if lexeme.len() == 0 {
        return false;
    }
    if pos > s.len() || s.len() - pos < lexeme.len() {
        return false;
    }
    let mut i: usize = 0;
    while i < lexeme.len()
        invariant
            i <= lexeme.len(),
            pos + lexeme.len() <= s.len(),
            forall|j: int| 0 <= j < i ==> s@[pos + j] == lexeme@[j],
        decreases lexeme.len() - i,
    {
        if s[pos + i] != lexeme[i] {
            proof {
                assert(s@.subrange(pos as int, pos + lexeme@.len() as int)[i as int]
                    != lexeme@[i as int]);
            }
            return false;
        }
        i = i + 1;
    }
    proof {
        assert(s@.subrange(pos as int, pos + lexeme@.len() as int) =~= lexeme@);
    }
    true
}

impl OptMap {
    /// Registers an operator at the front of the table, shadowing any
    /// earlier entry with the same lexeme.
    pub fn register(&mut self, op: OperatorSpec)
        requires
            op.lexeme@.len() >= 1,
        ensures
            final(self)@ == seq![op@] + old(self)@,
    {
        self.entries.insert(0, op);
        proof {
            lemma_view_table_index(self.entries@);
            lemma_view_table_index(old(self).entries@);
            assert(view_table(self.entries@) =~= seq![self.entries@[0]@] + view_table(
                old(self).entries@,
            ));
        }
    }

    /// The first entry whose lexeme equals `lexeme`, if any.
    pub fn lookup(&self, lexeme: &Vec<u8>) -> (r: Option<OperatorSpec>)
        ensures
            match r {
                Option::Some(op) => spec_lookup(self@, lexeme@) == Option::Some(op@),
                Option::None => spec_lookup(self@, lexeme@) is None,
            },
    {
        proof {
            lemma_view_table_index(self.entries@);
            assert(self@.skip(0) =~= self@);
        }
        let mut i: usize = 0;
        while i < self.entries.len()
            invariant
                i <= self.entries.len(),
                view_table(self.entries@).len() == self.entries@.len(),
                forall|j: int|
                    0 <= j < self.entries@.len() ==> view_table(self.entries@)[j]
                        == self.entries@[j]@,
                spec_lookup(self@, lexeme@) == spec_lookup(self@.skip(i as int), lexeme@),
            decreases self.entries.len() - i,
        {
            if crate::value::bytes_eq(&self.entries[i].lexeme, lexeme) {
                proof {
                    assert(self@.skip(i as int)[0] == self.entries@[i as int]@);
                }
                return Some(self.entries[i].clone());
            }
            proof {
                assert(self@.skip(i as int).drop_first() =~= self@.skip(i + 1));
            }
            i = i + 1;
        }
        proof {
            assert(self@.skip(self.entries@.len() as int).len() == 0);
        }
        None
    }

    /// The longest match of the table against `s` at `pos`.
    pub fn longest_match(&self, s: &Vec<u8>, pos: usize) -> (r: Option<OperatorSpec>)
        ensures
            match r {
                Option::Some(op) => spec_longest_match(self@, s@, pos as int) == Option::Some(op@),
                Option::None => spec_longest_match(self@, s@, pos as int) is None,
            },
    {
        proof {
            lemma_view_table_index(self.entries@);
            assert(self@.skip(self.entries@.len() as int).len() == 0);
        }
        let mut best: Option<OperatorSpec> = None;
        let mut i: usize = self.entries.len();
        while i > 0
            invariant
                i <= self.entries.len(),
                view_table(self.entries@).len() == self.entries@.len(),
                forall|j: int|
                    0 <= j < self.entries@.len() ==> view_table(self.entries@)[j]
                        == self.entries@[j]@,
                match best {
                    Option::Some(op) => spec_longest_match(self@.skip(i as int), s@, pos as int)
                        == Option::Some(op@),
                    Option::None => spec_longest_match(self@.skip(i as int), s@, pos as int) is None,
                },
            decreases i,
        {
            i = i - 1;
            proof {
                assert(self@.skip(i as int)[0] == self.entries@[i as int]@);
                assert(self@.skip(i as int).drop_first() =~= self@.skip(i + 1));
            }
            if match_at(s, pos, &self.entries[i].lexeme) {
                let take_entry = match &best {
                    Option::None => true,
                    Option::Some(b) => !(b.lexeme.len() > self.entries[i].lexeme.len()),
                };
                if take_entry {
                    best = Some(self.entries[i].clone());
                }
            }
        }
        proof {
            assert(self@.skip(0) =~= self@);
        }
        best
    }
}

/// The first entry of the table whose lexeme is `lexeme`.
pub open spec fn spec_lookup(t: Seq<SpecOperator>, lexeme: Seq<u8>) -> Option<SpecOperator>
    decreases t.len(),
{
    if t.len() == 0 {
        None
    } else if t[0].lexeme == lexeme {
        Some(t[0])
    } else {
        spec_lookup(t.drop_first(), lexeme)
    }
}


/// The table of built-in operators, in registration order: `||`, `&&`,
/// `==`, `!=`, `>=`, `<=`, `>`, `<`, `+`, `-`, `*`, `/` and unary `!`.
pub open spec fn builtin_table() -> Seq<SpecOperator> {
    seq![
        SpecOperator { lexeme: seq![124u8, 124u8], info: OpInfo { precedence: 1, arity: Arity::Binary, semantics: OpKind::LogOr } },
        SpecOperator { lexeme: seq![38u8, 38u8], info: OpInfo { precedence: 2, arity: Arity::Binary, semantics: OpKind::LogAnd } },
        SpecOperator { lexeme: seq![61u8, 61u8], info: OpInfo { precedence: 3, arity: Arity::Binary, semantics: OpKind::CmpEq } },
        SpecOperator { lexeme: seq![33u8, 61u8], info: OpInfo { precedence: 3, arity: Arity::Binary, semantics: OpKind::CmpNe } },
        SpecOperator { lexeme: seq![62u8, 61u8], info: OpInfo { precedence: 4, arity: Arity::Binary, semantics: OpKind::CmpGe } },
        SpecOperator { lexeme: seq![60u8, 61u8], info: OpInfo { precedence: 4, arity: Arity::Binary, semantics: OpKind::CmpLe } },
        SpecOperator { lexeme: seq![62u8], info: OpInfo { precedence: 4, arity: Arity::Binary, semantics: OpKind::CmpGt } },
        SpecOperator { lexeme: seq![60u8], info: OpInfo { precedence: 4, arity: Arity::Binary, semantics: OpKind::CmpLt } },
        SpecOperator { lexeme: seq![43u8], info: OpInfo { precedence: 5, arity: Arity::Binary, semantics: OpKind::ArithAdd } },
        SpecOperator { lexeme: seq![45u8], info: OpInfo { precedence: 5, arity: Arity::Binary, semantics: OpKind::ArithSub } },
        SpecOperator { lexeme: seq![42u8], info: OpInfo { precedence: 6, arity: Arity::Binary, semantics: OpKind::ArithMul } },
        SpecOperator { lexeme: seq![47u8], info: OpInfo { precedence: 6, arity: Arity::Binary, semantics: OpKind::ArithDiv } },
        SpecOperator { lexeme: seq![33u8], info: OpInfo { precedence: 7, arity: Arity::Unary, semantics: OpKind::LogNot } },
    ]
}

/// A one-byte lexeme.
fn lex1(a: u8) -> (v: Vec<u8>)
    ensures
        v@ =~= seq![a],
{
    let mut v: Vec<u8> = Vec::new();
    v.push(a);
    v
}

/// A two-byte lexeme.
fn lex2(a: u8, b: u8) -> (v: Vec<u8>)
    ensures
        v@ =~= seq![a, b],
{
    let mut v: Vec<u8> = Vec::new();
    v.push(a);
    v.push(b);
    v
}

impl OptMap {
    /// A fresh table with every built-in operator pre-registered.
    pub fn new() -> (r: OptMap)
        ensures
            r@ == builtin_table(),
    {
        let mut entries: Vec<OperatorSpec> = Vec::new();
        entries.push(OperatorSpec { lexeme: lex2(124u8, 124u8), info: OpInfo { precedence: 1, arity: Arity::Binary, semantics: OpKind::LogOr } });
        entries.push(OperatorSpec { lexeme: lex2(38u8, 38u8), info: OpInfo { precedence: 2, arity: Arity::Binary, semantics: OpKind::LogAnd } });
        entries.push(OperatorSpec { lexeme: lex2(61u8, 61u8), info: OpInfo { precedence: 3, arity: Arity::Binary, semantics: OpKind::CmpEq } });
        entries.push(OperatorSpec { lexeme: lex2(33u8, 61u8), info: OpInfo { precedence: 3, arity: Arity::Binary, semantics: OpKind::CmpNe } });
        entries.push(OperatorSpec { lexeme: lex2(62u8, 61u8), info: OpInfo { precedence: 4, arity: Arity::Binary, semantics: OpKind::CmpGe } });
        entries.push(OperatorSpec { lexeme: lex2(60u8, 61u8), info: OpInfo { precedence: 4, arity: Arity::Binary, semantics: OpKind::CmpLe } });
        entries.push(OperatorSpec { lexeme: lex1(62u8), info: OpInfo { precedence: 4, arity: Arity::Binary, semantics: OpKind::CmpGt } });
        entries.push(OperatorSpec { lexeme: lex1(60u8), info: OpInfo { precedence: 4, arity: Arity::Binary, semantics: OpKind::CmpLt } });
        entries.push(OperatorSpec { lexeme: lex1(43u8), info: OpInfo { precedence: 5, arity: Arity::Binary, semantics: OpKind::ArithAdd } });
        entries.push(OperatorSpec { lexeme: lex1(45u8), info: OpInfo { precedence: 5, arity: Arity::Binary, semantics: OpKind::ArithSub } });
        entries.push(OperatorSpec { lexeme: lex1(42u8), info: OpInfo { precedence: 6, arity: Arity::Binary, semantics: OpKind::ArithMul } });
        entries.push(OperatorSpec { lexeme: lex1(47u8), info: OpInfo { precedence: 6, arity: Arity::Binary, semantics: OpKind::ArithDiv } });
        entries.push(OperatorSpec { lexeme: lex1(33u8), info: OpInfo { precedence: 7, arity: Arity::Unary, semantics: OpKind::LogNot } });
        let r = OptMap { entries };
        proof {
            lemma_view_table_index(r.entries@);
            assert(r@ =~= builtin_table());
        }
        r
    }
}


/// One lexical token.  Text and path tokens are spans (byte offsets) into
/// the expression being tokenized; quotes are excluded from a text span.
#[derive(Clone, Copy, Debug, PartialEq, Eq, Structural)]
pub enum Token {
    /// A quoted string literal: the content is `s[start..end]`.
    Text { start: usize, end: usize },
    /// A numeric literal, already parsed.
    Number(i64),
    /// The `null` (or equivalently `nil`) literal.
    NullLit,
    /// A dotted identifier: the raw span is `s[start..end]`.
    Path { start: usize, end: usize },
    /// An operator, resolved through the table.
    Operator(OpInfo),
    LParen,
    RParen,
}

pub open spec fn is_space(c: u8) -> bool {
    c == 32 || c == 9 || c == 10 || c == 13
}

pub open spec fn is_digit(c: u8) -> bool {
    48 <= c <= 57
}

pub open spec fn is_ident_start(c: u8) -> bool {
    (97 <= c <= 122) || (65 <= c <= 90) || c == 95
}

pub open spec fn is_ident_char(c: u8) -> bool {
    is_ident_start(c) || is_digit(c) || c == 46
}

/// The index of the closing quote `q` at or after `i`, if any.
pub open spec fn find_close(s: Seq<u8>, q: u8, i: int) -> Option<int>
    decreases s.len() - i,
{
    if i < 0 || i >= s.len() {
        None
    } else if s[i] == q {
        Some(i)
    } else {
        find_close(s, q, i + 1)
    }
}

/// The first index at or after `i` that does not hold a digit.
pub open spec fn digit_end(s: Seq<u8>, i: int) -> int
    decreases s.len() - i,
{
    if 0 <= i < s.len() && is_digit(s[i]) {
        digit_end(s, i + 1)
    } else {
        i
    }
}

/// The first index at or after `i` that does not hold an identifier
/// character (letters, digits, `_`, `.`).
pub open spec fn ident_end(s: Seq<u8>, i: int) -> int
    decreases s.len() - i,
{
    if 0 <= i < s.len() && is_ident_char(s[i]) {
        ident_end(s, i + 1)
    } else {
        i
    }
}

/// The value of the digit run `s[i..j)`, or `None` if it exceeds `i64::MAX`.
pub open spec fn num_value(s: Seq<u8>, i: int, j: int) -> Option<i64>
    decreases j - i,
{
    if j <= i {
        Some(0)
    } else {
        match num_value(s, i, j - 1) {
            None => None,
            Some(a) => if a * 10 + (s[j - 1] - 48) > i64::MAX {
                None
            } else {
                Some((a * 10 + (s[j - 1] - 48)) as i64)
            },
        }
    }
}

/// Whether `s[i..j)` spells `null`.
pub open spec fn is_null_word(s: Seq<u8>, i: int, j: int) -> bool {
    j - i == 4 && 0 <= i && j <= s.len() && s[i] == 110 && s[i + 1] == 117 && s[i + 2] == 108
        && s[i + 3] == 108
}

/// Whether `s[i..j)` spells `nil`.
pub open spec fn is_nil_word(s: Seq<u8>, i: int, j: int) -> bool {
    j - i == 3 && 0 <= i && j <= s.len() && s[i] == 110 && s[i + 1] == 105 && s[i + 2] == 108
}

/// A successful longest match satisfies the match predicate.
pub proof fn lemma_longest_match_props(t: Seq<SpecOperator>, s: Seq<u8>, pos: int)
    requires
        spec_longest_match(t, s, pos) is Some,
    ensures
        spec_match_at(s, pos, spec_longest_match(t, s, pos)->Some_0.lexeme),
    decreases t.len(),
{
    if t.len() > 0 {
        if spec_longest_match(t.drop_first(), s, pos) is Some {
            lemma_longest_match_props(t.drop_first(), s, pos);
        }
    }
}

/// The tokens of `s` from position `pos` on, or the first syntax error.
/// `sign_ok` records whether a numeric literal at this position may begin
/// with a sign (true at the start of the expression and after an operator
/// or an opening parenthesis).
pub open spec fn spec_tokenize_from(
    s: Seq<u8>,
    t: Seq<SpecOperator>,
    pos: int,
    sign_ok: bool,
) -> Result<Seq<Token>, SyntaxError>
    decreases s.len() - pos, 
    via spec_tokenize_from_dec
{
    if pos < 0 || pos >= s.len() {
        Ok(Seq::empty())
    } else {
        let c = s[pos];
        if is_space(c) {
            spec_tokenize_from(s, t, pos + 1, sign_ok)
        } else if c == 39 || c == 96 {
            match find_close(s, c, pos + 1) {
                None => Err(SyntaxError { pos: pos as usize, kind: SyntaxErrorKind::UnterminatedText }),
                Some(j) => match spec_tokenize_from(s, t, j + 1, false) {
                    Err(e) => Err(e),
                    Ok(ts) => Ok(
                        seq![Token::Text { start: (pos + 1) as usize, end: j as usize }] + ts,
                    ),
                },
            }
        } else if is_digit(c) || ((c == 43 || c == 45) && sign_ok && pos + 1 < s.len() && is_digit(
            s[pos + 1],
        )) {
            let neg = c == 45;
            let d0 = if is_digit(c) { pos } else { pos + 1 };
            let j = digit_end(s, d0);
            if j < s.len() && s[j] == 46 {
                Err(SyntaxError { pos: pos as usize, kind: SyntaxErrorKind::FractionalNumber })
            } else {
                match num_value(s, d0, j) {
                    None => Err(
                        SyntaxError { pos: pos as usize, kind: SyntaxErrorKind::NumberTooLarge },
                    ),
                    Some(m) => match spec_tokenize_from(s, t, j, false) {
                        Err(e) => Err(e),
                        Ok(ts) => Ok(
                            seq![
                                Token::Number(
                                    if neg {
                                        (-(m as int)) as i64
                                    } else {
                                        m
                                    },
                                ),
                            ] + ts,
                        ),
                    },
                }
            }
        } else if is_ident_start(c) {
            let j = ident_end(s, pos);
            let tok = if is_null_word(s, pos, j) || is_nil_word(s, pos, j) {
                Token::NullLit
            } else {
                Token::Path { start: pos as usize, end: j as usize }
            };
            match spec_tokenize_from(s, t, j, false) {
                Err(e) => Err(e),
                Ok(ts) => Ok(seq![tok] + ts),
            }
        } else if c == 40 {
            match spec_tokenize_from(s, t, pos + 1, true) {
                Err(e) => Err(e),
                Ok(ts) => Ok(seq![Token::LParen] + ts),
            }
        } else if c == 41 {
            match spec_tokenize_from(s, t, pos + 1, false) {
                Err(e) => Err(e),
                Ok(ts) => Ok(seq![Token::RParen] + ts),
            }
        } else {
            match spec_longest_match(t, s, pos) {
                None => Err(SyntaxError { pos: pos as usize, kind: SyntaxErrorKind::UnknownOperator }),
                Some(op) => match spec_tokenize_from(s, t, pos + op.lexeme.len(), true) {
                    Err(e) => Err(e),
                    Ok(ts) => Ok(seq![Token::Operator(op.info)] + ts),
                },
            }
        }
    }
}

#[via_fn]
proof fn spec_tokenize_from_dec(s: Seq<u8>, t: Seq<SpecOperator>, pos: int, sign_ok: bool) {
    if 0 <= pos < s.len() {
        let c = s[pos];
        if c == 39 || c == 96 {
            lemma_find_close_bounds(s, c, pos + 1);
        }
        if is_digit(c) {
            lemma_digit_end_bounds(s, pos + 1);
        }
        if pos + 1 < s.len() && is_digit(s[pos + 1]) {
            lemma_digit_end_bounds(s, pos + 2);
        }
        if is_ident_start(c) {
            lemma_ident_end_bounds(s, pos + 1);
        }
        if spec_longest_match(t, s, pos) is Some {
            lemma_longest_match_props(t, s, pos);
        }
    }
}

/// `find_close` stays within `[i, s.len())`.
pub proof fn lemma_find_close_bounds(s: Seq<u8>, q: u8, i: int)
    ensures
        match find_close(s, q, i) {
            Some(j) => i <= j < s.len(),
            None => true,
        },
    decreases s.len() - i,
{
    if 0 <= i < s.len() && s[i] != q {
        lemma_find_close_bounds(s, q, i + 1);
    }
}

/// `digit_end` stays within `[i, s.len()]` for `i` in range.
pub proof fn lemma_digit_end_bounds(s: Seq<u8>, i: int)
    requires
        0 <= i <= s.len(),
    ensures
        i <= digit_end(s, i) <= s.len(),
    decreases s.len() - i,
{
    if i < s.len() && is_digit(s[i]) {
        lemma_digit_end_bounds(s, i + 1);
    }
}

/// `ident_end` stays within `[i, s.len()]` for `i` in range.
pub proof fn lemma_ident_end_bounds(s: Seq<u8>, i: int)
    requires
        0 <= i <= s.len(),
    ensures
        i <= ident_end(s, i) <= s.len(),
    decreases s.len() - i,
{
    if i < s.len() && is_ident_char(s[i]) {
        lemma_ident_end_bounds(s, i + 1);
    }
}


/// Whether an executable tokenizing result matches a specified one.
pub open spec fn tok_res_matches(
    r: Result<Vec<Token>, SyntaxError>,
    sp: Result<Seq<Token>, SyntaxError>,
) -> bool {
    match (r, sp) {
        (Ok(v), Ok(q)) => v@ == q,
        (Err(a), Err(b)) => a == b,
        _ => false,
    }
}

fn find_close_x(s: &Vec<u8>, q: u8, i: usize) -> (r: Option<usize>)
    requires
        i <= s@.len(),
    ensures
        match r {
            Some(j) => find_close(s@, q, i as int) == Some(j as int) && i <= j < s@.len(),
            None => find_close(s@, q, i as int) is None,
        },
    decreases s@.len() - i,
{
    if i >= s.len() {
        None
    } else if s[i] == q {
        Some(i)
    } else {
        find_close_x(s, q, i + 1)
    }
}

pub fn digit_end_x(s: &Vec<u8>, i: usize) -> (r: usize)
    requires
        i <= s@.len(),
    ensures
        r as int == digit_end(s@, i as int),
        i <= r <= s@.len(),
    decreases s@.len() - i,
{
    if i < s.len() && 48 <= s[i] && s[i] <= 57 {
        digit_end_x(s, i + 1)
    } else {
        i
    }
}

fn ident_char_x(c: u8) -> (r: bool)
    ensures
        r == is_ident_char(c),
{
    (97 <= c && c <= 122) || (65 <= c && c <= 90) || c == 95 || (48 <= c && c <= 57) || c == 46
}

fn ident_end_x(s: &Vec<u8>, i: usize) -> (r: usize)
    requires
        i <= s@.len(),
    ensures
        r as int == ident_end(s@, i as int),
        i <= r <= s@.len(),
    decreases s@.len() - i,
{
    if i < s.len() && ident_char_x(s[i]) {
        ident_end_x(s, i + 1)
    } else {
        i
    }
}

pub fn num_value_x(s: &Vec<u8>, i: usize, j: usize) -> (r: Option<i64>)
    requires
        i <= j <= s@.len(),
        digit_end(s@, i as int) >= j,
    ensures
        r == num_value(s@, i as int, j as int),
    decreases j - i,
{
    if j <= i {
        Some(0)
    } else {
        proof {
            lemma_digit_run(s@, i as int, j as int);
            lemma_num_value_nonneg(s@, i as int, j - 1 as int);
        }
        match num_value_x(s, i, j - 1) {
            None => None,
            Some(a) => {
                let d = s[j - 1] - 48;
                match a.checked_mul(10) {
                    None => None,
                    Some(m) => m.checked_add(d as i64),
                }
            },
        }
    }
}

/// Every index of a digit run up to `digit_end` holds a digit.
pub proof fn lemma_digit_run(s: Seq<u8>, i: int, j: int)
    requires
        0 <= i,
        j <= digit_end(s, i),
    ensures
        forall|k: int| i <= k < j ==> is_digit(#[trigger] s[k]) && 0 <= k < s.len(),
    decreases j - i,
{
    if i < j {
        lemma_digit_run(s, i + 1, j)
    }
}

fn tokenize_from(s: &Vec<u8>, t: &OptMap, pos: usize, sign_ok: bool) -> (r: Result<
    Vec<Token>,
    SyntaxError,
>)
    requires
        pos <= s@.len(),
    ensures
        tok_res_matches(r, spec_tokenize_from(s@, t@, pos as int, sign_ok)),
    decreases s@.len() - pos,
{
    if pos >= s.len() {
        return Ok(Vec::new());
    }
    let c = s[pos];
    if c == 32 || c == 9 || c == 10 || c == 13 {
        return tokenize_from(s, t, pos + 1, sign_ok);
    }
    if c == 39 || c == 96 {
        match find_close_x(s, c, pos + 1) {
            None => {
                return Err(SyntaxError { pos, kind: SyntaxErrorKind::UnterminatedText });
            },
            Some(j) => {
                match tokenize_from(s, t, j + 1, false) {
                    Err(e) => {
                        return Err(e);
                    },
                    Ok(mut v) => {
                        let tok = Token::Text { start: pos + 1, end: j };
                        let ghost vs = v@;
                        v.insert(0, tok);
                        proof {
                            assert(v@ =~= seq![tok] + vs);
                        }
                        return Ok(v);
                    },
                }
            },
        }
    }
    let c_digit = 48 <= c && c <= 57;
    let sign_start = (c == 43 || c == 45) && sign_ok && pos + 1 < s.len() && 48 <= s[pos + 1]
        && s[pos + 1] <= 57;
    if c_digit || sign_start {
        let neg = c == 45;
        let d0 = if c_digit {
            pos
        } else {
            pos + 1
        };
        let j = digit_end_x(s, d0);
        proof {
            if c_digit {
                lemma_digit_end_bounds(s@, pos + 1 as int);
            }
        }
        if j < s.len() && s[j] == 46 {
            return Err(SyntaxError { pos, kind: SyntaxErrorKind::FractionalNumber });
        }
        match num_value_x(s, d0, j) {
            None => {
                return Err(SyntaxError { pos, kind: SyntaxErrorKind::NumberTooLarge });
            },
            Some(m) => {
                proof {
                    lemma_num_value_nonneg(s@, d0 as int, j as int);
                }
                let value: i64 = if neg {
                    -m
                } else {
                    m
                };
                match tokenize_from(s, t, j, false) {
                    Err(e) => {
                        return Err(e);
                    },
                    Ok(mut v) => {
                        let tok = Token::Number(value);
                        let ghost vs = v@;
                        v.insert(0, tok);
                        proof {
                            assert(v@ =~= seq![tok] + vs);
                        }
                        return Ok(v);
                    },
                }
            },
        }
    }
    let c_ident = (97 <= c && c <= 122) || (65 <= c && c <= 90) || c == 95;
    if c_ident {
        let j = ident_end_x(s, pos);
        proof {
            lemma_ident_end_bounds(s@, pos + 1 as int);
        }
        let null_word = j - pos == 4 && s[pos] == 110 && s[pos + 1] == 117 && s[pos + 2] == 108
            && s[pos + 3] == 108;
        let nil_word = j - pos == 3 && s[pos] == 110 && s[pos + 1] == 105 && s[pos + 2] == 108;
        let tok = if null_word || nil_word {
            Token::NullLit
        } else {
            Token::Path { start: pos, end: j }
        };
        match tokenize_from(s, t, j, false) {
            Err(e) => {
                return Err(e);
            },
            Ok(mut v) => {
                let ghost vs = v@;
                v.insert(0, tok);
                proof {
                    assert(v@ =~= seq![tok] + vs);
                }
                return Ok(v);
            },
        }
    }
    if c == 40 || c == 41 {
        let tok = if c == 40 {
            Token::LParen
        } else {
            Token::RParen
        };
        match tokenize_from(s, t, pos + 1, c == 40) {
            Err(e) => {
                return Err(e);
            },
            Ok(mut v) => {
                let ghost vs = v@;
                v.insert(0, tok);
                proof {
                    assert(v@ =~= seq![tok] + vs);
                }
                return Ok(v);
            },
        }
    }
    match t.longest_match(s, pos) {
        None => Err(SyntaxError { pos, kind: SyntaxErrorKind::UnknownOperator }),
        Some(op) => {
            proof {
                lemma_longest_match_props(t@, s@, pos as int);
            }
            let next = pos + op.lexeme.len();
            match tokenize_from(s, t, next, true) {
                Err(e) => Err(e),
                Ok(mut v) => {
                    let tok = Token::Operator(op.info);
                    let ghost vs = v@;
                    v.insert(0, tok);
                    proof {
                        assert(v@ =~= seq![tok] + vs);
                    }
                    Ok(v)
                },
            }
        },
    }
}

/// Digit-run values are non-negative.
pub proof fn lemma_num_value_nonneg(s: Seq<u8>, i: int, j: int)
    requires
        0 <= i,
        j <= digit_end(s, i),
    ensures
        match num_value(s, i, j) {
            Some(m) => m >= 0,
            None => true,
        },
    decreases j - i,
{
    if j > i {
        lemma_digit_run(s, i, j);
        lemma_num_value_nonneg(s, i, j - 1);
    }
}

/// The tokens of the whole expression, scanning from the start with a
/// leading sign allowed.
pub open spec fn spec_tokenize(s: Seq<u8>, t: Seq<SpecOperator>) -> Result<Seq<Token>, SyntaxError> {
    spec_tokenize_from(s, t, 0, true)
}

/// Tokenizes an expression string against an operator table.
pub fn parser_tokens(express: &str, opt_map: &OptMap) -> (r: Result<Vec<Token>, SyntaxError>)
    ensures
        tok_res_matches(r, spec_tokenize(express.spec_bytes(), opt_map@)),
{
    let bytes = vstd::slice::slice_to_vec(express.as_bytes());
    tokenize_from(&bytes, opt_map, 0, true)
}

} // verus!



