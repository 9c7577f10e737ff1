use vstd::prelude::*;

use crate::text::{chars_of, decimal, is_text, push_char, push_decimal, string_of};
use crate::token::{fixed_text, Kind, Token, TokenType, TokenView};
use crate::tokenlist::TokenList;

verus! {

// ---------------------------------------------------------------------------
// The lexical grammar, as spec functions over the source characters.
// ---------------------------------------------------------------------------

pub open spec fn is_newline(c: char) -> bool {
    c == '\n' || c == '\r'
}

pub open spec fn is_digit(c: char) -> bool {
    '0' <= c && c <= '9'
}

pub open spec fn is_word_start(c: char) -> bool {
    ('a' <= c && c <= 'z') || ('A' <= c && c <= 'Z') || c == '_'
}

pub open spec fn is_word_char(c: char) -> bool {
    is_word_start(c) || is_digit(c)
}

/// How many newline characters `t` holds.
pub open spec fn newlines(t: Seq<char>) -> nat
    decreases t.len(),
{
    if t.len() == 0 {
        0
    } else {
        newlines(t.drop_last()) + if is_newline(t.last()) { 1nat } else { 0nat }
    }
}

/// The line that position `p` of `s` lies on: one more than the newlines before it.
pub open spec fn line_at(s: Seq<char>, p: int) -> nat {
    newlines(s.take(p)) + 1
}

/// The symbols that stand for themselves as one character.
pub open spec fn single_symbol(c: char) -> Option<Kind> {
    if c == '>' { Some(Kind::Gt) }
    else if c == '.' { Some(Kind::Dot) }
    else if c == '{' { Some(Kind::LBr) }
    else if c == '}' { Some(Kind::RBr) }
    else if c == '%' { Some(Kind::Per) }
    else if c == ';' { Some(Kind::Semi) }
    else if c == '#' { Some(Kind::Hash) }
    else if c == '*' { Some(Kind::Star) }
    else if c == '+' { Some(Kind::Plus) }
    else if c == '-' { Some(Kind::Dash) }
    else if c == '(' { Some(Kind::LPar) }
    else if c == ')' { Some(Kind::RPar) }
    else if c == '?' { Some(Kind::QMark) }
    else { None }
}

/// The keyword whose text is `w`, if any.
pub open spec fn keyword(w: Seq<char>) -> Option<Kind> {
    if w == fixed_text(Kind::Ret) { Some(Kind::Ret) }
    else if w == fixed_text(Kind::Exit) { Some(Kind::Exit) }
    else if w == fixed_text(Kind::Decl) { Some(Kind::Decl) }
    else if w == fixed_text(Kind::If) { Some(Kind::If) }
    else if w == fixed_text(Kind::Func) { Some(Kind::Func) }
    else if w == fixed_text(Kind::For) { Some(Kind::For) }
    else if w == fixed_text(Kind::Mac) { Some(Kind::Mac) }
    else if w == fixed_text(Kind::Use) { Some(Kind::Use) }
    else { None }
}

/// Length of the run of word characters starting at `i`.
pub open spec fn word_len(s: Seq<char>, i: int) -> nat
    decreases s.len() - i,
{
    if 0 <= i < s.len() && is_word_char(s[i]) {
        1 + word_len(s, i + 1)
    } else {
        0
    }
}

/// Length of the run of digits starting at `i`.
pub open spec fn digits_len(s: Seq<char>, i: int) -> nat
    decreases s.len() - i,
{
    if 0 <= i < s.len() && is_digit(s[i]) {
        1 + digits_len(s, i + 1)
    } else {
        0
    }
}

/// Length of the run of characters other than `c` starting at `i`.
pub open spec fn span_len(s: Seq<char>, i: int, c: char) -> nat
    decreases s.len() - i,
{
    if 0 <= i < s.len() && s[i] != c {
        1 + span_len(s, i + 1, c)
    } else {
        0
    }
}

/// Length of the rest of the line starting at `i`.
pub open spec fn comment_len(s: Seq<char>, i: int) -> nat
    decreases s.len() - i,
{
    if 0 <= i < s.len() && !is_newline(s[i]) {
        1 + comment_len(s, i + 1)
    } else {
        0
    }
}

/// The body of a string literal starting at `i`: the characters it stands for,
/// and how many source characters come before its closing quote.
/// A backslash before a quote stands for the quote; any other backslash stands
/// for itself.
pub open spec fn string_body(s: Seq<char>, i: int) -> (Seq<char>, nat)
    decreases s.len() - i,
{
    if !(0 <= i < s.len()) || s[i] == '"' {
        (Seq::empty(), 0)
    } else if s[i] == '\\' && i + 1 < s.len() && s[i + 1] == '"' {
        let r = string_body(s, i + 2);
        (seq!['"'] + r.0, r.1 + 2)
    } else {
        let r = string_body(s, i + 1);
        (seq![s[i]] + r.0, r.1 + 1)
    }
}

/// The low-level text a string literal is lowered to: obtain a buffer of
/// `len + 9` bytes, store the length at its start, each byte from offset 8 on,
/// and a terminating zero.
pub open spec fn lowered(content: Seq<char>) -> Seq<char> {
    lowered_head(content.len()) + lowered_bytes(content, 0) + lowered_tail(content.len())
}

pub open spec fn lowered_head(n: nat) -> Seq<char> {
    "    mov rax, 9\n    mov rsi, "@ + decimal(n + 9)
        + "\n    mov rdx, 3\n    mov r10, 33\n    mov r8, 255\n    mov r9, 0\n    syscall\n    mov QWORD [rax], "@
        + decimal(n) + "\n"@
}

/// The byte stored for a character: the low eight bits of its code point.
pub open spec fn byte_of(c: char) -> nat {
    ((c as u32) % 256) as nat
}

pub open spec fn byte_line(offset: nat, value: nat) -> Seq<char> {
    "    mov byte [rax + "@ + decimal(offset) + "], "@ + decimal(value) + "\n"@
}

/// The stores for the characters of `content` from index `i` on.
pub open spec fn lowered_bytes(content: Seq<char>, i: int) -> Seq<char>
    decreases content.len() - i,
{
    if 0 <= i < content.len() {
        byte_line((i + 8) as nat, byte_of(content[i])) + lowered_bytes(content, i + 1)
    } else {
        Seq::empty()
    }
}

pub open spec fn lowered_tail(n: nat) -> Seq<char> {
    "    mov byte [rax + "@ + decimal(n + 8) + "], 0\n"@
}

/// Why tokenizing stopped.
#[derive(Clone, Copy, Debug, PartialEq, Eq, Structural)]
pub enum LexErrorKind {
    /// A character that starts no token, or a `|` not followed by another.
    UnexpectedChar(char),
    /// The input ended inside a literal.
    UnexpectedEnd,
}

/// A tokenizing error and the line it was found on.
#[derive(Clone, Copy, Debug, PartialEq, Eq, Structural)]
pub struct LexError {
    pub kind: LexErrorKind,
    pub line: usize,
}

pub struct LexFailure {
    pub kind: LexErrorKind,
    pub line: nat,
}

impl View for LexError {
    type V = LexFailure;

    open spec fn view(&self) -> LexFailure {
        LexFailure { kind: self.kind, line: self.line as nat }
    }
}

/// One step of the tokenizer: the tokens it emits and where it goes on, or
/// the error it stops with.
pub enum Scan {
    Emit(Seq<TokenView>, int),
    Fail(LexFailure),
}

/// A token of kind `k` with payload `text`, on the line of position `p`.
pub open spec fn tok(s: Seq<char>, p: int, k: Kind, text: Seq<char>) -> TokenView {
    TokenView { kind: k, text, line: line_at(s, p) }
}

pub open spec fn bare(s: Seq<char>, p: int, k: Kind) -> Seq<TokenView> {
    seq![tok(s, p, k, Seq::empty())]
}

pub open spec fn after_use(acc: Seq<TokenView>) -> bool {
    acc.len() > 0 && acc.last().kind == Kind::Use
}

/// `c` at `pos`, then either another `c` (giving `double`) or not (giving `single`).
pub open spec fn one_or_two(s: Seq<char>, pos: int, c: char, single: Kind, double: Kind) -> Scan {
    if pos + 1 < s.len() && s[pos + 1] == c {
        Scan::Emit(bare(s, pos + 2, double), pos + 2)
    } else {
        Scan::Emit(bare(s, pos + 1, single), pos + 1)
    }
}

/// `c` at `pos`, which must be followed by another `c`.
pub open spec fn two_only(s: Seq<char>, pos: int, c: char, double: Kind) -> Scan {
    if pos + 1 < s.len() && s[pos + 1] == c {
        Scan::Emit(bare(s, pos + 2, double), pos + 2)
    } else {
        Scan::Fail(LexFailure { kind: LexErrorKind::UnexpectedChar(c), line: line_at(s, pos + 1) })
    }
}

/// A literal opened at `pos` and closed by `close`, giving a token of kind `k`
/// with the enclosed text.
pub open spec fn delimited(s: Seq<char>, pos: int, close: char, k: Kind) -> Scan {
    let n = span_len(s, pos + 1, close);
    if pos + 1 + n >= s.len() {
        Scan::Fail(LexFailure { kind: LexErrorKind::UnexpectedEnd, line: line_at(s, s.len() as int) })
    } else {
        Scan::Emit(seq![tok(s, pos + 2 + n, k, s.subrange(pos + 1, pos + 1 + n))], pos + 2 + n)
    }
}

/// A comment: `//` and the rest of its line, which emits nothing.
pub open spec fn comment_scan(s: Seq<char>, pos: int) -> Scan {
    Scan::Emit(Seq::empty(), pos + 1 + comment_len(s, pos + 1))
}

/// A word: a keyword, or else an identifier.
pub open spec fn word_scan(s: Seq<char>, pos: int) -> Scan {
    let n = 1 + word_len(s, pos + 1);
    let w = s.subrange(pos, pos + n);
    if keyword(w) is Some {
        Scan::Emit(bare(s, pos + n, keyword(w)->0), pos + n)
    } else {
        Scan::Emit(seq![tok(s, pos + n, Kind::Var, w)], pos + n)
    }
}

/// An integer literal: a run of digits, kept as text.
pub open spec fn number_scan(s: Seq<char>, pos: int) -> Scan {
    let n = 1 + digits_len(s, pos + 1);
    Scan::Emit(seq![tok(s, pos + n, Kind::Int, s.subrange(pos, pos + n))], pos + n)
}

/// A string literal, lowered to a raw-instruction literal.
pub open spec fn string_scan(s: Seq<char>, pos: int) -> Scan {
    let (body, n) = string_body(s, pos + 1);
    if pos + 1 + n >= s.len() {
        Scan::Fail(LexFailure { kind: LexErrorKind::UnexpectedEnd, line: line_at(s, s.len() as int) })
    } else {
        Scan::Emit(seq![tok(s, pos + 2 + n, Kind::Asm, lowered(body))], pos + 2 + n)
    }
}

/// The step taken at position `pos < s.len()`; `prev_use` tells whether the
/// last token emitted is the `use` keyword.
pub open spec fn step(s: Seq<char>, pos: int, prev_use: bool) -> Scan {
    let c = s[pos];
    if single_symbol(c) is Some {
        Scan::Emit(bare(s, pos, single_symbol(c)->0), pos + 1)
    } else if c == '|' {
        two_only(s, pos, '|', Kind::DPipe)
    } else if c == '=' {
        one_or_two(s, pos, '=', Kind::Eq, Kind::DEq)
    } else if c == '&' {
        one_or_two(s, pos, '&', Kind::Amp, Kind::DAmp)
    } else if c == '/' {
        if pos + 1 < s.len() && s[pos + 1] == '/' {
            comment_scan(s, pos)
        } else {
            Scan::Emit(bare(s, pos + 1, Kind::Slash), pos + 1)
        }
    } else if c == '!' || c == '@' {
        let op = if c == '!' { Kind::Ex } else { Kind::At };
        Scan::Emit(seq![tok(s, pos, Kind::Int, seq!['0']), tok(s, pos, op, Seq::empty())], pos + 1)
    } else if c == '<' {
        if prev_use {
            delimited(s, pos, '>', Kind::Path)
        } else {
            Scan::Emit(bare(s, pos + 1, Kind::Lt), pos + 1)
        }
    } else if c == '`' {
        delimited(s, pos, '`', Kind::Asm)
    } else if c == '"' {
        string_scan(s, pos)
    } else if c == ' ' || is_newline(c) {
        Scan::Emit(Seq::empty(), pos + 1)
    } else if is_word_start(c) {
        word_scan(s, pos)
    } else if is_digit(c) {
        number_scan(s, pos)
    } else {
        Scan::Fail(LexFailure { kind: LexErrorKind::UnexpectedChar(c), line: line_at(s, pos) })
    }
}

/// Tokenizing `s` from position `pos`, after the tokens `acc`: all tokens,
/// closed by the end-of-input token, or the first error.
pub open spec fn lex_from(s: Seq<char>, pos: int, acc: Seq<TokenView>) -> Result<Seq<TokenView>, LexFailure>
    decreases s.len() - pos,
{
    if pos < 0 || pos >= s.len() {
        Ok(acc.push(tok(s, s.len() as int, Kind::Eof, Seq::empty())))
    } else {
        match step(s, pos, after_use(acc)) {
            Scan::Emit(ts, next) => if pos < next <= s.len() { lex_from(s, next, acc + ts) } else { Ok(acc) },
            Scan::Fail(e) => Err(e),
        }
    }
}

/// The tokens of the source text `s`, or the first error in it.
pub open spec fn lex(s: Seq<char>) -> Result<Seq<TokenView>, LexFailure> {
    lex_from(s, 0, Seq::empty())
}

pub proof fn lemma_line_step(s: Seq<char>, p: int)
    requires
        0 <= p < s.len(),
    ensures
        line_at(s, p + 1) == line_at(s, p) + if is_newline(s[p]) { 1nat } else { 0nat },
{
    assert(s.take(p + 1).drop_last() =~= s.take(p));
}

/// The text a string literal with characters `content` is lowered to.
pub fn lower_string(content: &Vec<char>) -> (r: String)
    requires
        content@.len() <= isize::MAX,
    ensures
        r@ == lowered(content@),
{
    let n = content.len();
    let mut s = String::new();
    s.append("    mov rax, 9\n    mov rsi, ");
    push_decimal(&mut s, n + 9);
    s.append("\n    mov rdx, 3\n    mov r10, 33\n    mov r8, 255\n    mov r9, 0\n    syscall\n    mov QWORD [rax], ");
    push_decimal(&mut s, n);
    s.append("\n");
    assert(s@ =~= lowered_head(n as nat));
    let mut i: usize = 0;
    while i < n
        invariant
            n == content@.len(),
            n <= isize::MAX,
            i <= n,
            s@ + lowered_bytes(content@, i as int) == lowered_head(n as nat) + lowered_bytes(content@, 0),
        decreases n - i,
    {
        let ghost before = s@;
        let b = ((content[i] as u32) % 256) as usize;
        s.append("    mov byte [rax + ");
        push_decimal(&mut s, i + 8);
        s.append("], ");
        push_decimal(&mut s, b);
        s.append("\n");
        assert(s@ =~= before + byte_line((i + 8) as nat, byte_of(content@[i as int])));
        assert(s@ + lowered_bytes(content@, i + 1) =~= before + lowered_bytes(content@, i as int));
        i = i + 1;
    }
    assert(s@ =~= lowered_head(n as nat) + lowered_bytes(content@, 0));
    s.append("    mov byte [rax + ");
    push_decimal(&mut s, n + 8);
    s.append("], 0\n");
    assert(s@ =~= lowered(content@));
    s
}

/// The text `0`.
fn zero() -> (r: String)
    ensures
        r@ == seq!['0'],
{
    let z = vec!['0'];
    assert(z@ =~= seq!['0']);
    string_of(&z)
}

/// The keyword category spelled by `w`, if any.
fn keyword_of(w: &Vec<char>) -> (r: Option<TokenType>)
    ensures
        keyword(w@) is Some <==> r is Some,
        r matches Some(t) ==> t.kind_spec() == keyword(w@)->0 && t.payload_spec() == Seq::<char>::empty(),
{
    if is_text(w, "return") {
        Some(TokenType::Ret)
    } else if is_text(w, "exit") {
        Some(TokenType::Exit)
    } else if is_text(w, "decl") {
        Some(TokenType::Decl)
    } else if is_text(w, "if") {
        Some(TokenType::If)
    } else if is_text(w, "func") {
        Some(TokenType::Func)
    } else if is_text(w, "for") {
        Some(TokenType::For)
    } else if is_text(w, "mac") {
        Some(TokenType::Mac)
    } else if is_text(w, "use") {
        Some(TokenType::Use)
    } else {
        None
    }
}

/// Turns source text into tokens, each with the line it was read on.
pub struct Tokenizer {
    chars: Vec<char>,
    pos: usize,
    line: usize,
    pub tokens: TokenList,
}

impl Tokenizer {
    /// The source text.
    pub closed spec fn source(&self) -> Seq<char> {
        self.chars@
    }

    /// How many characters of the source have been read.
    pub closed spec fn cursor(&self) -> int {
        self.pos as int
    }

    /// The tokens produced so far.
    pub closed spec fn emitted(&self) -> Seq<TokenView> {
        self.tokens@
    }

    pub closed spec fn wf(&self) -> bool {
        &&& self.chars@.len() <= isize::MAX
        &&& self.pos <= self.chars@.len()
        &&& self.line == line_at(self.chars@, self.pos as int)
        &&& self.line <= self.pos + 1
    }

    /// The token of category `t` on the current line.
    pub open spec fn here(&self, t: TokenType) -> TokenView {
        TokenView { kind: t.kind_spec(), text: t.payload_spec(), line: line_at(self.source(), self.cursor()) }
    }

    /// A tokenizer at the start of `text`, on line 1, with no tokens yet.
    pub fn new(text: &str) -> (r: Tokenizer)
        requires
            text@.len() <= isize::MAX,
        ensures
            r.wf(),
            r.source() == text@,
            r.cursor() == 0,
            r.emitted() == Seq::<TokenView>::empty(),
    {
        let r = Tokenizer { chars: chars_of(text), pos: 0, line: 1, tokens: TokenList::new() };
        assert(r.chars@.take(0) =~= Seq::<char>::empty());
        r
    }

    /// The tokens produced, oldest first.
    pub fn into_tokens(self) -> (r: Vec<Token>)
        ensures
            r@.map_values(|t: Token| t@) == self.emitted(),
    {
        self.tokens.into_vec()
    }

    fn peek(&self) -> (r: Option<char>)
        requires
            self.wf(),
        ensures
            r == if self.cursor() < self.source().len() {
                Some(self.source()[self.cursor()])
            } else {
                None::<char>
            },
    {
        if self.pos < self.chars.len() {
            Some(self.chars[self.pos])
        } else {
            None
        }
    }

    /// Moves past one character, counting lines.
    fn next(&mut self)
        requires
            old(self).wf(),
            old(self).cursor() < old(self).source().len(),
        ensures
            final(self).wf(),
            final(self).source() == old(self).source(),
            final(self).cursor() == old(self).cursor() + 1,
            final(self).emitted() == old(self).emitted(),
    {
        proof { lemma_line_step(self.chars@, self.pos as int); }
        if self.chars[self.pos] == '\n' || self.chars[self.pos] == '\r' {
            self.line = self.line + 1;
        }
        self.pos = self.pos + 1;
    }

    fn push_token(&mut self, t_type: TokenType)
        requires
            old(self).wf(),
        ensures
            final(self).wf(),
            final(self).source() == old(self).source(),
            final(self).cursor() == old(self).cursor(),
            final(self).emitted() == old(self).emitted().push(old(self).here(t_type)),
    {
        let line = self.line;
        self.tokens.push(Token { t_type, line });
    }

    /// The effect of one tokenizer call from `before` to `after` with result `r`
    /// is the scan `sc`.
    pub open spec fn stepped(before: Tokenizer, after: Tokenizer, r: Result<(), LexError>, sc: Scan) -> bool {
        &&& after.source() == before.source()
        &&& match sc {
            Scan::Emit(ts, next) => {
                &&& r is Ok
                &&& after.wf()
                &&& after.cursor() == next
                &&& after.emitted() =~= before.emitted() + ts
            },
            Scan::Fail(e) => r matches Err(x) && x@ == e,
        }
    }

    fn tokenize_word(&mut self)
        requires
            old(self).wf(),
            old(self).cursor() < old(self).source().len(),
            is_word_start(old(self).source()[old(self).cursor()]),
        ensures
            Self::stepped(*old(self), *final(self), Ok(()), word_scan(old(self).source(), old(self).cursor())),
    {
        let ghost src = self.chars@;
        let ghost start = self.pos as int;
        let mut token: Vec<char> = Vec::new();
        loop
            invariant
                self.wf(),
                self.source() == src,
                src == old(self).source(),
                start == old(self).cursor(),
                start < src.len(),
                is_word_char(src[start]),
                self.emitted() == old(self).emitted(),
                start <= self.cursor() <= src.len(),
                token@ == src.subrange(start, self.cursor()),
                (self.cursor() - start) + word_len(src, self.cursor()) == word_len(src, start),
            ensures
                self.cursor() == src.len() || !is_word_char(src[self.cursor()]),
            decreases src.len() - self.cursor(),
        {
            match self.peek() {
                Some(ch) => {
                    if ('0' <= ch && ch <= '9') || ('a' <= ch && ch <= 'z') || ('A' <= ch && ch <= 'Z') || ch == '_' {
                        self.next();
                        token.push(ch);
                        assert(token@ =~= src.subrange(start, self.cursor()));
                    } else {
                        break;
                    }
                },
                None => break,
            }
        }
        match keyword_of(&token) {
            Some(t) => self.push_token(t),
            None => self.push_token(TokenType::Var(string_of(&token))),
        }
    }

    fn tokenize_num(&mut self)
        requires
            old(self).wf(),
            old(self).cursor() < old(self).source().len(),
            is_digit(old(self).source()[old(self).cursor()]),
        ensures
            Self::stepped(*old(self), *final(self), Ok(()), number_scan(old(self).source(), old(self).cursor())),
    {
        let ghost src = self.chars@;
        let ghost start = self.pos as int;
        let mut val: Vec<char> = Vec::new();
        loop
            invariant
                self.wf(),
                self.source() == src,
                src == old(self).source(),
                start == old(self).cursor(),
                start < src.len(),
                is_digit(src[start]),
                self.emitted() == old(self).emitted(),
                start <= self.cursor() <= src.len(),
                val@ == src.subrange(start, self.cursor()),
                (self.cursor() - start) + digits_len(src, self.cursor()) == digits_len(src, start),
            ensures
                self.cursor() == src.len() || !is_digit(src[self.cursor()]),
            decreases src.len() - self.cursor(),
        {
            match self.peek() {
                Some(ch) => {
                    if '0' <= ch && ch <= '9' {
                        self.next();
                        val.push(ch);
                        assert(val@ =~= src.subrange(start, self.cursor()));
                    } else {
                        break;
                    }
                },
                None => break,
            }
        }
        self.push_token(TokenType::Int(string_of(&val)));
    }

    fn tokenize_single_or_double(&mut self, ch: char, single: TokenType, double: TokenType)
        requires
            old(self).wf(),
            old(self).cursor() < old(self).source().len(),
            old(self).source()[old(self).cursor()] == ch,
            !is_newline(ch),
            single.payload_spec() == Seq::<char>::empty(),
            double.payload_spec() == Seq::<char>::empty(),
        ensures
            Self::stepped(
                *old(self),
                *final(self),
                Ok(()),
                one_or_two(old(self).source(), old(self).cursor(), ch, single.kind_spec(), double.kind_spec()),
            ),
    {
        proof { lemma_line_step(self.chars@, self.pos as int); }
        self.next();
        if self.peek() == Some(ch) {
            proof { lemma_line_step(self.chars@, self.pos as int); }
            self.next();
            self.push_token(double);
        } else {
            self.push_token(single);
        }
    }

    fn tokenize_double(&mut self, ch: char, double: TokenType) -> (r: Result<(), LexError>)
        requires
            old(self).wf(),
            old(self).cursor() < old(self).source().len(),
            old(self).source()[old(self).cursor()] == ch,
            !is_newline(ch),
            double.payload_spec() == Seq::<char>::empty(),
        ensures
            Self::stepped(*old(self), *final(self), r, two_only(old(self).source(), old(self).cursor(), ch, double.kind_spec())),
    {
        self.next();
        if self.peek() == Some(ch) {
            self.next();
            self.push_token(double);
            Ok(())
        } else {
            Err(LexError { kind: LexErrorKind::UnexpectedChar(ch), line: self.line })
        }
    }

    /// Skips the rest of the line.
    fn tokenize_comment(&mut self)
        requires
            old(self).wf(),
        ensures
            final(self).wf(),
            final(self).source() == old(self).source(),
            final(self).emitted() == old(self).emitted(),
            final(self).cursor() == old(self).cursor() + comment_len(old(self).source(), old(self).cursor()),
    {
        let ghost src = self.chars@;
        let ghost start = self.pos as int;
        loop
            invariant
                self.wf(),
                self.source() == src,
                src == old(self).source(),
                start == old(self).cursor(),
                self.emitted() == old(self).emitted(),
                start <= self.cursor() <= src.len(),
                (self.cursor() - start) + comment_len(src, self.cursor()) == comment_len(src, start),
            ensures
                self.cursor() == src.len() || is_newline(src[self.cursor()]),
            decreases src.len() - self.cursor(),
        {
            match self.peek() {
                Some(ch) => {
                    if ch == '\n' || ch == '\r' {
                        break;
                    }
                    self.next();
                },
                None => break,
            }
        }
    }

    /// A literal whose opening character is at the cursor and which runs to `close`.
    fn tokenize_delimited(&mut self, close: char, path: bool) -> (r: Result<(), LexError>)
        requires
            old(self).wf(),
            old(self).cursor() < old(self).source().len(),
            !is_newline(old(self).source()[old(self).cursor()]),
        ensures
            Self::stepped(
                *old(self),
                *final(self),
                r,
                delimited(old(self).source(), old(self).cursor(), close, if path { Kind::Path } else { Kind::Asm }),
            ),
    {
        let ghost src = self.chars@;
        self.next();
        let ghost start = self.pos as int;
        let mut text: Vec<char> = Vec::new();
        loop
            invariant
                self.wf(),
                self.source() == src,
                src == old(self).source(),
                start == old(self).cursor() + 1,
                self.emitted() == old(self).emitted(),
                start <= self.cursor() <= src.len(),
                text@ == src.subrange(start, self.cursor()),
                (self.cursor() - start) + span_len(src, self.cursor(), close) == span_len(src, start, close),
            ensures
                self.cursor() < src.len() && src[self.cursor()] == close,
            decreases src.len() - self.cursor(),
        {
            match self.peek() {
                Some(ch) => {
                    if ch == close {
                        break;
                    }
                    text.push(ch);
                    self.next();
                    assert(text@ =~= src.subrange(start, self.cursor()));
                },
                None => {
                    return Err(LexError { kind: LexErrorKind::UnexpectedEnd, line: self.line });
                },
            }
        }
        self.next();
        let body = string_of(&text);
        if path {
            self.push_token(TokenType::Path(body));
        } else {
            self.push_token(TokenType::Asm(body));
        }
        Ok(())
    }

    /// A string literal, lowered to raw instructions.
    fn tokenize_string(&mut self) -> (r: Result<(), LexError>)
        requires
            old(self).wf(),
            old(self).cursor() < old(self).source().len(),
            old(self).source()[old(self).cursor()] == '"',
        ensures
            Self::stepped(*old(self), *final(self), r, string_scan(old(self).source(), old(self).cursor())),
    {
        let ghost src = self.chars@;
        self.next();
        let ghost start = self.pos as int;
        let mut chars: Vec<char> = Vec::new();
        loop
            invariant
                self.wf(),
                self.source() == src,
                src == old(self).source(),
                src.len() <= isize::MAX,
                start == old(self).cursor() + 1,
                self.emitted() == old(self).emitted(),
                start <= self.cursor() <= src.len(),
                chars@.len() <= self.cursor() - start,
                chars@ + string_body(src, self.cursor()).0 == string_body(src, start).0,
                (self.cursor() - start) + string_body(src, self.cursor()).1 == string_body(src, start).1,
            ensures
                self.cursor() < src.len() && src[self.cursor()] == '"',
            decreases src.len() - self.cursor(),
        {
            let ghost here = self.pos as int;
            let ghost before = chars@;
            match self.peek() {
                Some('\\') => {
                    self.next();
                    if self.peek() == Some('"') {
                        self.next();
                        chars.push('"');
                    } else {
                        chars.push('\\');
                    }
                    assert(chars@ + string_body(src, self.cursor()).0 =~= before + string_body(src, here).0);
                },
                Some('"') => {
                    break;
                },
                Some(ch) => {
                    chars.push(ch);
                    self.next();
                    assert(chars@ + string_body(src, self.cursor()).0 =~= before + string_body(src, here).0);
                },
                None => {
                    return Err(LexError { kind: LexErrorKind::UnexpectedEnd, line: self.line });
                },
            }
        }
        assert(chars@ =~= string_body(src, start).0);
        self.next();
        let code = lower_string(&chars);
        self.push_token(TokenType::Asm(code));
        Ok(())
    }

    /// Whether the last token emitted is the `use` keyword.
    fn after_use(&self) -> (r: bool)
        ensures
            r == after_use(self.emitted()),
    {
        match self.tokens.peek_back() {
            Some(t) => t.t_type == TokenType::Use,
            None => false,
        }
    }

    /// One step at a character that is not the end of the input.
    fn scan_step(&mut self) -> (r: Result<(), LexError>)
        requires
            old(self).wf(),
            old(self).cursor() < old(self).source().len(),
        ensures
            Self::stepped(
                *old(self),
                *final(self),
                r,
                step(old(self).source(), old(self).cursor(), after_use(old(self).emitted())),
            ),
            r is Ok ==> final(self).cursor() > old(self).cursor(),
    {
        let ch = self.chars[self.pos];
        if ch == '>' {
            self.push_and_next(TokenType::Gt);
        } else if ch == '.' {
            self.push_and_next(TokenType::Dot);
        } else if ch == '{' {
            self.push_and_next(TokenType::LBr);
        } else if ch == '}' {
            self.push_and_next(TokenType::RBr);
        } else if ch == '%' {
            self.push_and_next(TokenType::Per);
        } else if ch == ';' {
            self.push_and_next(TokenType::Semi);
        } else if ch == '#' {
            self.push_and_next(TokenType::Hash);
        } else if ch == '*' {
            self.push_and_next(TokenType::Star);
        } else if ch == '+' {
            self.push_and_next(TokenType::Plus);
        } else if ch == '-' {
            self.push_and_next(TokenType::Dash);
        } else if ch == '(' {
            self.push_and_next(TokenType::LPar);
        } else if ch == ')' {
            self.push_and_next(TokenType::RPar);
        } else if ch == '?' {
            self.push_and_next(TokenType::QMark);
        } else if ch == '|' {
            return self.tokenize_double('|', TokenType::DPipe);
        } else if ch == '=' {
            self.tokenize_single_or_double('=', TokenType::Eq, TokenType::DEq);
        } else if ch == '&' {
            self.tokenize_single_or_double('&', TokenType::Amp, TokenType::DAmp);
        } else if ch == '/' {
            self.next();
            if self.peek() == Some('/') {
                self.tokenize_comment();
            } else {
                self.push_token(TokenType::Slash);
            }
        } else if ch == '!' {
            // A prefix operator becomes a binary one with zero on its left.
            self.push_token(TokenType::Int(zero()));
            self.push_and_next(TokenType::Ex);
        } else if ch == '@' {
            self.push_token(TokenType::Int(zero()));
            self.push_and_next(TokenType::At);
        } else if ch == '<' {
            if self.after_use() {
                return self.tokenize_delimited('>', true);
            } else {
                self.next();
                self.push_token(TokenType::Lt);
            }
        } else if ch == '`' {
            return self.tokenize_delimited('`', false);
        } else if ch == '"' {
            return self.tokenize_string();
        } else if ch == ' ' || ch == '\n' || ch == '\r' {
            self.next();
        } else if ('a' <= ch && ch <= 'z') || ('A' <= ch && ch <= 'Z') || ch == '_' {
            self.tokenize_word();
        } else if '0' <= ch && ch <= '9' {
            self.tokenize_num();
        } else {
            return Err(LexError { kind: LexErrorKind::UnexpectedChar(ch), line: self.line });
        }
        Ok(())
    }

    /// Reads the rest of the source, appending its tokens and finally the
    /// end-of-input token; stops at the first error.
    pub fn tokenize(&mut self) -> (r: Result<(), LexError>)
        requires
            old(self).wf(),
        ensures
            final(self).source() == old(self).source(),
            match lex_from(old(self).source(), old(self).cursor(), old(self).emitted()) {
                Ok(ts) => r is Ok && final(self).wf() && final(self).emitted() == ts,
                Err(e) => r matches Err(x) && x@ == e,
            },
    {
        loop
            invariant
                self.wf(),
                self.source() == old(self).source(),
                lex_from(self.source(), self.cursor(), self.emitted()) == lex_from(
                    old(self).source(),
                    old(self).cursor(),
                    old(self).emitted(),
                ),
            decreases self.source().len() - self.cursor(),
        {
            if self.pos >= self.chars.len() {
                self.push_token(TokenType::Eof);
                return Ok(());
            }
            let r = self.scan_step();
            if r.is_err() {
                return r;
            }
        }
    }

    fn push_and_next(&mut self, t_type: TokenType)
        requires
            old(self).wf(),
            old(self).cursor() < old(self).source().len(),
        ensures
            final(self).wf(),
            final(self).source() == old(self).source(),
            final(self).cursor() == old(self).cursor() + 1,
            final(self).emitted() == old(self).emitted().push(old(self).here(t_type)),
    {
        self.push_token(t_type);
        self.next();
    }
}

} // verus!
