use vstd::prelude::*;

use crate::token::{fixed_text, Kind, TokenView};
use crate::tokenizer::{
    after_use, comment_len, digits_len, is_newline, is_word_char, is_word_start, keyword, lex, lex_from,
    line_at, newlines, span_len, step, string_body, word_len, LexFailure, Scan,
};

verus! {

/// The kinds spelled by a reserved word.
pub open spec fn is_keyword(k: Kind) -> bool {
    k == Kind::Ret || k == Kind::Exit || k == Kind::Decl || k == Kind::If || k == Kind::Func
        || k == Kind::For || k == Kind::Mac || k == Kind::Use
}

/// A token of kind `k` without payload on the first line.
pub open spec fn first_line(k: Kind, text: Seq<char>) -> TokenView {
    TokenView { kind: k, text, line: 1 }
}

proof fn lemma_no_newlines(t: Seq<char>)
    requires
        forall|j: int| 0 <= j < t.len() ==> !is_newline(#[trigger] t[j]),
    ensures
        newlines(t) == 0,
    decreases t.len(),
{
    if t.len() > 0 {
        lemma_no_newlines(t.drop_last());
    }
}

proof fn lemma_first_line(s: Seq<char>, p: int)
    requires
        0 <= p <= s.len(),
        forall|j: int| 0 <= j < s.len() ==> !is_newline(#[trigger] s[j]),
    ensures
        line_at(s, p) == 1,
{
    lemma_no_newlines(s.take(p));
}

proof fn lemma_word_len_all(s: Seq<char>, i: int)
    requires
        0 <= i <= s.len(),
        forall|j: int| i <= j < s.len() ==> is_word_char(#[trigger] s[j]),
    ensures
        word_len(s, i) == s.len() - i,
    decreases s.len() - i,
{
    if i < s.len() {
        lemma_word_len_all(s, i + 1);
    }
}

/// A source made of one word lexes to that word's token and the end of input.
proof fn lemma_lex_word(w: Seq<char>)
    requires
        w.len() > 0,
        is_word_start(w[0]),
        forall|j: int| 0 <= j < w.len() ==> is_word_char(#[trigger] w[j]),
    ensures
        lex(w) == Ok::<Seq<TokenView>, LexFailure>(seq![
            if keyword(w) is Some { first_line(keyword(w)->0, Seq::empty()) } else { first_line(Kind::Var, w) },
            first_line(Kind::Eof, Seq::empty()),
        ]),
{
    lemma_word_len_all(w, 1);
    lemma_first_line(w, w.len() as int);
    assert(w.subrange(0, w.len() as int) =~= w);
    let ts = seq![if keyword(w) is Some { first_line(keyword(w)->0, Seq::empty()) } else { first_line(Kind::Var, w) }];
    assert(step(w, 0, false) == Scan::Emit(ts, w.len() as int));
    assert(lex_from(w, w.len() as int, Seq::empty() + ts) == Ok::<Seq<TokenView>, LexFailure>(
        (Seq::empty() + ts).push(first_line(Kind::Eof, Seq::empty())),
    ));
    assert((Seq::<TokenView>::empty() + ts).push(first_line(Kind::Eof, Seq::empty())) =~= seq![
        ts[0],
        first_line(Kind::Eof, Seq::empty()),
    ]);
}

proof fn lemma_keyword_texts()
    ensures
        fixed_text(Kind::Ret) =~= seq!['r', 'e', 't', 'u', 'r', 'n'],
        fixed_text(Kind::Exit) =~= seq!['e', 'x', 'i', 't'],
        fixed_text(Kind::Decl) =~= seq!['d', 'e', 'c', 'l'],
        fixed_text(Kind::If) =~= seq!['i', 'f'],
        fixed_text(Kind::Func) =~= seq!['f', 'u', 'n', 'c'],
        fixed_text(Kind::For) =~= seq!['f', 'o', 'r'],
        fixed_text(Kind::Mac) =~= seq!['m', 'a', 'c'],
        fixed_text(Kind::Use) =~= seq!['u', 's', 'e'],
{
    reveal_strlit("return");
    reveal_strlit("exit");
    reveal_strlit("decl");
    reveal_strlit("if");
    reveal_strlit("func");
    reveal_strlit("for");
    reveal_strlit("mac");
    reveal_strlit("use");
}

/// The exact text of a keyword lexes to that keyword; the same text with one
/// more letter, digit or underscore lexes to an identifier holding it.
pub proof fn law_keyword_or_identifier(k: Kind, c: char)
    requires
        is_keyword(k),
    ensures
        lex(fixed_text(k)) == Ok::<Seq<TokenView>, LexFailure>(
            seq![first_line(k, Seq::empty()), first_line(Kind::Eof, Seq::empty())],
        ),
        is_word_char(c) ==> lex(fixed_text(k).push(c)) == Ok::<Seq<TokenView>, LexFailure>(
            seq![first_line(Kind::Var, fixed_text(k).push(c)), first_line(Kind::Eof, Seq::empty())],
        ),
{
    lemma_keyword_texts();
    let w = fixed_text(k);
    assert(keyword(w) == Some(k));
    lemma_lex_word(w);
    if is_word_char(c) {
        let v = w.push(c);
        assert(v[v.len() - 1] == c);
        assert(keyword(v) is None) by {
            assert(v.len() == w.len() + 1);
            assert(forall|j: int| 0 <= j < w.len() ==> v[j] == w[j]);
        }
        lemma_lex_word(v);
    }
}

/// A source of one or two characters that `step` turns into one token of kind
/// `k` at the end of the source, lexes to that token and the end of input.
proof fn lemma_lex_one(s: Seq<char>, k: Kind)
    requires
        1 <= s.len() <= 2,
        !is_newline(s[0]),
        s.len() == 2 ==> !is_newline(s[1]),
        step(s, 0, false) == Scan::Emit(seq![first_line(k, Seq::empty())], s.len() as int),
    ensures
        lex(s) == Ok::<Seq<TokenView>, LexFailure>(seq![first_line(k, Seq::empty()), first_line(Kind::Eof, Seq::empty())]),
{
    lemma_first_line(s, s.len() as int);
    let ts = seq![first_line(k, Seq::empty())];
    assert(lex_from(s, s.len() as int, Seq::empty() + ts) == Ok::<Seq<TokenView>, LexFailure>(
        (Seq::empty() + ts).push(first_line(Kind::Eof, Seq::empty())),
    ));
    assert((Seq::<TokenView>::empty() + ts).push(first_line(Kind::Eof, Seq::empty())) =~= seq![
        first_line(k, Seq::empty()),
        first_line(Kind::Eof, Seq::empty()),
    ]);
}

/// Lexing the fixed text of a category without payload gives back one token
/// of that category, and the end of input. The prefix operators `!` and `@`
/// and the end-of-input marker are left out: the first two lex to two tokens.
pub proof fn law_fixed_text_round_trip(k: Kind)
    requires
        !k.has_payload(),
        k != Kind::Ex,
        k != Kind::At,
        k != Kind::Eof,
    ensures
        lex(fixed_text(k)) == Ok::<Seq<TokenView>, LexFailure>(
            seq![first_line(k, Seq::empty()), first_line(Kind::Eof, Seq::empty())],
        ),
{
    if is_keyword(k) {
        law_keyword_or_identifier(k, 'a');
    } else {
        let s = fixed_text(k);
        reveal_strlit(";");
        reveal_strlit("=");
        reveal_strlit("==");
        reveal_strlit("||");
        reveal_strlit("&&");
        reveal_strlit("*");
        reveal_strlit("+");
        reveal_strlit("-");
        reveal_strlit("/");
        reveal_strlit("%");
        reveal_strlit("(");
        reveal_strlit(")");
        reveal_strlit("{");
        reveal_strlit("}");
        reveal_strlit("&");
        reveal_strlit("#");
        reveal_strlit(".");
        reveal_strlit("<");
        reveal_strlit(">");
        reveal_strlit("?");
        lemma_first_line(s, 0);
        lemma_first_line(s, 1);
        lemma_first_line(s, s.len() as int);
        lemma_lex_one(s, k);
    }
}

/// Whether `line` is the line of some position of `s` from `lo` to `hi`.
pub open spec fn read_at(s: Seq<char>, line: nat, lo: int, hi: int) -> bool {
    exists|p: int| lo <= p <= hi && #[trigger] line_at(s, p) == line
}

proof fn lemma_runs_fit(s: Seq<char>, i: int, c: char)
    requires
        0 <= i <= s.len(),
    ensures
        i + word_len(s, i) <= s.len(),
        i + digits_len(s, i) <= s.len(),
        i + span_len(s, i, c) <= s.len(),
        i + comment_len(s, i) <= s.len(),
        i + string_body(s, i).1 <= s.len(),
    decreases s.len() - i,
{
    if i < s.len() {
        lemma_runs_fit(s, i + 1, c);
        if i + 1 < s.len() {
            lemma_runs_fit(s, i + 2, c);
        }
    }
}

/// Every step moves forward within the source, and each token it emits is
/// on the line of a position within the characters it read.
proof fn lemma_step_lines(s: Seq<char>, pos: int, prev_use: bool)
    requires
        0 <= pos < s.len(),
    ensures
        step(s, pos, prev_use) matches Scan::Emit(ts, next) ==> {
            &&& pos < next <= s.len()
            &&& forall|j: int| 0 <= j < ts.len() ==> read_at(s, #[trigger] ts[j].line, pos, next)
        },
{
    lemma_runs_fit(s, pos + 1, '>');
    lemma_runs_fit(s, pos + 1, '`');
    lemma_runs_fit(s, pos + 1, '"');
    let _ = line_at(s, pos);
    let _ = line_at(s, pos + 1);
    let _ = line_at(s, pos + 2);
    match step(s, pos, prev_use) {
        Scan::Emit(ts, next) => {
            let _ = line_at(s, next);
            assert forall|j: int| 0 <= j < ts.len() implies read_at(s, #[trigger] ts[j].line, pos, next) by {
                if ts[j].line == line_at(s, pos) {
                } else if ts[j].line == line_at(s, pos + 1) {
                } else if ts[j].line == line_at(s, pos + 2) {
                } else {
                    assert(ts[j].line == line_at(s, next));
                }
            }
        },
        Scan::Fail(_) => {},
    }
}

proof fn lemma_lex_lines(s: Seq<char>, pos: int, acc: Seq<TokenView>)
    requires
        0 <= pos <= s.len(),
        forall|j: int| 0 <= j < acc.len() ==> read_at(s, #[trigger] acc[j].line, 0, pos),
    ensures
        lex_from(s, pos, acc) matches Ok(ts) ==> {
            &&& ts.len() > 0
            &&& ts.last().line == line_at(s, s.len() as int)
            &&& ts.last().kind == Kind::Eof
            &&& forall|j: int| 0 <= j < ts.len() ==> read_at(s, #[trigger] ts[j].line, 0, s.len() as int)
        },
    decreases s.len() - pos,
{
    if pos >= s.len() {
        let ts = acc.push(crate::tokenizer::tok(s, s.len() as int, Kind::Eof, Seq::empty()));
        assert forall|j: int| 0 <= j < ts.len() implies read_at(s, #[trigger] ts[j].line, 0, s.len() as int) by {
            if j < acc.len() {
                assert(ts[j] == acc[j]);
            } else {
                let _ = line_at(s, s.len() as int);
            }
        }
    } else {
        lemma_step_lines(s, pos, after_use(acc));
        match step(s, pos, after_use(acc)) {
            Scan::Emit(ts, next) => {
                let acc2 = acc + ts;
                assert forall|j: int| 0 <= j < acc2.len() implies read_at(s, #[trigger] acc2[j].line, 0, next) by {
                    if j < acc.len() {
                        assert(acc2[j] == acc[j]);
                    } else {
                        assert(acc2[j] == ts[j - acc.len()]);
                        assert(read_at(s, ts[j - acc.len()].line, pos, next));
                    }
                }
                lemma_lex_lines(s, next, acc2);
            },
            Scan::Fail(_) => {},
        }
    }
}

/// A successful tokenizing ends with the end-of-input token.
pub proof fn lemma_lex_ends_with_eof(s: Seq<char>)
    ensures
        lex(s) matches Ok(ts) ==> ts.len() > 0 && ts.last().kind == Kind::Eof,
{
    lemma_lex_lines(s, 0, Seq::empty());
}

/// Each token is on line `k + 1`, where `k` is the number of newline
/// characters before some position of the source, and the end-of-input
/// token is on the line after the last newline.
pub proof fn law_line_tracking(s: Seq<char>)
    ensures
        lex(s) matches Ok(ts) ==> {
            &&& ts.len() > 0
            &&& ts.last().line == newlines(s) + 1
            &&& forall|j: int| 0 <= j < ts.len() ==>
                exists|p: int| 0 <= p <= s.len() && #[trigger] ts[j].line == newlines(#[trigger] s.take(p)) + 1
        },
{
    lemma_lex_lines(s, 0, Seq::empty());
    assert(s.take(s.len() as int) =~= s);
}

} // verus!
