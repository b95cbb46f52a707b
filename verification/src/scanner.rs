//! The lexer: from source text to tokens.

use vstd::prelude::*;
use crate::token::{LiteralType, LiteralView, Token, TokenType, TokenView, tokens_model};
use crate::RloxError;

verus! {

/// `String::push` of the standard library appends the character to the end
/// of the string; nothing else of the string changes.
pub assume_specification[ std::string::String::push ](text: &mut std::string::String, c: char)
    ensures
        final(text)@ == old(text)@.push(c),
;

/// How a piece of the source text is read.
pub enum PieceKind {
    /// A token of the given kind.
    Token(TokenType),
    /// A space, a tab, a carriage return or a line feed.
    Blank,
    /// A line comment or a block comment.
    Comment,
    /// A character that starts no token.
    Unexpected,
    /// A string literal that the source ends in.
    Unterminated,
}

/// A piece of the source text: its kind, where it starts and ends, and the
/// line on which it starts.
pub struct Piece {
    pub kind: PieceKind,
    pub start: int,
    pub end: int,
    pub line: usize,
}

/// What a lexical error says: its message and its line.
pub struct ErrorView {
    pub msg: Seq<char>,
    pub line: usize,
}

/// Whether `c` is a decimal digit.
pub open spec fn is_digit(c: char) -> bool {
    '0' <= c <= '9'
}

/// Whether `c` is a letter or an underscore.
pub open spec fn is_alpha(c: char) -> bool {
    ('a' <= c <= 'z') || ('A' <= c <= 'Z') || c == '_'
}

/// Whether `c` may stand inside an identifier.
pub open spec fn alpha_numeric(c: char) -> bool {
    is_digit(c) || is_alpha(c)
}

/// Whether `chr` may stand inside an identifier.
pub fn is_alpha_numeric(chr: char) -> (r: bool)
    ensures
        r == alpha_numeric(chr),
{
    ('0' <= chr && chr <= '9') || chr == '_' || ('a' <= chr && chr <= 'z') || ('A' <= chr && chr
        <= 'Z')
}

/// The kind of the reserved word `text`, if it is one.
pub open spec fn keyword_of(text: Seq<char>) -> Option<TokenType> {
    if text == "and"@ {
        Some(TokenType::And)
    } else if text == "class"@ {
        Some(TokenType::Class)
    } else if text == "else"@ {
        Some(TokenType::Else)
    } else if text == "false"@ {
        Some(TokenType::False)
    } else if text == "for"@ {
        Some(TokenType::For)
    } else if text == "fun"@ {
        Some(TokenType::Fun)
    } else if text == "if"@ {
        Some(TokenType::If)
    } else if text == "nil"@ {
        Some(TokenType::Nil)
    } else if text == "or"@ {
        Some(TokenType::OR)
    } else if text == "print"@ {
        Some(TokenType::Print)
    } else if text == "return"@ {
        Some(TokenType::Return)
    } else if text == "super"@ {
        Some(TokenType::Super)
    } else if text == "this"@ {
        Some(TokenType::This)
    } else if text == "true"@ {
        Some(TokenType::True)
    } else if text == "var"@ {
        Some(TokenType::Var)
    } else if text == "while"@ {
        Some(TokenType::While)
    } else if text == "break"@ {
        Some(TokenType::Break)
    } else {
        None
    }
}

/// The characters of `s`, in order.
pub fn chars_of(s: &str) -> (v: Vec<char>)
    ensures
        v@ == s@,
{
    let mut v: Vec<char> = Vec::new();
    for c in it: s.chars()
        invariant
            v@ == it.seq().take(it.index() as int),
            it.seq() == s@,
    {
        v.push(c);
    }
    v
}

/// Whether `a` and `b` hold the same characters.
fn same_text(a: &Vec<char>, b: &str) -> (r: bool)
    ensures
        r == (a@ == b@),
{
    let other = chars_of(b);
    if a.len() != other.len() {
        return false;
    }
    let mut i: usize = 0;
    while i < a.len()
        invariant
            i <= a.len(),
            a.len() == other.len(),
            other@ == b@,
            forall|j: int| 0 <= j < i ==> a@[j] == other@[j],
        decreases a.len() - i,
    {
        if a[i] != other[i] {
            return false;
        }
        i += 1;
    }
    assert(a@ =~= b@);
    true
}

/// The kind of the reserved word `identifier`, if it is one.
pub fn get_identified_keyword(identifier: &str) -> (r: Option<TokenType>)
    ensures
        r == keyword_of(identifier@),
{
    let text = chars_of(identifier);
    if same_text(&text, "and") {
        Some(TokenType::And)
    } else if same_text(&text, "class") {
        Some(TokenType::Class)
    } else if same_text(&text, "else") {
        Some(TokenType::Else)
    } else if same_text(&text, "false") {
        Some(TokenType::False)
    } else if same_text(&text, "for") {
        Some(TokenType::For)
    } else if same_text(&text, "fun") {
        Some(TokenType::Fun)
    } else if same_text(&text, "if") {
        Some(TokenType::If)
    } else if same_text(&text, "nil") {
        Some(TokenType::Nil)
    } else if same_text(&text, "or") {
        Some(TokenType::OR)
    } else if same_text(&text, "print") {
        Some(TokenType::Print)
    } else if same_text(&text, "return") {
        Some(TokenType::Return)
    } else if same_text(&text, "super") {
        Some(TokenType::Super)
    } else if same_text(&text, "this") {
        Some(TokenType::This)
    } else if same_text(&text, "true") {
        Some(TokenType::True)
    } else if same_text(&text, "var") {
        Some(TokenType::Var)
    } else if same_text(&text, "while") {
        Some(TokenType::While)
    } else if same_text(&text, "break") {
        Some(TokenType::Break)
    } else {
        None
    }
}

/// A run of characters that the lexer reads in one go.
#[derive(Clone, Copy)]
pub enum Run {
    /// Decimal digits.
    Digits,
    /// Letters, digits and underscores.
    Word,
    /// Everything up to the end of the line.
    Line,
    /// Everything up to the next double quote.
    Text,
}

/// Whether the character `c` belongs to a run of kind `run`.
pub open spec fn in_run(run: Run, c: char) -> bool {
    match run {
        Run::Digits => is_digit(c),
        Run::Word => alpha_numeric(c),
        Run::Line => c != '\n',
        Run::Text => c != '"',
    }
}

/// Where the run of kind `run` that starts at `pos` ends: the first position
/// from `pos` on whose character is not in the run, or the end of the text.
pub open spec fn run_end(src: Seq<char>, pos: int, run: Run) -> int
    decreases src.len() - pos,
{
    if 0 <= pos < src.len() && in_run(run, src[pos]) {
        run_end(src, pos + 1, run)
    } else {
        pos
    }
}

/// Where the block comment whose text starts at `pos` ends: behind the first
/// `*/` from `pos` on, or at the end of the text where there is none.
pub open spec fn comment_end(src: Seq<char>, pos: int) -> int
    decreases src.len() - pos,
{
    if pos < 0 || pos >= src.len() {
        pos
    } else if src[pos] == '*' && pos + 1 < src.len() && src[pos + 1] == '/' {
        pos + 2
    } else {
        comment_end(src, pos + 1)
    }
}

/// The line count after the characters from `from` to `to`, starting from
/// `line`: one more for each line feed, as far as the machine can count.
pub open spec fn line_after(src: Seq<char>, from: int, to: int, line: usize) -> usize
    decreases to - from,
{
    if from >= to || from < 0 || from >= src.len() {
        line
    } else {
        line_after(src, from + 1, to, next_line(src[from], line))
    }
}

/// The line count after the single character `c`.
pub open spec fn next_line(c: char, line: usize) -> usize {
    if c == '\n' && line < usize::MAX {
        (line + 1) as usize
    } else {
        line
    }
}

/// Whether the character at `pos` is `c`.
pub open spec fn char_at(src: Seq<char>, pos: int, c: char) -> bool {
    0 <= pos < src.len() && src[pos] == c
}

/// Where the number that starts at `pos` ends: behind its digits, and behind
/// a fraction where a dot and at least one digit follow them.
pub open spec fn number_end(src: Seq<char>, pos: int) -> int {
    let whole = run_end(src, pos + 1, Run::Digits);
    if char_at(src, whole, '.') && whole + 1 < src.len() && is_digit(src[whole + 1]) {
        run_end(src, whole + 2, Run::Digits)
    } else {
        whole
    }
}

/// The kind and the end of the piece that starts at `pos`, for `pos` inside the text.
pub open spec fn piece_at(src: Seq<char>, pos: int) -> (PieceKind, int) {
    let c = src[pos];
    let followed = char_at(src, pos + 1, '=');
    if c == '(' {
        (PieceKind::Token(TokenType::LeftParen), pos + 1)
    } else if c == ')' {
        (PieceKind::Token(TokenType::RightParen), pos + 1)
    } else if c == '{' {
        (PieceKind::Token(TokenType::LeftBrace), pos + 1)
    } else if c == '}' {
        (PieceKind::Token(TokenType::RightBrace), pos + 1)
    } else if c == ',' {
        (PieceKind::Token(TokenType::Comma), pos + 1)
    } else if c == '.' {
        (PieceKind::Token(TokenType::Dot), pos + 1)
    } else if c == '-' {
        (PieceKind::Token(TokenType::Minus), pos + 1)
    } else if c == '+' {
        (PieceKind::Token(TokenType::Plus), pos + 1)
    } else if c == ';' {
        (PieceKind::Token(TokenType::Semicolon), pos + 1)
    } else if c == '*' {
        (PieceKind::Token(TokenType::Star), pos + 1)
    } else if c == '?' {
        (PieceKind::Token(TokenType::Question), pos + 1)
    } else if c == ':' {
        (PieceKind::Token(TokenType::Colon), pos + 1)
    } else if c == '!' {
        if followed {
            (PieceKind::Token(TokenType::BangEqual), pos + 2)
        } else {
            (PieceKind::Token(TokenType::Bang), pos + 1)
        }
    } else if c == '=' {
        if followed {
            (PieceKind::Token(TokenType::EqualEqual), pos + 2)
        } else {
            (PieceKind::Token(TokenType::Equal), pos + 1)
        }
    } else if c == '<' {
        if followed {
            (PieceKind::Token(TokenType::LessEqual), pos + 2)
        } else {
            (PieceKind::Token(TokenType::Less), pos + 1)
        }
    } else if c == '>' {
        if followed {
            (PieceKind::Token(TokenType::GreaterEqual), pos + 2)
        } else {
            (PieceKind::Token(TokenType::Greater), pos + 1)
        }
    } else if c == '/' {
        if char_at(src, pos + 1, '/') {
            (PieceKind::Comment, run_end(src, pos + 2, Run::Line))
        } else if char_at(src, pos + 1, '*') {
            (PieceKind::Comment, comment_end(src, pos + 2))
        } else {
            (PieceKind::Token(TokenType::Slash), pos + 1)
        }
    } else if c == '"' {
        let close = run_end(src, pos + 1, Run::Text);
        if close < src.len() {
            (PieceKind::Token(TokenType::String), close + 1)
        } else {
            (PieceKind::Unterminated, close)
        }
    } else if c == ' ' || c == '\r' || c == '\t' || c == '\n' {
        (PieceKind::Blank, pos + 1)
    } else if is_digit(c) {
        (PieceKind::Token(TokenType::Number), number_end(src, pos))
    } else if is_alpha(c) {
        let end = run_end(src, pos + 1, Run::Word);
        match keyword_of(src.subrange(pos, end)) {
            Some(t) => (PieceKind::Token(t), end),
            None => (PieceKind::Token(TokenType::Identifier), end),
        }
    } else {
        (PieceKind::Unexpected, pos + 1)
    }
}

/// A run ends inside the text, at or behind its start; all of it belongs to
/// the run, and what follows it does not.
pub proof fn lemma_run_end(src: Seq<char>, pos: int, run: Run)
    requires
        0 <= pos <= src.len(),
    ensures
        pos <= run_end(src, pos, run) <= src.len(),
        forall|i: int| pos <= i < run_end(src, pos, run) ==> in_run(run, #[trigger] src[i]),
        run_end(src, pos, run) < src.len() ==> !in_run(run, src[run_end(src, pos, run)]),
    decreases src.len() - pos,
{
    if pos < src.len() && in_run(run, src[pos]) {
        lemma_run_end(src, pos + 1, run);
    }
}

/// A block comment ends inside the text, at or behind its start.
pub proof fn lemma_comment_end(src: Seq<char>, pos: int)
    requires
        0 <= pos <= src.len(),
    ensures
        pos <= comment_end(src, pos) <= src.len(),
    decreases src.len() - pos,
{
    if pos < src.len() && !(src[pos] == '*' && pos + 1 < src.len() && src[pos + 1] == '/') {
        lemma_comment_end(src, pos + 1);
    }
}

/// A piece is not empty and lies inside the text.
pub proof fn lemma_piece_at(src: Seq<char>, pos: int)
    requires
        0 <= pos < src.len(),
    ensures
        pos < piece_at(src, pos).1 <= src.len(),
{
    lemma_run_end(src, pos + 1, Run::Digits);
    lemma_run_end(src, pos + 1, Run::Word);
    lemma_run_end(src, pos + 1, Run::Text);
    if pos + 2 <= src.len() {
        lemma_run_end(src, pos + 2, Run::Line);
        lemma_comment_end(src, pos + 2);
    }
    let whole = run_end(src, pos + 1, Run::Digits);
    if whole + 2 <= src.len() {
        lemma_run_end(src, whole + 2, Run::Digits);
    }
}

/// The token that is read from the piece of kind `t` between `start` and
/// `end`; `line` is the line count behind the piece. A string holds the text
/// between its quotes. A number holds `bits`.
pub open spec fn token_of(src: Seq<char>, t: TokenType, start: int, end: int, line: usize, bits: u64)
    -> TokenView {
    TokenView {
        t_type: t,
        lexeme: src.subrange(start, end),
        literal: if t == TokenType::String {
            Some(LiteralView::String(src.subrange(start + 1, end - 1)))
        } else if t == TokenType::Number {
            Some(LiteralView::Number(bits))
        } else {
            None
        },
        line,
    }
}

/// The token that ends every token sequence.
pub open spec fn eof_token(line: usize) -> TokenView {
    TokenView { t_type: TokenType::EOF, lexeme: Seq::empty(), literal: None, line }
}

/// The error that a piece of kind `kind` which starts on `line` stands for.
pub open spec fn error_of(kind: PieceKind, line: usize) -> Option<ErrorView> {
    match kind {
        PieceKind::Unexpected => Some(ErrorView { msg: "Unexpected character"@, line }),
        PieceKind::Unterminated => Some(ErrorView { msg: "Unterminated string"@, line }),
        _ => None,
    }
}

/// The pieces of the text from `pos` on, where `line` is the line count at `pos`.
pub open spec fn pieces_from(src: Seq<char>, pos: int, line: usize) -> Seq<Piece>
    decreases src.len() - pos,
{
    if pos < 0 || pos >= src.len() {
        Seq::empty()
    } else {
        let kind = piece_at(src, pos).0;
        let end = piece_at(src, pos).1;
        if end <= pos || end > src.len() {
            Seq::empty()
        } else {
            seq![Piece { kind, start: pos, end, line }] + pieces_from(
                src,
                end,
                line_after(src, pos, end, line),
            )
        }
    }
}

/// The tokens of the text from `pos` on, the closing `EOF` token included.
/// Every number holds 0 here: its value is not the lexer's to tell.
pub open spec fn tokens_from(src: Seq<char>, pos: int, line: usize) -> Seq<TokenView>
    decreases src.len() - pos,
{
    if pos < 0 || pos >= src.len() {
        seq![eof_token(line)]
    } else {
        let kind = piece_at(src, pos).0;
        let end = piece_at(src, pos).1;
        if end <= pos || end > src.len() {
            seq![eof_token(line)]
        } else {
            let behind = line_after(src, pos, end, line);
            let rest = tokens_from(src, end, behind);
            match kind {
                PieceKind::Token(t) => seq![token_of(src, t, pos, end, behind, 0)] + rest,
                _ => rest,
            }
        }
    }
}

/// The lexical errors of the text from `pos` on.
pub open spec fn errors_from(src: Seq<char>, pos: int, line: usize) -> Seq<ErrorView>
    decreases src.len() - pos,
{
    if pos < 0 || pos >= src.len() {
        Seq::empty()
    } else {
        let kind = piece_at(src, pos).0;
        let end = piece_at(src, pos).1;
        if end <= pos || end > src.len() {
            Seq::empty()
        } else {
            let rest = errors_from(src, end, line_after(src, pos, end, line));
            match error_of(kind, line) {
                Some(e) => seq![e] + rest,
                None => rest,
            }
        }
    }
}

/// A token with the value of its number, if it is one, set to 0.
pub open spec fn without_number(t: TokenView) -> TokenView {
    if t.t_type == TokenType::Number {
        TokenView { literal: Some(LiteralView::Number(0)), ..t }
    } else {
        t
    }
}

/// The tokens `tokens`, each without the value of its number.
pub open spec fn without_numbers(tokens: Seq<TokenView>) -> Seq<TokenView> {
    Seq::new(tokens.len(), |i: int| without_number(tokens[i]))
}

/// The views of a sequence of errors, one by one.
pub open spec fn errors_model(errors: Seq<RloxError>) -> Seq<ErrorView> {
    Seq::new(errors.len(), |i: int| ErrorView { msg: errors[i].msg@, line: errors[i].line })
}

/// The line count after a stretch of text is the count after its two parts, one after the other.
pub proof fn lemma_line_after_split(src: Seq<char>, from: int, mid: int, to: int, line: usize)
    requires
        0 <= from <= mid <= to <= src.len(),
    ensures
        line_after(src, from, to, line) == line_after(src, mid, to, line_after(src, from, mid, line)),
    decreases mid - from,
{
    if from < mid {
        lemma_line_after_split(src, from + 1, mid, to, next_line(src[from], line));
    }
}

/// The line count after one character.
pub proof fn lemma_line_after_one(src: Seq<char>, pos: int, line: usize)
    requires
        0 <= pos < src.len(),
    ensures
        line_after(src, pos, pos + 1, line) == next_line(src[pos], line),
{
    assert(line_after(src, pos + 1, pos + 1, next_line(src[pos], line)) == next_line(
        src[pos],
        line,
    ));
}

/// The tokens of a text end in `EOF`, and each string and each number among
/// them holds a literal.
pub proof fn lemma_tokens_from(src: Seq<char>, pos: int, line: usize)
    ensures
        tokens_from(src, pos, line).len() > 0,
        tokens_from(src, pos, line).last().t_type == TokenType::EOF,
        forall|i: int|
            0 <= i < tokens_from(src, pos, line).len() ==> {
                let t = #[trigger] tokens_from(src, pos, line)[i];
                &&& t.t_type == TokenType::String ==> t.literal is Some
                &&& t.t_type == TokenType::Number ==> t.literal is Some
                &&& t.t_type == TokenType::EOF ==> i == tokens_from(src, pos, line).len() - 1
            },
    decreases src.len() - pos,
{
    if 0 <= pos < src.len() {
        let kind = piece_at(src, pos).0;
        let end = piece_at(src, pos).1;
        if !(end <= pos || end > src.len()) {
            let behind = line_after(src, pos, end, line);
            lemma_tokens_from(src, end, behind);
            lemma_piece_kind(src, pos);
            let rest = tokens_from(src, end, behind);
            match kind {
                PieceKind::Token(t) => {
                    let all = tokens_from(src, pos, line);
                    assert(all =~= seq![token_of(src, t, pos, end, behind, 0)] + rest);
                    assert forall|i: int| 0 <= i < all.len() implies {
                        let t = #[trigger] all[i];
                        &&& t.t_type == TokenType::String ==> t.literal is Some
                        &&& t.t_type == TokenType::Number ==> t.literal is Some
                        &&& t.t_type == TokenType::EOF ==> i == all.len() - 1
                    } by {
                        if i > 0 {
                            assert(all[i] == rest[i - 1]);
                        }
                    }
                },
                _ => {},
            }
        }
    }
}

/// No piece of a text is an `EOF` token.
pub proof fn lemma_piece_kind(src: Seq<char>, pos: int)
    requires
        0 <= pos < src.len(),
    ensures
        piece_at(src, pos).0 != PieceKind::Token(TokenType::EOF),
{
    let end = run_end(src, pos + 1, Run::Word);
    reveal_strlit("and");
    reveal_strlit("class");
    reveal_strlit("else");
    reveal_strlit("false");
    reveal_strlit("for");
    reveal_strlit("fun");
    reveal_strlit("if");
    reveal_strlit("nil");
    reveal_strlit("or");
    reveal_strlit("print");
    reveal_strlit("return");
    reveal_strlit("super");
    reveal_strlit("this");
    reveal_strlit("true");
    reveal_strlit("var");
    reveal_strlit("while");
    reveal_strlit("break");
}

/// The text of the pieces `pieces`, one behind the other.
pub open spec fn text_of(src: Seq<char>, pieces: Seq<Piece>) -> Seq<char>
    decreases pieces.len(),
{
    if pieces.len() == 0 {
        Seq::empty()
    } else {
        src.subrange(pieces[0].start, pieces[0].end) + text_of(src, pieces.drop_first())
    }
}

/// The tokens that are read from the pieces `pieces`: one from each piece
/// that is a token, with the text of the piece as its lexeme.
pub open spec fn tokens_of(src: Seq<char>, pieces: Seq<Piece>) -> Seq<TokenView>
    decreases pieces.len(),
{
    if pieces.len() == 0 {
        Seq::empty()
    } else {
        let piece = pieces[0];
        let rest = tokens_of(src, pieces.drop_first());
        match piece.kind {
            PieceKind::Token(t) => seq![
                token_of(
                    src,
                    t,
                    piece.start,
                    piece.end,
                    line_after(src, piece.start, piece.end, piece.line),
                    0,
                ),
            ] + rest,
            _ => rest,
        }
    }
}

/// Reading a text loses nothing but what is skipped. The pieces of the text,
/// one behind the other, are the text. The tokens are read from the pieces
/// that are tokens, in their order, each with the text of its piece as its
/// lexeme, and `EOF` closes them; every other piece is blank, a comment, or
/// in error.
pub proof fn lemma_round_trip(src: Seq<char>, pos: int, line: usize)
    requires
        0 <= pos <= src.len(),
    ensures
        text_of(src, pieces_from(src, pos, line)) == src.subrange(pos, src.len() as int),
        tokens_from(src, pos, line) == tokens_of(src, pieces_from(src, pos, line)).push(
            eof_token(line_after(src, pos, src.len() as int, line)),
        ),
    decreases src.len() - pos,
{
    if pos < src.len() {
        lemma_piece_at(src, pos);
        let kind = piece_at(src, pos).0;
        let end = piece_at(src, pos).1;
        let behind = line_after(src, pos, end, line);
        let piece = Piece { kind, start: pos, end, line };
        let rest = pieces_from(src, end, behind);
        let all = pieces_from(src, pos, line);
        lemma_round_trip(src, end, behind);
        lemma_line_after_split(src, pos, end, src.len() as int, line);
        assert(all =~= seq![piece] + rest);
        assert(all.drop_first() =~= rest);
        assert(all[0] == piece);
        assert(src.subrange(pos, end) + src.subrange(end, src.len() as int) =~= src.subrange(
            pos,
            src.len() as int,
        ));
        let last = eof_token(line_after(src, pos, src.len() as int, line));
        match kind {
            PieceKind::Token(t) => {
                let first = token_of(src, t, pos, end, behind, 0);
                assert((seq![first] + tokens_of(src, rest)).push(last) =~= seq![first] + tokens_of(
                    src,
                    rest,
                ).push(last));
            },
            _ => {},
        }
    } else {
        assert(src.subrange(pos, src.len() as int) =~= Seq::<char>::empty());
        assert(tokens_from(src, pos, line) =~= Seq::<TokenView>::empty().push(eof_token(line)));
    }
}

/// A string literal that is not closed gives one error, on the line on which
/// the literal starts, and no error follows it: the text ends in the literal.
pub proof fn lemma_unterminated_string(src: Seq<char>, pos: int, line: usize)
    requires
        0 <= pos < src.len(),
        piece_at(src, pos).0 is Unterminated,
    ensures
        piece_at(src, pos).1 == src.len(),
        errors_from(src, pos, line) == seq![ErrorView { msg: "Unterminated string"@, line }],
{
    lemma_run_end(src, pos + 1, Run::Text);
    lemma_piece_at(src, pos);
    let end = piece_at(src, pos).1;
    assert(errors_from(src, end, line_after(src, pos, end, line)) =~= Seq::<ErrorView>::empty());
    assert(errors_from(src, pos, line) =~= seq![ErrorView { msg: "Unterminated string"@, line }]);
}

/// A numeral: a text that is read as one number, from its first character to its last.
pub open spec fn is_numeral(text: Seq<char>) -> bool {
    text.len() > 0 && is_digit(text[0]) && number_end(text, 0) == text.len()
}

/// A run inside a part of the text ends where it ends in the whole text, or
/// at the end of the part.
pub proof fn lemma_run_end_within(src: Seq<char>, pos: int, end: int, i: int, run: Run)
    requires
        0 <= pos <= pos + i <= end <= src.len(),
    ensures
        run_end(src.subrange(pos, end), i, run) == if run_end(src, pos + i, run) <= end {
            run_end(src, pos + i, run) - pos
        } else {
            end - pos
        },
    decreases end - pos - i,
{
    let part = src.subrange(pos, end);
    if pos + i < end {
        assert(part[i] == src[pos + i]);
        if in_run(run, src[pos + i]) {
            lemma_run_end_within(src, pos, end, i + 1, run);
            lemma_run_end(src, pos + i + 1, run);
        }
    } else {
        lemma_run_end(src, pos + i, run);
    }
}

/// The text of a number is a numeral.
pub proof fn lemma_number_is_numeral(src: Seq<char>, pos: int)
    requires
        0 <= pos < src.len(),
        is_digit(src[pos]),
    ensures
        pos < number_end(src, pos) <= src.len(),
        is_numeral(src.subrange(pos, number_end(src, pos))),
{
    let end = number_end(src, pos);
    let whole = run_end(src, pos + 1, Run::Digits);
    lemma_run_end(src, pos + 1, Run::Digits);
    if whole + 2 <= src.len() {
        lemma_run_end(src, whole + 2, Run::Digits);
    }
    let part = src.subrange(pos, end);
    lemma_run_end_within(src, pos, end, 1, Run::Digits);
    assert(run_end(part, 1, Run::Digits) == whole - pos);
    if char_at(src, whole, '.') && whole + 1 < src.len() && is_digit(src[whole + 1]) {
        assert(part[whole - pos] == src[whole]);
        assert(part[whole - pos + 1] == src[whole + 1]);
        lemma_run_end_within(src, pos, end, whole - pos + 2, Run::Digits);
    }
}

/// Whether the host read the number of the token `t` from the token's own text.
pub open spec fn number_read<F: Fn(&str) -> u64>(read_number: F, t: TokenView) -> bool {
    exists|text: &str, bits: u64|
        text@ == t.lexeme && call_ensures(read_number, (text,), bits) && t.literal == Some(
            LiteralView::Number(bits),
        )
}

/// The lexical errors of one source text.
#[derive(Debug)]
pub struct ScannerError {
    pub errors: Vec<RloxError>,
}

/// A lexer over one source text. It reads the text piece by piece and keeps
/// the tokens it has read.
pub struct Scanner {
    source: Vec<char>,
    tokens: Vec<Token>,
    start: usize,
    current: usize,
    line: usize,
}

impl Scanner {
    /// The characters of the source text.
    pub closed spec fn source(&self) -> Seq<char> {
        self.source@
    }

    /// How many characters have been read.
    pub closed spec fn position(&self) -> int {
        self.current as int
    }

    /// The line count at the position.
    pub closed spec fn line(&self) -> usize {
        self.line
    }

    /// The tokens read so far.
    pub closed spec fn tokens(&self) -> Seq<TokenView> {
        tokens_model(self.tokens@)
    }

    /// The position lies inside the text, behind the start of the piece that is being read.
    pub closed spec fn wf(&self) -> bool {
        self.start <= self.current <= self.source@.len()
    }

    /// A lexer at the start of `source`, on line 1, with no token read.
    pub fn new(source: String) -> (r: Self)
        ensures
            r.wf(),
            r.source() == source@,
            r.position() == 0,
            r.line() == 1,
            r.tokens() == Seq::<TokenView>::empty(),
    {
        let r = Scanner {
            source: chars_of(source.as_str()),
            tokens: Vec::new(),
            start: 0,
            current: 0,
            line: 1,
        };
        assert(r.tokens() =~= Seq::<TokenView>::empty());
        r
    }

    fn is_at_end(&self) -> (r: bool)
        ensures
            r == (self.current >= self.source@.len()),
    {
        self.current >= self.source.len()
    }

    fn peek(&self) -> (r: Option<char>)
        requires
            self.wf(),
        ensures
            r == if self.current < self.source@.len() {
                Some(self.source@[self.current as int])
            } else {
                None::<char>
            },
    {
        if self.current < self.source.len() {
            Some(self.source[self.current])
        } else {
            None
        }
    }

    fn peek_double(&self) -> (r: Option<char>)
        requires
            self.wf(),
        ensures
            r == if self.current + 1 < self.source@.len() {
                Some(self.source@[self.current + 1])
            } else {
                None::<char>
            },
    {
        if self.current < self.source.len() && self.current + 1 < self.source.len() {
            Some(self.source[self.current + 1])
        } else {
            None
        }
    }

    /// Reads one character and counts the line it may end.
    fn advance(&mut self) -> (r: Option<char>)
        requires
            old(self).wf(),
        ensures
            final(self).wf(),
            final(self).source@ == old(self).source@,
            final(self).tokens@ == old(self).tokens@,
            final(self).start == old(self).start,
            r == old(self).peek_spec(),
            final(self).current == old(self).current + if r is Some {
                1int
            } else {
                0int
            },
            final(self).line == line_after(
                old(self).source@,
                old(self).current as int,
                final(self).current as int,
                old(self).line,
            ),
    {
        if self.current < self.source.len() {
            let c = self.source[self.current];
            proof {
                lemma_line_after_one(self.source@, self.current as int, self.line);
            }
            if c == '\n' && self.line < usize::MAX {
                self.line = self.line + 1;
            }
            self.current = self.current + 1;
            Some(c)
        } else {
            None
        }
    }

    spec fn peek_spec(&self) -> Option<char> {
        if self.current < self.source@.len() {
            Some(self.source@[self.current as int])
        } else {
            None
        }
    }

    /// Reads the next character if it is `expected`.
    fn peek_and_match(&mut self, expected: char) -> (r: bool)
        requires
            old(self).wf(),
            expected != '\n',
        ensures
            final(self).wf(),
            final(self).source@ == old(self).source@,
            final(self).tokens@ == old(self).tokens@,
            final(self).start == old(self).start,
            final(self).line == old(self).line,
            r == char_at(old(self).source@, old(self).current as int, expected),
            final(self).current == old(self).current + if r {
                1int
            } else {
                0int
            },
    {
        match self.peek() {
            Some(c) => {
                if c == expected {
                    proof {
                        lemma_line_after_one(self.source@, self.current as int, self.line);
                    }
                    self.advance();
                    true
                } else {
                    false
                }
            },
            None => false,
        }
    }

    /// Reads on to the end of the run of kind `run`.
    fn skip_run(&mut self, run: Run)
        requires
            old(self).wf(),
        ensures
            final(self).wf(),
            final(self).source@ == old(self).source@,
            final(self).tokens@ == old(self).tokens@,
            final(self).start == old(self).start,
            final(self).current == run_end(old(self).source@, old(self).current as int, run),
            final(self).line == line_after(
                old(self).source@,
                old(self).current as int,
                final(self).current as int,
                old(self).line,
            ),
    {
        loop
            invariant
                self.wf(),
                self.source@ == old(self).source@,
                self.tokens@ == old(self).tokens@,
                self.start == old(self).start,
                old(self).current <= self.current,
                run_end(self.source@, old(self).current as int, run) == run_end(
                    self.source@,
                    self.current as int,
                    run,
                ),
                self.line == line_after(
                    self.source@,
                    old(self).current as int,
                    self.current as int,
                    old(self).line,
                ),
            decreases self.source@.len() - self.current,
        {
            let inside = match self.peek() {
                Some(c) => match run {
                    Run::Digits => '0' <= c && c <= '9',
                    Run::Word => is_alpha_numeric(c),
                    Run::Line => c != '\n',
                    Run::Text => c != '"',
                },
                None => false,
            };
            if !inside {
                return ;
            }
            proof {
                lemma_line_after_split(
                    self.source@,
                    old(self).current as int,
                    self.current as int,
                    self.current + 1,
                    old(self).line,
                );
            }
            self.advance();
        }
    }

    /// Reads on to the end of a block comment.
    fn skip_comment(&mut self)
        requires
            old(self).wf(),
        ensures
            final(self).wf(),
            final(self).source@ == old(self).source@,
            final(self).tokens@ == old(self).tokens@,
            final(self).start == old(self).start,
            final(self).current == comment_end(old(self).source@, old(self).current as int),
            final(self).line == line_after(
                old(self).source@,
                old(self).current as int,
                final(self).current as int,
                old(self).line,
            ),
    {
        loop
            invariant
                self.wf(),
                self.source@ == old(self).source@,
                self.tokens@ == old(self).tokens@,
                self.start == old(self).start,
                old(self).current <= self.current,
                comment_end(self.source@, old(self).current as int) == comment_end(
                    self.source@,
                    self.current as int,
                ),
                self.line == line_after(
                    self.source@,
                    old(self).current as int,
                    self.current as int,
                    old(self).line,
                ),
            decreases self.source@.len() - self.current,
        {
            let first = self.peek();
            let second = self.peek_double();
            if first.is_none() {
                return ;
            }
            let ghost before = self.current as int;
            proof {
                lemma_line_after_split(
                    self.source@,
                    old(self).current as int,
                    before,
                    before + 1,
                    old(self).line,
                );
            }
            self.advance();
            if first == Some('*') && second == Some('/') {
                proof {
                    lemma_line_after_split(
                        self.source@,
                        old(self).current as int,
                        before + 1,
                        before + 2,
                        old(self).line,
                    );
                }
                self.advance();
                return ;
            }
        }
    }

    /// The text from `from` to `to`.
    fn text(&self, from: usize, to: usize) -> (r: String)
        requires
            from <= to <= self.source@.len(),
        ensures
            r@ == self.source@.subrange(from as int, to as int),
    {
        let mut r = String::new();
        let mut i: usize = from;
        while i < to
            invariant
                from <= i <= to <= self.source@.len(),
                r@ == self.source@.subrange(from as int, i as int),
            decreases to - i,
        {
            r.push(self.source[i]);
            i += 1;
            assert(self.source@.subrange(from as int, i as int) =~= self.source@.subrange(
                from as int,
                i - 1,
            ).push(self.source@[i - 1]));
        }
        assert(self.source@.subrange(from as int, from as int) =~= Seq::<char>::empty());
        r
    }

    /// Adds a token without a literal for the piece that was just read.
    fn add_token(&mut self, t_type: TokenType)
        requires
            old(self).wf(),
        ensures
            final(self).wf(),
            final(self).source@ == old(self).source@,
            final(self).start == old(self).start,
            final(self).current == old(self).current,
            final(self).line == old(self).line,
            final(self).tokens() == old(self).tokens().push(
                TokenView {
                    t_type,
                    lexeme: old(self).source@.subrange(
                        old(self).start as int,
                        old(self).current as int,
                    ),
                    literal: None,
                    line: old(self).line,
                },
            ),
    {
        self.add_token_literal(t_type, None)
    }

    /// Adds a token with the literal `literal` for the piece that was just read.
    fn add_token_literal(&mut self, t_type: TokenType, literal: Option<LiteralType>)
        requires
            old(self).wf(),
        ensures
            final(self).wf(),
            final(self).source@ == old(self).source@,
            final(self).start == old(self).start,
            final(self).current == old(self).current,
            final(self).line == old(self).line,
            final(self).tokens() == old(self).tokens().push(
                TokenView {
                    t_type,
                    lexeme: old(self).source@.subrange(
                        old(self).start as int,
                        old(self).current as int,
                    ),
                    literal: crate::token::literal_model(literal),
                    line: old(self).line,
                },
            ),
    {
        let lexeme = self.text(self.start, self.current);
        let token = Token { t_type, lexeme, literal, line: self.line };
        self.tokens.push(token);
        assert(self.tokens() =~= old(self).tokens().push(token@));
    }
    /// Reads the rest of a string literal, behind its opening quote.
    fn string(&mut self) -> (r: Result<(), RloxError>)
        requires
            old(self).wf(),
            old(self).current == old(self).start + 1,
        ensures
            final(self).wf(),
            final(self).source@ == old(self).source@,
            final(self).start == old(self).start,
            final(self).line == line_after(
                old(self).source@,
                old(self).current as int,
                final(self).current as int,
                old(self).line,
            ),
            ({
                let src = old(self).source@;
                let close = run_end(src, old(self).current as int, Run::Text);
                if close < src.len() {
                    &&& r is Ok
                    &&& final(self).current == close + 1
                    &&& final(self).tokens() == old(self).tokens().push(
                        TokenView {
                            t_type: TokenType::String,
                            lexeme: src.subrange(old(self).start as int, close + 1),
                            literal: Some(
                                LiteralView::String(
                                    src.subrange(old(self).start + 1, close as int),
                                ),
                            ),
                            line: final(self).line,
                        },
                    )
                } else {
                    &&& r matches Err(e)
                    &&& e.msg@ == "Unterminated string"@
                    &&& e.line == old(self).line
                    &&& final(self).current == close
                    &&& final(self).tokens() == old(self).tokens()
                }
            }),
    {
        let start_line = self.line;
        proof {
            lemma_run_end(self.source@, self.current as int, Run::Text);
        }
        self.skip_run(Run::Text);
        if self.peek().is_none() {
            return Err(RloxError { msg: "Unterminated string".to_owned(), line: start_line });
        }
        proof {
            lemma_line_after_split(
                self.source@,
                old(self).current as int,
                self.current as int,
                self.current + 1,
                old(self).line,
            );
        }
        self.advance();
        let value = LiteralType::String(self.text(self.start + 1, self.current - 1));
        self.add_token_literal(TokenType::String, Some(value));
        Ok(())
    }

    /// Reads the rest of a number, behind its first digit, and has the host tell its value.
    fn number<F: Fn(&str) -> u64>(&mut self, read_number: &F)
        requires
            old(self).wf(),
            old(self).current == old(self).start + 1,
            is_digit(old(self).source@[old(self).start as int]),
            forall|t: &str| is_numeral(t@) ==> call_requires(*read_number, (t,)),
        ensures
            final(self).wf(),
            final(self).source@ == old(self).source@,
            final(self).line == line_after(
                old(self).source@,
                old(self).current as int,
                final(self).current as int,
                old(self).line,
            ),
            final(self).current == number_end(old(self).source@, old(self).start as int),
            final(self).tokens().len() == old(self).tokens().len() + 1,
            final(self).tokens().drop_last() == old(self).tokens(),
            without_number(final(self).tokens().last()) == token_of(
                old(self).source@,
                TokenType::Number,
                old(self).start as int,
                final(self).current as int,
                final(self).line,
                0,
            ),
            number_read(*read_number, final(self).tokens().last()),
    {
        proof {
            lemma_run_end(self.source@, self.current as int, Run::Digits);
        }
        self.skip_run(Run::Digits);
        let ghost whole = self.current as int;
        let dot = self.peek();
        let next = self.peek_double();
        let fraction = match (dot, next) {
            (Some(d), Some(n)) => d == '.' && '0' <= n && n <= '9',
            _ => false,
        };
        if fraction {
            proof {
                lemma_line_after_split(
                    self.source@,
                    old(self).current as int,
                    whole,
                    whole + 1,
                    old(self).line,
                );
                lemma_line_after_split(
                    self.source@,
                    old(self).current as int,
                    whole + 1,
                    whole + 2,
                    old(self).line,
                );
                lemma_run_end(self.source@, whole + 2, Run::Digits);
                lemma_line_after_split(
                    self.source@,
                    old(self).current as int,
                    whole + 2,
                    run_end(self.source@, whole + 2, Run::Digits),
                    old(self).line,
                );
            }
            self.advance();
            self.advance();
            self.skip_run(Run::Digits);
        }
        let lexeme = self.text(self.start, self.current);
        let text = lexeme.as_str();
        proof {
            lemma_number_is_numeral(self.source@, self.start as int);
        }
        let bits = read_number(text);
        let ghost witness: &str = text;
        let ghost before = self.tokens();
        let token = Token {
            t_type: TokenType::Number,
            lexeme,
            literal: Some(LiteralType::Number(bits)),
            line: self.line,
        };
        self.tokens.push(token);
        proof {
            assert(self.tokens() =~= before.push(token@));
            assert(self.tokens().drop_last() =~= before);
            assert(number_read(*read_number, token@)) by {
                assert(witness@ == token@.lexeme && call_ensures(*read_number, (witness,), bits)
                    && token@.literal == Some(LiteralView::Number(bits)));
            }
        }
    }

    /// Reads the rest of an identifier or reserved word, behind its first character.
    fn identifier(&mut self)
        requires
            old(self).wf(),
            old(self).current == old(self).start + 1,
        ensures
            final(self).wf(),
            final(self).source@ == old(self).source@,
            final(self).line == line_after(
                old(self).source@,
                old(self).current as int,
                final(self).current as int,
                old(self).line,
            ),
            final(self).current == run_end(
                old(self).source@,
                old(self).current as int,
                Run::Word,
            ),
            final(self).tokens() == old(self).tokens().push(
                TokenView {
                    t_type: match keyword_of(
                        old(self).source@.subrange(
                            old(self).start as int,
                            final(self).current as int,
                        ),
                    ) {
                        Some(t) => t,
                        None => TokenType::Identifier,
                    },
                    lexeme: old(self).source@.subrange(
                        old(self).start as int,
                        final(self).current as int,
                    ),
                    literal: None,
                    line: final(self).line,
                },
            ),
    {
        proof {
            lemma_run_end(self.source@, self.current as int, Run::Word);
        }
        self.skip_run(Run::Word);
        let text_value = self.text(self.start, self.current);
        match get_identified_keyword(text_value.as_str()) {
            Some(identified_token) => self.add_token(identified_token),
            None => self.add_token(TokenType::Identifier),
        }
    }
    /// Reads one piece of the text. A token is added to the tokens read; an
    /// error is returned; blanks and comments leave no trace.
    fn scan_token<F: Fn(&str) -> u64>(&mut self, read_number: &F) -> (r: Result<(), RloxError>)
        requires
            old(self).wf(),
            old(self).start == old(self).current,
            old(self).current < old(self).source@.len(),
            forall|t: &str| is_numeral(t@) ==> call_requires(*read_number, (t,)),
        ensures
            final(self).wf(),
            final(self).source@ == old(self).source@,
            final(self).current == piece_at(old(self).source@, old(self).current as int).1,
            final(self).line == line_after(
                old(self).source@,
                old(self).current as int,
                final(self).current as int,
                old(self).line,
            ),
            match piece_at(old(self).source@, old(self).current as int).0 {
                PieceKind::Token(t) => {
                    &&& r is Ok
                    &&& final(self).tokens().len() == old(self).tokens().len() + 1
                    &&& final(self).tokens().drop_last() == old(self).tokens()
                    &&& without_number(final(self).tokens().last()) == token_of(
                        old(self).source@,
                        t,
                        old(self).current as int,
                        final(self).current as int,
                        final(self).line,
                        0,
                    )
                    &&& t == TokenType::Number ==> number_read(
                        *read_number,
                        final(self).tokens().last(),
                    )
                },
                kind => {
                    &&& final(self).tokens() == old(self).tokens()
                    &&& match error_of(kind, old(self).line) {
                        Some(e) => r matches Err(found) && found.msg@ == e.msg && found.line
                            == e.line,
                        None => r is Ok,
                    }
                },
            },
    {
        let ghost src = self.source@;
        let ghost pos = self.current as int;
        let ghost line = self.line;
        let ghost before = self.tokens();
        let first_line = self.line;
        proof {
            lemma_piece_at(src, pos);
            lemma_line_after_one(src, pos, line);
        }
        let token = match self.advance() {
            Some(c) => c,
            None => ' ',
        };
        let mut result: Result<(), RloxError> = Ok(());
        if token == '(' {
            self.add_token(TokenType::LeftParen);
        } else if token == ')' {
            self.add_token(TokenType::RightParen);
        } else if token == '{' {
            self.add_token(TokenType::LeftBrace);
        } else if token == '}' {
            self.add_token(TokenType::RightBrace);
        } else if token == ',' {
            self.add_token(TokenType::Comma);
        } else if token == '.' {
            self.add_token(TokenType::Dot);
        } else if token == '-' {
            self.add_token(TokenType::Minus);
        } else if token == '+' {
            self.add_token(TokenType::Plus);
        } else if token == ';' {
            self.add_token(TokenType::Semicolon);
        } else if token == '*' {
            self.add_token(TokenType::Star);
        } else if token == '?' {
            self.add_token(TokenType::Question);
        } else if token == ':' {
            self.add_token(TokenType::Colon);
        } else if token == '!' || token == '=' || token == '<' || token == '>' {
            proof {
                if pos + 1 < src.len() {
                    lemma_line_after_one(src, pos + 1, line);
                    lemma_line_after_split(src, pos, pos + 1, pos + 2, line);
                }
            }
            let followed = self.peek_and_match('=');
            let t_type = if token == '!' {
                if followed {
                    TokenType::BangEqual
                } else {
                    TokenType::Bang
                }
            } else if token == '=' {
                if followed {
                    TokenType::EqualEqual
                } else {
                    TokenType::Equal
                }
            } else if token == '<' {
                if followed {
                    TokenType::LessEqual
                } else {
                    TokenType::Less
                }
            } else {
                if followed {
                    TokenType::GreaterEqual
                } else {
                    TokenType::Greater
                }
            };
            self.add_token(t_type);
        } else if token == '/' {
            proof {
                if pos + 1 < src.len() {
                    lemma_line_after_one(src, pos + 1, line);
                    lemma_line_after_split(src, pos, pos + 1, pos + 2, line);
                    lemma_run_end(src, pos + 2, Run::Line);
                    lemma_comment_end(src, pos + 2);
                    lemma_line_after_split(src, pos, pos + 2, run_end(src, pos + 2, Run::Line), line);
                    lemma_line_after_split(src, pos, pos + 2, comment_end(src, pos + 2), line);
                }
            }
            if self.peek_and_match('/') {
                self.skip_run(Run::Line);
            } else if self.peek_and_match('*') {
                self.skip_comment();
            } else {
                self.add_token(TokenType::Slash);
            }
        } else if token == '"' {
            proof {
                lemma_run_end(src, pos + 1, Run::Text);
                let close = run_end(src, pos + 1, Run::Text);
                lemma_line_after_split(src, pos, pos + 1, close, line);
                if close < src.len() {
                    lemma_line_after_split(src, pos, pos + 1, close + 1, line);
                }
            }
            result = self.string();
        } else if token == ' ' || token == '\r' || token == '\t' || token == '\n' {
        } else if '0' <= token && token <= '9' {
            proof {
                lemma_run_end(src, pos + 1, Run::Digits);
                let whole = run_end(src, pos + 1, Run::Digits);
                if whole + 2 <= src.len() {
                    lemma_run_end(src, whole + 2, Run::Digits);
                }
                lemma_line_after_split(src, pos, pos + 1, number_end(src, pos), line);
            }
            self.number(read_number);
        } else if ('a' <= token && token <= 'z') || ('A' <= token && token <= 'Z') || token == '_' {
            proof {
                lemma_run_end(src, pos + 1, Run::Word);
                lemma_line_after_split(src, pos, pos + 1, run_end(src, pos + 1, Run::Word), line);
            }
            self.identifier();
        } else {
            result = Err(RloxError { msg: "Unexpected character".to_owned(), line: first_line });
        }
        proof {
            if piece_at(src, pos).0 is Token {
                assert(self.tokens().drop_last() =~= before);
            }
        }
        result
    }

    /// Reads the rest of the text and closes the tokens with an `EOF` token.
    /// The host tells the value of each number from the number's text, which
    /// is a numeral: `read_number` need not take any other text.
    ///
    /// The tokens are those of [`tokens_from`], each number with the value
    /// that the host gave it. They are returned where the text holds no
    /// lexical error; else all its errors are returned, in the order of the
    /// text: those of [`errors_from`].
    pub fn scan_tokens<F: Fn(&str) -> u64>(&mut self, read_number: F) -> (r: Result<
        Vec<Token>,
        ScannerError,
    >)
        requires
            old(self).wf(),
            forall|t: &str| is_numeral(t@) ==> call_requires(read_number, (t,)),
        ensures
            final(self).wf(),
            final(self).source() == old(self).source(),
            final(self).position() >= old(self).source().len(),
            final(self).tokens().len() == old(self).tokens().len() + tokens_from(
                old(self).source(),
                old(self).position(),
                old(self).line(),
            ).len(),
            final(self).tokens().take(old(self).tokens().len() as int) == old(self).tokens(),
            without_numbers(final(self).tokens().skip(old(self).tokens().len() as int))
                == tokens_from(old(self).source(), old(self).position(), old(self).line()),
            forall|i: int|
                old(self).tokens().len() <= i < final(self).tokens().len() && (
                #[trigger] final(self).tokens()[i]).t_type == TokenType::Number ==> number_read(
                    read_number,
                    final(self).tokens()[i],
                ),
            match r {
                Ok(tokens) => {
                    &&& errors_from(old(self).source(), old(self).position(), old(self).line())
                        == Seq::<ErrorView>::empty()
                    &&& tokens_model(tokens@) == final(self).tokens()
                },
                Err(e) => {
                    &&& e.errors@.len() > 0
                    &&& errors_model(e.errors@) == errors_from(
                        old(self).source(),
                        old(self).position(),
                        old(self).line(),
                    )
                },
            },
    {
        let mut errors: Vec<RloxError> = Vec::new();
        let ghost src = self.source@;
        let ghost pos0 = self.current as int;
        let ghost line0 = self.line;
        let ghost base = self.tokens();
        let ghost n = base.len() as int;
        proof {
            assert(self.tokens().skip(n) =~= Seq::<TokenView>::empty());
            assert(without_numbers(self.tokens().skip(n)) + tokens_from(src, pos0, line0)
                =~= tokens_from(src, pos0, line0));
            assert(errors_model(errors@) + errors_from(src, pos0, line0) =~= errors_from(
                src,
                pos0,
                line0,
            ));
            assert(self.tokens().take(n) =~= base);
        }
        while !self.is_at_end()
            invariant
                self.wf(),
                self.source@ == src,
                n == base.len(),
                self.tokens().len() >= n,
                self.tokens().take(n) == base,
                without_numbers(self.tokens().skip(n)) + tokens_from(
                    src,
                    self.current as int,
                    self.line,
                ) == tokens_from(src, pos0, line0),
                errors_model(errors@) + errors_from(src, self.current as int, self.line)
                    == errors_from(src, pos0, line0),
                forall|i: int|
                    n <= i < self.tokens().len() && (#[trigger] self.tokens()[i]).t_type
                        == TokenType::Number ==> number_read(read_number, self.tokens()[i]),
                forall|t: &str| is_numeral(t@) ==> call_requires(read_number, (t,)),
            decreases src.len() - self.current,
        {
            self.start = self.current;
            let ghost before = self.tokens();
            let ghost before_errors = errors_model(errors@);
            let ghost pos = self.current as int;
            let ghost line = self.line;
            proof {
                lemma_piece_at(src, pos);
            }
            let result = self.scan_token(&read_number);
            proof {
                let kind = piece_at(src, pos).0;
                let end = piece_at(src, pos).1;
                let behind = line_after(src, pos, end, line);
                match kind {
                    PieceKind::Token(t) => {
                        assert(self.tokens() =~= before.push(self.tokens().last()));
                        assert(without_numbers(self.tokens().skip(n)) =~= without_numbers(
                            before.skip(n),
                        ).push(token_of(src, t, pos, end, behind, 0)));
                        assert(without_numbers(self.tokens().skip(n)) + tokens_from(
                            src,
                            end,
                            behind,
                        ) =~= without_numbers(before.skip(n)) + tokens_from(src, pos, line));
                        assert(self.tokens().take(n) =~= before.take(n));
                    },
                    _ => {},
                }
            }
            match result {
                Err(e) => {
                    errors.push(e);
                    proof {
                        let found = ErrorView { msg: e.msg@, line: e.line };
                        assert(errors_model(errors@) =~= before_errors.push(found));
                        assert(errors_model(errors@) + errors_from(
                            src,
                            self.current as int,
                            self.line,
                        ) =~= before_errors + errors_from(src, pos, line));
                    }
                },
                Ok(_) => {},
            }
        }
        let ghost before = self.tokens();
        let eof = Token { t_type: TokenType::EOF, lexeme: String::new(), literal: None, line: self.line };
        self.tokens.push(eof);
        proof {
            assert(self.tokens() =~= before.push(eof_token(self.line)));
            assert(without_numbers(self.tokens().skip(n)) =~= without_numbers(before.skip(n))
                + seq![eof_token(self.line)]);
            assert(self.tokens().take(n) =~= before.take(n));
            assert(errors_model(errors@) =~= errors_from(src, pos0, line0));
        }
        if errors.len() > 0 {
            return Err(ScannerError { errors });
        }
        Ok(crate::token::clone_tokens(&self.tokens))
    }
}

} // verus!
