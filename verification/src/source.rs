//! Places in source files, and the tokens a file is read as.

use vstd::prelude::*;
use vstd::string::*;

use crate::text::{
    decimal, decimal_text, digits_value, is_digit, law_numerals_round_trip, same_text,
};

verus! {

/// Which file a [`Span`] lies in: one a [`SourceMap`] knows, or none in
/// particular.
#[derive(Debug, Clone, Copy, PartialEq, Eq, Structural)]
pub enum FileId {
    Anonymous,
    Interned(usize),
}

/// A stretch of source text, with the line and column it starts at.
#[derive(Debug, Clone, Copy, PartialEq, Eq, Structural)]
pub struct Span {
    pub start: usize,
    pub end: usize,
    pub line: u32,
    pub col: u32,
    pub file: FileId,
}

impl DeepView for Span {
    type V = Span;

    open spec fn deep_view(&self) -> Span {
        *self
    }
}

/// The paths of the files a program was read from, in the order they
/// were first named.
#[derive(Debug, Clone, PartialEq)]
pub struct SourceMap {
    pub paths: Vec<String>,
}

impl DeepView for SourceMap {
    type V = Seq<Seq<char>>;

    open spec fn deep_view(&self) -> Seq<Seq<char>> {
        self.paths.deep_view()
    }
}

impl Default for SourceMap {
    fn default() -> (r: Self)
        ensures
            r.deep_view() == Seq::<Seq<char>>::empty(),
    {
        SourceMap { paths: crate::deep::no_items() }
    }
}

impl SourceMap {
    /// The id of `path`, which joins the map unless it is there already.
    pub fn intern(&mut self, path: &str) -> (r: FileId)
        ensures
            final(self).deep_view() == if old(self).deep_view().contains(path@) {
                old(self).deep_view()
            } else {
                old(self).deep_view().push(path@)
            },
            r matches FileId::Interned(i) && i < final(self).deep_view().len()
                && final(self).deep_view()[i as int] == path@,
    {
        let mut i: usize = 0;
        while i < self.paths.len()
            invariant
                i <= self.paths@.len(),
                *self == *old(self),
                forall|k: int| 0 <= k < i ==> self.deep_view()[k] != path@,
            decreases self.paths@.len() - i,
        {
            if same_text(self.paths[i].as_str(), path) {
                assert(self.deep_view()[i as int] == path@);
                return FileId::Interned(i);
            }
            i = i + 1;
        }
        crate::deep::push_to(&mut self.paths, path.to_owned());
        FileId::Interned(i)
    }
}

/// How a diagnostic names a place: `path:line:col` for a file the map
/// knows, `line:col` for any other.
pub open spec fn location(span: Span, files: Option<Seq<Seq<char>>>) -> Seq<char> {
    let place = decimal(span.line as nat) + ":"@ + decimal(span.col as nat);
    match (files, span.file) {
        (Some(paths), FileId::Interned(i)) => if i < paths.len() {
            paths[i as int] + ":"@ + place
        } else {
            place
        },
        _ => place,
    }
}

impl Span {
    /// Names this place, resolving its file against `files`.
    pub fn locate(self, files: Option<&SourceMap>) -> (r: String)
        ensures
            r@ == location(self, files.deep_view()),
    {
        let mut place = decimal_text(self.line as u64);
        place.append(":");
        place.append(decimal_text(self.col as u64).as_str());
        if let Some(map) = files {
            if let FileId::Interned(i) = self.file {
                if i < map.paths.len() {
                    let mut out = map.paths[i].clone();
                    out.append(":");
                    out.append(place.as_str());
                    return out;
                }
            }
        }
        place
    }

    /// The stretch from the start of `self` to the end of `last`.
    pub fn to(self, last: Span) -> (r: Span)
        ensures
            r == joined(self, last),
    {
        Span { start: self.start, end: last.end, line: self.line, col: self.col, file: self.file }
    }
}

/// The stretch from the start of `first` to the end of `last`, placed
/// where `first` is.
pub open spec fn joined(first: Span, last: Span) -> Span {
    Span { end: last.end, ..first }
}

/// What a token is.
#[derive(Debug, Clone, Copy, PartialEq, Eq, Structural)]
pub enum TokenKind {
    Ident,
    Str,
    Number,
    LBrace,
    RBrace,
    LBracket,
    RBracket,
    LParen,
    RParen,
    Colon,
    Equals,
    Arrow,
    Comma,
    Dot,
    Dollar,
    Bang,
    AmpAmp,
    PipePipe,
    Template,
    Eof,
}

impl DeepView for TokenKind {
    type V = TokenKind;

    open spec fn deep_view(&self) -> TokenKind {
        *self
    }
}

/// How a diagnostic names a kind of token.
pub open spec fn kind_text(kind: TokenKind) -> Seq<char> {
    match kind {
        TokenKind::Ident => "an identifier"@,
        TokenKind::Str => "a string"@,
        TokenKind::Number => "a number"@,
        TokenKind::LBrace => "`{`"@,
        TokenKind::RBrace => "`}`"@,
        TokenKind::LBracket => "`[`"@,
        TokenKind::RBracket => "`]`"@,
        TokenKind::LParen => "`(`"@,
        TokenKind::RParen => "`)`"@,
        TokenKind::Colon => "`:`"@,
        TokenKind::Equals => "`=`"@,
        TokenKind::Arrow => "`->`"@,
        TokenKind::Comma => "`,`"@,
        TokenKind::Dot => "`.`"@,
        TokenKind::Dollar => "`$`"@,
        TokenKind::Bang => "`!`"@,
        TokenKind::AmpAmp => "`&&`"@,
        TokenKind::PipePipe => "`||`"@,
        TokenKind::Template => "`template`"@,
        TokenKind::Eof => "end of input"@,
    }
}

impl TokenKind {
    /// How a diagnostic names this kind of token.
    pub fn text(self) -> (r: &'static str)
        ensures
            r@ == kind_text(self),
    {
        match self {
            TokenKind::Ident => "an identifier",
            TokenKind::Str => "a string",
            TokenKind::Number => "a number",
            TokenKind::LBrace => "`{`",
            TokenKind::RBrace => "`}`",
            TokenKind::LBracket => "`[`",
            TokenKind::RBracket => "`]`",
            TokenKind::LParen => "`(`",
            TokenKind::RParen => "`)`",
            TokenKind::Colon => "`:`",
            TokenKind::Equals => "`=`",
            TokenKind::Arrow => "`->`",
            TokenKind::Comma => "`,`",
            TokenKind::Dot => "`.`",
            TokenKind::Dollar => "`$`",
            TokenKind::Bang => "`!`",
            TokenKind::AmpAmp => "`&&`",
            TokenKind::PipePipe => "`||`",
            TokenKind::Template => "`template`",
            TokenKind::Eof => "end of input",
        }
    }
}

/// One problem the lexer found: where it is, and the whole line a
/// diagnostic prints for it.
#[derive(Debug, PartialEq)]
pub struct LexError {
    pub text: String,
    pub span: Span,
}

/// The view of a [`LexError`].
#[verifier::ext_equal]
pub struct LexErrorV {
    pub text: Seq<char>,
    pub span: Span,
}

impl DeepView for LexError {
    type V = LexErrorV;

    open spec fn deep_view(&self) -> LexErrorV {
        LexErrorV { text: self.text@, span: self.span }
    }
}

impl Clone for LexError {
    fn clone(&self) -> (r: Self)
        ensures
            r.deep_view() == self.deep_view(),
    {
        LexError { text: self.text.clone(), span: self.span }
    }
}

/// One token: what it is, how it is written, and, for a string, the
/// content its escapes stand for or the problem in them.
#[derive(Debug)]
pub struct Token {
    pub kind: TokenKind,
    pub lexeme: String,
    pub content: Result<String, LexError>,
    pub span: Span,
}

/// The view of a [`Token`].
#[verifier::ext_equal]
pub struct TokenV {
    pub kind: TokenKind,
    pub lexeme: Seq<char>,
    pub content: Result<Seq<char>, LexErrorV>,
    pub span: Span,
}

impl DeepView for Token {
    type V = TokenV;

    open spec fn deep_view(&self) -> TokenV {
        TokenV {
            kind: self.kind,
            lexeme: self.lexeme@,
            content: match self.content {
                Ok(text) => Ok(text@),
                Err(error) => Err(error.deep_view()),
            },
            span: self.span,
        }
    }
}

/// Whether a text is two numerals with a colon between them, the one of
/// `line` and the one of `col`.
pub open spec fn line_and_column(text: Seq<char>, line: nat, col: nat) -> bool {
    exists|at: int|
        #![trigger text[at]]
        0 < at < text.len() - 1 && text[at] == ':' && digits_value(text.take(at)) == line
            && digits_value(text.skip(at + 1)) == col && (forall|k: int|
            0 <= k < text.len() && k != at ==> is_digit(#[trigger] text[k]))
}

/// A place is named by its line and its column, in this order, and in a
/// file that the map knows by the file's path before them.
pub proof fn law_places_are_named(span: Span, paths: Seq<Seq<char>>)
    ensures
        line_and_column(location(span, None), span.line as nat, span.col as nat),
        span.file is Anonymous ==> location(span, Some(paths)) == location(span, None),
        span.file matches FileId::Interned(i) ==> location(span, Some(paths)) == if i
            < paths.len() {
            paths[i as int] + seq![':'] + location(span, None)
        } else {
            location(span, None)
        },
{
    reveal_strlit(":");
    assert(":"@ =~= seq![':']);
    let l = decimal(span.line as nat);
    let c = decimal(span.col as nat);
    law_numerals_round_trip(span.line as nat);
    law_numerals_round_trip(span.col as nat);
    let text = location(span, None);
    let at = l.len() as int;
    assert(text[at] == ':');
    assert(text.take(at) =~= l);
    assert(text.skip(at + 1) =~= c);
    assert forall|k: int| 0 <= k < text.len() && k != at implies is_digit(#[trigger] text[k]) by {
        if k < at {
            assert(text[k] == l[k]);
        } else {
            assert(text[k] == c[k - at - 1]);
        }
    }
}

/// A stretch from one place to another starts where the first does, on its
/// line and in its file, and ends where the last does.
pub proof fn law_stretches_join(first: Span, last: Span)
    ensures
        joined(first, last).start == first.start,
        joined(first, last).line == first.line,
        joined(first, last).col == first.col,
        joined(first, last).file == first.file,
        joined(first, last).end == last.end,
{
}

} // verus!
