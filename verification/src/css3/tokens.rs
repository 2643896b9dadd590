//! CSS tokens and the token stream that the CSS3 parser reads from.
use vstd::prelude::*;

verus! {

/// A CSS token as produced by the tokenizer.
#[derive(Debug)]
pub enum Token {
    Ident(String),
    Function(String),
    AtKeyword(String),
    Hash(String),
    QuotedString(String),
    Number(String),
    Delim(char),
    Whitespace,
    Colon,
    Semicolon,
    Comma,
    LBracket,
    RBracket,
    LParen,
    RParen,
    LCurly,
    RCurly,
    CDO,
    CDC,
    EOF,
}

/// The mathematical value of a token: its kind and its text.
pub enum TokenView {
    Ident(Seq<char>),
    Function(Seq<char>),
    AtKeyword(Seq<char>),
    Hash(Seq<char>),
    QuotedString(Seq<char>),
    Number(Seq<char>),
    Delim(char),
    Whitespace,
    Colon,
    Semicolon,
    Comma,
    LBracket,
    RBracket,
    LParen,
    RParen,
    LCurly,
    RCurly,
    CDO,
    CDC,
    EOF,
}

impl View for Token {
    type V = TokenView;

    open spec fn view(&self) -> TokenView {
        match self {
            Token::Ident(s) => TokenView::Ident(s@),
            Token::Function(s) => TokenView::Function(s@),
            Token::AtKeyword(s) => TokenView::AtKeyword(s@),
            Token::Hash(s) => TokenView::Hash(s@),
            Token::QuotedString(s) => TokenView::QuotedString(s@),
            Token::Number(s) => TokenView::Number(s@),
            Token::Delim(c) => TokenView::Delim(*c),
            Token::Whitespace => TokenView::Whitespace,
            Token::Colon => TokenView::Colon,
            Token::Semicolon => TokenView::Semicolon,
            Token::Comma => TokenView::Comma,
            Token::LBracket => TokenView::LBracket,
            Token::RBracket => TokenView::RBracket,
            Token::LParen => TokenView::LParen,
            Token::RParen => TokenView::RParen,
            Token::LCurly => TokenView::LCurly,
            Token::RCurly => TokenView::RCurly,
            Token::CDO => TokenView::CDO,
            Token::CDC => TokenView::CDC,
            Token::EOF => TokenView::EOF,
        }
    }
}

impl PartialEq for Token {
    fn eq(&self, other: &Token) -> (b: bool) {
        self.same_as(other)
    }
}

impl vstd::std_specs::cmp::PartialEqSpecImpl for Token {
    open spec fn obeys_eq_spec() -> bool {
        true
    }

    open spec fn eq_spec(&self, other: &Token) -> bool {
        self@ == other@
    }
}

/// The text of a token, as its `to_string` writes it.
pub open spec fn token_text(t: TokenView) -> Seq<char> {
    match t {
        TokenView::Ident(s) => s,
        TokenView::Function(s) => s + seq!['('],
        TokenView::AtKeyword(s) => seq!['@'] + s,
        TokenView::Hash(s) => seq!['#'] + s,
        TokenView::QuotedString(s) => seq!['"'] + s + seq!['"'],
        TokenView::Number(s) => s,
        TokenView::Delim(c) => seq![c],
        TokenView::Whitespace => seq![' '],
        TokenView::Colon => seq![':'],
        TokenView::Semicolon => seq![';'],
        TokenView::Comma => seq![','],
        TokenView::LBracket => seq!['['],
        TokenView::RBracket => seq![']'],
        TokenView::LParen => seq!['('],
        TokenView::RParen => seq![')'],
        TokenView::LCurly => seq!['{'],
        TokenView::RCurly => seq!['}'],
        TokenView::CDO => seq!['<', '!', '-', '-'],
        TokenView::CDC => seq!['-', '-', '>'],
        TokenView::EOF => Seq::empty(),
    }
}

/// `char::to_string` from std: the string that holds exactly the one character.
#[verifier::external_body]
fn char_to_string(c: char) -> (s: String)
    ensures
        s@ == seq![c],
{
    c.to_string()
}

pub fn string_of(lit: &str) -> (s: String)
    ensures
        s@ == lit@,
{
    let mut s = String::new();
    s.append(lit);
    s
}

impl Token {
    /// Copies the token.
    pub fn duplicate(&self) -> (r: Token)
        ensures
            r@ == self@,
    {
        match self {
            Token::Ident(s) => Token::Ident(s.clone()),
            Token::Function(s) => Token::Function(s.clone()),
            Token::AtKeyword(s) => Token::AtKeyword(s.clone()),
            Token::Hash(s) => Token::Hash(s.clone()),
            Token::QuotedString(s) => Token::QuotedString(s.clone()),
            Token::Number(s) => Token::Number(s.clone()),
            Token::Delim(c) => Token::Delim(*c),
            Token::Whitespace => Token::Whitespace,
            Token::Colon => Token::Colon,
            Token::Semicolon => Token::Semicolon,
            Token::Comma => Token::Comma,
            Token::LBracket => Token::LBracket,
            Token::RBracket => Token::RBracket,
            Token::LParen => Token::LParen,
            Token::RParen => Token::RParen,
            Token::LCurly => Token::LCurly,
            Token::RCurly => Token::RCurly,
            Token::CDO => Token::CDO,
            Token::CDC => Token::CDC,
            Token::EOF => Token::EOF,
        }
    }

    /// Whether two tokens are the same kind with the same text.
    pub fn same_as(&self, other: &Token) -> (b: bool)
        ensures
            b == (self@ == other@),
    {
        match (self, other) {
            (Token::Ident(a), Token::Ident(b)) => *a == *b,
            (Token::Function(a), Token::Function(b)) => *a == *b,
            (Token::AtKeyword(a), Token::AtKeyword(b)) => *a == *b,
            (Token::Hash(a), Token::Hash(b)) => *a == *b,
            (Token::QuotedString(a), Token::QuotedString(b)) => *a == *b,
            (Token::Number(a), Token::Number(b)) => *a == *b,
            (Token::Delim(a), Token::Delim(b)) => *a == *b,
            (Token::Whitespace, Token::Whitespace) => true,
            (Token::Colon, Token::Colon) => true,
            (Token::Semicolon, Token::Semicolon) => true,
            (Token::Comma, Token::Comma) => true,
            (Token::LBracket, Token::LBracket) => true,
            (Token::RBracket, Token::RBracket) => true,
            (Token::LParen, Token::LParen) => true,
            (Token::RParen, Token::RParen) => true,
            (Token::LCurly, Token::LCurly) => true,
            (Token::RCurly, Token::RCurly) => true,
            (Token::CDO, Token::CDO) => true,
            (Token::CDC, Token::CDC) => true,
            (Token::EOF, Token::EOF) => true,
            _ => false,
        }
    }

    pub fn is_eof(&self) -> (b: bool)
        ensures
            b == (self@ is EOF),
    {
        match self {
            Token::EOF => true,
            _ => false,
        }
    }

    /// The text of the token.
    pub fn to_string(&self) -> (s: String)
        ensures
            s@ == token_text(self@),
    {
        proof {
            reveal_strlit("(");
            reveal_strlit("@");
            reveal_strlit("#");
            reveal_strlit("\"");
            reveal_strlit(" ");
            reveal_strlit(":");
            reveal_strlit(";");
            reveal_strlit(",");
            reveal_strlit("[");
            reveal_strlit("]");
            reveal_strlit(")");
            reveal_strlit("{");
            reveal_strlit("}");
            reveal_strlit("<!--");
            reveal_strlit("-->");
            reveal_strlit("");
        }
        match self {
            Token::Ident(s) => s.clone(),
            Token::Function(s) => {
                let mut r = s.clone();
                r.append("(");
                r
            },
            Token::AtKeyword(s) => {
                let mut r = string_of("@");
                r.append(s.as_str());
                r
            },
            Token::Hash(s) => {
                let mut r = string_of("#");
                r.append(s.as_str());
                r
            },
            Token::QuotedString(s) => {
                let mut r = string_of("\"");
                r.append(s.as_str());
                r.append("\"");
                r
            },
            Token::Number(s) => s.clone(),
            Token::Delim(c) => char_to_string(*c),
            Token::Whitespace => string_of(" "),
            Token::Colon => string_of(":"),
            Token::Semicolon => string_of(";"),
            Token::Comma => string_of(","),
            Token::LBracket => string_of("["),
            Token::RBracket => string_of("]"),
            Token::LParen => string_of("("),
            Token::RParen => string_of(")"),
            Token::LCurly => string_of("{"),
            Token::RCurly => string_of("}"),
            Token::CDO => string_of("<!--"),
            Token::CDC => string_of("-->"),
            Token::EOF => String::new(),
        }
    }
}


/// The token at `pos + n`, or EOF past the end.
pub open spec fn lookahead_at(toks: Seq<TokenView>, pos: int, n: int) -> TokenView {
    if 0 <= pos + n < toks.len() {
        toks[pos + n]
    } else {
        TokenView::EOF
    }
}

/// The position after consuming one token: the end of the stream is sticky.
pub open spec fn advance(toks: Seq<TokenView>, pos: int) -> int {
    if pos < toks.len() {
        pos + 1
    } else {
        pos
    }
}

/// The token consumed last: the one just before the position, or EOF at the start.
pub open spec fn current_at(toks: Seq<TokenView>, pos: int) -> TokenView {
    if 0 < pos <= toks.len() {
        toks[pos - 1]
    } else {
        TokenView::EOF
    }
}

/// A stream of tokens with a read position.
pub struct TokenStream {
    tokens: Vec<Token>,
    position: usize,
}

impl TokenStream {
    /// The tokens of the stream.
    pub closed spec fn toks(&self) -> Seq<TokenView> {
        self.tokens@.map_values(|t: Token| t@)
    }

    /// The read position: the number of tokens consumed.
    pub closed spec fn pos(&self) -> int {
        self.position as int
    }

    pub closed spec fn wf(&self) -> bool {
        self.position <= self.tokens.len()
    }

    pub proof fn lemma_wf(&self)
        requires
            self.wf(),
        ensures
            0 <= self.pos() <= self.toks().len(),
    {
    }

    /// A stream that reads the given tokens from the start.
    pub fn new_from_tokens(tokens: Vec<Token>) -> (s: TokenStream)
        ensures
            s.wf(),
            s.toks() == tokens@.map_values(|t: Token| t@),
            s.pos() == 0,
    {
        TokenStream { tokens, position: 0 }
    }

    /// The token `offset` places after the read position, without consuming anything.
    pub fn lookahead(&self, offset: usize) -> (t: Token)
        requires
            self.wf(),
        ensures
            t@ == lookahead_at(self.toks(), self.pos(), offset as int),
    {
        if offset < self.tokens.len() - self.position {
            self.tokens[self.position + offset].duplicate()
        } else {
            Token::EOF
        }
    }

    /// Consumes the next token and returns it; at the end the stream stays put and gives EOF.
    pub fn consume(&mut self) -> (t: Token)
        requires
            old(self).wf(),
        ensures
            final(self).wf(),
            final(self).toks() == old(self).toks(),
            final(self).pos() == advance(old(self).toks(), old(self).pos()),
            t@ == lookahead_at(old(self).toks(), old(self).pos(), 0),
    {
        if self.position < self.tokens.len() {
            let t = self.tokens[self.position].duplicate();
            self.position = self.position + 1;
            t
        } else {
            Token::EOF
        }
    }

    /// Steps back one token, so that the next `consume` reads it again.
    pub fn reconsume(&mut self)
        requires
            old(self).wf(),
        ensures
            final(self).wf(),
            final(self).toks() == old(self).toks(),
            final(self).pos() == if old(self).pos() > 0 { old(self).pos() - 1 } else { 0 },
    {
        if self.position > 0 {
            self.position = self.position - 1;
        }
    }

    /// The token consumed last.
    pub fn current(&self) -> (t: Token)
        requires
            self.wf(),
        ensures
            t@ == current_at(self.toks(), self.pos()),
    {
        if self.position > 0 {
            self.tokens[self.position - 1].duplicate()
        } else {
            Token::EOF
        }
    }
}

} // verus!
