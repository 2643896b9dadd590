//! The CSS3 parser: turns a stream of CSS tokens into rules, declarations and component values.
pub mod model;
pub mod tokens;

use vstd::prelude::*;

use crate::css3::model::{
    at_rule_loop, at_rule_spec, block_loop, block_spec, comma_separated_loop,
    component_values_loop, cv_spec, declaration_spec, declaration_values_loop, declarations_loop,
    declarations_spec, finish_declaration, function_loop, function_spec,
    declaration_from_values, ident_statement, is_preserved, lemma_at_rule_loop, lemma_cv,
    lemma_skip_whitespace_values, lemma_statement_loop,
    skip_whitespace_values, statement_loop,
    lemma_qualified_rule_loop, lemma_ws, parse_component_value_spec, parse_declaration_spec,
    parse_rule_spec, push_qualified, qualified_rule_loop, qualified_rule_spec, rules_loop,
    rules_spec, strip_trailing_whitespace, style_block_spec, style_loop, ws_spec, AtRuleView,
    ComponentValueView, DeclarationOrAtRuleView, DeclarationView, ErrorView, FunctionView,
    NormRuleView, QualifiedRuleView, RuleView, SimpleBlockView,
};
use crate::css3::tokens::{
    advance, current_at, lookahead_at, string_of, token_text, Token, TokenStream, TokenView,
};

verus! {

/// An error of the parser.
#[derive(Debug)]
pub enum Error {
    Syntax(String),
    UnexpectedEof,
}

impl View for Error {
    type V = ErrorView;

    open spec fn view(&self) -> ErrorView {
        match self {
            Error::Syntax(m) => ErrorView::Syntax(m@),
            Error::UnexpectedEof => ErrorView::UnexpectedEof,
        }
    }
}

impl Error {
    /// The message of the error.
    pub fn to_string(&self) -> (s: String)
        ensures
            s@ == match self@ {
                ErrorView::Syntax(m) => "syntax error: "@ + m,
                ErrorView::UnexpectedEof => "unexpected end of stream"@,
            },
    {
        match self {
            Error::Syntax(m) => {
                let mut s = String::new();
                s.append("syntax error: ");
                s.append(m.as_str());
                s
            },
            Error::UnexpectedEof => {
                let mut s = String::new();
                s.append("unexpected end of stream");
                s
            },
        }
    }
}

fn syntax_error(msg: &str) -> (e: Error)
    ensures
        e@ == ErrorView::Syntax(msg@),
{
    let mut s = String::new();
    s.append(msg);
    Error::Syntax(s)
}

#[derive(Debug)]
pub enum ComponentValue {
    PreservedToken(Token),
    Function(Function),
    SimpleBlock(SimpleBlock),
}

#[derive(Debug)]
pub struct Function {
    pub name: String,
    pub values: Vec<ComponentValue>,
}

#[derive(Debug)]
pub struct SimpleBlock {
    pub associated_token: Token,
    pub values: Vec<ComponentValue>,
}

#[derive(Debug)]
pub struct QualifiedRule {
    pub prelude: Vec<ComponentValue>,
    pub block: Option<SimpleBlock>,
}

#[derive(Debug)]
pub struct Declaration {
    pub name: String,
    pub value: Vec<ComponentValue>,
    pub important: bool,
}

#[derive(Debug)]
pub enum DeclarationAndAtRules {
    Declaration(Declaration),
    AtRule(AtRule),
}

#[derive(Debug)]
pub enum Rule {
    NormRule(NormRule),
    AtRule(AtRule),
    QualifiedRule(QualifiedRule),
}

#[derive(Debug)]
pub struct AtRule {
    pub name: String,
    pub prelude: Vec<ComponentValue>,
    pub block: Option<SimpleBlock>,
}

#[derive(Debug)]
pub struct NormRule {
    pub prelude: Vec<ComponentValue>,
    pub block: Option<SimpleBlock>,
}

#[derive(Debug)]
pub struct Stylesheet {
    pub location: Option<String>,
    pub rules: Vec<Rule>,
}

/// The views of a sequence of component values.
pub open spec fn values_view(s: Seq<ComponentValue>) -> Seq<ComponentValueView>
    decreases s,
{
    if s.len() == 0 {
        Seq::empty()
    } else {
        values_view(s.subrange(0, s.len() - 1)).push(s[s.len() - 1].view_value())
    }
}

impl ComponentValue {
    pub open spec fn view_value(&self) -> ComponentValueView
        decreases self,
    {
        match self {
            ComponentValue::PreservedToken(t) => ComponentValueView::PreservedToken(t@),
            ComponentValue::Function(f) => ComponentValueView::Function(
                FunctionView { name: f.name@, values: values_view(f.values@) },
            ),
            ComponentValue::SimpleBlock(b) => ComponentValueView::SimpleBlock(
                SimpleBlockView { associated_token: b.associated_token@, values: values_view(b.values@) },
            ),
        }
    }
}

impl View for ComponentValue {
    type V = ComponentValueView;

    open spec fn view(&self) -> ComponentValueView {
        self.view_value()
    }
}

impl View for Function {
    type V = FunctionView;

    open spec fn view(&self) -> FunctionView {
        FunctionView { name: self.name@, values: values_view(self.values@) }
    }
}

impl View for SimpleBlock {
    type V = SimpleBlockView;

    open spec fn view(&self) -> SimpleBlockView {
        SimpleBlockView { associated_token: self.associated_token@, values: values_view(self.values@) }
    }
}

pub open spec fn block_view(b: Option<SimpleBlock>) -> Option<SimpleBlockView> {
    match b {
        Some(b) => Some(b@),
        None => None,
    }
}

impl View for QualifiedRule {
    type V = QualifiedRuleView;

    open spec fn view(&self) -> QualifiedRuleView {
        QualifiedRuleView { prelude: values_view(self.prelude@), block: block_view(self.block) }
    }
}

impl View for AtRule {
    type V = AtRuleView;

    open spec fn view(&self) -> AtRuleView {
        AtRuleView {
            name: self.name@,
            prelude: values_view(self.prelude@),
            block: block_view(self.block),
        }
    }
}

impl View for NormRule {
    type V = NormRuleView;

    open spec fn view(&self) -> NormRuleView {
        NormRuleView { prelude: values_view(self.prelude@), block: block_view(self.block) }
    }
}

impl View for Rule {
    type V = RuleView;

    open spec fn view(&self) -> RuleView {
        match self {
            Rule::NormRule(r) => RuleView::NormRule(r@),
            Rule::AtRule(r) => RuleView::AtRule(r@),
            Rule::QualifiedRule(r) => RuleView::QualifiedRule(r@),
        }
    }
}

impl View for Declaration {
    type V = DeclarationView;

    open spec fn view(&self) -> DeclarationView {
        DeclarationView { name: self.name@, value: values_view(self.value@), important: self.important }
    }
}

impl View for DeclarationAndAtRules {
    type V = DeclarationOrAtRuleView;

    open spec fn view(&self) -> DeclarationOrAtRuleView {
        match self {
            DeclarationAndAtRules::Declaration(d) => DeclarationOrAtRuleView::Declaration(d@),
            DeclarationAndAtRules::AtRule(a) => DeclarationOrAtRuleView::AtRule(a@),
        }
    }
}

pub proof fn lemma_values_view_push(s: Seq<ComponentValue>, v: ComponentValue)
    ensures
        values_view(s.push(v)) == values_view(s).push(v@),
{
    assert(s.push(v).subrange(0, s.len() as int) =~= s);
}

impl SimpleBlock {
    fn new(associated_token: Token) -> (b: SimpleBlock)
        ensures
            b@ == (SimpleBlockView { associated_token: associated_token@, values: Seq::empty() }),
    {
        SimpleBlock { associated_token, values: Vec::new() }
    }
}

pub proof fn lemma_values_view_index(s: Seq<ComponentValue>)
    ensures
        values_view(s).len() == s.len(),
        forall|i: int| 0 <= i < s.len() ==> #[trigger] values_view(s)[i] == s[i]@,
    decreases s.len(),
{
    if s.len() > 0 {
        lemma_values_view_index(s.subrange(0, s.len() - 1));
    }
}

pub proof fn lemma_values_view_drop_last(s: Seq<ComponentValue>)
    requires
        s.len() > 0,
    ensures
        values_view(s.drop_last()) == values_view(s).drop_last(),
{
    lemma_values_view_index(s);
    lemma_values_view_index(s.drop_last());
    assert(values_view(s.drop_last()) =~= values_view(s).drop_last());
}

pub open spec fn rules_view(s: Seq<Rule>) -> Seq<RuleView> {
    s.map_values(|r: Rule| r@)
}

pub open spec fn declarations_view(s: Seq<Declaration>) -> Seq<DeclarationView> {
    s.map_values(|d: Declaration| d@)
}

pub open spec fn mixed_view(s: Seq<DeclarationAndAtRules>) -> Seq<DeclarationOrAtRuleView> {
    s.map_values(|d: DeclarationAndAtRules| d@)
}

pub open spec fn tokens_view(s: Seq<Token>) -> Seq<TokenView> {
    s.map_values(|t: Token| t@)
}

fn is_preserved_token(v: &ComponentValue, t: &Token) -> (b: bool)
    ensures
        b == is_preserved(v@, t@),
{
    match v {
        ComponentValue::PreservedToken(x) => x.same_as(t),
        _ => false,
    }
}

/// The first index from `i` on whose value is not a whitespace token.
fn skip_whitespace_in(vals: &Vec<ComponentValue>, i: usize) -> (j: usize)
    requires
        i <= vals.len(),
    ensures
        j == skip_whitespace_values(values_view(vals@), i as int),
{
    proof {
        lemma_values_view_index(vals@);
    }
    let mut j = i;
    while j < vals.len() && is_preserved_token(&vals[j], &Token::Whitespace)
        invariant
            i <= j <= vals.len(),
            values_view(vals@).len() == vals@.len(),
            forall|k: int| 0 <= k < vals@.len() ==> #[trigger] values_view(vals@)[k] == vals@[k]@,
            skip_whitespace_values(values_view(vals@), i as int) == skip_whitespace_values(
                values_view(vals@),
                j as int,
            ),
        decreases vals.len() - j,
    {
        j = j + 1;
    }
    j
}

/// The declaration made of a name and the values gathered for it: a trailing `!` and
/// `important` mark it important and are removed, and so is the whitespace at its end.
fn finish_declaration_from(name: String, value: Vec<ComponentValue>) -> (d: Declaration)
    ensures
        d@ == finish_declaration(name@, values_view(value@)),
{
    let ghost vals = values_view(value@);
    let mut value = value;
    let mut important = false;
    let n = value.len();
    proof {
        lemma_values_view_index(value@);
    }
    if n >= 2 {
        if is_preserved_token(&value[n - 2], &Token::Delim('!')) {
            let imp = Token::Ident(string_of("important"));
            if is_preserved_token(&value[n - 1], &imp) {
                important = true;
                proof {
                    lemma_values_view_drop_last(value@);
                    lemma_values_view_drop_last(value@.drop_last());
                    assert(vals.drop_last().drop_last() =~= vals.subrange(0, vals.len() - 2));
                }
                value.pop();
                value.pop();
            }
        }
    }
    let ghost stripped = strip_trailing_whitespace(values_view(value@));
    proof {
        assert(finish_declaration(name@, vals) == DeclarationView {
            name: name@,
            value: stripped,
            important,
        });
    }
    while value.len() > 0 && is_preserved_token(&value[value.len() - 1], &Token::Whitespace)
        invariant
            strip_trailing_whitespace(values_view(value@)) == stripped,
        decreases value.len(),
    {
        proof {
            lemma_values_view_index(value@);
            lemma_values_view_drop_last(value@);
        }
        value.pop();
    }
    proof {
        lemma_values_view_index(value@);
    }
    Declaration { name, value, important }
}

/// Reads a declaration from a list of component values: the first must be the identifier that
/// names it; past any whitespace a colon must follow, and past any whitespace after that
/// comes the value.
pub fn declaration_from_component_values(vals: Vec<ComponentValue>) -> (r: Option<Declaration>)
    ensures
        match declaration_from_values(values_view(vals@)) {
            Some(d) => r is Some && r.unwrap()@ == d,
            None => r is None,
        },
{
    let mut vals = vals;
    let ghost vv = values_view(vals@);
    proof {
        lemma_values_view_index(vals@);
    }
    if vals.len() == 0 {
        return None;
    }
    let name = match &vals[0] {
        ComponentValue::PreservedToken(t) => match t {
            Token::Ident(n) => n.clone(),
            _ => {
                return None;
            },
        },
        _ => {
            return None;
        },
    };
    let i = skip_whitespace_in(&vals, 1);
    proof {
        lemma_skip_whitespace_values(vv, 1);
    }
    if i >= vals.len() || !is_preserved_token(&vals[i], &Token::Colon) {
        return None;
    }
    let j = skip_whitespace_in(&vals, i + 1);
    proof {
        lemma_skip_whitespace_values(vv, i + 1);
    }
    let value = vals.split_off(j);
    proof {
        lemma_values_view_index(value@);
        assert(values_view(value@) =~= vv.subrange(j as int, vv.len() as int));
    }
    Some(finish_declaration_from(name, value))
}

/// The CSS3 parser, reading from a token stream.
pub struct CSS3ParserTng {
    tokenizer: TokenStream,
}

impl CSS3ParserTng {
    pub closed spec fn wf(&self) -> bool {
        self.tokenizer.wf()
    }

    /// The tokens the parser reads.
    pub closed spec fn toks(&self) -> Seq<TokenView> {
        self.tokenizer.toks()
    }

    /// The number of tokens consumed so far.
    pub closed spec fn pos(&self) -> int {
        self.tokenizer.pos()
    }

    pub proof fn lemma_wf(&self)
        requires
            self.wf(),
        ensures
            0 <= self.pos() <= self.toks().len(),
    {
        self.tokenizer.lemma_wf();
    }

    /// A parser reading from the given token stream.
    pub fn new(tokenizer: TokenStream) -> (p: CSS3ParserTng)
        requires
            tokenizer.wf(),
        ensures
            p.wf(),
            p.toks() == tokenizer.toks(),
            p.pos() == tokenizer.pos(),
    {
        CSS3ParserTng { tokenizer }
    }

    /// A parser reading the given tokens from the start.
    pub fn from_input_stream(tokens: Vec<Token>) -> (p: CSS3ParserTng)
        ensures
            p.wf(),
            p.toks() == tokens@.map_values(|t: Token| t@),
            p.pos() == 0,
    {
        CSS3ParserTng::new(TokenStream::new_from_tokens(tokens))
    }

    // =============================================================================================
    // The public parse functions

    /// Parses a list of component values and matches it against a grammar; matching is not
    /// implemented, so this always reports a syntax error after reading the list.
    pub fn parse(&mut self, _grammar: String) -> (r: Result<Vec<ComponentValue>, Error>)
        requires
            old(self).wf(),
        ensures
            final(self).wf(),
            final(self).toks() == old(self).toks(),
            final(self).pos() == component_values_loop(
                old(self).toks(),
                old(self).pos(),
                Seq::empty(),
            ).1,
            r is Err,
            r->Err_0@ == ErrorView::Syntax("not implemented yet"@),
    {
        let _result = self.parse_list_of_component_values();
        Err(syntax_error("not implemented yet"))
    }

    /// Parses a comma-separated list of component values.
    pub fn parse_comma_separated_list(&mut self, _grammar: String) -> (r: Result<
        Vec<ComponentValue>,
        Error,
    >)
        requires
            old(self).wf(),
        ensures
            final(self).wf(),
            final(self).toks() == old(self).toks(),
            r is Ok,
            values_view(r->Ok_0@) == comma_separated_loop(
                old(self).toks(),
                old(self).pos(),
                Seq::empty(),
            ).0,
            final(self).pos() == comma_separated_loop(
                old(self).toks(),
                old(self).pos(),
                Seq::empty(),
            ).1,
    {
        let retvals = self.parse_commaseparated_list_of_component_values();
        Ok(retvals)
    }

    /// Parses a complete stylesheet, which isn't much more than a list of rules.
    pub fn parse_stylesheet(&mut self, location: Option<String>) -> (r: Result<Stylesheet, Error>)
        requires
            old(self).wf(),
        ensures
            final(self).wf(),
            final(self).toks() == old(self).toks(),
            r is Ok,
            r->Ok_0.location == location,
            rules_view(r->Ok_0.rules@) == rules_spec(old(self).toks(), old(self).pos(), true).0,
            final(self).pos() == rules_spec(old(self).toks(), old(self).pos(), true).1,
    {
        let rules = self.consume_list_of_rules(true);
        Ok(Stylesheet { location, rules })
    }

    /// Returns the list of rules found in the stream.
    pub fn parse_list_of_rules(&mut self) -> (r: Vec<Rule>)
        requires
            old(self).wf(),
        ensures
            final(self).wf(),
            final(self).toks() == old(self).toks(),
            rules_view(r@) == rules_spec(old(self).toks(), old(self).pos(), false).0,
            final(self).pos() == rules_spec(old(self).toks(), old(self).pos(), false).1,
    {
        self.consume_list_of_rules(false)
    }

    /// Parses one rule; the stream must hold nothing but that rule, so EOF must follow it.
    pub fn parse_rule(&mut self) -> (r: Result<Rule, Error>)
        requires
            old(self).wf(),
        ensures
            final(self).wf(),
            final(self).toks() == old(self).toks(),
            match parse_rule_spec(old(self).toks(), old(self).pos()).0 {
                Ok(v) => r is Ok && r->Ok_0@ == v,
                Err(e) => r is Err && r->Err_0@ == e,
            },
            final(self).pos() == parse_rule_spec(old(self).toks(), old(self).pos()).1,
    {
        self.consume_whitespaces();
        proof {
            self.lemma_wf();
        }
        let rule;
        match self.tokenizer.lookahead(0) {
            Token::EOF => {
                return Err(syntax_error("unexpected eof"));
            },
            Token::AtKeyword(_) => {
                match self.consume_at_rule() {
                    Some(at_rule) => {
                        rule = Rule::AtRule(at_rule);
                    },
                    None => {
                        return Err(syntax_error("syntax error"));
                    },
                }
            },
            _ => {
                rule = match self.consume_qualified_rule() {
                    Some(qrule) => Rule::QualifiedRule(qrule),
                    None => {
                        return Err(syntax_error("syntax error"));
                    },
                };
            },
        }
        self.consume_whitespaces();
        if !self.next_token_is_eof() {
            return Err(syntax_error("syntax error"));
        }
        Ok(rule)
    }

    /// Reads a declaration from the given tokens, which must start with an identifier. Before
    /// that, whitespace is consumed from the parser's own stream.
    pub fn parse_declaration(&mut self, input: Vec<Token>) -> (r: Result<Declaration, Error>)
        requires
            old(self).wf(),
        ensures
            final(self).wf(),
            final(self).toks() == old(self).toks(),
            final(self).pos() == ws_spec(old(self).toks(), old(self).pos()),
            match parse_declaration_spec(tokens_view(input@)) {
                Some(d) => r is Ok && r->Ok_0@ == d,
                None => r is Err && r->Err_0@ == ErrorView::Syntax("syntax error"@),
            },
    {
        self.consume_whitespaces();
        let mut old_tokenizer = TokenStream::new_from_tokens(input);
        std::mem::swap(&mut old_tokenizer, &mut self.tokenizer);
        let first = self.tokenizer.consume();
        let not_ident = match first {
            Token::Ident(_) => false,
            _ => true,
        };
        if not_ident {
            self.tokenizer = old_tokenizer;
            return Err(syntax_error("syntax error"));
        }
        proof {
            assert(self.pos() == 1);
        }
        match self.consume_declaration() {
            Some(declaration) => {
                self.tokenizer = old_tokenizer;
                return Ok(declaration);
            },
            _ => {},
        }
        self.tokenizer = old_tokenizer;
        Err(syntax_error("syntax error"))
    }

    /// Parses the content of a style block: its declarations and its nested rules.
    pub fn parse_style_block_content(&mut self) -> (r: (Vec<Declaration>, Vec<Rule>))
        requires
            old(self).wf(),
        ensures
            final(self).wf(),
            final(self).toks() == old(self).toks(),
            style_block_spec(old(self).toks(), old(self).pos()) == (
                declarations_view(r.0@),
                rules_view(r.1@),
                final(self).pos(),
            ),
    {
        self.consume_style_block_content()
    }

    /// Parses a list of declarations and at-rules.
    pub fn parse_list_of_declarations(&mut self) -> (r: Vec<DeclarationAndAtRules>)
        requires
            old(self).wf(),
        ensures
            final(self).wf(),
            final(self).toks() == old(self).toks(),
            declarations_spec(old(self).toks(), old(self).pos()) == (mixed_view(r@), final(self).pos()),
    {
        self.consume_list_of_declarations()
    }

    /// Parses one component value; the stream must hold nothing but that value.
    pub fn parse_component_value(&mut self) -> (r: Result<ComponentValue, Error>)
        requires
            old(self).wf(),
        ensures
            final(self).wf(),
            final(self).toks() == old(self).toks(),
            match parse_component_value_spec(old(self).toks(), old(self).pos()).0 {
                Ok(v) => r is Ok && r->Ok_0@ == v,
                Err(e) => r is Err && r->Err_0@ == e,
            },
            final(self).pos() == parse_component_value_spec(old(self).toks(), old(self).pos()).1,
    {
        self.consume_whitespaces();
        if self.next_token_is_eof() {
            return Err(Error::UnexpectedEof);
        }
        let result = self.consume_component_value();
        self.consume_whitespaces();
        if self.next_token_is_eof() {
            return match result {
                Some(v) => Ok(v),
                None => Err(Error::UnexpectedEof),
            };
        }
        Err(syntax_error("syntax error"))
    }

    /// Reads tokens up to EOF: after each token read, one component value is consumed.
    pub fn parse_list_of_component_values(&mut self) -> (r: Vec<ComponentValue>)
        requires
            old(self).wf(),
        ensures
            final(self).wf(),
            final(self).toks() == old(self).toks(),
            values_view(r@) == component_values_loop(old(self).toks(), old(self).pos(), Seq::empty()).0,
            final(self).pos() == component_values_loop(
                old(self).toks(),
                old(self).pos(),
                Seq::empty(),
            ).1,
    {
        let ghost toks = self.toks();
        let ghost p0 = self.pos();
        proof {
            self.lemma_wf();
        }
        let mut cvalues: Vec<ComponentValue> = Vec::new();
        loop
            invariant
                self.wf(),
                self.toks() == toks,
                toks == old(self).toks(),
                p0 == old(self).pos(),
                p0 <= self.pos() <= toks.len(),
                component_values_loop(toks, p0, Seq::empty()) == component_values_loop(
                    toks,
                    self.pos(),
                    values_view(cvalues@),
                ),
            decreases toks.len() - self.pos(),
        {
            let ghost p = self.pos();
            let t = self.tokenizer.consume();
            match t {
                Token::EOF => {
                    return cvalues;
                },
                _ => {
                    let ghost p1 = self.pos();
                    let cv = self.consume_component_value();
                    proof {
                        lemma_cv(toks, p1);
                    }
                    if let Some(component_value) = cv {
                        proof {
                            lemma_values_view_push(cvalues@, component_value);
                        }
                        cvalues.push(component_value);
                    }
                },
            }
        }
    }

    /// Reads tokens up to EOF: a comma skips the token after it, any other token is followed
    /// by one component value.
    pub fn parse_commaseparated_list_of_component_values(&mut self) -> (r: Vec<ComponentValue>)
        requires
            old(self).wf(),
        ensures
            final(self).wf(),
            final(self).toks() == old(self).toks(),
            values_view(r@) == comma_separated_loop(old(self).toks(), old(self).pos(), Seq::empty()).0,
            final(self).pos() == comma_separated_loop(
                old(self).toks(),
                old(self).pos(),
                Seq::empty(),
            ).1,
    {
        let ghost toks = self.toks();
        let ghost p0 = self.pos();
        proof {
            self.lemma_wf();
        }
        let mut cvalues: Vec<ComponentValue> = Vec::new();
        loop
            invariant
                self.wf(),
                self.toks() == toks,
                toks == old(self).toks(),
                p0 == old(self).pos(),
                p0 <= self.pos() <= toks.len(),
                comma_separated_loop(toks, p0, Seq::empty()) == comma_separated_loop(
                    toks,
                    self.pos(),
                    values_view(cvalues@),
                ),
            decreases toks.len() - self.pos(),
        {
            let ghost p = self.pos();
            let t = self.tokenizer.consume();
            match t {
                Token::EOF => {
                    return cvalues;
                },
                Token::Comma => {
                    self.tokenizer.consume();
                    continue ;
                },
                _ => {
                    let ghost p1 = self.pos();
                    let cv = self.consume_component_value();
                    proof {
                        lemma_cv(toks, p1);
                    }
                    if let Some(component_value) = cv {
                        proof {
                            lemma_values_view_push(cvalues@, component_value);
                        }
                        cvalues.push(component_value);
                    }
                },
            }
        }
    }

    // =============================================================================================
    // Helper functions

    /// Eats up whitespace until the next token is not whitespace.
    fn consume_whitespaces(&mut self)
        requires
            old(self).wf(),
        ensures
            final(self).wf(),
            final(self).toks() == old(self).toks(),
            final(self).pos() == ws_spec(old(self).toks(), old(self).pos()),
    {
        let ghost toks = self.toks();
        let ghost p0 = self.pos();
        proof {
            self.lemma_wf();
        }
        loop
            invariant
                self.wf(),
                self.toks() == toks,
                toks == old(self).toks(),
                p0 == old(self).pos(),
                p0 <= self.pos() <= toks.len(),
                ws_spec(toks, p0) == ws_spec(toks, self.pos()),
            decreases toks.len() - self.pos(),
        {
            let t = self.tokenizer.lookahead(0);
            match t {
                Token::Whitespace => {
                    self.tokenizer.consume();
                },
                _ => {
                    return ;
                },
            }
        }
    }

    /// Returns true when the next token is an EOF. It does NOT consume the token.
    fn next_token_is_eof(&self) -> (b: bool)
        requires
            self.wf(),
        ensures
            b == (lookahead_at(self.toks(), self.pos(), 0) is EOF),
    {
        self.tokenizer.lookahead(0) == Token::EOF
    }

    // =============================================================================================
    // The internal consume functions

    fn consume_list_of_rules(&mut self, top_level_flag: bool) -> (r: Vec<Rule>)
        requires
            old(self).wf(),
        ensures
            final(self).wf(),
            final(self).toks() == old(self).toks(),
            rules_view(r@) == rules_spec(old(self).toks(), old(self).pos(), top_level_flag).0,
            final(self).pos() == rules_spec(old(self).toks(), old(self).pos(), top_level_flag).1,
    {
        let ghost toks = self.toks();
        let ghost p0 = self.pos();
        proof {
            self.lemma_wf();
        }
        let mut rules: Vec<Rule> = Vec::new();
        proof {
            assert(rules_view(rules@) =~= Seq::<RuleView>::empty());
        }
        loop
            invariant
                self.wf(),
                self.toks() == toks,
                toks == old(self).toks(),
                p0 == old(self).pos(),
                p0 <= self.pos() <= toks.len(),
                rules_loop(toks, p0, top_level_flag, Seq::empty()) == rules_loop(
                    toks,
                    self.pos(),
                    top_level_flag,
                    rules_view(rules@),
                ),
            decreases toks.len() - self.pos(),
        {
            let ghost p = self.pos();
            let t = self.tokenizer.consume();
            match t {
                Token::Whitespace => {
                    continue ;
                },
                Token::EOF => {
                    return rules;
                },
                Token::CDC | Token::CDO => {
                    if top_level_flag {
                        continue ;
                    }
                    self.tokenizer.reconsume();
                    let q = self.consume_qualified_rule();
                    proof {
                        lemma_qualified_rule_loop(toks, p, Seq::empty());
                    }
                    match q {
                        Some(qrule) => {
                            let r = Rule::QualifiedRule(qrule);
                            proof {
                                assert(rules_view(rules@.push(r)) =~= rules_view(rules@).push(r@));
                            }
                            rules.push(r);
                        },
                        None => {},
                    }
                },
                Token::AtKeyword(_) => {
                    self.tokenizer.reconsume();
                    let a = self.consume_at_rule();
                    proof {
                        lemma_at_rule_loop(toks, p, Seq::empty());
                    }
                    if let Some(at_rule) = a {
                        let r = Rule::AtRule(at_rule);
                        proof {
                            assert(rules_view(rules@.push(r)) =~= rules_view(rules@).push(r@));
                        }
                        rules.push(r);
                    }
                },
                _ => {
                    self.tokenizer.reconsume();
                    let q = self.consume_qualified_rule();
                    proof {
                        lemma_qualified_rule_loop(toks, p, Seq::empty());
                    }
                    if let Some(qrule) = q {
                        let r = Rule::QualifiedRule(qrule);
                        proof {
                            assert(rules_view(rules@.push(r)) =~= rules_view(rules@).push(r@));
                        }
                        rules.push(r);
                    }
                },
            }
        }
    }

    fn consume_at_rule(&mut self) -> (r: Option<AtRule>)
        requires
            old(self).wf(),
        ensures
            final(self).wf(),
            final(self).toks() == old(self).toks(),
            r is Some,
            r.unwrap()@ == at_rule_spec(old(self).toks(), old(self).pos()).0,
            final(self).pos() == at_rule_spec(old(self).toks(), old(self).pos()).1,
    {
        let ghost toks = self.toks();
        let ghost p0 = self.pos();
        proof {
            self.lemma_wf();
        }
        let mut at_rule = AtRule { name: String::new(), prelude: Vec::new(), block: None };
        loop
            invariant
                self.wf(),
                self.toks() == toks,
                toks == old(self).toks(),
                p0 == old(self).pos(),
                p0 <= self.pos() <= toks.len(),
                at_rule.name@ == Seq::<char>::empty(),
                at_rule.block is None,
                at_rule_loop(toks, p0, Seq::empty()) == at_rule_loop(
                    toks,
                    self.pos(),
                    values_view(at_rule.prelude@),
                ),
            decreases toks.len() - self.pos(),
        {
            let ghost p = self.pos();
            let t = self.tokenizer.consume();
            match t {
                Token::Semicolon => {
                    return Some(at_rule);
                },
                Token::EOF => {
                    return Some(at_rule);
                },
                Token::LCurly => {
                    let b = self.consume_simple_block(Token::RCurly);
                    if let Some(block) = b {
                        at_rule.block = Some(block);
                        return Some(at_rule);
                    }
                },
                _ => {
                    self.tokenizer.reconsume();
                    let cv = self.consume_component_value();
                    proof {
                        lemma_cv(toks, p);
                    }
                    if let Some(component_value) = cv {
                        proof {
                            lemma_values_view_push(at_rule.prelude@, component_value);
                        }
                        at_rule.prelude.push(component_value);
                    }
                },
            }
        }
    }

    fn consume_qualified_rule(&mut self) -> (r: Option<QualifiedRule>)
        requires
            old(self).wf(),
        ensures
            final(self).wf(),
            final(self).toks() == old(self).toks(),
            match qualified_rule_spec(old(self).toks(), old(self).pos()).0 {
                Some(q) => r is Some && r.unwrap()@ == q,
                None => r is None,
            },
            final(self).pos() == qualified_rule_spec(old(self).toks(), old(self).pos()).1,
    {
        let ghost toks = self.toks();
        let ghost p0 = self.pos();
        proof {
            self.lemma_wf();
        }
        let mut qrule = QualifiedRule { prelude: Vec::new(), block: None };
        loop
            invariant
                self.wf(),
                self.toks() == toks,
                toks == old(self).toks(),
                p0 == old(self).pos(),
                p0 <= self.pos() <= toks.len(),
                qrule.block is None,
                qualified_rule_loop(toks, p0, Seq::empty()) == qualified_rule_loop(
                    toks,
                    self.pos(),
                    values_view(qrule.prelude@),
                ),
            decreases toks.len() - self.pos(),
        {
            let ghost p = self.pos();
            let t = self.tokenizer.consume();
            match t {
                Token::EOF => {
                    return None;
                },
                Token::LCurly => {
                    let b = self.consume_simple_block(Token::RCurly);
                    if let Some(block) = b {
                        qrule.block = Some(block);
                        return Some(qrule);
                    }
                },
                _ => {
                    self.tokenizer.reconsume();
                    let cv = self.consume_component_value();
                    proof {
                        lemma_cv(toks, p);
                    }
                    if let Some(component_value) = cv {
                        proof {
                            lemma_values_view_push(qrule.prelude@, component_value);
                        }
                        qrule.prelude.push(component_value);
                    }
                },
            }
        }
    }

    /// Consumes the content of a style block: declarations go to the first list, at-rules and
    /// nested qualified rules (those that start with `&`) to the second.
    fn consume_style_block_content(&mut self) -> (r: (Vec<Declaration>, Vec<Rule>))
        requires
            old(self).wf(),
        ensures
            final(self).wf(),
            final(self).toks() == old(self).toks(),
            style_block_spec(old(self).toks(), old(self).pos()) == (
                declarations_view(r.0@),
                rules_view(r.1@),
                final(self).pos(),
            ),
    {
        let ghost toks = self.toks();
        let ghost p0 = self.pos();
        proof {
            self.lemma_wf();
        }
        let mut decls: Vec<Declaration> = Vec::new();
        let mut rules: Vec<Rule> = Vec::new();
        proof {
            assert(rules_view(rules@) =~= Seq::<RuleView>::empty());
            assert(declarations_view(decls@) =~= Seq::<DeclarationView>::empty());
        }
        loop
            invariant
                self.wf(),
                self.toks() == toks,
                toks == old(self).toks(),
                p0 == old(self).pos(),
                p0 <= self.pos() <= toks.len(),
                style_loop(toks, p0, Seq::empty(), Seq::empty()) == style_loop(
                    toks,
                    self.pos(),
                    declarations_view(decls@),
                    rules_view(rules@),
                ),
            decreases toks.len() - self.pos(),
        {
            let ghost p = self.pos();
            let t = self.tokenizer.consume();
            match t {
                Token::Whitespace | Token::Semicolon => {
                    continue ;
                },
                Token::EOF => {
                    return (decls, rules);
                },
                Token::AtKeyword(_) => {
                    self.tokenizer.reconsume();
                    let a = self.consume_at_rule();
                    proof {
                        lemma_at_rule_loop(toks, p, Seq::empty());
                    }
                    if let Some(at_rule) = a {
                        let r = Rule::AtRule(at_rule);
                        proof {
                            assert(rules_view(rules@.push(r)) =~= rules_view(rules@).push(r@));
                        }
                        rules.push(r);
                    }
                },
                Token::Ident(_) => {
                    // A temporary list, first holding the current token; the component values
                    // up to a semicolon or EOF are appended to it, and one declaration is then
                    // read from it.
                    let d = self.consume_declaration_statement();
                    if let Some(declaration) = d {
                        proof {
                            assert(declarations_view(decls@.push(declaration)) =~= declarations_view(
                                decls@,
                            ).push(declaration@));
                        }
                        decls.push(declaration);
                    }
                },
                Token::Delim(ch) if ch == '&' => {
                    self.tokenizer.reconsume();
                    let q = self.consume_qualified_rule();
                    proof {
                        lemma_qualified_rule_loop(toks, p, Seq::empty());
                    }
                    if let Some(qrule) = q {
                        let r = Rule::QualifiedRule(qrule);
                        proof {
                            assert(rules_view(rules@.push(r)) =~= rules_view(rules@).push(r@));
                        }
                        rules.push(r);
                    }
                },
                _ => {
                    // A parse error: the component values up to a semicolon or EOF are dropped.
                    self.tokenizer.reconsume();
                    self.consume_and_drop_component_values();
                    proof {
                        lemma_statement_loop(toks, p, Seq::empty());
                    }
                },
            }
        }
    }

    /// Consumes the component values of a statement, for as long as the next token is neither
    /// a semicolon nor EOF, and appends them to `values`.
    fn consume_statement_values(&mut self, values: &mut Vec<ComponentValue>)
        requires
            old(self).wf(),
        ensures
            final(self).wf(),
            final(self).toks() == old(self).toks(),
            (values_view(final(values)@), final(self).pos()) == statement_loop(
                old(self).toks(),
                old(self).pos(),
                values_view(old(values)@),
            ),
    {
        let ghost toks = self.toks();
        let ghost p0 = self.pos();
        let ghost v0 = values_view(values@);
        proof {
            self.lemma_wf();
        }
        loop
            invariant
                self.wf(),
                self.toks() == toks,
                toks == old(self).toks(),
                p0 <= self.pos() <= toks.len(),
                p0 == old(self).pos(),
                v0 == values_view(old(values)@),
                statement_loop(toks, p0, v0) == statement_loop(
                    toks,
                    self.pos(),
                    values_view(values@),
                ),
            decreases toks.len() - self.pos(),
        {
            let ghost p = self.pos();
            let t = self.tokenizer.lookahead(0);
            match t {
                Token::Semicolon | Token::EOF => {
                    return ;
                },
                _ => {},
            }
            let cv = self.consume_component_value();
            proof {
                lemma_cv(toks, p);
            }
            if let Some(component_value) = cv {
                proof {
                    lemma_values_view_push(values@, component_value);
                }
                values.push(component_value);
            }
        }
    }

    /// Consumes the component values up to a semicolon or EOF and drops them.
    fn consume_and_drop_component_values(&mut self)
        requires
            old(self).wf(),
        ensures
            final(self).wf(),
            final(self).toks() == old(self).toks(),
            final(self).pos() == statement_loop(old(self).toks(), old(self).pos(), Seq::empty()).1,
    {
        let mut dropped: Vec<ComponentValue> = Vec::new();
        proof {
            assert(values_view(dropped@) =~= Seq::<ComponentValueView>::empty());
        }
        self.consume_statement_values(&mut dropped);
    }

    /// After an identifier: its statement's component values, gathered in a temporary list that
    /// starts with the identifier, and the declaration read from that list.
    fn consume_declaration_statement(&mut self) -> (r: Option<Declaration>)
        requires
            old(self).wf(),
        ensures
            final(self).wf(),
            final(self).toks() == old(self).toks(),
            old(self).pos() <= final(self).pos() <= old(self).toks().len(),
            ({
                let p = old(self).pos() - 1;
                let (d, p2) = ident_statement(old(self).toks(), p);
                &&& final(self).pos() == p2
                &&& match d {
                    Some(d) => r is Some && r.unwrap()@ == d,
                    None => r is None,
                }
            }),
    {
        let ghost toks = self.toks();
        let ghost p1 = self.pos();
        proof {
            self.lemma_wf();
            assert(advance(toks, p1 - 1) == p1 || p1 == 0);
        }
        let first = self.tokenizer.current();
        let mut tmp: Vec<ComponentValue> = Vec::new();
        let v = ComponentValue::PreservedToken(first);
        proof {
            lemma_values_view_push(tmp@, v);
            assert(tmp@.push(v) =~= seq![v]);
        }
        tmp.push(v);
        self.consume_statement_values(&mut tmp);
        proof {
            lemma_statement_loop(toks, p1, seq![v@]);
        }
        declaration_from_component_values(tmp)
    }

    /// Consumes a list of declarations and at-rules. At-rules may be mixed in with
    /// declarations, so both kinds are returned in one list.
    fn consume_list_of_declarations(&mut self) -> (r: Vec<DeclarationAndAtRules>)
        requires
            old(self).wf(),
        ensures
            final(self).wf(),
            final(self).toks() == old(self).toks(),
            declarations_spec(old(self).toks(), old(self).pos()) == (mixed_view(r@), final(self).pos()),
    {
        let ghost toks = self.toks();
        let ghost p0 = self.pos();
        proof {
            self.lemma_wf();
        }
        let mut mixed_list: Vec<DeclarationAndAtRules> = Vec::new();
        proof {
            assert(mixed_view(mixed_list@) =~= Seq::<DeclarationOrAtRuleView>::empty());
        }
        loop
            invariant
                self.wf(),
                self.toks() == toks,
                toks == old(self).toks(),
                p0 == old(self).pos(),
                p0 <= self.pos() <= toks.len(),
                declarations_loop(toks, p0, Seq::empty()) == declarations_loop(
                    toks,
                    self.pos(),
                    mixed_view(mixed_list@),
                ),
            decreases toks.len() - self.pos(),
        {
            let ghost p = self.pos();
            let t = self.tokenizer.consume();
            match t {
                Token::Whitespace | Token::Semicolon => {
                    continue ;
                },
                Token::EOF => {
                    return mixed_list;
                },
                Token::AtKeyword(_) => {
                    self.tokenizer.reconsume();
                    let a = self.consume_at_rule();
                    proof {
                        lemma_at_rule_loop(toks, p, Seq::empty());
                    }
                    if let Some(at_rule) = a {
                        let d = DeclarationAndAtRules::AtRule(at_rule);
                        proof {
                            assert(mixed_view(mixed_list@.push(d)) =~= mixed_view(mixed_list@).push(d@));
                        }
                        mixed_list.push(d);
                    }
                },
                Token::Ident(_) => {
                    let d = self.consume_declaration_statement();
                    if let Some(declaration) = d {
                        let d = DeclarationAndAtRules::Declaration(declaration);
                        proof {
                            assert(mixed_view(mixed_list@.push(d)) =~= mixed_view(mixed_list@).push(d@));
                        }
                        mixed_list.push(d);
                    }
                },
                _ => {
                    // A parse error: the component values up to a semicolon or EOF are dropped.
                    self.tokenizer.reconsume();
                    self.consume_and_drop_component_values();
                    proof {
                        lemma_statement_loop(toks, p, Seq::empty());
                    }
                },
            }
        }
    }

    fn consume_declaration(&mut self) -> (r: Option<Declaration>)
        requires
            old(self).wf(),
        ensures
            final(self).wf(),
            final(self).toks() == old(self).toks(),
            match declaration_spec(old(self).toks(), old(self).pos()).0 {
                Some(d) => r is Some && r.unwrap()@ == d,
                None => r is None,
            },
            final(self).pos() == declaration_spec(old(self).toks(), old(self).pos()).1,
    {
        let ghost toks = self.toks();
        let ghost p0 = self.pos();
        proof {
            self.lemma_wf();
        }
        let t = self.tokenizer.consume();
        let name = t.to_string();
        self.consume_whitespaces();
        proof {
            lemma_ws(toks, advance(toks, p0));
        }
        if self.tokenizer.lookahead(0) != Token::Colon {
            return None;
        }
        self.tokenizer.consume();
        let ghost p2 = self.pos();
        self.consume_whitespaces();
        proof {
            lemma_ws(toks, p2);
        }
        let ghost p3 = self.pos();
        let mut value: Vec<ComponentValue> = Vec::new();
        loop
            invariant_except_break
                self.wf(),
                self.toks() == toks,
                p3 <= self.pos() <= toks.len(),
                declaration_values_loop(toks, p3, Seq::empty()) == declaration_values_loop(
                    toks,
                    self.pos(),
                    values_view(value@),
                ),
            ensures
                self.wf(),
                self.toks() == toks,
                p3 <= self.pos() <= toks.len(),
                declaration_values_loop(toks, p3, Seq::empty()) == (values_view(value@), self.pos()),
            decreases toks.len() - self.pos(),
        {
            let t = self.tokenizer.consume();
            match t {
                Token::EOF => {
                    break ;
                },
                _ => {
                    let ghost p1 = self.pos();
                    let cv = self.consume_component_value();
                    proof {
                        lemma_cv(toks, p1);
                    }
                    if let Some(component_value) = cv {
                        proof {
                            lemma_values_view_push(value@, component_value);
                        }
                        value.push(component_value);
                    }
                },
            }
        }
        Some(finish_declaration_from(name, value))
    }

    fn consume_component_value(&mut self) -> (r: Option<ComponentValue>)
        requires
            old(self).wf(),
        ensures
            final(self).wf(),
            final(self).toks() == old(self).toks(),
            r is Some,
            r.unwrap()@ == cv_spec(old(self).toks(), old(self).pos()).0,
            final(self).pos() == cv_spec(old(self).toks(), old(self).pos()).1,
        decreases old(self).toks().len() - old(self).pos(), 0int,
    {
        proof {
            self.tokenizer.lemma_wf();
        }
        let current_token = self.tokenizer.current();
        let t = self.tokenizer.consume();
        match t {
            Token::LCurly | Token::LBracket | Token::LParen => {
                let block = self.consume_simple_block(current_token);
                match block {
                    Some(block) => {
                        return Some(ComponentValue::SimpleBlock(block));
                    },
                    None => {},
                }
            },
            Token::Function(_) => {
                let function = self.consume_function();
                match function {
                    Some(function) => {
                        return Some(ComponentValue::Function(function));
                    },
                    None => {},
                }
            },
            _ => {},
        }
        Some(ComponentValue::PreservedToken(self.tokenizer.current()))
    }

    fn consume_simple_block(&mut self, closing_token: Token) -> (r: Option<SimpleBlock>)
        requires
            old(self).wf(),
        ensures
            final(self).wf(),
            final(self).toks() == old(self).toks(),
            r is Some,
            r.unwrap()@ == block_spec(old(self).toks(), old(self).pos(), closing_token@).0,
            final(self).pos() == block_spec(old(self).toks(), old(self).pos(), closing_token@).1,
        decreases old(self).toks().len() - old(self).pos(), 1int,
    {
        let ghost toks = self.toks();
        let ghost p0 = self.pos();
        proof {
            self.lemma_wf();
        }
        let mut block = SimpleBlock::new(self.tokenizer.current());
        loop
            invariant
                self.wf(),
                self.toks() == toks,
                toks == old(self).toks(),
                p0 == old(self).pos(),
                p0 <= self.pos() <= toks.len(),
                block.associated_token@ == current_at(toks, p0),
                block_loop(toks, p0, closing_token@, Seq::empty()) == block_loop(
                    toks,
                    self.pos(),
                    closing_token@,
                    values_view(block.values@),
                ),
            decreases toks.len() - self.pos(),
        {
            let ghost p = self.pos();
            let t = self.tokenizer.consume();
            if t.is_eof() {
                return Some(block);
            }
            if self.tokenizer.current() == closing_token {
                return Some(block);
            }
            self.tokenizer.reconsume();
            let cv = self.consume_component_value();
            proof {
                lemma_cv(toks, p);
            }
            match cv {
                Some(v) => {
                    proof {
                        lemma_values_view_push(block.values@, v);
                    }
                    block.values.push(v);
                },
                None => {},
            }
        }
    }

    fn consume_function(&mut self) -> (r: Option<Function>)
        requires
            old(self).wf(),
        ensures
            final(self).wf(),
            final(self).toks() == old(self).toks(),
            r is Some,
            r.unwrap()@ == function_spec(old(self).toks(), old(self).pos()).0,
            final(self).pos() == function_spec(old(self).toks(), old(self).pos()).1,
        decreases old(self).toks().len() - old(self).pos(), 1int,
    {
        let ghost toks = self.toks();
        let ghost p0 = self.pos();
        proof {
            self.lemma_wf();
        }
        let name = self.tokenizer.current().to_string();
        let mut function = Function { name, values: Vec::new() };
        loop
            invariant
                self.wf(),
                self.toks() == toks,
                toks == old(self).toks(),
                p0 == old(self).pos(),
                p0 <= self.pos() <= toks.len(),
                function.name@ == token_text(current_at(toks, p0)),
                function_loop(toks, p0, Seq::empty()) == function_loop(
                    toks,
                    self.pos(),
                    values_view(function.values@),
                ),
            decreases toks.len() - self.pos(),
        {
            let ghost p = self.pos();
            let t = self.tokenizer.consume();
            match t {
                Token::RParen => {
                    return Some(function);
                },
                Token::EOF => {
                    return Some(function);
                },
                _ => {
                    self.tokenizer.reconsume();
                    let cv = self.consume_component_value();
                    proof {
                        lemma_cv(toks, p);
                    }
                    match cv {
                        Some(v) => {
                            proof {
                                lemma_values_view_push(function.values@, v);
                            }
                            function.values.push(v);
                        },
                        None => {},
                    }
                },
            }
        }
    }
}

} // verus!
