//! The mathematical model of the CSS3 parser: parsed values, and what each consuming step
//! of the parser yields on a token sequence from a given position.
use vstd::prelude::*;

use crate::css3::tokens::{advance, current_at, lookahead_at, token_text, TokenView};

verus! {

pub enum ComponentValueView {
    PreservedToken(TokenView),
    Function(FunctionView),
    SimpleBlock(SimpleBlockView),
}

pub struct FunctionView {
    pub name: Seq<char>,
    pub values: Seq<ComponentValueView>,
}

pub struct SimpleBlockView {
    pub associated_token: TokenView,
    pub values: Seq<ComponentValueView>,
}

pub struct AtRuleView {
    pub name: Seq<char>,
    pub prelude: Seq<ComponentValueView>,
    pub block: Option<SimpleBlockView>,
}

pub struct QualifiedRuleView {
    pub prelude: Seq<ComponentValueView>,
    pub block: Option<SimpleBlockView>,
}

pub struct NormRuleView {
    pub prelude: Seq<ComponentValueView>,
    pub block: Option<SimpleBlockView>,
}

pub enum RuleView {
    NormRule(NormRuleView),
    AtRule(AtRuleView),
    QualifiedRule(QualifiedRuleView),
}

pub struct DeclarationView {
    pub name: Seq<char>,
    pub value: Seq<ComponentValueView>,
    pub important: bool,
}

pub enum DeclarationOrAtRuleView {
    Declaration(DeclarationView),
    AtRule(AtRuleView),
}

pub enum ErrorView {
    Syntax(Seq<char>),
    UnexpectedEof,
}

// ---------------------------------------------------------------------------------------------
// Whitespace

/// The position after `consume_whitespaces`: every whitespace token is consumed, up to the
/// first token that is not whitespace, which is left as the next token.
pub open spec fn ws_spec(toks: Seq<TokenView>, p: int) -> int
    decreases toks.len() - p,
{
    if lookahead_at(toks, p, 0) is Whitespace {
        ws_spec(toks, advance(toks, p))
    } else {
        p
    }
}

pub proof fn lemma_ws(toks: Seq<TokenView>, p: int)
    requires
        0 <= p <= toks.len(),
    ensures
        p <= ws_spec(toks, p) <= toks.len(),
    decreases toks.len() - p,
{
    if lookahead_at(toks, p, 0) is Whitespace {
        lemma_ws(toks, advance(toks, p));
    }
}

// ---------------------------------------------------------------------------------------------
// Component values, simple blocks and functions

pub open spec fn is_block_opener(t: TokenView) -> bool {
    t is LCurly || t is LBracket || t is LParen
}

/// `consume_component_value` at position `p`: the value and the position after it.
pub open spec fn cv_spec(toks: Seq<TokenView>, p: int) -> (ComponentValueView, int)
    decreases toks.len() - p, 0int,
{
    let closing = current_at(toks, p);
    let t = lookahead_at(toks, p, 0);
    let p1 = advance(toks, p);
    if is_block_opener(t) {
        let (vals, p2) = block_loop(toks, p1, closing, Seq::empty());
        (
            ComponentValueView::SimpleBlock(
                SimpleBlockView { associated_token: current_at(toks, p1), values: vals },
            ),
            p2,
        )
    } else if t is Function {
        let (vals, p2) = function_loop(toks, p1, Seq::empty());
        (
            ComponentValueView::Function(
                FunctionView { name: token_text(current_at(toks, p1)), values: vals },
            ),
            p2,
        )
    } else {
        (ComponentValueView::PreservedToken(current_at(toks, p1)), p1)
    }
}

/// The loop of `consume_simple_block`, with the values gathered so far in `acc`.
pub open spec fn block_loop(
    toks: Seq<TokenView>,
    p: int,
    closing: TokenView,
    acc: Seq<ComponentValueView>,
) -> (Seq<ComponentValueView>, int)
    decreases toks.len() - p, 1int,
{
    let t = lookahead_at(toks, p, 0);
    let p1 = advance(toks, p);
    if t is EOF {
        (acc, p1)
    } else if current_at(toks, p1) == closing {
        (acc, p1)
    } else {
        let (v, p2) = cv_spec(toks, p);
        if p < p2 <= toks.len() {
            block_loop(toks, p2, closing, acc.push(v))
        } else {
            (acc.push(v), p2)
        }
    }
}

/// The loop of `consume_function`, with the values gathered so far in `acc`.
pub open spec fn function_loop(toks: Seq<TokenView>, p: int, acc: Seq<ComponentValueView>) -> (
    Seq<ComponentValueView>,
    int,
)
    decreases toks.len() - p, 1int,
{
    let t = lookahead_at(toks, p, 0);
    let p1 = advance(toks, p);
    if t is RParen || t is EOF {
        (acc, p1)
    } else {
        let (v, p2) = cv_spec(toks, p);
        if p < p2 <= toks.len() {
            function_loop(toks, p2, acc.push(v))
        } else {
            (acc.push(v), p2)
        }
    }
}

/// `consume_simple_block` at position `p`, closing on `closing`.
pub open spec fn block_spec(toks: Seq<TokenView>, p: int, closing: TokenView) -> (
    SimpleBlockView,
    int,
) {
    let (vals, p2) = block_loop(toks, p, closing, Seq::empty());
    (SimpleBlockView { associated_token: current_at(toks, p), values: vals }, p2)
}

/// `consume_function` at position `p`.
pub open spec fn function_spec(toks: Seq<TokenView>, p: int) -> (FunctionView, int) {
    let (vals, p2) = function_loop(toks, p, Seq::empty());
    (FunctionView { name: token_text(current_at(toks, p)), values: vals }, p2)
}

pub proof fn lemma_cv(toks: Seq<TokenView>, p: int)
    requires
        0 <= p <= toks.len(),
    ensures
        p <= cv_spec(toks, p).1 <= toks.len(),
        p < toks.len() ==> p < cv_spec(toks, p).1,
    decreases toks.len() - p, 0int,
{
    let t = lookahead_at(toks, p, 0);
    let p1 = advance(toks, p);
    if is_block_opener(t) {
        lemma_block_loop(toks, p1, current_at(toks, p), Seq::empty());
    } else if t is Function {
        lemma_function_loop(toks, p1, Seq::empty());
    }
}

pub proof fn lemma_block_loop(
    toks: Seq<TokenView>,
    p: int,
    closing: TokenView,
    acc: Seq<ComponentValueView>,
)
    requires
        0 <= p <= toks.len(),
    ensures
        p <= block_loop(toks, p, closing, acc).1 <= toks.len(),
        p < toks.len() ==> p < block_loop(toks, p, closing, acc).1,
    decreases toks.len() - p, 1int,
{
    let t = lookahead_at(toks, p, 0);
    let p1 = advance(toks, p);
    if t is EOF {
    } else if current_at(toks, p1) == closing {
    } else {
        lemma_cv(toks, p);
        let (v, p2) = cv_spec(toks, p);
        lemma_block_loop(toks, p2, closing, acc.push(v));
    }
}

pub proof fn lemma_function_loop(toks: Seq<TokenView>, p: int, acc: Seq<ComponentValueView>)
    requires
        0 <= p <= toks.len(),
    ensures
        p <= function_loop(toks, p, acc).1 <= toks.len(),
        p < toks.len() ==> p < function_loop(toks, p, acc).1,
    decreases toks.len() - p, 1int,
{
    let t = lookahead_at(toks, p, 0);
    if t is RParen || t is EOF {
    } else {
        lemma_cv(toks, p);
        let (v, p2) = cv_spec(toks, p);
        lemma_function_loop(toks, p2, acc.push(v));
    }
}


// ---------------------------------------------------------------------------------------------
// Rules

/// The loop of `consume_at_rule`, with the prelude gathered so far.
pub open spec fn at_rule_loop(toks: Seq<TokenView>, p: int, prelude: Seq<ComponentValueView>) -> (
    AtRuleView,
    int,
)
    decreases toks.len() - p,
{
    let t = lookahead_at(toks, p, 0);
    let p1 = advance(toks, p);
    if t is Semicolon || t is EOF {
        (AtRuleView { name: Seq::empty(), prelude, block: None }, p1)
    } else if t is LCurly {
        let (b, p2) = block_spec(toks, p1, TokenView::RCurly);
        (AtRuleView { name: Seq::empty(), prelude, block: Some(b) }, p2)
    } else {
        let (v, p2) = cv_spec(toks, p);
        if p < p2 <= toks.len() {
            at_rule_loop(toks, p2, prelude.push(v))
        } else {
            (AtRuleView { name: Seq::empty(), prelude: prelude.push(v), block: None }, p2)
        }
    }
}

/// `consume_at_rule` at position `p`.
pub open spec fn at_rule_spec(toks: Seq<TokenView>, p: int) -> (AtRuleView, int) {
    at_rule_loop(toks, p, Seq::empty())
}

/// The loop of `consume_qualified_rule`, with the prelude gathered so far.
pub open spec fn qualified_rule_loop(
    toks: Seq<TokenView>,
    p: int,
    prelude: Seq<ComponentValueView>,
) -> (Option<QualifiedRuleView>, int)
    decreases toks.len() - p,
{
    let t = lookahead_at(toks, p, 0);
    let p1 = advance(toks, p);
    if t is EOF {
        (None, p1)
    } else if t is LCurly {
        let (b, p2) = block_spec(toks, p1, TokenView::RCurly);
        (Some(QualifiedRuleView { prelude, block: Some(b) }), p2)
    } else {
        let (v, p2) = cv_spec(toks, p);
        if p < p2 <= toks.len() {
            qualified_rule_loop(toks, p2, prelude.push(v))
        } else {
            (None, p2)
        }
    }
}

/// `consume_qualified_rule` at position `p`.
pub open spec fn qualified_rule_spec(toks: Seq<TokenView>, p: int) -> (
    Option<QualifiedRuleView>,
    int,
) {
    qualified_rule_loop(toks, p, Seq::empty())
}

/// The rules that a qualified rule adds to a list: one when there is one.
pub open spec fn push_qualified(acc: Seq<RuleView>, q: Option<QualifiedRuleView>) -> Seq<RuleView> {
    match q {
        Some(q) => acc.push(RuleView::QualifiedRule(q)),
        None => acc,
    }
}

/// The loop of `consume_list_of_rules`, with the rules gathered so far.
pub open spec fn rules_loop(toks: Seq<TokenView>, p: int, top_level: bool, acc: Seq<RuleView>) -> (
    Seq<RuleView>,
    int,
)
    decreases toks.len() - p,
{
    let t = lookahead_at(toks, p, 0);
    let p1 = advance(toks, p);
    if t is Whitespace {
        rules_loop(toks, p1, top_level, acc)
    } else if t is EOF {
        (acc, p1)
    } else if (t is CDC || t is CDO) && top_level {
        rules_loop(toks, p1, top_level, acc)
    } else if t is AtKeyword {
        let (a, p2) = at_rule_spec(toks, p);
        if p < p2 <= toks.len() {
            rules_loop(toks, p2, top_level, acc.push(RuleView::AtRule(a)))
        } else {
            (acc.push(RuleView::AtRule(a)), p2)
        }
    } else {
        let (q, p2) = qualified_rule_spec(toks, p);
        if p < p2 <= toks.len() {
            rules_loop(toks, p2, top_level, push_qualified(acc, q))
        } else {
            (push_qualified(acc, q), p2)
        }
    }
}

/// `consume_list_of_rules` at position `p`.
pub open spec fn rules_spec(toks: Seq<TokenView>, p: int, top_level: bool) -> (Seq<RuleView>, int) {
    rules_loop(toks, p, top_level, Seq::empty())
}

pub proof fn lemma_at_rule_loop(toks: Seq<TokenView>, p: int, prelude: Seq<ComponentValueView>)
    requires
        0 <= p <= toks.len(),
    ensures
        p <= at_rule_loop(toks, p, prelude).1 <= toks.len(),
        p < toks.len() ==> p < at_rule_loop(toks, p, prelude).1,
    decreases toks.len() - p,
{
    let t = lookahead_at(toks, p, 0);
    let p1 = advance(toks, p);
    if t is Semicolon || t is EOF {
    } else if t is LCurly {
        lemma_block_loop(toks, p1, TokenView::RCurly, Seq::empty());
    } else {
        lemma_cv(toks, p);
        let (v, p2) = cv_spec(toks, p);
        lemma_at_rule_loop(toks, p2, prelude.push(v));
    }
}

pub proof fn lemma_qualified_rule_loop(
    toks: Seq<TokenView>,
    p: int,
    prelude: Seq<ComponentValueView>,
)
    requires
        0 <= p <= toks.len(),
    ensures
        p <= qualified_rule_loop(toks, p, prelude).1 <= toks.len(),
        p < toks.len() ==> p < qualified_rule_loop(toks, p, prelude).1,
    decreases toks.len() - p,
{
    let t = lookahead_at(toks, p, 0);
    let p1 = advance(toks, p);
    if t is EOF {
    } else if t is LCurly {
        lemma_block_loop(toks, p1, TokenView::RCurly, Seq::empty());
    } else {
        lemma_cv(toks, p);
        let (v, p2) = cv_spec(toks, p);
        lemma_qualified_rule_loop(toks, p2, prelude.push(v));
    }
}

pub proof fn lemma_rules_loop(toks: Seq<TokenView>, p: int, top_level: bool, acc: Seq<RuleView>)
    requires
        0 <= p <= toks.len(),
    ensures
        p <= rules_loop(toks, p, top_level, acc).1 <= toks.len(),
    decreases toks.len() - p,
{
    let t = lookahead_at(toks, p, 0);
    let p1 = advance(toks, p);
    if t is Whitespace {
        lemma_rules_loop(toks, p1, top_level, acc);
    } else if t is EOF {
    } else if (t is CDC || t is CDO) && top_level {
        lemma_rules_loop(toks, p1, top_level, acc);
    } else if t is AtKeyword {
        lemma_at_rule_loop(toks, p, Seq::empty());
        let (a, p2) = at_rule_spec(toks, p);
        lemma_rules_loop(toks, p2, top_level, acc.push(RuleView::AtRule(a)));
    } else {
        lemma_qualified_rule_loop(toks, p, Seq::empty());
        let (q, p2) = qualified_rule_spec(toks, p);
        lemma_rules_loop(toks, p2, top_level, push_qualified(acc, q));
    }
}

// ---------------------------------------------------------------------------------------------
// Declarations

pub open spec fn is_preserved(v: ComponentValueView, t: TokenView) -> bool {
    v == ComponentValueView::PreservedToken(t)
}

/// The value of a declaration with its trailing whitespace tokens removed.
pub open spec fn strip_trailing_whitespace(v: Seq<ComponentValueView>) -> Seq<ComponentValueView>
    decreases v.len(),
{
    if v.len() > 0 && is_preserved(v.last(), TokenView::Whitespace) {
        strip_trailing_whitespace(v.drop_last())
    } else {
        v
    }
}

/// Whether the value ends in `!` followed by `important`.
pub open spec fn ends_important(v: Seq<ComponentValueView>) -> bool {
    &&& v.len() >= 2
    &&& is_preserved(v[v.len() - 2], TokenView::Delim('!'))
    &&& is_preserved(v[v.len() - 1], TokenView::Ident("important"@))
}

/// The declaration that the name and the value gathered for it make.
pub open spec fn finish_declaration(name: Seq<char>, vals: Seq<ComponentValueView>) -> DeclarationView {
    if ends_important(vals) {
        DeclarationView {
            name,
            value: strip_trailing_whitespace(vals.subrange(0, vals.len() - 2)),
            important: true,
        }
    } else {
        DeclarationView { name, value: strip_trailing_whitespace(vals), important: false }
    }
}

/// The value loop of `consume_declaration`: each token read is followed by one component value.
pub open spec fn declaration_values_loop(
    toks: Seq<TokenView>,
    p: int,
    acc: Seq<ComponentValueView>,
) -> (Seq<ComponentValueView>, int)
    decreases toks.len() - p,
{
    let t = lookahead_at(toks, p, 0);
    let p1 = advance(toks, p);
    if t is EOF {
        (acc, p1)
    } else {
        let (v, p2) = cv_spec(toks, p1);
        if p < p2 <= toks.len() {
            declaration_values_loop(toks, p2, acc.push(v))
        } else {
            (acc.push(v), p2)
        }
    }
}

/// `consume_declaration` at position `p`.
pub open spec fn declaration_spec(toks: Seq<TokenView>, p: int) -> (Option<DeclarationView>, int) {
    let name = token_text(lookahead_at(toks, p, 0));
    let p1 = advance(toks, p);
    let p2 = ws_spec(toks, p1);
    if !(lookahead_at(toks, p2, 0) is Colon) {
        (None, p2)
    } else {
        let p3 = ws_spec(toks, advance(toks, p2));
        let (vals, p4) = declaration_values_loop(toks, p3, Seq::empty());
        (Some(finish_declaration(name, vals)), p4)
    }
}

/// What `parse_declaration` makes of the given tokens: the first must be an identifier, and
/// the declaration is read from the token after it.
pub open spec fn parse_declaration_spec(input: Seq<TokenView>) -> Option<DeclarationView> {
    if lookahead_at(input, 0, 0) is Ident {
        declaration_spec(input, 1).0
    } else {
        None
    }
}

// ---------------------------------------------------------------------------------------------
// Style blocks and lists of declarations

/// The component values of a statement, read one after another onto `acc` for as long as the
/// next token is neither `;` nor EOF; that token is left as the next one.
pub open spec fn statement_loop(toks: Seq<TokenView>, p: int, acc: Seq<ComponentValueView>) -> (
    Seq<ComponentValueView>,
    int,
)
    decreases toks.len() - p,
{
    let t = lookahead_at(toks, p, 0);
    if t is Semicolon || t is EOF {
        (acc, p)
    } else {
        let (v, p2) = cv_spec(toks, p);
        if p < p2 <= toks.len() {
            statement_loop(toks, p2, acc.push(v))
        } else {
            (acc.push(v), p2)
        }
    }
}

pub proof fn lemma_statement_loop(toks: Seq<TokenView>, p: int, acc: Seq<ComponentValueView>)
    requires
        0 <= p <= toks.len(),
    ensures
        p <= statement_loop(toks, p, acc).1 <= toks.len(),
        !(lookahead_at(toks, p, 0) is Semicolon || lookahead_at(toks, p, 0) is EOF) ==> p
            < statement_loop(toks, p, acc).1,
    decreases toks.len() - p,
{
    let t = lookahead_at(toks, p, 0);
    if !(t is Semicolon || t is EOF) {
        lemma_cv(toks, p);
        let (v, p2) = cv_spec(toks, p);
        lemma_statement_loop(toks, p2, acc.push(v));
    }
}

/// The first index from `i` on whose value is not a whitespace token.
pub open spec fn skip_whitespace_values(vals: Seq<ComponentValueView>, i: int) -> int
    decreases vals.len() - i,
{
    if 0 <= i < vals.len() && is_preserved(vals[i], TokenView::Whitespace) {
        skip_whitespace_values(vals, i + 1)
    } else {
        i
    }
}

pub proof fn lemma_skip_whitespace_values(vals: Seq<ComponentValueView>, i: int)
    requires
        0 <= i <= vals.len(),
    ensures
        i <= skip_whitespace_values(vals, i) <= vals.len(),
        forall|k: int|
            i <= k < skip_whitespace_values(vals, i) ==> is_preserved(
                #[trigger] vals[k],
                TokenView::Whitespace,
            ),
        skip_whitespace_values(vals, i) == vals.len() || !is_preserved(
            vals[skip_whitespace_values(vals, i)],
            TokenView::Whitespace,
        ),
    decreases vals.len() - i,
{
    if i < vals.len() && is_preserved(vals[i], TokenView::Whitespace) {
        lemma_skip_whitespace_values(vals, i + 1);
    }
}

/// A declaration read from a list of component values: the first is the identifier that
/// names it, then, past any whitespace, a colon, and past any whitespace after that, its
/// value. Nothing where the list does not start with an identifier or no colon follows.
pub open spec fn declaration_from_values(vals: Seq<ComponentValueView>) -> Option<DeclarationView> {
    if vals.len() == 0 {
        None
    } else {
        match vals[0] {
            ComponentValueView::PreservedToken(TokenView::Ident(name)) => {
                let i = skip_whitespace_values(vals, 1);
                if i < vals.len() && is_preserved(vals[i], TokenView::Colon) {
                    let j = skip_whitespace_values(vals, i + 1);
                    Some(finish_declaration(name, vals.subrange(j, vals.len() as int)))
                } else {
                    None
                }
            },
            _ => None,
        }
    }
}

/// What an identifier at `p` starts in a list of declarations: the statement's values, read
/// after the identifier, the declaration read from them, and the position after them.
pub open spec fn ident_statement(toks: Seq<TokenView>, p: int) -> (Option<DeclarationView>, int) {
    let p1 = advance(toks, p);
    let (vals, p2) = statement_loop(
        toks,
        p1,
        seq![ComponentValueView::PreservedToken(current_at(toks, p1))],
    );
    (declaration_from_values(vals), p2)
}

/// The declarations with the one that a statement gave, if any, added.
pub open spec fn push_declaration(decls: Seq<DeclarationView>, d: Option<DeclarationView>) -> Seq<
    DeclarationView,
> {
    match d {
        Some(d) => decls.push(d),
        None => decls,
    }
}

/// The loop of `consume_style_block_content`.
pub open spec fn style_loop(
    toks: Seq<TokenView>,
    p: int,
    decls: Seq<DeclarationView>,
    rules: Seq<RuleView>,
) -> (Seq<DeclarationView>, Seq<RuleView>, int)
    decreases toks.len() - p,
{
    let t = lookahead_at(toks, p, 0);
    let p1 = advance(toks, p);
    if t is Whitespace || t is Semicolon {
        style_loop(toks, p1, decls, rules)
    } else if t is EOF {
        (decls, rules, p1)
    } else {
        let (decls2, rules2, p2) = if t is AtKeyword {
            let (a, p2) = at_rule_spec(toks, p);
            (decls, rules.push(RuleView::AtRule(a)), p2)
        } else if t is Ident {
            let (d, p2) = ident_statement(toks, p);
            (push_declaration(decls, d), rules, p2)
        } else if t == TokenView::Delim('&') {
            let (q, p2) = qualified_rule_spec(toks, p);
            (decls, push_qualified(rules, q), p2)
        } else {
            (decls, rules, statement_loop(toks, p, Seq::empty()).1)
        };
        if p < p2 <= toks.len() {
            style_loop(toks, p2, decls2, rules2)
        } else {
            (decls2, rules2, p2)
        }
    }
}

/// `consume_style_block_content` at position `p`.
pub open spec fn style_block_spec(toks: Seq<TokenView>, p: int) -> (
    Seq<DeclarationView>,
    Seq<RuleView>,
    int,
) {
    style_loop(toks, p, Seq::empty(), Seq::empty())
}

/// The list with the declaration that a statement gave, if any, added.
pub open spec fn push_mixed_declaration(
    acc: Seq<DeclarationOrAtRuleView>,
    d: Option<DeclarationView>,
) -> Seq<DeclarationOrAtRuleView> {
    match d {
        Some(d) => acc.push(DeclarationOrAtRuleView::Declaration(d)),
        None => acc,
    }
}

/// The loop of `consume_list_of_declarations`.
pub open spec fn declarations_loop(
    toks: Seq<TokenView>,
    p: int,
    acc: Seq<DeclarationOrAtRuleView>,
) -> (Seq<DeclarationOrAtRuleView>, int)
    decreases toks.len() - p,
{
    let t = lookahead_at(toks, p, 0);
    let p1 = advance(toks, p);
    if t is Whitespace || t is Semicolon {
        declarations_loop(toks, p1, acc)
    } else if t is EOF {
        (acc, p1)
    } else {
        let (acc2, p2) = if t is AtKeyword {
            let (a, p2) = at_rule_spec(toks, p);
            (acc.push(DeclarationOrAtRuleView::AtRule(a)), p2)
        } else if t is Ident {
            let (d, p2) = ident_statement(toks, p);
            (push_mixed_declaration(acc, d), p2)
        } else {
            (acc, statement_loop(toks, p, Seq::empty()).1)
        };
        if p < p2 <= toks.len() {
            declarations_loop(toks, p2, acc2)
        } else {
            (acc2, p2)
        }
    }
}

/// `consume_list_of_declarations` at position `p`.
pub open spec fn declarations_spec(toks: Seq<TokenView>, p: int) -> (
    Seq<DeclarationOrAtRuleView>,
    int,
) {
    declarations_loop(toks, p, Seq::empty())
}

// ---------------------------------------------------------------------------------------------
// Lists of component values

/// The loop of `parse_list_of_component_values`: each token read is followed by one component
/// value.
pub open spec fn component_values_loop(
    toks: Seq<TokenView>,
    p: int,
    acc: Seq<ComponentValueView>,
) -> (Seq<ComponentValueView>, int)
    decreases toks.len() - p,
{
    let t = lookahead_at(toks, p, 0);
    let p1 = advance(toks, p);
    if t is EOF {
        (acc, p1)
    } else {
        let (v, p2) = cv_spec(toks, p1);
        if p < p2 <= toks.len() {
            component_values_loop(toks, p2, acc.push(v))
        } else {
            (acc.push(v), p2)
        }
    }
}

/// The loop of `parse_commaseparated_list_of_component_values`: a comma makes it skip the
/// token after it, any other token is followed by one component value.
pub open spec fn comma_separated_loop(
    toks: Seq<TokenView>,
    p: int,
    acc: Seq<ComponentValueView>,
) -> (Seq<ComponentValueView>, int)
    decreases toks.len() - p,
{
    let t = lookahead_at(toks, p, 0);
    let p1 = advance(toks, p);
    if t is EOF {
        (acc, p1)
    } else if t is Comma {
        comma_separated_loop(toks, advance(toks, p1), acc)
    } else {
        let (v, p2) = cv_spec(toks, p1);
        if p < p2 <= toks.len() {
            comma_separated_loop(toks, p2, acc.push(v))
        } else {
            (acc.push(v), p2)
        }
    }
}

// ---------------------------------------------------------------------------------------------
// Parsing a single rule or component value

/// `parse_component_value` at position `p`: the outcome and the position after it.
pub open spec fn parse_component_value_spec(toks: Seq<TokenView>, p: int) -> (
    Result<ComponentValueView, ErrorView>,
    int,
) {
    let p1 = ws_spec(toks, p);
    if lookahead_at(toks, p1, 0) is EOF {
        (Err(ErrorView::UnexpectedEof), p1)
    } else {
        let (v, p2) = cv_spec(toks, p1);
        let p3 = ws_spec(toks, p2);
        if lookahead_at(toks, p3, 0) is EOF {
            (Ok(v), p3)
        } else {
            (Err(ErrorView::Syntax("syntax error"@)), p3)
        }
    }
}

/// `parse_rule` at position `p`: the outcome and the position after it.
pub open spec fn parse_rule_spec(toks: Seq<TokenView>, p: int) -> (Result<RuleView, ErrorView>, int) {
    let p1 = ws_spec(toks, p);
    let t = lookahead_at(toks, p1, 0);
    if t is EOF {
        (Err(ErrorView::Syntax("unexpected eof"@)), p1)
    } else {
        let (r, p2) = if t is AtKeyword {
            let (a, p2) = at_rule_spec(toks, p1);
            (Some(RuleView::AtRule(a)), p2)
        } else {
            let (q, p2) = qualified_rule_spec(toks, p1);
            match q {
                Some(q) => (Some(RuleView::QualifiedRule(q)), p2),
                None => (None, p2),
            }
        };
        match r {
            None => (Err(ErrorView::Syntax("syntax error"@)), p2),
            Some(r) => {
                let p3 = ws_spec(toks, p2);
                if lookahead_at(toks, p3, 0) is EOF {
                    (Ok(r), p3)
                } else {
                    (Err(ErrorView::Syntax("syntax error"@)), p3)
                }
            },
        }
    }
}


// ---------------------------------------------------------------------------------------------
// Laws

/// Consuming a token and then reconsuming it returns the stream to where it was, and the token
/// consumed is the one that `current` reports afterwards.
pub proof fn law_reconsume_undoes_consume(toks: Seq<TokenView>, p: int)
    requires
        0 <= p < toks.len(),
    ensures
        advance(toks, p) - 1 == p,
        current_at(toks, advance(toks, p)) == lookahead_at(toks, p, 0),
{
}

/// `consume_whitespaces` eats only whitespace, and stops before the first token that is not
/// whitespace, which it leaves as the next token.
pub proof fn law_whitespace_skipping(toks: Seq<TokenView>, p: int)
    requires
        0 <= p <= toks.len(),
    ensures
        forall|i: int| p <= i < ws_spec(toks, p) ==> #[trigger] toks[i] is Whitespace,
        !(lookahead_at(toks, ws_spec(toks, p), 0) is Whitespace),
        p <= ws_spec(toks, p) <= toks.len(),
    decreases toks.len() - p,
{
    lemma_ws(toks, p);
    if lookahead_at(toks, p, 0) is Whitespace {
        law_whitespace_skipping(toks, advance(toks, p));
    }
}

/// Parsing never moves backwards and never past the end of the stream.
pub proof fn law_parsing_moves_forward(toks: Seq<TokenView>, p: int, top_level: bool)
    requires
        0 <= p <= toks.len(),
    ensures
        p <= rules_spec(toks, p, top_level).1 <= toks.len(),
        p <= parse_rule_spec(toks, p).1 <= toks.len(),
        p <= parse_component_value_spec(toks, p).1 <= toks.len(),
        p <= cv_spec(toks, p).1 <= toks.len(),
        p <= at_rule_spec(toks, p).1 <= toks.len(),
        p <= qualified_rule_spec(toks, p).1 <= toks.len(),
{
    lemma_rules_loop(toks, p, top_level, Seq::empty());
    lemma_cv(toks, p);
    lemma_at_rule_loop(toks, p, Seq::empty());
    lemma_qualified_rule_loop(toks, p, Seq::empty());
    lemma_ws(toks, p);
    let p1 = ws_spec(toks, p);
    lemma_cv(toks, p1);
    lemma_ws(toks, cv_spec(toks, p1).1);
    lemma_at_rule_loop(toks, p1, Seq::empty());
    lemma_qualified_rule_loop(toks, p1, Seq::empty());
    lemma_ws(toks, at_rule_spec(toks, p1).1);
    lemma_ws(toks, qualified_rule_spec(toks, p1).1);
}

/// The top-level flag of `consume_list_of_rules` only matters for `<!--` and `-->`: on tokens
/// without them, a stylesheet and a plain list of rules read the same rules.
pub proof fn law_top_level_only_skips_cdo_cdc(
    toks: Seq<TokenView>,
    p: int,
    acc: Seq<RuleView>,
)
    requires
        0 <= p <= toks.len(),
        forall|i: int| p <= i < toks.len() ==> !(#[trigger] toks[i] is CDC) && !(toks[i] is CDO),
    ensures
        rules_loop(toks, p, true, acc) == rules_loop(toks, p, false, acc),
    decreases toks.len() - p,
{
    let t = lookahead_at(toks, p, 0);
    let p1 = advance(toks, p);
    if p < toks.len() {
        assert(!(toks[p] is CDC) && !(toks[p] is CDO));
    }
    if t is Whitespace {
        law_top_level_only_skips_cdo_cdc(toks, p1, acc);
    } else if t is EOF {
    } else if t is AtKeyword {
        lemma_at_rule_loop(toks, p, Seq::empty());
        let (a, p2) = at_rule_spec(toks, p);
        law_top_level_only_skips_cdo_cdc(toks, p2, acc.push(RuleView::AtRule(a)));
    } else {
        lemma_qualified_rule_loop(toks, p, Seq::empty());
        let (q, p2) = qualified_rule_spec(toks, p);
        law_top_level_only_skips_cdo_cdc(toks, p2, push_qualified(acc, q));
    }
}

/// A rule is only parsed when the stream ends right after it.
pub proof fn law_parsed_rule_is_followed_by_eof(toks: Seq<TokenView>, p: int)
    ensures
        parse_rule_spec(toks, p).0 is Ok ==> lookahead_at(toks, parse_rule_spec(toks, p).1, 0) is EOF,
        parse_component_value_spec(toks, p).0 is Ok ==> lookahead_at(
            toks,
            parse_component_value_spec(toks, p).1,
            0,
        ) is EOF,
{
}

proof fn lemma_strip_trailing_whitespace(v: Seq<ComponentValueView>)
    ensures
        strip_trailing_whitespace(v).len() <= v.len(),
        strip_trailing_whitespace(v) == v.subrange(0, strip_trailing_whitespace(v).len() as int),
        strip_trailing_whitespace(v).len() == 0 || !is_preserved(
            strip_trailing_whitespace(v).last(),
            TokenView::Whitespace,
        ),
        forall|i: int|
            strip_trailing_whitespace(v).len() <= i < v.len() ==> is_preserved(
                #[trigger] v[i],
                TokenView::Whitespace,
            ),
    decreases v.len(),
{
    if v.len() > 0 && is_preserved(v.last(), TokenView::Whitespace) {
        lemma_strip_trailing_whitespace(v.drop_last());
        let r = strip_trailing_whitespace(v.drop_last());
        assert(v.drop_last().subrange(0, r.len() as int) =~= v.subrange(0, r.len() as int));
        assert forall|i: int| r.len() <= i < v.len() implies is_preserved(
            #[trigger] v[i],
            TokenView::Whitespace,
        ) by {
            if i < v.len() - 1 {
                assert(v[i] == v.drop_last()[i]);
            }
        }
    } else {
        assert(v.subrange(0, v.len() as int) =~= v);
    }
}

/// A declaration is important exactly when its value ends in `!` and `important`; those two
/// are removed, and so is the whitespace at the end of the value, and nothing else.
pub proof fn law_declaration_important(name: Seq<char>, vals: Seq<ComponentValueView>)
    ensures
        finish_declaration(name, vals).name == name,
        finish_declaration(name, vals).important == ends_important(vals),
        ({
            let kept = if ends_important(vals) {
                vals.subrange(0, vals.len() - 2)
            } else {
                vals
            };
            let value = finish_declaration(name, vals).value;
            &&& value.len() <= kept.len()
            &&& value == kept.subrange(0, value.len() as int)
            &&& (value.len() == 0 || !is_preserved(value.last(), TokenView::Whitespace))
            &&& forall|i: int|
                value.len() <= i < kept.len() ==> is_preserved(
                    #[trigger] kept[i],
                    TokenView::Whitespace,
                )
        }),
{
    if ends_important(vals) {
        lemma_strip_trailing_whitespace(vals.subrange(0, vals.len() - 2));
    } else {
        lemma_strip_trailing_whitespace(vals);
    }
}


/// Where a consuming loop stops: at the end of the stream, or right after the given token, or
/// right after an EOF token.
pub open spec fn stops_after(toks: Seq<TokenView>, q: int, last: TokenView) -> bool {
    q == toks.len() || current_at(toks, q) == last || current_at(toks, q) is EOF
}

/// `consume_whitespaces` on a run of `k` whitespace tokens followed by another token consumes
/// exactly the run, and that token is then the next token; with nothing after the run, it
/// stops at the end of the stream.
pub proof fn law_whitespace_run(toks: Seq<TokenView>, p: int, k: int)
    requires
        0 <= p,
        0 <= k,
        p + k <= toks.len(),
        forall|i: int| p <= i < p + k ==> #[trigger] toks[i] is Whitespace,
        p + k < toks.len() ==> !(toks[p + k] is Whitespace),
    ensures
        p + k < toks.len() ==> ws_spec(toks, p) == p + k && lookahead_at(toks, ws_spec(toks, p), 0)
            == toks[p + k],
        p + k == toks.len() ==> ws_spec(toks, p) == toks.len(),
    decreases k,
{
    if k > 0 {
        assert(toks[p] is Whitespace);
        law_whitespace_run(toks, p + 1, k - 1);
    }
}

/// No value in `vals` is the token `a` or the token `b` as it stands.
pub open spec fn holds_neither(vals: Seq<ComponentValueView>, a: TokenView, b: TokenView) -> bool {
    forall|i: int|
        0 <= i < vals.len() ==> !is_preserved(#[trigger] vals[i], a) && !is_preserved(vals[i], b)
}

proof fn lemma_block_loop_stops(toks: Seq<TokenView>, p: int, closing: TokenView, acc: Seq<ComponentValueView>)
    requires
        0 <= p <= toks.len(),
        holds_neither(acc, closing, TokenView::EOF),
    ensures
        stops_after(toks, block_loop(toks, p, closing, acc).1, closing),
        holds_neither(block_loop(toks, p, closing, acc).0, closing, TokenView::EOF),
    decreases toks.len() - p,
{
    let t = lookahead_at(toks, p, 0);
    let p1 = advance(toks, p);
    if t is EOF {
    } else if current_at(toks, p1) == closing {
    } else {
        lemma_cv(toks, p);
        let (v, p2) = cv_spec(toks, p);
        assert(holds_neither(acc.push(v), closing, TokenView::EOF)) by {
            assert(acc.push(v).last() == v);
        }
        lemma_block_loop_stops(toks, p2, closing, acc.push(v));
    }
}

proof fn lemma_function_loop_stops(toks: Seq<TokenView>, p: int, acc: Seq<ComponentValueView>)
    requires
        0 <= p <= toks.len(),
        holds_neither(acc, TokenView::RParen, TokenView::EOF),
    ensures
        stops_after(toks, function_loop(toks, p, acc).1, TokenView::RParen),
        holds_neither(function_loop(toks, p, acc).0, TokenView::RParen, TokenView::EOF),
    decreases toks.len() - p,
{
    let t = lookahead_at(toks, p, 0);
    if t is RParen || t is EOF {
    } else {
        lemma_cv(toks, p);
        let (v, p2) = cv_spec(toks, p);
        assert(holds_neither(acc.push(v), TokenView::RParen, TokenView::EOF)) by {
            assert(acc.push(v).last() == v);
        }
        lemma_function_loop_stops(toks, p2, acc.push(v));
    }
}

/// A simple block holds the token that opened it, and ends right after the first closing
/// token at its own level, or at EOF: no value of the block is that token or EOF.
pub proof fn law_simple_block(toks: Seq<TokenView>, p: int, closing: TokenView)
    requires
        0 <= p <= toks.len(),
    ensures
        block_spec(toks, p, closing).0.associated_token == current_at(toks, p),
        stops_after(toks, block_spec(toks, p, closing).1, closing),
        holds_neither(block_spec(toks, p, closing).0.values, closing, TokenView::EOF),
        p <= block_spec(toks, p, closing).1 <= toks.len(),
{
    lemma_block_loop_stops(toks, p, closing, Seq::empty());
    lemma_block_loop(toks, p, closing, Seq::empty());
}

/// A function is named by the text of its function token, and ends right after the first closing
/// parenthesis at its own level, or at EOF: no value of the function is `)` or EOF.
pub proof fn law_function(toks: Seq<TokenView>, p: int)
    requires
        0 <= p <= toks.len(),
    ensures
        function_spec(toks, p).0.name == token_text(current_at(toks, p)),
        stops_after(toks, function_spec(toks, p).1, TokenView::RParen),
        holds_neither(function_spec(toks, p).0.values, TokenView::RParen, TokenView::EOF),
        p <= function_spec(toks, p).1 <= toks.len(),
{
    lemma_function_loop_stops(toks, p, Seq::empty());
    lemma_function_loop(toks, p, Seq::empty());
}

/// The shape of a qualified rule read: its prelude holds no `{` and no EOF at its own level,
/// and it has the block that the `{` after the prelude opened.
pub open spec fn qualified_shape(q: QualifiedRuleView) -> bool {
    &&& holds_neither(q.prelude, TokenView::LCurly, TokenView::EOF)
    &&& q.block is Some
    &&& q.block.unwrap().associated_token == TokenView::LCurly
}

proof fn lemma_qualified_rule_loop_shape(
    toks: Seq<TokenView>,
    p: int,
    prelude: Seq<ComponentValueView>,
)
    requires
        0 <= p <= toks.len(),
        holds_neither(prelude, TokenView::LCurly, TokenView::EOF),
    ensures
        ({
            let (r, q) = qualified_rule_loop(toks, p, prelude);
            &&& r is None ==> (q == toks.len() || current_at(toks, q) is EOF)
            &&& r matches Some(rule) ==> qualified_shape(rule) && stops_after(
                toks,
                q,
                TokenView::RCurly,
            )
        }),
    decreases toks.len() - p,
{
    let t = lookahead_at(toks, p, 0);
    let p1 = advance(toks, p);
    if t is EOF {
    } else if t is LCurly {
        lemma_block_loop_stops(toks, p1, TokenView::RCurly, Seq::empty());
    } else {
        lemma_cv(toks, p);
        let (v, p2) = cv_spec(toks, p);
        assert(holds_neither(prelude.push(v), TokenView::LCurly, TokenView::EOF)) by {
            assert(prelude.push(v).last() == v);
        }
        lemma_qualified_rule_loop_shape(toks, p2, prelude.push(v));
    }
}

/// A qualified rule is missing only when EOF comes before a `{` at its top level: then the
/// rule stops at EOF. Otherwise its prelude is what came before that `{`, with no `{` or EOF
/// at its own level, it has the block that `{` opened, and it ends right after that block's
/// `}` or at EOF.
pub proof fn law_qualified_rule(toks: Seq<TokenView>, p: int)
    requires
        0 <= p <= toks.len(),
    ensures
        qualified_rule_spec(toks, p).0 is None ==> (qualified_rule_spec(toks, p).1 == toks.len()
            || current_at(toks, qualified_rule_spec(toks, p).1) is EOF),
        qualified_rule_spec(toks, p).0 matches Some(rule) ==> qualified_shape(rule) && stops_after(
            toks,
            qualified_rule_spec(toks, p).1,
            TokenView::RCurly,
        ),
{
    lemma_qualified_rule_loop_shape(toks, p, Seq::empty());
}

/// The shape of an at-rule read: no name, a prelude with no `;`, `{` or EOF at its own level,
/// and a block only where `{` opened it.
pub open spec fn at_rule_shape(a: AtRuleView) -> bool {
    &&& a.name == Seq::<char>::empty()
    &&& holds_neither(a.prelude, TokenView::Semicolon, TokenView::EOF)
    &&& holds_neither(a.prelude, TokenView::LCurly, TokenView::EOF)
    &&& a.block matches Some(b) ==> b.associated_token == TokenView::LCurly
}

/// The shape of the rules in a list: at-rules and qualified rules as above, never a norm rule.
pub open spec fn rule_shape(r: RuleView) -> bool {
    match r {
        RuleView::AtRule(a) => at_rule_shape(a),
        RuleView::QualifiedRule(q) => qualified_shape(q),
        RuleView::NormRule(_) => false,
    }
}

proof fn lemma_at_rule_loop_shape(toks: Seq<TokenView>, p: int, prelude: Seq<ComponentValueView>)
    requires
        0 <= p <= toks.len(),
        holds_neither(prelude, TokenView::Semicolon, TokenView::EOF),
        holds_neither(prelude, TokenView::LCurly, TokenView::EOF),
    ensures
        at_rule_shape(at_rule_loop(toks, p, prelude).0),
    decreases toks.len() - p,
{
    let t = lookahead_at(toks, p, 0);
    if t is Semicolon || t is EOF {
    } else if t is LCurly {
    } else {
        lemma_cv(toks, p);
        let (v, p2) = cv_spec(toks, p);
        assert(prelude.push(v).last() == v);
        assert(holds_neither(prelude.push(v), TokenView::Semicolon, TokenView::EOF));
        assert(holds_neither(prelude.push(v), TokenView::LCurly, TokenView::EOF));
        lemma_at_rule_loop_shape(toks, p2, prelude.push(v));
    }
}

proof fn lemma_rules_loop_shape(toks: Seq<TokenView>, p: int, top_level: bool, acc: Seq<RuleView>)
    requires
        0 <= p <= toks.len(),
        forall|i: int| 0 <= i < acc.len() ==> rule_shape(#[trigger] acc[i]),
    ensures
        ({
            let (rules, q) = rules_loop(toks, p, top_level, acc);
            &&& forall|i: int| 0 <= i < rules.len() ==> rule_shape(#[trigger] rules[i])
            &&& rules.len() >= acc.len()
            &&& rules.subrange(0, acc.len() as int) == acc
            &&& (q == toks.len() || current_at(toks, q) is EOF)
        }),
    decreases toks.len() - p,
{
    let t = lookahead_at(toks, p, 0);
    let p1 = advance(toks, p);
    if t is Whitespace {
        lemma_rules_loop_shape(toks, p1, top_level, acc);
    } else if t is EOF {
        assert(acc.subrange(0, acc.len() as int) =~= acc);
    } else if (t is CDC || t is CDO) && top_level {
        lemma_rules_loop_shape(toks, p1, top_level, acc);
    } else if t is AtKeyword {
        lemma_at_rule_loop(toks, p, Seq::empty());
        lemma_at_rule_loop_shape(toks, p, Seq::empty());
        let (a, p2) = at_rule_spec(toks, p);
        let acc2 = acc.push(RuleView::AtRule(a));
        lemma_rules_loop_shape(toks, p2, top_level, acc2);
        let rules = rules_loop(toks, p2, top_level, acc2).0;
        assert(rules.subrange(0, acc.len() as int) =~= rules.subrange(0, acc2.len() as int).subrange(
            0,
            acc.len() as int,
        ));
    } else {
        lemma_qualified_rule_loop(toks, p, Seq::empty());
        lemma_qualified_rule_loop_shape(toks, p, Seq::empty());
        let (q, p2) = qualified_rule_spec(toks, p);
        let acc2 = push_qualified(acc, q);
        lemma_rules_loop_shape(toks, p2, top_level, acc2);
        let rules = rules_loop(toks, p2, top_level, acc2).0;
        assert(rules.subrange(0, acc.len() as int) =~= rules.subrange(0, acc2.len() as int).subrange(
            0,
            acc.len() as int,
        ));
    }
}

/// A list of rules reads the stream up to EOF, and holds only at-rules (unnamed, with a block
/// only where `{` opened it) and qualified rules (each with its `{` block), never a norm rule.
pub proof fn law_rule_list(toks: Seq<TokenView>, p: int, top_level: bool)
    requires
        0 <= p <= toks.len(),
    ensures
        forall|i: int|
            0 <= i < rules_spec(toks, p, top_level).0.len() ==> rule_shape(
                #[trigger] rules_spec(toks, p, top_level).0[i],
            ),
        rules_spec(toks, p, top_level).1 == toks.len() || current_at(
            toks,
            rules_spec(toks, p, top_level).1,
        ) is EOF,
{
    lemma_rules_loop_shape(toks, p, top_level, Seq::empty());
}


// ---------------------------------------------------------------------------------------------
// A stylesheet and a plain list of rules

/// The tokens that a stylesheet read from `p` keeps: every token but the `<!--` and `-->` that
/// its top-level loop skips.
pub open spec fn kept_tokens(toks: Seq<TokenView>, p: int) -> Seq<TokenView>
    decreases toks.len() - p,
{
    if p < 0 || p >= toks.len() {
        Seq::empty()
    } else {
        let t = toks[p];
        if t is Whitespace {
            seq![t] + kept_tokens(toks, p + 1)
        } else if t is EOF {
            toks.subrange(p, toks.len() as int)
        } else if t is CDC || t is CDO {
            kept_tokens(toks, p + 1)
        } else {
            let p2 = if t is AtKeyword {
                at_rule_spec(toks, p).1
            } else {
                qualified_rule_spec(toks, p).1
            };
            if p < p2 <= toks.len() {
                toks.subrange(p, p2) + kept_tokens(toks, p2)
            } else {
                toks.subrange(p, toks.len() as int)
            }
        }
    }
}

/// Whether `t` opens a block that closes on the token read before it.
pub open spec fn opens_round_or_square(t: TokenView) -> bool {
    t is LParen || t is LBracket
}

/// Whether the top-level loop of a stylesheet read from `p` skips a `<!--` or `-->` that is
/// directly followed by `(` or `[`.
pub open spec fn skips_before_bracket(toks: Seq<TokenView>, p: int) -> bool
    decreases toks.len() - p,
{
    if p < 0 || p >= toks.len() {
        false
    } else {
        let t = toks[p];
        if t is Whitespace {
            skips_before_bracket(toks, p + 1)
        } else if t is EOF {
            false
        } else if t is CDC || t is CDO {
            opens_round_or_square(lookahead_at(toks, p + 1, 0)) || skips_before_bracket(toks, p + 1)
        } else {
            let p2 = if t is AtKeyword {
                at_rule_spec(toks, p).1
            } else {
                qualified_rule_spec(toks, p).1
            };
            if p < p2 <= toks.len() {
                skips_before_bracket(toks, p2)
            } else {
                false
            }
        }
    }
}

/// `s` from `q` holds the tokens of `toks` from `p` up to `e`, and ends where they do when they
/// run to the end of `toks`.
pub open spec fn same_window(toks: Seq<TokenView>, p: int, e: int, s: Seq<TokenView>, q: int) -> bool {
    &&& 0 <= p <= e <= toks.len()
    &&& 0 <= q
    &&& q + (e - p) <= s.len()
    &&& forall|j: int| p <= j < e ==> s[q + (j - p)] == #[trigger] toks[j]
    &&& e == toks.len() ==> q + (e - p) == s.len()
}

proof fn lemma_sub_window(toks: Seq<TokenView>, p: int, e: int, s: Seq<TokenView>, q: int, p2: int, e2: int)
    requires
        same_window(toks, p, e, s, q),
        p <= p2 <= e2 <= e,
    ensures
        same_window(toks, p2, e2, s, q + (p2 - p)),
{
    assert forall|j: int| p2 <= j < e2 implies s[q + (p2 - p) + (j - p2)] == #[trigger] toks[j] by {
        assert(s[q + (j - p)] == toks[j]);
    }
}

proof fn frame_cv(toks: Seq<TokenView>, p: int, s: Seq<TokenView>, q: int)
    requires
        0 <= p < toks.len(),
        same_window(toks, p, cv_spec(toks, p).1, s, q),
        is_block_opener(toks[p]) ==> current_at(s, q) == current_at(toks, p),
    ensures
        cv_spec(s, q) == (cv_spec(toks, p).0, q + (cv_spec(toks, p).1 - p)),
    decreases toks.len() - p, 0int,
{
    lemma_cv(toks, p);
    let e = cv_spec(toks, p).1;
    assert(s[q + (p - p)] == toks[p]);
    let t = toks[p];
    if is_block_opener(t) {
        lemma_block_loop(toks, p + 1, current_at(toks, p), Seq::empty());
        lemma_sub_window(toks, p, e, s, q, p + 1, e);
        frame_block_loop(toks, p + 1, current_at(toks, p), Seq::empty(), s, q + 1);
    } else if t is Function {
        lemma_function_loop(toks, p + 1, Seq::empty());
        lemma_sub_window(toks, p, e, s, q, p + 1, e);
        frame_function_loop(toks, p + 1, Seq::empty(), s, q + 1);
    }
}

proof fn frame_block_loop(
    toks: Seq<TokenView>,
    p: int,
    closing: TokenView,
    acc: Seq<ComponentValueView>,
    s: Seq<TokenView>,
    q: int,
)
    requires
        0 <= p <= toks.len(),
        same_window(toks, p, block_loop(toks, p, closing, acc).1, s, q),
        current_at(s, q) == current_at(toks, p),
    ensures
        block_loop(s, q, closing, acc) == (
            block_loop(toks, p, closing, acc).0,
            q + (block_loop(toks, p, closing, acc).1 - p),
        ),
    decreases toks.len() - p, 1int,
{
    lemma_block_loop(toks, p, closing, acc);
    let e = block_loop(toks, p, closing, acc).1;
    if p < toks.len() {
        assert(s[q + (p - p)] == toks[p]);
        let t = toks[p];
        if t is EOF {
        } else if toks[p] == closing {
        } else {
            lemma_cv(toks, p);
            let (v, p2) = cv_spec(toks, p);
            lemma_block_loop(toks, p2, closing, acc.push(v));
            lemma_sub_window(toks, p, e, s, q, p, p2);
            frame_cv(toks, p, s, q);
            lemma_sub_window(toks, p, e, s, q, p2, e);
            assert(s[q + (p2 - 1 - p)] == toks[p2 - 1]);
            frame_block_loop(toks, p2, closing, acc.push(v), s, q + (p2 - p));
        }
    }
}

proof fn frame_function_loop(
    toks: Seq<TokenView>,
    p: int,
    acc: Seq<ComponentValueView>,
    s: Seq<TokenView>,
    q: int,
)
    requires
        0 <= p <= toks.len(),
        same_window(toks, p, function_loop(toks, p, acc).1, s, q),
        current_at(s, q) == current_at(toks, p),
    ensures
        function_loop(s, q, acc) == (
            function_loop(toks, p, acc).0,
            q + (function_loop(toks, p, acc).1 - p),
        ),
    decreases toks.len() - p, 1int,
{
    lemma_function_loop(toks, p, acc);
    let e = function_loop(toks, p, acc).1;
    if p < toks.len() {
        assert(s[q + (p - p)] == toks[p]);
        let t = toks[p];
        if t is RParen || t is EOF {
        } else {
            lemma_cv(toks, p);
            let (v, p2) = cv_spec(toks, p);
            lemma_function_loop(toks, p2, acc.push(v));
            lemma_sub_window(toks, p, e, s, q, p, p2);
            frame_cv(toks, p, s, q);
            lemma_sub_window(toks, p, e, s, q, p2, e);
            assert(s[q + (p2 - 1 - p)] == toks[p2 - 1]);
            frame_function_loop(toks, p2, acc.push(v), s, q + (p2 - p));
        }
    }
}


proof fn frame_at_rule_loop(
    toks: Seq<TokenView>,
    p: int,
    prelude: Seq<ComponentValueView>,
    s: Seq<TokenView>,
    q: int,
)
    requires
        0 <= p <= toks.len(),
        same_window(toks, p, at_rule_loop(toks, p, prelude).1, s, q),
        opens_round_or_square(lookahead_at(toks, p, 0)) ==> current_at(s, q) == current_at(toks, p),
    ensures
        at_rule_loop(s, q, prelude) == (
            at_rule_loop(toks, p, prelude).0,
            q + (at_rule_loop(toks, p, prelude).1 - p),
        ),
    decreases toks.len() - p,
{
    lemma_at_rule_loop(toks, p, prelude);
    let e = at_rule_loop(toks, p, prelude).1;
    if p < toks.len() {
        assert(s[q + (p - p)] == toks[p]);
        let t = toks[p];
        if t is Semicolon || t is EOF {
        } else if t is LCurly {
            lemma_block_loop(toks, p + 1, TokenView::RCurly, Seq::empty());
            lemma_sub_window(toks, p, e, s, q, p + 1, e);
            frame_block_loop(toks, p + 1, TokenView::RCurly, Seq::empty(), s, q + 1);
        } else {
            lemma_cv(toks, p);
            let (v, p2) = cv_spec(toks, p);
            lemma_at_rule_loop(toks, p2, prelude.push(v));
            lemma_sub_window(toks, p, e, s, q, p, p2);
            frame_cv(toks, p, s, q);
            lemma_sub_window(toks, p, e, s, q, p2, e);
            assert(s[q + (p2 - 1 - p)] == toks[p2 - 1]);
            frame_at_rule_loop(toks, p2, prelude.push(v), s, q + (p2 - p));
        }
    }
}

proof fn frame_qualified_rule_loop(
    toks: Seq<TokenView>,
    p: int,
    prelude: Seq<ComponentValueView>,
    s: Seq<TokenView>,
    q: int,
)
    requires
        0 <= p <= toks.len(),
        same_window(toks, p, qualified_rule_loop(toks, p, prelude).1, s, q),
        opens_round_or_square(lookahead_at(toks, p, 0)) ==> current_at(s, q) == current_at(toks, p),
    ensures
        qualified_rule_loop(s, q, prelude) == (
            qualified_rule_loop(toks, p, prelude).0,
            q + (qualified_rule_loop(toks, p, prelude).1 - p),
        ),
    decreases toks.len() - p,
{
    lemma_qualified_rule_loop(toks, p, prelude);
    let e = qualified_rule_loop(toks, p, prelude).1;
    if p < toks.len() {
        assert(s[q + (p - p)] == toks[p]);
        let t = toks[p];
        if t is EOF {
        } else if t is LCurly {
            lemma_block_loop(toks, p + 1, TokenView::RCurly, Seq::empty());
            lemma_sub_window(toks, p, e, s, q, p + 1, e);
            frame_block_loop(toks, p + 1, TokenView::RCurly, Seq::empty(), s, q + 1);
        } else {
            lemma_cv(toks, p);
            let (v, p2) = cv_spec(toks, p);
            lemma_qualified_rule_loop(toks, p2, prelude.push(v));
            lemma_sub_window(toks, p, e, s, q, p, p2);
            frame_cv(toks, p, s, q);
            lemma_sub_window(toks, p, e, s, q, p2, e);
            assert(s[q + (p2 - 1 - p)] == toks[p2 - 1]);
            frame_qualified_rule_loop(toks, p2, prelude.push(v), s, q + (p2 - p));
        }
    }
}

proof fn lemma_rules_on_kept_tokens(
    toks: Seq<TokenView>,
    p: int,
    s: Seq<TokenView>,
    q: int,
    acc: Seq<RuleView>,
)
    requires
        0 <= p <= toks.len(),
        0 <= q <= s.len(),
        s.subrange(q, s.len() as int) == kept_tokens(toks, p),
        !skips_before_bracket(toks, p),
        opens_round_or_square(lookahead_at(toks, p, 0)) ==> current_at(s, q) == current_at(toks, p),
    ensures
        rules_loop(toks, p, true, acc).0 == rules_loop(s, q, false, acc).0,
    decreases toks.len() - p,
{
    let rest = s.subrange(q, s.len() as int);
    if p < toks.len() {
        let t = toks[p];
        if t is Whitespace {
            assert(kept_tokens(toks, p) =~= seq![t] + kept_tokens(toks, p + 1));
            assert(rest[0] == t);
            assert(s[q] == t);
            assert(s.subrange(q + 1, s.len() as int) =~= rest.subrange(1, rest.len() as int));
            assert(rest.subrange(1, rest.len() as int) =~= kept_tokens(toks, p + 1));
            lemma_rules_on_kept_tokens(toks, p + 1, s, q + 1, acc);
        } else if t is EOF {
            assert(kept_tokens(toks, p) == toks.subrange(p, toks.len() as int));
            assert(rest[0] == t);
            assert(s[q] == t);
        } else if t is CDC || t is CDO {
            lemma_rules_on_kept_tokens(toks, p + 1, s, q, acc);
        } else {
            let p2 = if t is AtKeyword {
                at_rule_spec(toks, p).1
            } else {
                qualified_rule_spec(toks, p).1
            };
            lemma_at_rule_loop(toks, p, Seq::empty());
            lemma_qualified_rule_loop(toks, p, Seq::empty());
            assert(p < p2 <= toks.len());
            let front = toks.subrange(p, p2);
            assert(rest =~= front + kept_tokens(toks, p2));
            assert forall|j: int| p <= j < p2 implies s[q + (j - p)] == #[trigger] toks[j] by {
                assert(rest[j - p] == front[j - p]);
            }
            if p2 == toks.len() {
                assert(kept_tokens(toks, p2).len() == 0);
            }
            assert(same_window(toks, p, p2, s, q));
            assert(s[q + (p - p)] == toks[p]);
            let q2 = q + (p2 - p);
            assert(s.subrange(q2, s.len() as int) =~= rest.subrange(p2 - p, rest.len() as int));
            assert(rest.subrange(p2 - p, rest.len() as int) =~= kept_tokens(toks, p2));
            assert(s[q + (p2 - 1 - p)] == toks[p2 - 1]);
            if t is AtKeyword {
                frame_at_rule_loop(toks, p, Seq::empty(), s, q);
                let a = at_rule_spec(toks, p).0;
                lemma_rules_on_kept_tokens(toks, p2, s, q2, acc.push(RuleView::AtRule(a)));
            } else {
                frame_qualified_rule_loop(toks, p, Seq::empty(), s, q);
                let r = qualified_rule_spec(toks, p).0;
                lemma_rules_on_kept_tokens(toks, p2, s, q2, push_qualified(acc, r));
            }
        }
    } else {
        assert(rest.len() == 0);
        assert(q == s.len());
    }
}

/// A stylesheet reads the rules that a plain list of rules reads from the same position once
/// the `<!--` and `-->` that the stylesheet skips at its top level are taken out of the stream,
/// as long as none of those is directly followed by `(` or `[` (such a block closes on the
/// token read before it, which the removal changes).
pub proof fn law_stylesheet_is_rule_list_without_cdo_cdc(toks: Seq<TokenView>, p: int)
    requires
        0 <= p <= toks.len(),
        !skips_before_bracket(toks, p),
    ensures
        rules_spec(toks, p, true).0 == rules_spec(
            toks.subrange(0, p) + kept_tokens(toks, p),
            p,
            false,
        ).0,
{
    let s = toks.subrange(0, p) + kept_tokens(toks, p);
    assert(s.subrange(p, s.len() as int) =~= kept_tokens(toks, p));
    if p > 0 {
        assert(s[p - 1] == toks[p - 1]);
    }
    lemma_rules_on_kept_tokens(toks, p, s, p, Seq::empty());
}


// ---------------------------------------------------------------------------------------------
// Reading to the end, and declarations

/// Reading a list of component values goes on to the end of the stream, or to EOF.
pub proof fn law_component_values_read_to_eof(toks: Seq<TokenView>, p: int, acc: Seq<ComponentValueView>)
    requires
        0 <= p <= toks.len(),
    ensures
        component_values_loop(toks, p, acc).1 == toks.len() || current_at(
            toks,
            component_values_loop(toks, p, acc).1,
        ) is EOF,
    decreases toks.len() - p,
{
    let t = lookahead_at(toks, p, 0);
    if !(t is EOF) {
        lemma_cv(toks, p + 1);
        let (v, p2) = cv_spec(toks, p + 1);
        law_component_values_read_to_eof(toks, p2, acc.push(v));
    }
}

/// A declaration read from the stream is named by its first token, and there is one exactly
/// when the first token after it that is not whitespace is a colon.
pub proof fn law_declaration_needs_colon(toks: Seq<TokenView>, p: int)
    ensures
        declaration_spec(toks, p).0 is Some <==> lookahead_at(
            toks,
            ws_spec(toks, advance(toks, p)),
            0,
        ) is Colon,
        declaration_spec(toks, p).0 matches Some(d) ==> d.name == token_text(lookahead_at(toks, p, 0)),
{
}

/// A declaration read from a list of component values is named by the identifier that starts
/// the list, and there is one exactly when the list starts with an identifier and the first
/// value after it that is not whitespace is a colon; its value is what follows that colon and
/// the whitespace after it, with a final `!` and `important` taken off and marking it
/// important, and the trailing whitespace taken off.
pub proof fn law_declaration_from_values(vals: Seq<ComponentValueView>)
    ensures
        declaration_from_values(vals) is Some <==> {
            &&& vals.len() > 0
            &&& vals[0] matches ComponentValueView::PreservedToken(TokenView::Ident(_))
            &&& skip_whitespace_values(vals, 1) < vals.len()
            &&& is_preserved(vals[skip_whitespace_values(vals, 1)], TokenView::Colon)
        },
        declaration_from_values(vals) matches Some(d) ==> {
            let i = skip_whitespace_values(vals, 1);
            let j = skip_whitespace_values(vals, i + 1);
            &&& vals[0] == ComponentValueView::PreservedToken(TokenView::Ident(d.name))
            &&& d == finish_declaration(d.name, vals.subrange(j, vals.len() as int))
            &&& forall|k: int| 1 <= k < i ==> is_preserved(#[trigger] vals[k], TokenView::Whitespace)
            &&& forall|k: int| i < k < j ==> is_preserved(#[trigger] vals[k], TokenView::Whitespace)
            &&& (j == vals.len() || !is_preserved(vals[j], TokenView::Whitespace))
        },
{
    if vals.len() > 0 {
        lemma_skip_whitespace_values(vals, 1);
        let i = skip_whitespace_values(vals, 1);
        if i < vals.len() {
            lemma_skip_whitespace_values(vals, i + 1);
        }
    }
}

proof fn lemma_ident_statement(toks: Seq<TokenView>, p: int)
    requires
        0 <= p < toks.len(),
    ensures
        p < ident_statement(toks, p).1 <= toks.len(),
{
    lemma_statement_loop(
        toks,
        p + 1,
        seq![ComponentValueView::PreservedToken(current_at(toks, p + 1))],
    );
}

proof fn lemma_style_loop_ends(
    toks: Seq<TokenView>,
    p: int,
    decls: Seq<DeclarationView>,
    rules: Seq<RuleView>,
)
    requires
        0 <= p <= toks.len(),
        forall|i: int| 0 <= i < rules.len() ==> rule_shape(#[trigger] rules[i]),
    ensures
        ({
            let (_, rules2, q) = style_loop(toks, p, decls, rules);
            &&& q == toks.len() || current_at(toks, q) is EOF
            &&& forall|i: int| 0 <= i < rules2.len() ==> rule_shape(#[trigger] rules2[i])
        }),
    decreases toks.len() - p,
{
    let t = lookahead_at(toks, p, 0);
    if t is Whitespace || t is Semicolon {
        lemma_style_loop_ends(toks, p + 1, decls, rules);
    } else if t is EOF {
    } else {
        lemma_at_rule_loop(toks, p, Seq::empty());
        lemma_at_rule_loop_shape(toks, p, Seq::empty());
        lemma_qualified_rule_loop(toks, p, Seq::empty());
        lemma_qualified_rule_loop_shape(toks, p, Seq::empty());
        lemma_ident_statement(toks, p);
        lemma_statement_loop(toks, p, Seq::empty());
        let (decls2, rules2, p2) = if t is AtKeyword {
            let (a, p2) = at_rule_spec(toks, p);
            (decls, rules.push(RuleView::AtRule(a)), p2)
        } else if t is Ident {
            let (d, p2) = ident_statement(toks, p);
            (push_declaration(decls, d), rules, p2)
        } else if t == TokenView::Delim('&') {
            let (q, p2) = qualified_rule_spec(toks, p);
            (decls, push_qualified(rules, q), p2)
        } else {
            (decls, rules, statement_loop(toks, p, Seq::empty()).1)
        };
        assert forall|i: int| 0 <= i < rules2.len() implies rule_shape(#[trigger] rules2[i]) by {
            if i < rules.len() {
                assert(rules2[i] == rules[i]);
            }
        }
        lemma_style_loop_ends(toks, p2, decls2, rules2);
    }
}

/// The content of a style block is read to the end of the stream or to EOF, and its rules are
/// at-rules and qualified rules of the shapes that `rule_shape` gives, never a norm rule.
pub proof fn law_style_block(toks: Seq<TokenView>, p: int)
    requires
        0 <= p <= toks.len(),
    ensures
        style_block_spec(toks, p).2 == toks.len() || current_at(toks, style_block_spec(toks, p).2) is EOF,
        forall|i: int|
            0 <= i < style_block_spec(toks, p).1.len() ==> rule_shape(
                #[trigger] style_block_spec(toks, p).1[i],
            ),
{
    lemma_style_loop_ends(toks, p, Seq::empty(), Seq::empty());
}

proof fn lemma_declarations_loop_ends(toks: Seq<TokenView>, p: int, acc: Seq<DeclarationOrAtRuleView>)
    requires
        0 <= p <= toks.len(),
        forall|i: int|
            0 <= i < acc.len() ==> (#[trigger] acc[i] matches DeclarationOrAtRuleView::AtRule(a)
                ==> at_rule_shape(a)),
    ensures
        ({
            let (acc2, q) = declarations_loop(toks, p, acc);
            &&& q == toks.len() || current_at(toks, q) is EOF
            &&& forall|i: int|
                0 <= i < acc2.len() ==> (#[trigger] acc2[i] matches DeclarationOrAtRuleView::AtRule(
                    a,
                ) ==> at_rule_shape(a))
        }),
    decreases toks.len() - p,
{
    let t = lookahead_at(toks, p, 0);
    if t is Whitespace || t is Semicolon {
        lemma_declarations_loop_ends(toks, p + 1, acc);
    } else if t is EOF {
    } else {
        lemma_at_rule_loop(toks, p, Seq::empty());
        lemma_at_rule_loop_shape(toks, p, Seq::empty());
        lemma_ident_statement(toks, p);
        lemma_statement_loop(toks, p, Seq::empty());
        let (acc2, p2) = if t is AtKeyword {
            let (a, p2) = at_rule_spec(toks, p);
            (acc.push(DeclarationOrAtRuleView::AtRule(a)), p2)
        } else if t is Ident {
            let (d, p2) = ident_statement(toks, p);
            (push_mixed_declaration(acc, d), p2)
        } else {
            (acc, statement_loop(toks, p, Seq::empty()).1)
        };
        assert forall|i: int|
            0 <= i < acc2.len() implies (#[trigger] acc2[i] matches DeclarationOrAtRuleView::AtRule(
            a,
        ) ==> at_rule_shape(a)) by {
            if i < acc.len() {
                assert(acc2[i] == acc[i]);
            }
        }
        lemma_declarations_loop_ends(toks, p2, acc2);
    }
}

/// A list of declarations is read to the end of the stream or to EOF, and the at-rules in it
/// have the shape that `at_rule_shape` gives.
pub proof fn law_list_of_declarations(toks: Seq<TokenView>, p: int)
    requires
        0 <= p <= toks.len(),
    ensures
        declarations_spec(toks, p).1 == toks.len() || current_at(toks, declarations_spec(toks, p).1) is EOF,
        forall|i: int|
            0 <= i < declarations_spec(toks, p).0.len() ==> (#[trigger] declarations_spec(
                toks,
                p,
            ).0[i] matches DeclarationOrAtRuleView::AtRule(a) ==> at_rule_shape(a)),
{
    lemma_declarations_loop_ends(toks, p, Seq::empty());
}


// ---------------------------------------------------------------------------------------------
// What each reading step takes from the stream

/// A value that is still a raw token that opens something: a function token, or `{`, `[` or
/// `(`. Reading component values turns each of those into a function or a block.
pub open spec fn is_raw_opener(v: ComponentValueView) -> bool {
    match v {
        ComponentValueView::PreservedToken(t) => t is Function || is_block_opener(t),
        _ => false,
    }
}

/// No value in `vals` is a raw opening token.
pub open spec fn no_raw_openers(vals: Seq<ComponentValueView>) -> bool {
    forall|i: int| 0 <= i < vals.len() ==> !is_raw_opener(#[trigger] vals[i])
}

/// A component value read where a token stands: a function token gives a function named by
/// it, holding what the function reads after it; `{`, `[` or `(` give a block holding that
/// token and what the block reads after it; any other token stands for itself, and only that
/// token is read. So no value read where a token stands is a raw opening token.
pub proof fn law_component_value(toks: Seq<TokenView>, p: int)
    requires
        0 <= p < toks.len(),
    ensures
        toks[p] is Function ==> cv_spec(toks, p) == (
            ComponentValueView::Function(function_spec(toks, p + 1).0),
            function_spec(toks, p + 1).1,
        ),
        toks[p] is Function ==> function_spec(toks, p + 1).0.name == token_text(toks[p]),
        is_block_opener(toks[p]) ==> cv_spec(toks, p) == (
            ComponentValueView::SimpleBlock(block_spec(toks, p + 1, current_at(toks, p)).0),
            block_spec(toks, p + 1, current_at(toks, p)).1,
        ),
        is_block_opener(toks[p]) ==> block_spec(toks, p + 1, current_at(toks, p)).0.associated_token
            == toks[p],
        !(toks[p] is Function) && !is_block_opener(toks[p]) ==> cv_spec(toks, p) == (
            ComponentValueView::PreservedToken(toks[p]),
            p + 1,
        ),
        !is_raw_opener(cv_spec(toks, p).0),
        p < cv_spec(toks, p).1 <= toks.len(),
{
    lemma_cv(toks, p);
}

proof fn lemma_push_no_raw(vals: Seq<ComponentValueView>, v: ComponentValueView)
    requires
        no_raw_openers(vals),
        !is_raw_opener(v),
    ensures
        no_raw_openers(vals.push(v)),
{
    assert forall|i: int| 0 <= i < vals.push(v).len() implies !is_raw_opener(
        #[trigger] vals.push(v)[i],
    ) by {
        if i < vals.len() {
            assert(vals.push(v)[i] == vals[i]);
        }
    }
}

/// Inside a block, each value is the component value read where the next token stands, and
/// reading goes on right after it; the block's closing token or EOF ends it, and is read.
pub proof fn law_block_reads_component_values(
    toks: Seq<TokenView>,
    p: int,
    closing: TokenView,
    acc: Seq<ComponentValueView>,
)
    requires
        0 <= p < toks.len(),
    ensures
        (toks[p] is EOF || toks[p] == closing) ==> block_loop(toks, p, closing, acc) == (acc, p + 1),
        !(toks[p] is EOF || toks[p] == closing) ==> block_loop(toks, p, closing, acc) == block_loop(
            toks,
            cv_spec(toks, p).1,
            closing,
            acc.push(cv_spec(toks, p).0),
        ),
{
    lemma_cv(toks, p);
}

/// Inside a function, each value is the component value read where the next token stands, and
/// reading goes on right after it; `)` or EOF ends it, and is read. A nested function is read
/// whole, so the function ends at its own `)`.
pub proof fn law_function_reads_component_values(
    toks: Seq<TokenView>,
    p: int,
    acc: Seq<ComponentValueView>,
)
    requires
        0 <= p < toks.len(),
    ensures
        (toks[p] is EOF || toks[p] is RParen) ==> function_loop(toks, p, acc) == (acc, p + 1),
        !(toks[p] is EOF || toks[p] is RParen) ==> function_loop(toks, p, acc) == function_loop(
            toks,
            cv_spec(toks, p).1,
            acc.push(cv_spec(toks, p).0),
        ),
{
    lemma_cv(toks, p);
}

proof fn lemma_block_loop_no_raw(
    toks: Seq<TokenView>,
    p: int,
    closing: TokenView,
    acc: Seq<ComponentValueView>,
)
    requires
        0 <= p <= toks.len(),
        no_raw_openers(acc),
    ensures
        no_raw_openers(block_loop(toks, p, closing, acc).0),
    decreases toks.len() - p,
{
    let t = lookahead_at(toks, p, 0);
    if t is EOF {
    } else if current_at(toks, advance(toks, p)) == closing {
    } else {
        law_component_value(toks, p);
        let (v, p2) = cv_spec(toks, p);
        lemma_push_no_raw(acc, v);
        lemma_block_loop_no_raw(toks, p2, closing, acc.push(v));
    }
}

proof fn lemma_function_loop_no_raw(toks: Seq<TokenView>, p: int, acc: Seq<ComponentValueView>)
    requires
        0 <= p <= toks.len(),
        no_raw_openers(acc),
    ensures
        no_raw_openers(function_loop(toks, p, acc).0),
    decreases toks.len() - p,
{
    let t = lookahead_at(toks, p, 0);
    if t is RParen || t is EOF {
    } else {
        law_component_value(toks, p);
        let (v, p2) = cv_spec(toks, p);
        lemma_push_no_raw(acc, v);
        lemma_function_loop_no_raw(toks, p2, acc.push(v));
    }
}

/// The values of a block and of a function are component values: none of them is a raw
/// function token or a raw `{`, `[` or `(`.
pub proof fn law_nested_values_are_read_whole(toks: Seq<TokenView>, p: int, closing: TokenView)
    requires
        0 <= p <= toks.len(),
    ensures
        no_raw_openers(block_spec(toks, p, closing).0.values),
        no_raw_openers(function_spec(toks, p).0.values),
{
    lemma_block_loop_no_raw(toks, p, closing, Seq::empty());
    lemma_function_loop_no_raw(toks, p, Seq::empty());
}

/// An at-rule's prelude takes the component values read where its tokens stand; `;` or EOF
/// ends it without a block, and `{` opens its block, which closes on `}`.
pub proof fn law_at_rule_steps(toks: Seq<TokenView>, p: int, prelude: Seq<ComponentValueView>)
    requires
        0 <= p < toks.len(),
    ensures
        (toks[p] is Semicolon || toks[p] is EOF) ==> at_rule_loop(toks, p, prelude) == (
            AtRuleView { name: Seq::empty(), prelude, block: None },
            p + 1,
        ),
        toks[p] is LCurly ==> at_rule_loop(toks, p, prelude) == (
            AtRuleView {
                name: Seq::empty(),
                prelude,
                block: Some(block_spec(toks, p + 1, TokenView::RCurly).0),
            },
            block_spec(toks, p + 1, TokenView::RCurly).1,
        ),
        !(toks[p] is Semicolon || toks[p] is EOF || toks[p] is LCurly) ==> at_rule_loop(
            toks,
            p,
            prelude,
        ) == at_rule_loop(toks, cv_spec(toks, p).1, prelude.push(cv_spec(toks, p).0)),
{
    lemma_cv(toks, p);
}

proof fn lemma_at_rule_loop_block(toks: Seq<TokenView>, p: int, prelude: Seq<ComponentValueView>)
    requires
        0 <= p <= toks.len(),
        no_raw_openers(prelude),
    ensures
        ({
            let (a, q) = at_rule_loop(toks, p, prelude);
            &&& a.block matches Some(b) ==> {
                &&& b.associated_token == TokenView::LCurly
                &&& stops_after(toks, q, TokenView::RCurly)
                &&& holds_neither(b.values, TokenView::RCurly, TokenView::EOF)
                &&& no_raw_openers(b.values)
            }
            &&& no_raw_openers(a.prelude)
        }),
    decreases toks.len() - p,
{
    let t = lookahead_at(toks, p, 0);
    let p1 = advance(toks, p);
    if t is Semicolon || t is EOF {
    } else if t is LCurly {
        lemma_block_loop_stops(toks, p1, TokenView::RCurly, Seq::empty());
        lemma_block_loop_no_raw(toks, p1, TokenView::RCurly, Seq::empty());
    } else {
        law_component_value(toks, p);
        let (v, p2) = cv_spec(toks, p);
        lemma_push_no_raw(prelude, v);
        lemma_at_rule_loop_block(toks, p2, prelude.push(v));
    }
}

/// An at-rule with a block ends right after the first `}` at the block's own level, or at EOF
/// or the end of the stream; that block was opened by `{` and holds no `}` or EOF of its own
/// level. The prelude and the block's values are component values, with no raw opening token.
pub proof fn law_at_rule_block(toks: Seq<TokenView>, p: int)
    requires
        0 <= p <= toks.len(),
    ensures
        at_rule_spec(toks, p).0.block matches Some(b) ==> {
            &&& b.associated_token == TokenView::LCurly
            &&& stops_after(toks, at_rule_spec(toks, p).1, TokenView::RCurly)
            &&& holds_neither(b.values, TokenView::RCurly, TokenView::EOF)
            &&& no_raw_openers(b.values)
        },
        no_raw_openers(at_rule_spec(toks, p).0.prelude),
{
    lemma_at_rule_loop_block(toks, p, Seq::empty());
}

/// A qualified rule's prelude takes the component values read where its tokens stand, until
/// `{` opens its block, which closes on `}`; EOF first leaves no rule.
pub proof fn law_qualified_rule_steps(toks: Seq<TokenView>, p: int, prelude: Seq<ComponentValueView>)
    requires
        0 <= p < toks.len(),
    ensures
        toks[p] is EOF ==> qualified_rule_loop(toks, p, prelude) == (None::<QualifiedRuleView>, p + 1),
        toks[p] is LCurly ==> qualified_rule_loop(toks, p, prelude) == (
            Some(QualifiedRuleView { prelude, block: Some(block_spec(toks, p + 1, TokenView::RCurly).0) }),
            block_spec(toks, p + 1, TokenView::RCurly).1,
        ),
        !(toks[p] is EOF || toks[p] is LCurly) ==> qualified_rule_loop(toks, p, prelude)
            == qualified_rule_loop(toks, cv_spec(toks, p).1, prelude.push(cv_spec(toks, p).0)),
{
    lemma_cv(toks, p);
}

/// In a list of rules, whitespace between rules is skipped, and so are `<!--` and `-->` at the
/// top level; an at-keyword starts an at-rule that goes into the list whatever its block; any
/// other token starts a qualified rule, which goes in when there is one.
pub proof fn law_rule_list_steps(toks: Seq<TokenView>, p: int, top_level: bool, acc: Seq<RuleView>)
    requires
        0 <= p < toks.len(),
    ensures
        toks[p] is Whitespace ==> rules_loop(toks, p, top_level, acc) == rules_loop(
            toks,
            p + 1,
            top_level,
            acc,
        ),
        (toks[p] is CDO || toks[p] is CDC) && top_level ==> rules_loop(toks, p, top_level, acc)
            == rules_loop(toks, p + 1, top_level, acc),
        toks[p] is AtKeyword ==> rules_loop(toks, p, top_level, acc) == rules_loop(
            toks,
            at_rule_spec(toks, p).1,
            top_level,
            acc.push(RuleView::AtRule(at_rule_spec(toks, p).0)),
        ),
        !(toks[p] is Whitespace || toks[p] is EOF || toks[p] is AtKeyword || ((toks[p] is CDO
            || toks[p] is CDC) && top_level)) ==> rules_loop(toks, p, top_level, acc) == rules_loop(
            toks,
            qualified_rule_spec(toks, p).1,
            top_level,
            match qualified_rule_spec(toks, p).0 {
                Some(q) => acc.push(RuleView::QualifiedRule(q)),
                None => acc,
            },
        ),
        rules_loop(toks, p, top_level, acc).0.len() >= acc.len(),
{
    lemma_at_rule_loop(toks, p, Seq::empty());
    lemma_qualified_rule_loop(toks, p, Seq::empty());
    lemma_rules_loop_shape_len(toks, p, top_level, acc);
}

proof fn lemma_rules_loop_shape_len(toks: Seq<TokenView>, p: int, top_level: bool, acc: Seq<RuleView>)
    requires
        0 <= p <= toks.len(),
    ensures
        rules_loop(toks, p, top_level, acc).0.len() >= acc.len(),
        rules_loop(toks, p, top_level, acc).0.subrange(0, acc.len() as int) == acc,
    decreases toks.len() - p,
{
    let t = lookahead_at(toks, p, 0);
    let p1 = advance(toks, p);
    if t is Whitespace {
        lemma_rules_loop_shape_len(toks, p1, top_level, acc);
    } else if t is EOF {
        assert(acc.subrange(0, acc.len() as int) =~= acc);
    } else if (t is CDC || t is CDO) && top_level {
        lemma_rules_loop_shape_len(toks, p1, top_level, acc);
    } else {
        lemma_at_rule_loop(toks, p, Seq::empty());
        lemma_qualified_rule_loop(toks, p, Seq::empty());
        let acc2 = if t is AtKeyword {
            acc.push(RuleView::AtRule(at_rule_spec(toks, p).0))
        } else {
            push_qualified(acc, qualified_rule_spec(toks, p).0)
        };
        let p2 = if t is AtKeyword {
            at_rule_spec(toks, p).1
        } else {
            qualified_rule_spec(toks, p).1
        };
        lemma_rules_loop_shape_len(toks, p2, top_level, acc2);
        let rules = rules_loop(toks, p2, top_level, acc2).0;
        assert(rules.subrange(0, acc.len() as int) =~= rules.subrange(0, acc2.len() as int).subrange(
            0,
            acc.len() as int,
        ));
        assert(acc2.subrange(0, acc.len() as int) =~= acc);
    }
}

/// Every at-rule that a list of rules reads at its top level is in the list: an at-keyword at
/// `p` puts the at-rule read there, with or without a block, right after the rules gathered
/// so far.
pub proof fn law_rule_list_keeps_at_rules(toks: Seq<TokenView>, p: int, top_level: bool)
    requires
        0 <= p < toks.len(),
        toks[p] is AtKeyword,
    ensures
        rules_spec(toks, p, top_level).0.len() >= 1,
        rules_spec(toks, p, top_level).0[0] == RuleView::AtRule(at_rule_spec(toks, p).0),
{
    law_rule_list_steps(toks, p, top_level, Seq::empty());
    lemma_at_rule_loop(toks, p, Seq::empty());
    let a = RuleView::AtRule(at_rule_spec(toks, p).0);
    lemma_rules_loop_shape_len(toks, at_rule_spec(toks, p).1, top_level, seq![a]);
    let rules = rules_spec(toks, p, top_level).0;
    assert(rules.subrange(0, 1)[0] == rules[0]);
}

/// In a style block, whitespace and `;` between statements are skipped; an at-keyword starts
/// an at-rule that goes into the rules whatever its block; an identifier starts a statement
/// whose declaration, if it has one, goes into the declarations; `&` starts a nested
/// qualified rule; any other token starts a statement that is dropped.
pub proof fn law_style_block_steps(
    toks: Seq<TokenView>,
    p: int,
    decls: Seq<DeclarationView>,
    rules: Seq<RuleView>,
)
    requires
        0 <= p < toks.len(),
    ensures
        (toks[p] is Whitespace || toks[p] is Semicolon) ==> style_loop(toks, p, decls, rules)
            == style_loop(toks, p + 1, decls, rules),
        toks[p] is AtKeyword ==> style_loop(toks, p, decls, rules) == style_loop(
            toks,
            at_rule_spec(toks, p).1,
            decls,
            rules.push(RuleView::AtRule(at_rule_spec(toks, p).0)),
        ),
        toks[p] is Ident ==> style_loop(toks, p, decls, rules) == style_loop(
            toks,
            ident_statement(toks, p).1,
            match ident_statement(toks, p).0 {
                Some(d) => decls.push(d),
                None => decls,
            },
            rules,
        ),
        toks[p] == TokenView::Delim('&') ==> style_loop(toks, p, decls, rules) == style_loop(
            toks,
            qualified_rule_spec(toks, p).1,
            decls,
            match qualified_rule_spec(toks, p).0 {
                Some(q) => rules.push(RuleView::QualifiedRule(q)),
                None => rules,
            },
        ),
        !(toks[p] is Whitespace || toks[p] is Semicolon || toks[p] is EOF || toks[p] is AtKeyword
            || toks[p] is Ident || toks[p] == TokenView::Delim('&')) ==> style_loop(
            toks,
            p,
            decls,
            rules,
        ) == style_loop(toks, statement_loop(toks, p, Seq::empty()).1, decls, rules),
{
    lemma_at_rule_loop(toks, p, Seq::empty());
    lemma_qualified_rule_loop(toks, p, Seq::empty());
    lemma_ident_statement(toks, p);
    lemma_statement_loop(toks, p, Seq::empty());
}

/// In a list of declarations, whitespace and `;` between statements are skipped; an
/// at-keyword starts an at-rule that goes into the list whatever its block; an identifier
/// starts a statement whose declaration, if it has one, goes into the list; any other token
/// starts a statement that is dropped.
pub proof fn law_list_of_declarations_steps(
    toks: Seq<TokenView>,
    p: int,
    acc: Seq<DeclarationOrAtRuleView>,
)
    requires
        0 <= p < toks.len(),
    ensures
        (toks[p] is Whitespace || toks[p] is Semicolon) ==> declarations_loop(toks, p, acc)
            == declarations_loop(toks, p + 1, acc),
        toks[p] is AtKeyword ==> declarations_loop(toks, p, acc) == declarations_loop(
            toks,
            at_rule_spec(toks, p).1,
            acc.push(DeclarationOrAtRuleView::AtRule(at_rule_spec(toks, p).0)),
        ),
        toks[p] is Ident ==> declarations_loop(toks, p, acc) == declarations_loop(
            toks,
            ident_statement(toks, p).1,
            match ident_statement(toks, p).0 {
                Some(d) => acc.push(DeclarationOrAtRuleView::Declaration(d)),
                None => acc,
            },
        ),
        !(toks[p] is Whitespace || toks[p] is Semicolon || toks[p] is EOF || toks[p] is AtKeyword
            || toks[p] is Ident) ==> declarations_loop(toks, p, acc) == declarations_loop(
            toks,
            statement_loop(toks, p, Seq::empty()).1,
            acc,
        ),
{
    lemma_at_rule_loop(toks, p, Seq::empty());
    lemma_ident_statement(toks, p);
    lemma_statement_loop(toks, p, Seq::empty());
}

/// A statement gathers the component values read where its tokens stand, one after another,
/// and stops, reading nothing more, where the next token is `;` or EOF.
pub proof fn law_statement_reads_component_values(
    toks: Seq<TokenView>,
    p: int,
    acc: Seq<ComponentValueView>,
)
    requires
        0 <= p <= toks.len(),
    ensures
        lookahead_at(toks, p, 0) is Semicolon || lookahead_at(toks, p, 0) is EOF ==> statement_loop(
            toks,
            p,
            acc,
        ) == (acc, p),
        !(lookahead_at(toks, p, 0) is Semicolon || lookahead_at(toks, p, 0) is EOF) ==> statement_loop(
            toks,
            p,
            acc,
        ) == statement_loop(toks, cv_spec(toks, p).1, acc.push(cv_spec(toks, p).0)),
{
    lemma_cv(toks, p);
}

/// After each token that a declaration's value loop reads (one that is not EOF), the value
/// that follows is the component value read where the next token stands: a function token
/// there gives a function holding its arguments up to its own `)`.
pub proof fn law_declaration_values_are_component_values(
    toks: Seq<TokenView>,
    p: int,
    acc: Seq<ComponentValueView>,
)
    requires
        0 <= p < toks.len(),
        !(toks[p] is EOF),
    ensures
        declaration_values_loop(toks, p, acc) == declaration_values_loop(
            toks,
            cv_spec(toks, p + 1).1,
            acc.push(cv_spec(toks, p + 1).0),
        ),
        p + 1 < toks.len() ==> !is_raw_opener(cv_spec(toks, p + 1).0),
{
    lemma_cv(toks, p + 1);
    if p + 1 < toks.len() {
        law_component_value(toks, p + 1);
    }
}


/// A list of component values reads one token, then the component value read where the next
/// token stands, and goes on right after it, until EOF.
pub proof fn law_component_values_steps(toks: Seq<TokenView>, p: int, acc: Seq<ComponentValueView>)
    requires
        0 <= p < toks.len(),
        !(toks[p] is EOF),
    ensures
        component_values_loop(toks, p, acc) == component_values_loop(
            toks,
            cv_spec(toks, p + 1).1,
            acc.push(cv_spec(toks, p + 1).0),
        ),
{
    lemma_cv(toks, p + 1);
}

/// A comma-separated list skips a comma and the token after it; after any other token it
/// reads the component value where the next token stands, and goes on right after it.
pub proof fn law_comma_separated_steps(toks: Seq<TokenView>, p: int, acc: Seq<ComponentValueView>)
    requires
        0 <= p < toks.len(),
        !(toks[p] is EOF),
    ensures
        toks[p] is Comma ==> comma_separated_loop(toks, p, acc) == comma_separated_loop(
            toks,
            advance(toks, p + 1),
            acc,
        ),
        !(toks[p] is Comma) ==> comma_separated_loop(toks, p, acc) == comma_separated_loop(
            toks,
            cv_spec(toks, p + 1).1,
            acc.push(cv_spec(toks, p + 1).0),
        ),
{
    lemma_cv(toks, p + 1);
}

/// The statement that an identifier starts holds that identifier first, then the component
/// values of the statement, and gives the declaration read from those values.
pub proof fn law_ident_statement(toks: Seq<TokenView>, p: int)
    requires
        0 <= p < toks.len(),
    ensures
        ident_statement(toks, p) == ({
            let (vals, q) = statement_loop(
                toks,
                p + 1,
                seq![ComponentValueView::PreservedToken(toks[p])],
            );
            (declaration_from_values(vals), q)
        }),
        p < ident_statement(toks, p).1 <= toks.len(),
{
    lemma_ident_statement(toks, p);
}

/// Parsing one component value: after the leading whitespace, EOF is the unexpected-EOF error;
/// otherwise the value is the component value read there, which is returned exactly when only
/// whitespace and then EOF follow it, and any other follower is a syntax error.
pub proof fn law_parse_component_value(toks: Seq<TokenView>, p: int)
    requires
        0 <= p <= toks.len(),
    ensures
        ({
            let q = ws_spec(toks, p);
            let r = parse_component_value_spec(toks, p).0;
            &&& (r == Err::<ComponentValueView, ErrorView>(ErrorView::UnexpectedEof)) <==> lookahead_at(
                toks,
                q,
                0,
            ) is EOF
            &&& !(lookahead_at(toks, q, 0) is EOF) ==> {
                &&& (r is Ok <==> lookahead_at(toks, ws_spec(toks, cv_spec(toks, q).1), 0) is EOF)
                &&& (r is Ok ==> r == Ok::<ComponentValueView, ErrorView>(cv_spec(toks, q).0)
                    && !is_raw_opener(cv_spec(toks, q).0))
                &&& (r is Err ==> r == Err::<ComponentValueView, ErrorView>(
                    ErrorView::Syntax("syntax error"@),
                ))
            }
        }),
{
    lemma_ws(toks, p);
    let q = ws_spec(toks, p);
    if q < toks.len() {
        law_component_value(toks, q);
    }
}

/// Parsing one rule: after the leading whitespace, EOF is the unexpected-EOF error; an
/// at-keyword gives the at-rule read there; any other token gives the qualified rule read
/// there, or a syntax error where there is none. A rule is returned exactly when only
/// whitespace and then EOF follow it.
pub proof fn law_parse_rule(toks: Seq<TokenView>, p: int)
    requires
        0 <= p <= toks.len(),
    ensures
        ({
            let q = ws_spec(toks, p);
            let t = lookahead_at(toks, q, 0);
            let r = parse_rule_spec(toks, p).0;
            &&& t is EOF ==> r == Err::<RuleView, ErrorView>(ErrorView::Syntax("unexpected eof"@))
            &&& t is AtKeyword ==> {
                let (a, q2) = at_rule_spec(toks, q);
                &&& (r is Ok <==> lookahead_at(toks, ws_spec(toks, q2), 0) is EOF)
                &&& r is Ok ==> r == Ok::<RuleView, ErrorView>(RuleView::AtRule(a))
            }
            &&& !(t is EOF || t is AtKeyword) ==> {
                let (qr, q2) = qualified_rule_spec(toks, q);
                &&& (r is Ok <==> (qr is Some && lookahead_at(toks, ws_spec(toks, q2), 0) is EOF))
                &&& r is Ok ==> r == Ok::<RuleView, ErrorView>(RuleView::QualifiedRule(qr.unwrap()))
            }
            &&& !(t is EOF) && r is Err ==> r == Err::<RuleView, ErrorView>(
                ErrorView::Syntax("syntax error"@),
            )
        }),
{
}

} // verus!
