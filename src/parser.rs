//! Recursive-descent parser with precedence climbing, proved to build
//! exactly the tree that the grammar in `grammar` describes.
use vstd::prelude::*;
use crate::ast::{lemma_nodes_view_push, nodes_view, Node, NodeModel};
use crate::grammar::{
    arguments, block, block_rest, case_arm, cases, cases_rest, class_declaration, condition,
    count_dots, cur, eat, expr_list, expr_list_rest, expression, factor_suffix, float_literal_ok,
    for_loop, function_declaration, id_list_rest, id_statement, if_statement, is_keyword_token,
    keyword_literal, kind_at, variable_declaration, level_expr, level_rest, match_statement,
    output_params, parameters, parent_classes, parent_initialisation, parse_spec, primary,
    program_rest, property_chain, return_statement, statement, use_statement, while_loop,
    binop_at, ParseError, Parsed, ParsedList,
};
use crate::lexer::{text_is, tokens_view, Token, TokenKind, TokenModel};
use crate::ops::{BinOp, UnOp};
use crate::text::parse_int_literal;
use crate::value::copy_text;

verus! {

pub open spec fn node_result(r: Result<(Node, usize), ParseError>) -> Parsed {
    match r {
        Ok((n, p)) => Ok((n@, p as int)),
        Err(e) => Err(e),
    }
}

pub open spec fn list_result(r: Result<(Vec<Node>, usize), ParseError>) -> ParsedList {
    match r {
        Ok((v, p)) => Ok((nodes_view(v@), p as int)),
        Err(e) => Err(e),
    }
}

pub open spec fn pos_result(r: Result<usize, ParseError>) -> Result<int, ParseError> {
    match r {
        Ok(p) => Ok(p as int),
        Err(e) => Err(e),
    }
}

/// On success the position moved forward and stayed within the tokens.
pub open spec fn advanced<T>(r: Result<(T, usize), ParseError>, pos: usize, len: nat) -> bool {
    match r {
        Ok((_, p)) => pos < p <= len,
        Err(_) => true,
    }
}

/// On success the position did not move back and stayed within the tokens.
pub open spec fn kept<T>(r: Result<(T, usize), ParseError>, pos: usize, len: nat) -> bool {
    match r {
        Ok((_, p)) => pos <= p <= len,
        Err(_) => true,
    }
}

/// A parser over a token sequence; it reads the tokens and never changes them.
pub struct Parser {
    pub tokens: Vec<Token>,
}

impl Parser {
    pub open spec fn toks(&self) -> Seq<TokenModel> {
        tokens_view(self.tokens@)
    }

    pub fn new(tokens: Vec<Token>) -> (p: Parser)
        ensures
            p.tokens@ == tokens@,
    {
        Parser { tokens }
    }

    fn kind_at(&self, pos: usize) -> (k: TokenKind)
        ensures
            k == kind_at(self.toks(), pos as int),
    {
        if pos < self.tokens.len() {
            self.tokens[pos].kind
        } else {
            TokenKind::Eof
        }
    }

    fn text_at(&self, pos: usize) -> (t: Vec<char>)
        requires
            pos < self.tokens.len(),
        ensures
            t@ == self.toks()[pos as int].text,
    {
        copy_text(&self.tokens[pos].text)
    }

    /// Whether the token at `pos` is the keyword `w`.
    fn keyword_is(&self, pos: usize, w: &[char]) -> (r: bool)
        ensures
            r == is_keyword_token(cur(self.toks(), pos as int), w@),
    {
        if pos < self.tokens.len() {
            self.tokens[pos].kind == TokenKind::Keyword && text_is(&self.tokens[pos].text, w)
        } else {
            false
        }
    }

    /// The position after the token at `pos`.
    pub fn advance(&self, pos: usize) -> (r: usize)
        requires
            pos < self.tokens.len(),
        ensures
            r == pos + 1,
    {
        pos + 1
    }

    fn eat(&self, pos: usize, k: TokenKind) -> (r: Result<usize, ParseError>)
        ensures
            pos_result(r) == eat(self.toks(), pos as int, k),
    {
        if pos < self.tokens.len() && self.tokens[pos].kind == k {
            Ok(self.advance(pos))
        } else {
            Err(ParseError::Expected { expected: k, position: pos })
        }
    }

    fn id_statement(&self, pos: usize) -> (r: Result<(Node, usize), ParseError>)
        requires
            pos <= self.tokens.len(),
        ensures
            node_result(r) == id_statement(self.toks(), pos as int),
            advanced(r, pos, self.tokens.len() as nat),
        decreases self.tokens.len() - pos, 1nat,
    {
        let p = match self.eat(pos, TokenKind::Identifier) {
            Ok(p) => p,
            Err(e) => return Err(e),
        };
        let name = self.text_at(pos);
        self.property_chain(p, Node::Id(name))
    }

    fn property_chain(&self, pos: usize, acc: Node) -> (r: Result<(Node, usize), ParseError>)
        requires
            pos <= self.tokens.len(),
        ensures
            node_result(r) == property_chain(self.toks(), pos as int, acc@),
            kept(r, pos, self.tokens.len() as nat),
        decreases self.tokens.len() - pos, 1nat,
    {
        if self.kind_at(pos) == TokenKind::Dot {
            let p = match self.eat(pos + 1, TokenKind::Identifier) {
                Ok(p) => p,
                Err(e) => return Err(e),
            };
            let name = self.text_at(pos + 1);
            let prop = Node::Id(name);
            assert(prop@ == NodeModel::Id(name@));
            let n = Node::Property { object: Box::new(acc), property: Box::new(prop) };
            self.property_chain(p, n)
        } else {
            Ok((acc, pos))
        }
    }

    fn id_list_rest(&self, pos: usize, acc: Vec<Node>) -> (r: Result<(Vec<Node>, usize), ParseError>)
        requires
            pos <= self.tokens.len(),
        ensures
            list_result(r) == id_list_rest(self.toks(), pos as int, nodes_view(acc@)),
            kept(r, pos, self.tokens.len() as nat),
        decreases self.tokens.len() - pos, 2nat,
    {
        if self.kind_at(pos) == TokenKind::Comma && pos < self.tokens.len() {
            match self.id_statement(pos + 1) {
                Err(e) => Err(e),
                Ok((n, p)) => {
                    let mut acc = acc;
                    proof {
                        lemma_nodes_view_push(acc@, n);
                    }
                    acc.push(n);
                    self.id_list_rest(p, acc)
                },
            }
        } else {
            Ok((acc, pos))
        }
    }

    fn expr_list_rest(&self, pos: usize, acc: Vec<Node>) -> (r: Result<(Vec<Node>, usize), ParseError>)
        requires
            pos <= self.tokens.len(),
        ensures
            list_result(r) == expr_list_rest(self.toks(), pos as int, nodes_view(acc@)),
            kept(r, pos, self.tokens.len() as nat),
        decreases self.tokens.len() - pos, 9nat,
    {
        if self.kind_at(pos) == TokenKind::Comma && pos < self.tokens.len() {
            match self.expression(pos + 1) {
                Err(e) => Err(e),
                Ok((n, p)) => {
                    let mut acc = acc;
                    proof {
                        lemma_nodes_view_push(acc@, n);
                    }
                    acc.push(n);
                    self.expr_list_rest(p, acc)
                },
            }
        } else {
            Ok((acc, pos))
        }
    }

    fn expr_list(&self, pos: usize) -> (r: Result<(Vec<Node>, usize), ParseError>)
        requires
            pos <= self.tokens.len(),
        ensures
            list_result(r) == expr_list(self.toks(), pos as int),
            advanced(r, pos, self.tokens.len() as nat),
        decreases self.tokens.len() - pos, 10nat,
    {
        match self.expression(pos) {
            Err(e) => Err(e),
            Ok((n, p)) => {
                let mut acc: Vec<Node> = Vec::new();
                proof {
                    lemma_nodes_view_push(acc@, n);
                    assert(nodes_view(acc@) =~= Seq::<NodeModel>::empty());
                    assert(nodes_view(acc@).push(n@) =~= seq![n@]);
                }
                acc.push(n);
                self.expr_list_rest(p, acc)
            },
        }
    }

    fn arguments(&self, pos: usize) -> (r: Result<(Vec<Node>, usize), ParseError>)
        requires
            pos <= self.tokens.len(),
        ensures
            list_result(r) == arguments(self.toks(), pos as int),
            kept(r, pos, self.tokens.len() as nat),
        decreases self.tokens.len() - pos, 11nat,
    {
        if self.kind_at(pos) == TokenKind::RParen {
            let v: Vec<Node> = Vec::new();
            assert(nodes_view(v@) =~= Seq::<NodeModel>::empty());
            Ok((v, pos))
        } else {
            self.expr_list(pos)
        }
    }

    fn binop_at(lvl: u8, k: TokenKind) -> (r: Option<BinOp>)
        ensures
            r == binop_at(lvl as nat, k),
    {
        if lvl == 1 {
            match k {
                TokenKind::Asterisk => Some(BinOp::Mul),
                TokenKind::Division => Some(BinOp::Div),
                _ => None,
            }
        } else if lvl == 2 {
            match k {
                TokenKind::Plus => Some(BinOp::Add),
                TokenKind::Minus => Some(BinOp::Sub),
                _ => None,
            }
        } else if lvl == 3 {
            match k {
                TokenKind::Modulus => Some(BinOp::Rem),
                TokenKind::Caret => Some(BinOp::Caret),
                _ => None,
            }
        } else if lvl == 4 {
            match k {
                TokenKind::Lt => Some(BinOp::Lt),
                TokenKind::Lte => Some(BinOp::Le),
                TokenKind::Gt => Some(BinOp::Gt),
                TokenKind::Gte => Some(BinOp::Ge),
                TokenKind::Eq => Some(BinOp::EqEq),
                TokenKind::Ne => Some(BinOp::Ne),
                _ => None,
            }
        } else if lvl == 5 {
            match k {
                TokenKind::And => Some(BinOp::And),
                TokenKind::Or => Some(BinOp::Or),
                _ => None,
            }
        } else {
            None
        }
    }

    fn level_expr(&self, pos: usize, lvl: u8) -> (r: Result<(Node, usize), ParseError>)
        requires
            pos <= self.tokens.len(),
            lvl <= 5,
        ensures
            node_result(r) == level_expr(self.toks(), pos as int, lvl as nat),
            advanced(r, pos, self.tokens.len() as nat),
        decreases self.tokens.len() - pos, 3 + lvl as nat,
    {
        if lvl == 0 {
            self.primary(pos)
        } else {
            match self.level_expr(pos, lvl - 1) {
                Err(e) => Err(e),
                Ok((n, p)) => self.level_rest(p, lvl, n),
            }
        }
    }

    fn level_rest(&self, pos: usize, lvl: u8, acc: Node) -> (r: Result<(Node, usize), ParseError>)
        requires
            pos <= self.tokens.len(),
            1 <= lvl <= 5,
        ensures
            node_result(r) == level_rest(self.toks(), pos as int, lvl as nat, acc@),
            kept(r, pos, self.tokens.len() as nat),
        decreases self.tokens.len() - pos, 3 + lvl as nat,
    {
        match Self::binop_at(lvl, self.kind_at(pos)) {
            Some(op) => {
                match self.level_expr(pos + 1, lvl - 1) {
                    Err(e) => Err(e),
                    Ok((rhs, p)) => {
                        let n = Node::Binary { left: Box::new(acc), op, right: Box::new(rhs) };
                        self.level_rest(p, lvl, n)
                    },
                }
            },
            None => Ok((acc, pos)),
        }
    }

    pub fn expression(&self, pos: usize) -> (r: Result<(Node, usize), ParseError>)
        requires
            pos <= self.tokens.len(),
        ensures
            node_result(r) == expression(self.toks(), pos as int),
            advanced(r, pos, self.tokens.len() as nat),
        decreases self.tokens.len() - pos, 9nat,
    {
        self.level_expr(pos, 5)
    }

    fn float_literal_ok(s: &Vec<char>) -> (r: bool)
        ensures
            r == float_literal_ok(s@),
    {
        let mut i: usize = 0;
        let mut dots: usize = 0;
        let mut digit = false;
        while i < s.len()
            invariant
                0 <= i <= s.len(),
                dots as nat == count_dots(s@.subrange(0, i as int)),
                dots <= 1,
                forall|k: int| 0 <= k < i ==> crate::text::is_ascii_digit(#[trigger] s@[k]) || s@[k] == '.',
                digit == exists|k: int| 0 <= k < i && crate::text::is_ascii_digit(#[trigger] s@[k]),
            decreases s.len() - i,
        {
            let c = s[i];
            assert(s@.subrange(0, i as int + 1).drop_last() =~= s@.subrange(0, i as int));
            if c == '.' {
                if dots == 1 {
                    proof {
                        lemma_count_dots_prefix(s@, i as int + 1);
                    }
                    return false;
                }
                dots = dots + 1;
            } else if '0' <= c && c <= '9' {
                digit = true;
            } else {
                return false;
            }
            i = i + 1;
        }
        assert(s@.subrange(0, i as int) =~= s@);
        digit
    }

    fn keyword_literal(w: Vec<char>) -> (r: Node)
        ensures
            r@ == keyword_literal(w@),
    {
        if text_is(&w, &['N', 'o', 'n', 'e']) {
            Node::NoneLit
        } else if text_is(&w, &['T', 'r', 'u', 'e']) {
            Node::Bool(true)
        } else if text_is(&w, &['F', 'a', 'l', 's', 'e']) {
            Node::Bool(false)
        } else {
            Node::Flow(w)
        }
    }

    fn primary(&self, pos: usize) -> (r: Result<(Node, usize), ParseError>)
        requires
            pos <= self.tokens.len(),
        ensures
            node_result(r) == primary(self.toks(), pos as int),
            advanced(r, pos, self.tokens.len() as nat),
        decreases self.tokens.len() - pos, 2nat,
    {
        if pos >= self.tokens.len() {
            return Err(ParseError::Unexpected { position: pos });
        }
        let k = self.tokens[pos].kind;
        match k {
            TokenKind::Identifier => {
                match self.id_statement(pos) {
                    Err(e) => Err(e),
                    Ok((var, p)) => {
                        let k2 = self.kind_at(p);
                        if k2 == TokenKind::LParen || k2 == TokenKind::LBracket || k2
                            == TokenKind::Increment || k2 == TokenKind::Decrement {
                            self.factor_suffix(p, var)
                        } else {
                            Ok((var, p))
                        }
                    },
                }
            },
            TokenKind::Integer => match parse_int_literal(&self.tokens[pos].text) {
                Some(v) => Ok((Node::Integer(v), pos + 1)),
                None => Err(ParseError::BadNumber { position: pos }),
            },
            TokenKind::Float => {
                if Self::float_literal_ok(&self.tokens[pos].text) {
                    Ok((Node::Float(self.text_at(pos)), pos + 1))
                } else {
                    Err(ParseError::BadNumber { position: pos })
                }
            },
            TokenKind::Str => Ok((Node::Str(self.text_at(pos)), pos + 1)),
            TokenKind::Keyword => Ok((Self::keyword_literal(self.text_at(pos)), pos + 1)),
            TokenKind::LParen => {
                match self.expression(pos + 1) {
                    Err(e) => Err(e),
                    Ok((e, p)) => match self.eat(p, TokenKind::RParen) {
                        Err(err) => Err(err),
                        Ok(pos2) => Ok((e, pos2)),
                    },
                }
            },
            TokenKind::LBracket => {
                if self.kind_at(pos + 1) == TokenKind::RBracket {
                    let v: Vec<Node> = Vec::new();
                    assert(nodes_view(v@) =~= Seq::<NodeModel>::empty());
                    Ok((Node::List(v), pos + 2))
                } else {
                    match self.expr_list(pos + 1) {
                        Err(e) => Err(e),
                        Ok((items, p)) => match self.eat(p, TokenKind::RBracket) {
                            Err(e) => Err(e),
                            Ok(pos2) => Ok((Node::List(items), pos2)),
                        },
                    }
                }
            },
            TokenKind::DotDot => {
                match self.eat(pos + 1, TokenKind::Arrow) {
                    Err(e) => Err(e),
                    Ok(p) => match self.block(p) {
                        Err(e) => Err(e),
                        Ok((b, pos2)) => {
                            let d = Node::Default;
                            assert(d@ == NodeModel::Default);
                            Ok((Node::Case { condition: Box::new(d), block: b }, pos2))
                        },
                    },
                }
            },
            TokenKind::Plus | TokenKind::Minus | TokenKind::Negate => {
                let op = match k {
                    TokenKind::Plus => UnOp::Plus,
                    TokenKind::Minus => UnOp::Minus,
                    _ => UnOp::Not,
                };
                match self.expression(pos + 1) {
                    Err(e) => Err(e),
                    Ok((e, p)) => Ok((Node::Unary { operator: op, operand: Box::new(e) }, p)),
                }
            },
            _ => Err(ParseError::Unexpected { position: pos }),
        }
    }

    fn factor_suffix(&self, pos: usize, target: Node) -> (r: Result<(Node, usize), ParseError>)
        requires
            pos <= self.tokens.len(),
        ensures
            node_result(r) == factor_suffix(self.toks(), pos as int, target@),
            advanced(r, pos, self.tokens.len() as nat),
        decreases self.tokens.len() - pos, 2nat,
    {
        if pos >= self.tokens.len() {
            return Err(ParseError::Unexpected { position: pos });
        }
        let k = self.tokens[pos].kind;
        if k == TokenKind::LParen {
            match self.arguments(pos + 1) {
                Err(e) => Err(e),
                Ok((args, p)) => match self.eat(p, TokenKind::RParen) {
                    Err(e) => Err(e),
                    Ok(pos2) => Ok((Node::Call { name: Box::new(target), args }, pos2)),
                },
            }
        } else if k == TokenKind::LBracket {
            match self.expression(pos + 1) {
                Err(e) => Err(e),
                Ok((i, p)) => match self.eat(p, TokenKind::RBracket) {
                    Err(e) => Err(e),
                    Ok(pos2) => Ok((Node::Index { object: Box::new(target), index: Box::new(i) }, pos2)),
                },
            }
        } else {
            let (step, op) = if k == TokenKind::Increment {
                (TokenKind::Increment, UnOp::Increment)
            } else {
                (TokenKind::Decrement, UnOp::Decrement)
            };
            match self.eat(pos, step) {
                Err(e) => Err(e),
                Ok(p) => match self.eat(p, TokenKind::Semi) {
                    Err(e) => Err(e),
                    Ok(pos2) => Ok((Node::Unary { operator: op, operand: Box::new(target) }, pos2)),
                },
            }
        }
    }
}


pub open spec fn opt_view(o: Option<Vec<Node>>) -> Option<Seq<NodeModel>> {
    match o {
        Some(v) => Some(nodes_view(v@)),
        None => None,
    }
}

impl Parser {
    fn block(&self, pos: usize) -> (r: Result<(Vec<Node>, usize), ParseError>)
        requires
            pos <= self.tokens.len(),
        ensures
            list_result(r) == block(self.toks(), pos as int),
            advanced(r, pos, self.tokens.len() as nat),
        decreases self.tokens.len() - pos, 16nat,
    {
        match self.eat(pos, TokenKind::LBrace) {
            Err(e) => Err(e),
            Ok(p) => {
                let v: Vec<Node> = Vec::new();
                assert(nodes_view(v@) =~= Seq::<NodeModel>::empty());
                self.block_rest(p, v)
            },
        }
    }

    fn block_rest(&self, pos: usize, acc: Vec<Node>) -> (r: Result<(Vec<Node>, usize), ParseError>)
        requires
            pos <= self.tokens.len(),
        ensures
            list_result(r) == block_rest(self.toks(), pos as int, nodes_view(acc@)),
            advanced(r, pos, self.tokens.len() as nat),
        decreases self.tokens.len() - pos, 16nat,
    {
        if self.kind_at(pos) == TokenKind::RBrace && pos < self.tokens.len() {
            Ok((acc, pos + 1))
        } else {
            match self.statement(pos) {
                Err(e) => Err(e),
                Ok((st, p)) => {
                    let mut acc = acc;
                    proof {
                        lemma_nodes_view_push(acc@, st);
                    }
                    acc.push(st);
                    self.block_rest(p, acc)
                },
            }
        }
    }

    /// One statement at `pos`.
    pub fn statement(&self, pos: usize) -> (r: Result<(Node, usize), ParseError>)
        requires
            pos <= self.tokens.len(),
        ensures
            node_result(r) == statement(self.toks(), pos as int),
            advanced(r, pos, self.tokens.len() as nat),
        decreases self.tokens.len() - pos, 15nat,
    {
        if self.keyword_is(pos, &['c', 'l', 'a', 's', 's']) {
            self.class_declaration(pos)
        } else if self.keyword_is(pos, &['f', 'n']) {
            self.function_declaration(pos)
        } else if self.keyword_is(pos, &['w', 'h', 'i', 'l', 'e']) {
            self.while_loop(pos)
        } else if self.keyword_is(pos, &['f', 'o', 'r']) {
            self.for_loop(pos)
        } else if self.keyword_is(pos, &['i', 'f']) {
            self.if_statement(pos)
        } else if self.keyword_is(pos, &['m', 'a', 't', 'c', 'h']) {
            self.match_statement(pos)
        } else if self.keyword_is(pos, &['l', 'e', 't']) {
            self.variable_declaration(pos)
        } else if self.keyword_is(pos, &['r', 'n']) {
            self.return_statement(pos)
        } else if self.keyword_is(pos, &['p', 'a', 'r', 'e', 'n', 't']) {
            self.parent_initialisation(pos)
        } else if self.keyword_is(pos, &['u', 's', 'e']) {
            self.use_statement(pos)
        } else {
            match self.expression(pos) {
                Err(e) => Err(e),
                Ok((e, p)) => if self.kind_at(p) == TokenKind::Semi {
                    Ok((e, p + 1))
                } else {
                    Ok((e, p))
                },
            }
        }
    }

    fn use_statement(&self, pos: usize) -> (r: Result<(Node, usize), ParseError>)
        requires
            pos <= self.tokens.len(),
        ensures
            node_result(r) == use_statement(self.toks(), pos as int),
            advanced(r, pos, self.tokens.len() as nat),
        decreases self.tokens.len() - pos, 11nat,
    {
        let p = match self.eat(pos, TokenKind::Keyword) {
            Ok(p) => p,
            Err(e) => return Err(e),
        };
        let (m, pos2) = match self.id_statement(p) {
            Ok(x) => x,
            Err(e) => return Err(e),
        };
        let mut first: Vec<Node> = Vec::new();
        proof {
            lemma_nodes_view_push(first@, m);
            assert(nodes_view(first@).push(m@) =~= seq![m@]);
        }
        first.push(m);
        let (ms, pos3) = match self.id_list_rest(pos2, first) {
            Ok(x) => x,
            Err(e) => return Err(e),
        };
        match self.eat(pos3, TokenKind::Semi) {
            Err(e) => Err(e),
            Ok(pos4) => Ok((Node::Use(ms), pos4)),
        }
    }

    fn parent_initialisation(&self, pos: usize) -> (r: Result<(Node, usize), ParseError>)
        requires
            pos <= self.tokens.len(),
        ensures
            node_result(r) == parent_initialisation(self.toks(), pos as int),
            advanced(r, pos, self.tokens.len() as nat),
        decreases self.tokens.len() - pos, 11nat,
    {
        let p = match self.eat(pos, TokenKind::Keyword) {
            Ok(p) => p,
            Err(e) => return Err(e),
        };
        let (name, pos2) = match self.id_statement(p) {
            Ok(x) => x,
            Err(e) => return Err(e),
        };
        let pos3 = match self.eat(pos2, TokenKind::LParen) {
            Ok(p) => p,
            Err(e) => return Err(e),
        };
        let (args, pos4) = match self.arguments(pos3) {
            Ok(x) => x,
            Err(e) => return Err(e),
        };
        match self.eat(pos4, TokenKind::RParen) {
            Err(e) => Err(e),
            Ok(pos5) => Ok((Node::Parent { name: Box::new(name), args }, pos5)),
        }
    }

    fn return_statement(&self, pos: usize) -> (r: Result<(Node, usize), ParseError>)
        requires
            pos <= self.tokens.len(),
        ensures
            node_result(r) == return_statement(self.toks(), pos as int),
            advanced(r, pos, self.tokens.len() as nat),
        decreases self.tokens.len() - pos, 11nat,
    {
        let p = match self.eat(pos, TokenKind::Keyword) {
            Ok(p) => p,
            Err(e) => return Err(e),
        };
        if self.kind_at(p) == TokenKind::Semi && p < self.tokens.len() {
            let v: Vec<Node> = Vec::new();
            assert(nodes_view(v@) =~= Seq::<NodeModel>::empty());
            return Ok((Node::Return(v), p + 1));
        }
        let (items, pos2) = match self.expr_list(p) {
            Ok(x) => x,
            Err(e) => return Err(e),
        };
        match self.eat(pos2, TokenKind::Semi) {
            Err(e) => Err(e),
            Ok(pos3) => Ok((Node::Return(items), pos3)),
        }
    }

    fn match_statement(&self, pos: usize) -> (r: Result<(Node, usize), ParseError>)
        requires
            pos <= self.tokens.len(),
        ensures
            node_result(r) == match_statement(self.toks(), pos as int),
            advanced(r, pos, self.tokens.len() as nat),
        decreases self.tokens.len() - pos, 11nat,
    {
        let p = match self.eat(pos, TokenKind::Keyword) {
            Ok(p) => p,
            Err(e) => return Err(e),
        };
        let (subject, pos2) = match self.id_statement(p) {
            Ok(x) => x,
            Err(e) => return Err(e),
        };
        let pos3 = match self.eat(pos2, TokenKind::LBrace) {
            Ok(p) => p,
            Err(e) => return Err(e),
        };
        let (cs, pos4) = match self.cases(pos3) {
            Ok(x) => x,
            Err(e) => return Err(e),
        };
        match self.eat(pos4, TokenKind::RBrace) {
            Err(e) => Err(e),
            Ok(pos5) => Ok((Node::Match { subject: Box::new(subject), cases: cs }, pos5)),
        }
    }

    fn case_arm(&self, pos: usize) -> (r: Result<(Node, usize), ParseError>)
        requires
            pos <= self.tokens.len(),
        ensures
            node_result(r) == case_arm(self.toks(), pos as int),
            advanced(r, pos, self.tokens.len() as nat),
        decreases self.tokens.len() - pos, 11nat,
    {
        let (c, p) = match self.expression(pos) {
            Ok(x) => x,
            Err(e) => return Err(e),
        };
        let pos2 = match self.eat(p, TokenKind::Arrow) {
            Ok(p) => p,
            Err(e) => return Err(e),
        };
        match self.block(pos2) {
            Err(e) => Err(e),
            Ok((b, pos3)) => Ok((Node::Case { condition: Box::new(c), block: b }, pos3)),
        }
    }

    fn cases(&self, pos: usize) -> (r: Result<(Vec<Node>, usize), ParseError>)
        requires
            pos <= self.tokens.len(),
        ensures
            list_result(r) == cases(self.toks(), pos as int),
            advanced(r, pos, self.tokens.len() as nat),
        decreases self.tokens.len() - pos, 12nat,
    {
        let (c, p) = match self.case_arm(pos) {
            Ok(x) => x,
            Err(e) => return Err(e),
        };
        let mut first: Vec<Node> = Vec::new();
        proof {
            lemma_nodes_view_push(first@, c);
            assert(nodes_view(first@).push(c@) =~= seq![c@]);
        }
        first.push(c);
        self.cases_rest(p, first)
    }

    fn cases_rest(&self, pos: usize, acc: Vec<Node>) -> (r: Result<(Vec<Node>, usize), ParseError>)
        requires
            pos <= self.tokens.len(),
        ensures
            list_result(r) == cases_rest(self.toks(), pos as int, nodes_view(acc@)),
            kept(r, pos, self.tokens.len() as nat),
        decreases self.tokens.len() - pos, 12nat,
    {
        if self.kind_at(pos) == TokenKind::Comma && pos < self.tokens.len() {
            let mut acc = acc;
            if self.kind_at(pos + 1) == TokenKind::DotDot {
                match self.expression(pos + 1) {
                    Err(e) => Err(e),
                    Ok((d, p)) => {
                        proof {
                            lemma_nodes_view_push(acc@, d);
                        }
                        acc.push(d);
                        Ok((acc, p))
                    },
                }
            } else {
                match self.case_arm(pos + 1) {
                    Err(e) => Err(e),
                    Ok((c, p)) => {
                        proof {
                            lemma_nodes_view_push(acc@, c);
                        }
                        acc.push(c);
                        self.cases_rest(p, acc)
                    },
                }
            }
        } else {
            Ok((acc, pos))
        }
    }

    fn condition(&self, pos: usize) -> (r: Result<(Node, usize), ParseError>)
        requires
            pos <= self.tokens.len(),
        ensures
            node_result(r) == condition(self.toks(), pos as int),
            advanced(r, pos, self.tokens.len() as nat),
        decreases self.tokens.len() - pos, 11nat,
    {
        let p = match self.eat(pos, TokenKind::LParen) {
            Ok(p) => p,
            Err(e) => return Err(e),
        };
        let (c, pos2) = match self.expression(p) {
            Ok(x) => x,
            Err(e) => return Err(e),
        };
        match self.eat(pos2, TokenKind::RParen) {
            Err(e) => Err(e),
            Ok(pos3) => Ok((c, pos3)),
        }
    }

    fn if_statement(&self, pos: usize) -> (r: Result<(Node, usize), ParseError>)
        requires
            pos <= self.tokens.len(),
        ensures
            node_result(r) == if_statement(self.toks(), pos as int),
            advanced(r, pos, self.tokens.len() as nat),
        decreases self.tokens.len() - pos, 11nat,
    {
        let p = match self.eat(pos, TokenKind::Keyword) {
            Ok(p) => p,
            Err(e) => return Err(e),
        };
        let (c, pos2) = match self.condition(p) {
            Ok(x) => x,
            Err(e) => return Err(e),
        };
        let (b, pos3) = match self.block(pos2) {
            Ok(x) => x,
            Err(e) => return Err(e),
        };
        if self.keyword_is(pos3, &['e', 'l', 's', 'e']) && pos3 < self.tokens.len() {
            match self.block(pos3 + 1) {
                Err(e) => Err(e),
                Ok((eb, pos4)) => Ok(
                    (Node::If { condition: Box::new(c), then_block: b, else_block: Some(eb) }, pos4),
                ),
            }
        } else {
            Ok((Node::If { condition: Box::new(c), then_block: b, else_block: None }, pos3))
        }
    }

    fn for_loop(&self, pos: usize) -> (r: Result<(Node, usize), ParseError>)
        requires
            pos <= self.tokens.len(),
        ensures
            node_result(r) == for_loop(self.toks(), pos as int),
            advanced(r, pos, self.tokens.len() as nat),
        decreases self.tokens.len() - pos, 11nat,
    {
        let p = match self.eat(pos, TokenKind::Keyword) {
            Ok(p) => p,
            Err(e) => return Err(e),
        };
        let pos2 = match self.eat(p, TokenKind::LParen) {
            Ok(p) => p,
            Err(e) => return Err(e),
        };
        let (obj, pos3) = match self.id_statement(pos2) {
            Ok(x) => x,
            Err(e) => return Err(e),
        };
        let pos4 = match self.eat(pos3, TokenKind::Colon) {
            Ok(p) => p,
            Err(e) => return Err(e),
        };
        let (v, pos5) = match self.id_statement(pos4) {
            Ok(x) => x,
            Err(e) => return Err(e),
        };
        let mut first: Vec<Node> = Vec::new();
        proof {
            lemma_nodes_view_push(first@, v);
            assert(nodes_view(first@).push(v@) =~= seq![v@]);
        }
        first.push(v);
        let (vars, pos6) = match self.id_list_rest(pos5, first) {
            Ok(x) => x,
            Err(e) => return Err(e),
        };
        let pos7 = match self.eat(pos6, TokenKind::RParen) {
            Ok(p) => p,
            Err(e) => return Err(e),
        };
        match self.block(pos7) {
            Err(e) => Err(e),
            Ok((body, pos8)) => Ok((Node::For { vars, object: Box::new(obj), body }, pos8)),
        }
    }

    fn while_loop(&self, pos: usize) -> (r: Result<(Node, usize), ParseError>)
        requires
            pos <= self.tokens.len(),
        ensures
            node_result(r) == while_loop(self.toks(), pos as int),
            advanced(r, pos, self.tokens.len() as nat),
        decreases self.tokens.len() - pos, 11nat,
    {
        let p = match self.eat(pos, TokenKind::Keyword) {
            Ok(p) => p,
            Err(e) => return Err(e),
        };
        let (c, pos2) = match self.condition(p) {
            Ok(x) => x,
            Err(e) => return Err(e),
        };
        match self.block(pos2) {
            Err(e) => Err(e),
            Ok((body, pos3)) => Ok((Node::While { condition: Box::new(c), body }, pos3)),
        }
    }

    fn output_params(&self, pos: usize) -> (r: Result<(Option<Vec<Node>>, usize), ParseError>)
        requires
            pos <= self.tokens.len(),
        ensures
            match r {
                Ok((o, p)) => output_params(self.toks(), pos as int) == Ok::<
                    (Option<Seq<NodeModel>>, int),
                    ParseError,
                >((opt_view(o), p as int)) && pos < p <= self.tokens.len(),
                Err(e) => output_params(self.toks(), pos as int) == Err::<
                    (Option<Seq<NodeModel>>, int),
                    ParseError,
                >(e),
            },
        decreases self.tokens.len() - pos, 11nat,
    {
        if self.kind_at(pos) == TokenKind::RParen && pos < self.tokens.len() {
            return Ok((None, pos + 1));
        }
        let (outs, p) = match self.expr_list(pos) {
            Ok(x) => x,
            Err(e) => return Err(e),
        };
        match self.eat(p, TokenKind::RParen) {
            Err(e) => Err(e),
            Ok(pos2) => Ok((Some(outs), pos2)),
        }
    }

    fn parameters(&self, pos: usize) -> (r: Result<
        (Option<Vec<Node>>, Option<Vec<Node>>, usize),
        ParseError,
    >)
        requires
            pos <= self.tokens.len(),
        ensures
            match r {
                Ok((i, o, p)) => parameters(self.toks(), pos as int) == Ok::<
                    (Option<Seq<NodeModel>>, Option<Seq<NodeModel>>, int),
                    ParseError,
                >((opt_view(i), opt_view(o), p as int)) && pos < p <= self.tokens.len(),
                Err(e) => parameters(self.toks(), pos as int) == Err::<
                    (Option<Seq<NodeModel>>, Option<Seq<NodeModel>>, int),
                    ParseError,
                >(e),
            },
        decreases self.tokens.len() - pos, 12nat,
    {
        let p = match self.eat(pos, TokenKind::LParen) {
            Ok(p) => p,
            Err(e) => return Err(e),
        };
        if self.kind_at(p) == TokenKind::RParen && p < self.tokens.len() {
            return Ok((None, None, p + 1));
        }
        if self.kind_at(p) == TokenKind::Colon && p < self.tokens.len() {
            return match self.output_params(p + 1) {
                Err(e) => Err(e),
                Ok((outs, pos2)) => Ok((None, outs, pos2)),
            };
        }
        let (first, pos2) = match self.id_statement(p) {
            Ok(x) => x,
            Err(e) => return Err(e),
        };
        let mut acc: Vec<Node> = Vec::new();
        proof {
            lemma_nodes_view_push(acc@, first);
            assert(nodes_view(acc@).push(first@) =~= seq![first@]);
        }
        acc.push(first);
        let (ins, pos3) = match self.id_list_rest(pos2, acc) {
            Ok(x) => x,
            Err(e) => return Err(e),
        };
        if self.kind_at(pos3) == TokenKind::Colon && pos3 < self.tokens.len() {
            match self.output_params(pos3 + 1) {
                Err(e) => Err(e),
                Ok((outs, pos4)) => Ok((Some(ins), outs, pos4)),
            }
        } else {
            match self.eat(pos3, TokenKind::RParen) {
                Err(e) => Err(e),
                Ok(pos4) => Ok((Some(ins), None, pos4)),
            }
        }
    }

    fn function_declaration(&self, pos: usize) -> (r: Result<(Node, usize), ParseError>)
        requires
            pos <= self.tokens.len(),
        ensures
            node_result(r) == function_declaration(self.toks(), pos as int),
            advanced(r, pos, self.tokens.len() as nat),
        decreases self.tokens.len() - pos, 13nat,
    {
        let p = match self.eat(pos, TokenKind::Keyword) {
            Ok(p) => p,
            Err(e) => return Err(e),
        };
        let (name, pos2) = match self.id_statement(p) {
            Ok(x) => x,
            Err(e) => return Err(e),
        };
        let (ins, outs, pos3) = match self.parameters(pos2) {
            Ok(x) => x,
            Err(e) => return Err(e),
        };
        match self.block(pos3) {
            Err(e) => Err(e),
            Ok((b, pos4)) => Ok(
                (Node::Function { name: Box::new(name), inputs: ins, outputs: outs, block: b }, pos4),
            ),
        }
    }

    fn parent_classes(&self, pos: usize) -> (r: Result<(Vec<Node>, usize), ParseError>)
        requires
            pos <= self.tokens.len(),
        ensures
            list_result(r) == parent_classes(self.toks(), pos as int),
            advanced(r, pos, self.tokens.len() as nat),
        decreases self.tokens.len() - pos, 11nat,
    {
        let p = match self.eat(pos, TokenKind::LParen) {
            Ok(p) => p,
            Err(e) => return Err(e),
        };
        if self.kind_at(p) == TokenKind::RParen && p < self.tokens.len() {
            let v: Vec<Node> = Vec::new();
            assert(nodes_view(v@) =~= Seq::<NodeModel>::empty());
            return Ok((v, p + 1));
        }
        let (first, pos2) = match self.id_statement(p) {
            Ok(x) => x,
            Err(e) => return Err(e),
        };
        let mut acc: Vec<Node> = Vec::new();
        proof {
            lemma_nodes_view_push(acc@, first);
            assert(nodes_view(acc@).push(first@) =~= seq![first@]);
        }
        acc.push(first);
        let (list, pos3) = match self.id_list_rest(pos2, acc) {
            Ok(x) => x,
            Err(e) => return Err(e),
        };
        match self.eat(pos3, TokenKind::RParen) {
            Err(e) => Err(e),
            Ok(pos4) => Ok((list, pos4)),
        }
    }

    fn class_declaration(&self, pos: usize) -> (r: Result<(Node, usize), ParseError>)
        requires
            pos <= self.tokens.len(),
        ensures
            node_result(r) == class_declaration(self.toks(), pos as int),
            advanced(r, pos, self.tokens.len() as nat),
        decreases self.tokens.len() - pos, 14nat,
    {
        let p = match self.eat(pos, TokenKind::Keyword) {
            Ok(p) => p,
            Err(e) => return Err(e),
        };
        let (name, pos2) = match self.id_statement(p) {
            Ok(x) => x,
            Err(e) => return Err(e),
        };
        let (parents, pos3) = if self.kind_at(pos2) == TokenKind::LParen {
            match self.parent_classes(pos2) {
                Err(e) => return Err(e),
                Ok((list, pos3)) => (Some(list), pos3),
            }
        } else {
            (None, pos2)
        };
        match self.block(pos3) {
            Err(e) => Err(e),
            Ok((b, pos4)) => Ok((Node::Class { name: Box::new(name), parents, block: b }, pos4)),
        }
    }

    fn variable_declaration(&self, pos: usize) -> (r: Result<(Node, usize), ParseError>)
        requires
            pos <= self.tokens.len(),
        ensures
            node_result(r) == variable_declaration(self.toks(), pos as int),
            advanced(r, pos, self.tokens.len() as nat),
        decreases self.tokens.len() - pos, 11nat,
    {
        let p = match self.eat(pos, TokenKind::Keyword) {
            Ok(p) => p,
            Err(e) => return Err(e),
        };
        let (name, pos2) = match self.id_statement(p) {
            Ok(x) => x,
            Err(e) => return Err(e),
        };
        if self.kind_at(pos2) == TokenKind::Semi && pos2 < self.tokens.len() {
            return Ok((Node::Var { name: Box::new(name), value: None }, pos2 + 1));
        }
        let pos3 = match self.eat(pos2, TokenKind::Assign) {
            Ok(p) => p,
            Err(e) => return Err(e),
        };
        let (v, pos4) = match self.expression(pos3) {
            Ok(x) => x,
            Err(e) => return Err(e),
        };
        match self.eat(pos4, TokenKind::Semi) {
            Err(e) => Err(e),
            Ok(pos5) => Ok((Node::Var { name: Box::new(name), value: Some(Box::new(v)) }, pos5)),
        }
    }

    fn program_rest(&self, pos: usize, acc: Vec<Node>) -> (r: Result<Vec<Node>, ParseError>)
        requires
            pos <= self.tokens.len(),
        ensures
            match r {
                Ok(v) => program_rest(self.toks(), pos as int, nodes_view(acc@)) == Ok::<
                    Seq<NodeModel>,
                    ParseError,
                >(nodes_view(v@)),
                Err(e) => program_rest(self.toks(), pos as int, nodes_view(acc@)) == Err::<
                    Seq<NodeModel>,
                    ParseError,
                >(e),
            },
        decreases self.tokens.len() - pos, 16nat,
    {
        if self.kind_at(pos) == TokenKind::Eof {
            return Ok(acc);
        }
        match self.statement(pos) {
            Err(e) => Err(e),
            Ok((st, p)) => {
                let mut acc = acc;
                proof {
                    lemma_nodes_view_push(acc@, st);
                }
                acc.push(st);
                self.program_rest(p, acc)
            },
        }
    }

    /// The statements of the whole token sequence, up to its end-of-input token.
    pub fn parse(&self) -> (r: Result<Vec<Node>, ParseError>)
        ensures
            match r {
                Ok(v) => parse_spec(self.toks()) == Ok::<Seq<NodeModel>, ParseError>(nodes_view(v@)),
                Err(e) => parse_spec(self.toks()) == Err::<Seq<NodeModel>, ParseError>(e),
            },
    {
        let v: Vec<Node> = Vec::new();
        assert(nodes_view(v@) =~= Seq::<NodeModel>::empty());
        self.program_rest(0, v)
    }
}

proof fn lemma_count_dots_prefix(s: Seq<char>, k: int)
    requires
        0 <= k <= s.len(),
    ensures
        count_dots(s) >= count_dots(s.subrange(0, k)),
    decreases s.len() - k,
{
    if k < s.len() {
        assert(s.subrange(0, k + 1).drop_last() =~= s.subrange(0, k));
        lemma_count_dots_prefix(s, k + 1);
    } else {
        assert(s.subrange(0, k) =~= s);
    }
}

} // verus!
