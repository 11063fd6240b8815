//! Properties of the language that follow from the specifications.
use vstd::prelude::*;
use crate::ast::NodeModel;
use crate::error::{ErrorModel, Fault};
use crate::lexer::{
    eof_token, is_keyword, lex_line, lex_lines, lex_spec, line_at, line_end, tok, word_end,
    TokenKind, TokenModel,
};
use crate::ops::{BinOp, UnOp};
use crate::semantics::{
    eval, eval_list, lookup, print_word, println_word, table_get, unary_spec, BindingModel,
    StateModel,
};
use crate::text::alphabetic;
use crate::value::{binary_spec, ValueModel};

verus! {

proof fn lemma_word_end_all(w: Seq<char>, p: int)
    requires
        0 <= p <= w.len(),
        forall|i: int| 0 <= i < w.len() ==> alphabetic(#[trigger] w[i]),
    ensures
        word_end(w, p) == w.len(),
    decreases w.len() - p,
{
    if p < w.len() {
        lemma_word_end_all(w, p + 1);
    }
}

proof fn lemma_line_end_all(w: Seq<char>, p: int)
    requires
        0 <= p <= w.len(),
        forall|i: int| 0 <= i < w.len() ==> #[trigger] w[i] != '\n',
    ensures
        line_end(w, p) == w.len(),
    decreases w.len() - p,
{
    if p < w.len() {
        lemma_line_end_all(w, p + 1);
    }
}

/// A word of alphabetic characters lexes as one token carrying exactly that
/// text: a keyword token when it is in the keyword set, an identifier
/// token otherwise, followed by the end-of-input token. (Line breaks are not
/// alphabetic; the condition on them is written out because the character
/// classes are only named here.)
pub proof fn law_word_lexes_as_one_token(w: Seq<char>)
    requires
        w.len() > 0,
        forall|i: int| 0 <= i < w.len() ==> alphabetic(#[trigger] w[i]),
        forall|i: int| 0 <= i < w.len() ==> #[trigger] w[i] != '\n' && w[i] != '\r',
    ensures
        lex_spec(w) == Ok::<Seq<TokenModel>, crate::lexer::LexErrorModel>(
            seq![
                tok(if is_keyword(w) { TokenKind::Keyword } else { TokenKind::Identifier }, w),
                eof_token(),
            ],
        ),
{
    lemma_line_end_all(w, 0);
    assert(w.subrange(0, w.len() as int) =~= w);
    assert(line_at(w, 0) == w);
    assert(alphabetic(w[0]));
    lemma_word_end_all(w, 1);
    assert(w.subrange(0, word_end(w, 1)) =~= w);
    assert(lex_line(w, w.len() as int) == Ok::<Seq<TokenModel>, crate::lexer::LexErrorModel>(
        Seq::empty(),
    ));
    let kind = if is_keyword(w) { TokenKind::Keyword } else { TokenKind::Identifier };
    assert(seq![tok(kind, w)] + Seq::<TokenModel>::empty() =~= seq![tok(kind, w)]);
    assert(lex_line(w, 0) == Ok::<Seq<TokenModel>, crate::lexer::LexErrorModel>(seq![tok(kind, w)]));
    assert(lex_lines(w, w.len() as int + 1) == Ok::<Seq<TokenModel>, crate::lexer::LexErrorModel>(
        Seq::empty(),
    ));
    assert(lex_lines(w, 0) == Ok::<Seq<TokenModel>, crate::lexer::LexErrorModel>(seq![tok(kind, w)]));
    assert(seq![tok(kind, w)].push(eof_token()) =~= seq![tok(kind, w), eof_token()]);
}

/// `++` and `--` write only into the current scope: every scope below it is
/// left as it was, whichever scope the name was found in.
pub proof fn law_step_writes_current_scope_only(st: StateModel, op: UnOp, name: Seq<char>)
    requires
        op == UnOp::Increment || op == UnOp::Decrement,
    ensures
        ({
            let after = unary_spec(st, op, NodeModel::Id(name)).0;
            &&& after.frames.len() == st.frames.len()
            &&& forall|k: int| 0 <= k < st.frames.len() - 1 ==> #[trigger] after.frames[k] == st.frames[k]
            &&& after.functions == st.functions
            &&& after.out == st.out
        }),
{
}

/// A name bound to a deferred (non-literal) initializer reads as that
/// expression evaluated now, in the current state: its value follows later
/// changes to the variables it mentions.
pub proof fn law_deferred_read_reevaluates(st: StateModel, name: Seq<char>, x: NodeModel, f: nat)
    requires
        lookup(st.frames, name) == Some(BindingModel::Deferred(x)),
    ensures
        eval(st, NodeModel::Id(name), f + 1) == eval(st, x, f),
{
}

/// Reading a name that is bound nowhere is a name error that names it, and
/// changes nothing.
pub proof fn law_undefined_name(st: StateModel, name: Seq<char>, f: nat)
    requires
        lookup(st.frames, name) is None,
    ensures
        eval(st, NodeModel::Id(name), f + 1) == (st, Err::<ValueModel, ErrorModel>(ErrorModel::Name(name))),
{
}

/// Integer division by zero is an arithmetic error, never a value.
pub proof fn law_division_by_zero(a: i32)
    ensures
        binary_spec(BinOp::Div, ValueModel::Integer(a), ValueModel::Integer(0)) == Err::<
            ValueModel,
            ErrorModel,
        >(ErrorModel::Arithmetic(Fault::DivisionByZero)),
{
}

/// Calling a user function with a number of arguments other than its number
/// of input parameters is an arity error that names the function and gives
/// both counts, once the arguments have been evaluated.
pub proof fn law_arity_mismatch(
    st: StateModel,
    fname: Seq<char>,
    args: Seq<NodeModel>,
    f: nat,
)
    requires
        fname != print_word(),
        fname != println_word(),
        table_get(st.functions, fname) is Some,
        eval_list(st, args, f).1 is Ok,
        eval_list(st, args, f).1->Ok_0.len() != table_get(st.functions, fname)->Some_0.params.len(),
    ensures
        eval(st, NodeModel::Call { name: Box::new(NodeModel::Id(fname)), args }, f + 1).1 == Err::<
            ValueModel,
            ErrorModel,
        >(
            ErrorModel::Arity {
                name: fname,
                expected: table_get(st.functions, fname)->Some_0.params.len(),
                found: eval_list(st, args, f).1->Ok_0.len(),
            },
        ),
{
}

} // verus!
