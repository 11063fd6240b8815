//! How values are written out by `print` and `println`.
use vstd::prelude::*;
use crate::text::{int_text, push_int_text};
use crate::value::{
    copy_float, copy_text, lemma_values_view, values_view, FloatModel, FloatNum, Value, ValueModel,
};

verus! {

/// A piece of program output. Floating-point numbers are kept exact and are
/// turned into text only by whoever writes the output.
#[derive(Debug)]
pub enum Piece {
    Text(Vec<char>),
    /// A float in plain form (`3`, `0.5`).
    Number(FloatNum),
    /// A float in debug form (`3.0`, `0.5`).
    NumberDebug(FloatNum),
}

/// The mathematical form of [`Piece`].
pub enum PieceModel {
    Text(Seq<char>),
    Number(FloatModel),
    NumberDebug(FloatModel),
}

impl Piece {
    pub open spec fn view(&self) -> PieceModel {
        match self {
            Piece::Text(t) => PieceModel::Text(t@),
            Piece::Number(f) => PieceModel::Number(f@),
            Piece::NumberDebug(f) => PieceModel::NumberDebug(f@),
        }
    }
}

pub open spec fn pieces_view(s: Seq<Piece>) -> Seq<PieceModel> {
    s.map_values(|p: Piece| p@)
}

pub open spec fn text(s: Seq<char>) -> Seq<PieceModel> {
    seq![PieceModel::Text(s)]
}

pub open spec fn bool_text(b: bool) -> Seq<char> {
    if b {
        seq!['t', 'r', 'u', 'e']
    } else {
        seq!['f', 'a', 'l', 's', 'e']
    }
}

pub open spec fn none_text() -> Seq<char> {
    seq!['N', 'o', 'n', 'e']
}

/// The plain form of a value: scalars as their literal text, `None` as
/// `None`, a list as a debug dump of its elements.
pub open spec fn display(v: ValueModel) -> Seq<PieceModel> {
    match v {
        ValueModel::Integer(i) => text(int_text(i as int)),
        ValueModel::Float(f) => seq![PieceModel::Number(f)],
        ValueModel::Boolean(b) => text(bool_text(b)),
        ValueModel::Str(s) => text(s),
        ValueModel::Nil => text(none_text()),
        ValueModel::List(items) => text(seq!['[']) + debug_items(items) + text(seq![']']),
    }
}

pub open spec fn escape_char(c: char) -> Seq<char> {
    if c == '"' {
        seq!['\\', '"']
    } else if c == '\\' {
        seq!['\\', '\\']
    } else if c == '\n' {
        seq!['\\', 'n']
    } else if c == '\t' {
        seq!['\\', 't']
    } else if c == '\r' {
        seq!['\\', 'r']
    } else {
        seq![c]
    }
}

/// A string with quotes, backslashes and line breaks escaped.
pub open spec fn escape(s: Seq<char>) -> Seq<char>
    decreases s.len(),
{
    if s.len() == 0 {
        Seq::empty()
    } else {
        escape(s.drop_last()) + escape_char(s.last())
    }
}

/// The debug form of a value, naming its type.
pub open spec fn debug(v: ValueModel) -> Seq<PieceModel>
    decreases v,
{
    match v {
        ValueModel::Integer(i) => text(seq!['I', 'n', 't', 'e', 'g', 'e', 'r', '('] + int_text(i as int) + seq![')']),
        ValueModel::Float(f) => text(seq!['F', 'l', 'o', 'a', 't', '(']) + seq![PieceModel::NumberDebug(f)] + text(seq![')']),
        ValueModel::Boolean(b) => text(seq!['B', 'o', 'o', 'l', 'e', 'a', 'n', '('] + bool_text(b) + seq![')']),
        ValueModel::Str(s) => text(seq!['S', 't', 'r', '(', '"'] + escape(s) + seq!['"', ')']),
        ValueModel::Nil => text(none_text()),
        ValueModel::List(items) => text(seq!['L', 'i', 's', 't', '(', '[']) + debug_items(items) + text(seq![']', ')']),
    }
}

/// Debug forms of the items, separated by `, `.
pub open spec fn debug_items(items: Seq<ValueModel>) -> Seq<PieceModel>
    decreases items,
{
    if items.len() == 0 {
        Seq::empty()
    } else {
        let sep = if items.len() > 1 { text(seq![',', ' ']) } else { Seq::empty() };
        debug_items(items.drop_last()) + sep + debug(items.last())
    }
}

fn word(a: &[char]) -> (r: Vec<char>)
    ensures
        r@ == a@,
{
    let mut out: Vec<char> = Vec::new();
    let mut i: usize = 0;
    while i < a.len()
        invariant
            0 <= i <= a.len(),
            out@ == a@.subrange(0, i as int),
        decreases a.len() - i,
    {
        out.push(a[i]);
        i = i + 1;
        assert(out@ =~= a@.subrange(0, i as int));
    }
    assert(a@.subrange(0, i as int) =~= a@);
    out
}

fn emit(out: &mut Vec<Piece>, p: Piece)
    ensures
        pieces_view(final(out)@) == pieces_view(old(out)@) + seq![p@],
{
    out.push(p);
    assert(pieces_view(out@) =~= pieces_view(old(out)@) + seq![p@]);
}

fn emit_word(out: &mut Vec<Piece>, a: &[char])
    ensures
        pieces_view(final(out)@) == pieces_view(old(out)@) + text(a@),
{
    let w = word(a);
    emit(out, Piece::Text(w));
}

fn emit_char(out: &mut Vec<Piece>, c: char)
    ensures
        pieces_view(final(out)@) == pieces_view(old(out)@) + text(seq![c]),
{
    let mut w: Vec<char> = Vec::new();
    w.push(c);
    assert(w@ =~= seq![c]);
    emit(out, Piece::Text(w));
}

fn bool_word(b: bool) -> (r: Vec<char>)
    ensures
        r@ == bool_text(b),
{
    if b {
        let r = word(&['t', 'r', 'u', 'e']);
        assert(r@ =~= bool_text(b));
        r
    } else {
        let r = word(&['f', 'a', 'l', 's', 'e']);
        assert(r@ =~= bool_text(b));
        r
    }
}

fn push_escaped(s: &Vec<char>, out: &mut Vec<char>)
    ensures
        final(out)@ == old(out)@ + escape(s@),
{
    let mut i: usize = 0;
    while i < s.len()
        invariant
            0 <= i <= s.len(),
            out@ == old(out)@ + escape(s@.subrange(0, i as int)),
        decreases s.len() - i,
    {
        let c = s[i];
        let ghost before = out@;
        if c == '"' {
            out.push('\\');
            out.push('"');
        } else if c == '\\' {
            out.push('\\');
            out.push('\\');
        } else if c == '\n' {
            out.push('\\');
            out.push('n');
        } else if c == '\t' {
            out.push('\\');
            out.push('t');
        } else if c == '\r' {
            out.push('\\');
            out.push('r');
        } else {
            out.push(c);
        }
        assert(out@ =~= before + escape_char(c));
        assert(s@.subrange(0, i as int + 1).drop_last() =~= s@.subrange(0, i as int));
        i = i + 1;
        assert(out@ =~= old(out)@ + escape(s@.subrange(0, i as int)));
    }
    assert(s@.subrange(0, i as int) =~= s@);
}

/// Appends the plain form of `v`.
pub fn show(v: &Value, out: &mut Vec<Piece>)
    ensures
        pieces_view(final(out)@) == pieces_view(old(out)@) + display(v@),
{
    match v {
        Value::Integer(i) => {
            let mut t: Vec<char> = Vec::new();
            push_int_text(*i, &mut t);
            assert(t@ =~= int_text(*i as int));
            emit(out, Piece::Text(t));
        },
        Value::Float(f) => {
            emit(out, Piece::Number(copy_float(f)));
        },
        Value::Boolean(b) => {
            emit(out, Piece::Text(bool_word(*b)));
        },
        Value::Str(s) => {
            emit(out, Piece::Text(copy_text(s)));
        },
        Value::Nil => {
            emit_word(out, &['N', 'o', 'n', 'e']);
            assert(pieces_view(out@) =~~= pieces_view(old(out)@) + display(v@));
        },
        Value::List(items) => {
            let ghost start = pieces_view(out@);
            emit_char(out, '[');
            show_items(items, out);
            emit_char(out, ']');
            assert(pieces_view(out@) =~~= start + display(v@));
        },
    }
}

/// Appends the debug forms of the items, separated by `, `.
fn show_items(items: &Vec<Value>, out: &mut Vec<Piece>)
    ensures
        pieces_view(final(out)@) == pieces_view(old(out)@) + debug_items(values_view(items@)),
    decreases items, 0nat,
{
    let mut i: usize = 0;
    proof {
        lemma_values_view(items@);
        assert(values_view(items@).subrange(0, 0) =~= Seq::<ValueModel>::empty());
    }
    while i < items.len()
        invariant
            0 <= i <= items.len(),
            values_view(items@).len() == items@.len(),
            forall|k: int| 0 <= k < items@.len() ==> #[trigger] values_view(items@)[k] == items@[k]@,
            pieces_view(out@) == pieces_view(old(out)@) + debug_items(
                values_view(items@).subrange(0, i as int),
            ),
        decreases items.len() - i,
    {
        let ghost before = pieces_view(out@);
        let ghost s = values_view(items@).subrange(0, i as int + 1);
        assert(s.drop_last() =~= values_view(items@).subrange(0, i as int));
        assert(s.last() == items@[i as int]@);
        if i > 0 {
            emit_word(out, &[',', ' ']);
        }
        proof {
            assert(decreases_to!(*items => items@));
            assert(decreases_to!(items@ => items@[i as int]));
        }
        show_debug(&items[i], out);
        i = i + 1;
        assert(pieces_view(out@) =~= pieces_view(old(out)@) + debug_items(s));
    }
    assert(values_view(items@).subrange(0, i as int) =~= values_view(items@));
}

/// Appends the debug form of `v`.
fn show_debug(v: &Value, out: &mut Vec<Piece>)
    ensures
        pieces_view(final(out)@) == pieces_view(old(out)@) + debug(v@),
    decreases v, 1nat,
{
    let ghost start = pieces_view(out@);
    match v {
        Value::Integer(i) => {
            let mut t = word(&['I', 'n', 't', 'e', 'g', 'e', 'r', '(']);
            push_int_text(*i, &mut t);
            t.push(')');
            assert(t@ =~= seq!['I', 'n', 't', 'e', 'g', 'e', 'r', '('] + int_text(*i as int) + seq![')']);
            emit(out, Piece::Text(t));
        },
        Value::Float(f) => {
            emit_word(out, &['F', 'l', 'o', 'a', 't', '(']);
            emit(out, Piece::NumberDebug(copy_float(f)));
            emit_char(out, ')');
        },
        Value::Boolean(b) => {
            let mut t = word(&['B', 'o', 'o', 'l', 'e', 'a', 'n', '(']);
            let mut w = bool_word(*b);
            t.append(&mut w);
            t.push(')');
            assert(t@ =~= seq!['B', 'o', 'o', 'l', 'e', 'a', 'n', '('] + bool_text(*b) + seq![')']);
            emit(out, Piece::Text(t));
        },
        Value::Str(s) => {
            let mut t = word(&['S', 't', 'r', '(', '"']);
            push_escaped(s, &mut t);
            t.push('"');
            t.push(')');
            assert(t@ =~= seq!['S', 't', 'r', '(', '"'] + escape(s@) + seq!['"', ')']);
            emit(out, Piece::Text(t));
        },
        Value::Nil => {
            emit_word(out, &['N', 'o', 'n', 'e']);
        },
        Value::List(items) => {
            emit_word(out, &['L', 'i', 's', 't', '(', '[']);
            show_items(items, out);
            emit_word(out, &[']', ')']);
        },
    }
    assert(pieces_view(out@) =~~= start + debug(v@));
}

} // verus!
