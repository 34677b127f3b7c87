//! The template expansion engine: expands a template against a capture tree,
//! producing output tokens.
//!
//! Entries are processed left to right, threading one piece of state —
//! whether the previous conditional branch already succeeded — which is reset
//! after any non-conditional entry. As with matching, a functional model
//! (`spec_expand_*`) specifies every executable function exactly.
use vstd::prelude::*;

use crate::ast::{Builtin, Path, Replacement, SpecialReplacement, path_view};
use crate::capture::{CaptureV, Match, cap_find, cap_replace, match_view};
use crate::diag::{ExpandErr, ExpandErrV, expand_err_view};
use crate::token::{Delimiter, Token, TokenV, tokens_view};

verus! {

broadcast use {
    crate::token::lemma_tokens_view,
    crate::capture::lemma_children_view,
};

/// Whether the previous conditional branch already succeeded: unset after any
/// non-conditional entry, `Taken` after a branch that was emitted,
/// `NotTaken` after one whose condition failed (or a loop over nothing).
#[derive(Clone, Copy, PartialEq, Eq, Structural, Debug)]
pub enum IfState {
    Unset,
    Taken,
    NotTaken,
}

/// The model of expanding template entries: the emitted tokens and the
/// conditional state left behind, or the first failure.
pub ghost enum ExpV {
    Done { out: Seq<TokenV>, state: IfState },
    Aborted(ExpandErrV),
}

/// The decimal digit character of `d` (for `d < 10`).
pub open spec fn digit_char(d: nat) -> char {
    if d == 0 {
        '0'
    } else if d == 1 {
        '1'
    } else if d == 2 {
        '2'
    } else if d == 3 {
        '3'
    } else if d == 4 {
        '4'
    } else if d == 5 {
        '5'
    } else if d == 6 {
        '6'
    } else if d == 7 {
        '7'
    } else if d == 8 {
        '8'
    } else {
        '9'
    }
}

/// The decimal representation of `n`, most significant digit first, without
/// a suffix and without leading zeros (`0` itself excepted).
pub open spec fn dec_digits(n: nat) -> Seq<char>
    decreases n,
{
    if n < 10 {
        seq![digit_char(n)]
    } else {
        dec_digits(n / 10) + seq![digit_char(n % 10)]
    }
}

/// The source text of one token: an identifier's or literal's text, a
/// punctuation character, or a group's delimiters around its contents joined
/// by single spaces.
pub open spec fn token_text(t: TokenV) -> Seq<char>
    decreases t, 1int, 0int,
{
    match t {
        TokenV::Ident(s) => s,
        TokenV::Literal(s) => s,
        TokenV::Punct(c, _) => seq![c],
        TokenV::Group(d, ts) => match d {
            Delimiter::Parenthesis => seq!['('] + texts_join(ts, ", "@, 0) + seq![')'],
            Delimiter::Bracket => seq!['['] + texts_join(ts, ", "@, 0) + seq![']'],
            Delimiter::Brace => seq!['{'] + texts_join(ts, ", "@, 0) + seq!['}'],
            Delimiter::Bare => texts_join(ts, ", "@, 0),
        },
    }
}

/// The texts of the tokens `ts[j..]`, joined by `sep`.
pub open spec fn texts_join(ts: Seq<TokenV>, sep: Seq<char>, j: int) -> Seq<char>
    decreases ts, 2int, ts.len() - j,
{
    if !(0 <= j < ts.len()) {
        Seq::empty()
    } else if j == ts.len() - 1 {
        token_text(ts[j])
    } else {
        token_text(ts[j]) + sep + texts_join(ts, sep, j + 1)
    }
}

/// The text of the string literal that `concat` builds: the receiver name,
/// then the field identifiers comma-separated between braces, quoted.
pub open spec fn concat_text(receiver: Seq<TokenV>, fields: Seq<TokenV>) -> Seq<char> {
    seq!['"'] + texts_join(receiver, " "@, 0) + " { "@ + texts_join(fields, ", "@, 0) + " }"@
        + seq!['"']
}

/// What one builtin call emits: `first`/`last` the first/last token of their
/// one argument's capture — absent or empty captures fail; `count` one
/// unsuffixed decimal literal equal to the capture's token count; `concat`
/// one string literal joining a receiver name with its field identifiers.
/// A wrong argument count is an arity error.
pub open spec fn spec_call(m: CaptureV, func: Builtin, args: Vec<Path>) -> ExpV {
    match func {
        Builtin::First => if args@.len() != 1 {
            ExpV::Aborted(ExpandErrV::ArityError { func, got: args@.len() as int })
        } else {
            match cap_find(m, path_view(args@[0]), 0) {
                Option::None => ExpV::Aborted(
                    ExpandErrV::CaptureMissing { path: path_view(args@[0]) },
                ),
                Option::Some(ts) => if ts.len() == 0 {
                    ExpV::Aborted(ExpandErrV::CaptureEmpty { path: path_view(args@[0]) })
                } else {
                    ExpV::Done { out: seq![ts[0]], state: IfState::Unset }
                },
            }
        },
        Builtin::Last => if args@.len() != 1 {
            ExpV::Aborted(ExpandErrV::ArityError { func, got: args@.len() as int })
        } else {
            match cap_find(m, path_view(args@[0]), 0) {
                Option::None => ExpV::Aborted(
                    ExpandErrV::CaptureMissing { path: path_view(args@[0]) },
                ),
                Option::Some(ts) => if ts.len() == 0 {
                    ExpV::Aborted(ExpandErrV::CaptureEmpty { path: path_view(args@[0]) })
                } else {
                    ExpV::Done { out: seq![ts[ts.len() - 1]], state: IfState::Unset }
                },
            }
        },
        Builtin::Count => if args@.len() != 1 {
            ExpV::Aborted(ExpandErrV::ArityError { func, got: args@.len() as int })
        } else {
            match cap_find(m, path_view(args@[0]), 0) {
                Option::None => ExpV::Aborted(
                    ExpandErrV::CaptureMissing { path: path_view(args@[0]) },
                ),
                Option::Some(ts) => ExpV::Done {
                    out: seq![TokenV::Literal(dec_digits(ts.len()))],
                    state: IfState::Unset,
                },
            }
        },
        Builtin::Concat => if args@.len() != 2 {
            ExpV::Aborted(ExpandErrV::ArityError { func, got: args@.len() as int })
        } else {
            match cap_find(m, path_view(args@[0]), 0) {
                Option::None => ExpV::Aborted(
                    ExpandErrV::CaptureMissing { path: path_view(args@[0]) },
                ),
                Option::Some(receiver) => match cap_find(m, path_view(args@[1]), 0) {
                    Option::None => ExpV::Aborted(
                        ExpandErrV::CaptureMissing { path: path_view(args@[1]) },
                    ),
                    Option::Some(fields) => ExpV::Done {
                        out: seq![TokenV::Literal(concat_text(receiver, fields))],
                        state: IfState::Unset,
                    },
                },
            }
        },
    }
}

/// What one template entry emits against `m`, given the conditional state,
/// and the state it leaves behind. Verbatim tokens emit themselves and reset
/// the state (groups recurse with a fresh state); the special entries follow
/// the capture tree.
pub open spec fn spec_expand_entry(m: CaptureV, rep: Replacement, state: IfState) -> ExpV
    decreases rep, 1int, 0int,
{
    match rep {
        Replacement::Group(d, content) => match spec_expand_seq(m, content, 0, IfState::Unset) {
            ExpV::Done { out, state: _ } => ExpV::Done {
                out: seq![TokenV::Group(d, out)],
                state: IfState::Unset,
            },
            ab => ab,
        },
        Replacement::Ident(s) => ExpV::Done {
            out: seq![TokenV::Ident(s@)],
            state: IfState::Unset,
        },
        Replacement::Punct(c, sp) => ExpV::Done {
            out: seq![TokenV::Punct(c, sp)],
            state: IfState::Unset,
        },
        Replacement::Literal(s) => ExpV::Done {
            out: seq![TokenV::Literal(s@)],
            state: IfState::Unset,
        },
        Replacement::Special(sr) => match sr {
            SpecialReplacement::Path(p) => match cap_find(m, path_view(p), 0) {
                Option::Some(ts) => ExpV::Done { out: ts, state: IfState::Unset },
                Option::None => ExpV::Aborted(ExpandErrV::CaptureMissing { path: path_view(p) }),
            },
            SpecialReplacement::Call { func, args } => spec_call(m, func, args),
            SpecialReplacement::If { cond, body } => if cap_find(m, path_view(cond), 0) is Some {
                match spec_expand_seq(m, body, 0, IfState::Unset) {
                    ExpV::Done { out, state: _ } => ExpV::Done { out, state: IfState::Taken },
                    ab => ab,
                }
            } else {
                ExpV::Done { out: Seq::empty(), state: IfState::NotTaken }
            },
            SpecialReplacement::ElseIf { cond, body } => match state {
                IfState::Unset => ExpV::Aborted(ExpandErrV::ControlFlowMisuse),
                IfState::Taken => ExpV::Done { out: Seq::empty(), state: IfState::Taken },
                IfState::NotTaken => if cap_find(m, path_view(cond), 0) is Some {
                    match spec_expand_seq(m, body, 0, IfState::Unset) {
                        ExpV::Done { out, state: _ } => ExpV::Done { out, state: IfState::Taken },
                        ab => ab,
                    }
                } else {
                    ExpV::Done { out: Seq::empty(), state: IfState::NotTaken }
                },
            },
            SpecialReplacement::Else { body } => match state {
                IfState::Unset => ExpV::Aborted(ExpandErrV::ControlFlowMisuse),
                IfState::Taken => ExpV::Done { out: Seq::empty(), state: IfState::Unset },
                IfState::NotTaken => match spec_expand_seq(m, body, 0, IfState::Unset) {
                    ExpV::Done { out, state: _ } => ExpV::Done { out, state: IfState::Taken },
                    ab => ab,
                },
            },
            SpecialReplacement::For { binding, source, body } => match cap_find(
                m,
                path_view(source),
                0,
            ) {
                Option::None => ExpV::Done { out: Seq::empty(), state: IfState::NotTaken },
                Option::Some(elems) => match spec_for_iter(m, binding@, elems, 0, body) {
                    ExpV::Done { out, state: _ } => ExpV::Done {
                        out,
                        state: if elems.len() > 0 {
                            IfState::Taken
                        } else {
                            IfState::NotTaken
                        },
                    },
                    ab => ab,
                },
            },
        },
    }
}

/// One loop iteration per element: the body expanded against a working copy
/// of `m` whose `binding` child is replaced (not merged) by the single
/// current element, outputs appended in source order.
pub open spec fn spec_for_iter(
    m: CaptureV,
    binding: Seq<char>,
    elems: Seq<TokenV>,
    j: int,
    body: Vec<Replacement>,
) -> ExpV
    decreases body, 3int, elems.len() - j,
{
    if !(0 <= j < elems.len()) {
        ExpV::Done { out: Seq::empty(), state: IfState::Unset }
    } else {
        let m2 = CaptureV { tokens: m.tokens, children: cap_replace(m.children, binding, elems[j]) };
        match spec_expand_seq(m2, body, 0, IfState::Unset) {
            ExpV::Done { out: out1, state: _ } => match spec_for_iter(
                m,
                binding,
                elems,
                j + 1,
                body,
            ) {
                ExpV::Done { out: out2, state } => ExpV::Done { out: out1 + out2, state },
                ab => ab,
            },
            ab => ab,
        }
    }
}

/// What the template entries `reps[i..]` emit against `m`, given the
/// conditional state: each entry's output in order, stopping at the first
/// failure.
pub open spec fn spec_expand_seq(
    m: CaptureV,
    reps: Vec<Replacement>,
    i: int,
    state: IfState,
) -> ExpV
    decreases reps, 2int, reps@.len() - i,
{
    if !(0 <= i < reps@.len()) {
        ExpV::Done { out: Seq::empty(), state }
    } else {
        match spec_expand_entry(m, reps[i], state) {
            ExpV::Done { out: out1, state: st2 } => match spec_expand_seq(m, reps, i + 1, st2) {
                ExpV::Done { out: out2, state: stf } => ExpV::Done { out: out1 + out2, state: stf },
                ab => ab,
            },
            ab => ab,
        }
    }
}

/// What expanding a whole template against `m` emits.
pub open spec fn spec_expand(m: CaptureV, template: Vec<Replacement>) -> ExpV {
    spec_expand_seq(m, template, 0, IfState::Unset)
}


/// Relies on `String::push`: appends exactly the given character.
#[verifier::external_body]
fn push_char(s: &mut String, c: char)
    ensures
        final(s)@ == old(s)@.push(c),
{
    s.push(c);
}

/// The one-character decimal digit string of `d`.
fn digit_str(d: usize) -> (r: String)
    requires
        d < 10,
    ensures
        r@ == seq![digit_char(d as nat)],
{
    let mut s = String::new();
    let c: char = if d == 0 {
        '0'
    } else if d == 1 {
        '1'
    } else if d == 2 {
        '2'
    } else if d == 3 {
        '3'
    } else if d == 4 {
        '4'
    } else if d == 5 {
        '5'
    } else if d == 6 {
        '6'
    } else if d == 7 {
        '7'
    } else if d == 8 {
        '8'
    } else {
        '9'
    };
    push_char(&mut s, c);
    proof {
        assert(s@ =~= seq![digit_char(d as nat)]);
    }
    s
}

/// The decimal representation of `n`, unsuffixed.
pub fn usize_to_dec(n: usize) -> (r: String)
    ensures
        r@ == dec_digits(n as nat),
    decreases n,
{
    if n < 10 {
        digit_str(n)
    } else {
        let mut s = usize_to_dec(n / 10);
        let d = digit_str(n % 10);
        s.append(d.as_str());
        proof {
            assert(s@ =~= dec_digits(n as nat));
        }
        s
    }
}

/// The source text of one token; see [`token_text`].
pub fn token_text_str(t: &Token) -> (r: String)
    ensures
        r@ == token_text(crate::token::token_view(*t)),
    decreases t, 1int, 0int,
{
    match t {
        Token::Ident(s) => s.clone(),
        Token::Literal(s) => s.clone(),
        Token::Punct(c, _) => {
            let mut s = String::new();
            push_char(&mut s, *c);
            proof {
                assert(s@ =~= seq![*c]);
            }
            s
        },
        Token::Group(d, ts) => {
            let mut s = String::new();
            match d {
                Delimiter::Parenthesis => push_char(&mut s, '('),
                Delimiter::Bracket => push_char(&mut s, '['),
                Delimiter::Brace => push_char(&mut s, '{'),
                Delimiter::Bare => {},
            }
            let joined = texts_join_str(ts, ", ", 0);
            s.append(joined.as_str());
            match d {
                Delimiter::Parenthesis => push_char(&mut s, ')'),
                Delimiter::Bracket => push_char(&mut s, ']'),
                Delimiter::Brace => push_char(&mut s, '}'),
                Delimiter::Bare => {},
            }
            proof {
                assert(s@ =~= token_text(crate::token::token_view(*t)));
            }
            s
        },
    }
}

/// The texts of the tokens `ts[j..]` joined by `sep`; see [`texts_join`].
pub fn texts_join_str(ts: &Vec<Token>, sep: &str, j: usize) -> (r: String)
    ensures
        r@ == texts_join(tokens_view(*ts), sep@, j as int),
    decreases ts, 2int, ts@.len() - j,
{
    if j >= ts.len() {
        let s = String::new();
        proof {
            assert(s@ =~= texts_join(tokens_view(*ts), sep@, j as int));
        }
        s
    } else if j == ts.len() - 1 {
        assert(decreases_to!(ts => ts[j as int]));
        let s = token_text_str(&ts[j]);
        proof {
            assert(s@ =~= texts_join(tokens_view(*ts), sep@, j as int));
        }
        s
    } else {
        assert(decreases_to!(ts => ts[j as int]));
        let mut s = token_text_str(&ts[j]);
        s.append(sep);
        let rest = texts_join_str(ts, sep, j + 1);
        s.append(rest.as_str());
        proof {
            assert(s@ =~= texts_join(tokens_view(*ts), sep@, j as int));
        }
        s
    }
}

/// The text of the string literal that `concat` builds; see [`concat_text`].
fn concat_literal(receiver: &Vec<Token>, fields: &Vec<Token>) -> (r: String)
    ensures
        r@ == concat_text(tokens_view(*receiver), tokens_view(*fields)),
{
    let mut s = String::new();
    push_char(&mut s, '"');
    let a = texts_join_str(receiver, " ", 0);
    s.append(a.as_str());
    s.append(" { ");
    let b = texts_join_str(fields, ", ", 0);
    s.append(b.as_str());
    s.append(" }");
    push_char(&mut s, '"');
    proof {
        assert(s@ =~= concat_text(tokens_view(*receiver), tokens_view(*fields)));
    }
    s
}

/// Evaluates one builtin call, appending what it emits; see [`spec_call`].
fn expand_call(
    m: &Match,
    func: Builtin,
    args: &Vec<Path>,
    out: &mut Vec<Token>,
) -> (r: Result<IfState, ExpandErr>)
    ensures
        ({
            let ev = spec_call(match_view(*m), func, *args);
            match r {
                Result::Ok(st) => ev matches ExpV::Done { out: o, state: s } && s == st
                    && tokens_view(*final(out)) == tokens_view(*old(out)) + o,
                Result::Err(e) => ev == ExpV::Aborted(expand_err_view(e)),
            }
        }),
{
    let ghost out_in = tokens_view(*out);
    match func {
        Builtin::First => {
            if args.len() != 1 {
                return Err(ExpandErr::ArityError { func, got: args.len() });
            }
            match m.find_child(&args[0]) {
                None => Err(ExpandErr::CaptureMissing { path: args[0].deep_clone().segments }),
                Some(ts) => {
                    if ts.len() == 0 {
                        Err(ExpandErr::CaptureEmpty { path: args[0].deep_clone().segments })
                    } else {
                        let mut ts = ts;
                        let head = ts.remove(0);
                        out.push(head);
                        proof {
                            assert(tokens_view(*out) =~= out_in + seq![
                                crate::token::token_view(head),
                            ]);
                        }
                        Ok(IfState::Unset)
                    }
                },
            }
        },
        Builtin::Last => {
            if args.len() != 1 {
                return Err(ExpandErr::ArityError { func, got: args.len() });
            }
            match m.find_child(&args[0]) {
                None => Err(ExpandErr::CaptureMissing { path: args[0].deep_clone().segments }),
                Some(ts) => {
                    if ts.len() == 0 {
                        Err(ExpandErr::CaptureEmpty { path: args[0].deep_clone().segments })
                    } else {
                        let mut ts = ts;
                        let tail = ts.remove(ts.len() - 1);
                        out.push(tail);
                        proof {
                            assert(tokens_view(*out) =~= out_in + seq![
                                crate::token::token_view(tail),
                            ]);
                        }
                        Ok(IfState::Unset)
                    }
                },
            }
        },
        Builtin::Count => {
            if args.len() != 1 {
                return Err(ExpandErr::ArityError { func, got: args.len() });
            }
            match m.find_child(&args[0]) {
                None => Err(ExpandErr::CaptureMissing { path: args[0].deep_clone().segments }),
                Some(ts) => {
                    let lit = Token::Literal(usize_to_dec(ts.len()));
                    out.push(lit);
                    proof {
                        assert(tokens_view(*out) =~= out_in + seq![
                            crate::token::token_view(lit),
                        ]);
                    }
                    Ok(IfState::Unset)
                },
            }
        },
        Builtin::Concat => {
            if args.len() != 2 {
                return Err(ExpandErr::ArityError { func, got: args.len() });
            }
            match m.find_child(&args[0]) {
                None => Err(ExpandErr::CaptureMissing { path: args[0].deep_clone().segments }),
                Some(receiver) => match m.find_child(&args[1]) {
                    None => Err(ExpandErr::CaptureMissing {
                        path: args[1].deep_clone().segments,
                    }),
                    Some(fields) => {
                        let lit = Token::Literal(concat_literal(&receiver, &fields));
                        out.push(lit);
                        proof {
                            assert(tokens_view(*out) =~= out_in + seq![
                                crate::token::token_view(lit),
                            ]);
                        }
                        Ok(IfState::Unset)
                    },
                },
            }
        },
    }
}

/// Expands one template entry, appending what it emits and returning the
/// conditional state it leaves behind; see [`spec_expand_entry`].
fn expand_entry(
    m: &Match,
    rep: &Replacement,
    state: IfState,
    out: &mut Vec<Token>,
) -> (r: Result<IfState, ExpandErr>)
    ensures
        ({
            let ev = spec_expand_entry(match_view(*m), *rep, state);
            match r {
                Result::Ok(st) => ev matches ExpV::Done { out: o, state: s } && s == st
                    && tokens_view(*final(out)) == tokens_view(*old(out)) + o,
                Result::Err(e) => ev == ExpV::Aborted(expand_err_view(e)),
            }
        }),
    decreases rep, 1int, 0int,
{
    let ghost out_in = tokens_view(*out);
    match rep {
        Replacement::Group(d, content) => {
            let mut inner: Vec<Token> = Vec::new();
            match expand_seq(m, content, 0, IfState::Unset, &mut inner) {
                Err(e) => Err(e),
                Ok(_) => {
                    let g = Token::Group(*d, inner);
                    out.push(g);
                    proof {
                        assert(tokens_view(*out) =~= out_in + seq![
                            crate::token::token_view(g),
                        ]);
                        assert(crate::token::token_view(g) =~~= TokenV::Group(
                            *d,
                            spec_expand_seq(
                                match_view(*m),
                                *content,
                                0,
                                IfState::Unset,
                            )->Done_out,
                        ));
                    }
                    Ok(IfState::Unset)
                },
            }
        },
        Replacement::Ident(s) => {
            let t = Token::Ident(s.clone());
            out.push(t);
            proof {
                assert(tokens_view(*out) =~= out_in + seq![crate::token::token_view(t)]);
            }
            Ok(IfState::Unset)
        },
        Replacement::Punct(c, sp) => {
            let t = Token::Punct(*c, *sp);
            out.push(t);
            proof {
                assert(tokens_view(*out) =~= out_in + seq![crate::token::token_view(t)]);
            }
            Ok(IfState::Unset)
        },
        Replacement::Literal(s) => {
            let t = Token::Literal(s.clone());
            out.push(t);
            proof {
                assert(tokens_view(*out) =~= out_in + seq![crate::token::token_view(t)]);
            }
            Ok(IfState::Unset)
        },
        Replacement::Special(sr) => match sr {
            SpecialReplacement::Path(p) => match m.find_child(p) {
                None => Err(ExpandErr::CaptureMissing { path: p.deep_clone().segments }),
                Some(ts) => {
                    let mut ts = ts;
                    let ghost tsv = tokens_view(ts);
                    out.append(&mut ts);
                    proof {
                        assert(tokens_view(*out) =~= out_in + tsv);
                    }
                    Ok(IfState::Unset)
                },
            },
            SpecialReplacement::Call { func, args } => expand_call(m, *func, args, out),
            SpecialReplacement::If { cond, body } => match m.find_child(cond) {
                Some(_) => match expand_seq(m, body, 0, IfState::Unset, out) {
                    Err(e) => Err(e),
                    Ok(_) => Ok(IfState::Taken),
                },
                None => {
                    proof {
                        assert(tokens_view(*out) =~= out_in + Seq::<TokenV>::empty());
                    }
                    Ok(IfState::NotTaken)
                },
            },
            SpecialReplacement::ElseIf { cond, body } => match state {
                IfState::Unset => Err(ExpandErr::ControlFlowMisuse),
                IfState::Taken => {
                    proof {
                        assert(tokens_view(*out) =~= out_in + Seq::<TokenV>::empty());
                    }
                    Ok(IfState::Taken)
                },
                IfState::NotTaken => match m.find_child(cond) {
                    Some(_) => match expand_seq(m, body, 0, IfState::Unset, out) {
                        Err(e) => Err(e),
                        Ok(_) => Ok(IfState::Taken),
                    },
                    None => {
                        proof {
                            assert(tokens_view(*out) =~= out_in + Seq::<TokenV>::empty());
                        }
                        Ok(IfState::NotTaken)
                    },
                },
            },
            SpecialReplacement::Else { body } => match state {
                IfState::Unset => Err(ExpandErr::ControlFlowMisuse),
                IfState::Taken => {
                    proof {
                        assert(tokens_view(*out) =~= out_in + Seq::<TokenV>::empty());
                    }
                    Ok(IfState::Unset)
                },
                IfState::NotTaken => match expand_seq(m, body, 0, IfState::Unset, out) {
                    Err(e) => Err(e),
                    Ok(_) => Ok(IfState::Taken),
                },
            },
            SpecialReplacement::For { binding, source, body } => match m.find_child(source) {
                None => {
                    proof {
                        assert(tokens_view(*out) =~= out_in + Seq::<TokenV>::empty());
                    }
                    Ok(IfState::NotTaken)
                },
                Some(elems) => match expand_for(m, binding, &elems, 0, body, out) {
                    Err(e) => Err(e),
                    Ok(_) => {
                        if elems.len() > 0 {
                            Ok(IfState::Taken)
                        } else {
                            Ok(IfState::NotTaken)
                        }
                    },
                },
            },
        },
    }
}

/// Runs the loop body once per source element; see [`spec_for_iter`].
fn expand_for(
    m: &Match,
    binding: &String,
    elems: &Vec<Token>,
    j: usize,
    body: &Vec<Replacement>,
    out: &mut Vec<Token>,
) -> (r: Result<(), ExpandErr>)
    requires
        j <= elems@.len(),
    ensures
        ({
            let ev = spec_for_iter(
                match_view(*m),
                binding@,
                tokens_view(*elems),
                j as int,
                *body,
            );
            match r {
                Result::Ok(u) => ev matches ExpV::Done { out: o, .. } && tokens_view(*final(out))
                    == tokens_view(*old(out)) + o,
                Result::Err(e) => ev == ExpV::Aborted(expand_err_view(e)),
            }
        }),
    decreases body, 3int, elems@.len() - j,
{
    let ghost out_in = tokens_view(*out);
    if j == elems.len() {
        proof {
            assert(tokens_view(*out) =~= out_in + Seq::<TokenV>::empty());
        }
        Ok(())
    } else {
        assert(decreases_to!(elems => elems[j as int]));
        let mut m2 = m.deep_clone();
        m2.replace_child(binding, elems[j].deep_clone());
        proof {
            assert(match_view(m2) =~~= (CaptureV {
                tokens: match_view(*m).tokens,
                children: cap_replace(
                    match_view(*m).children,
                    binding@,
                    tokens_view(*elems)[j as int],
                ),
            }));
        }
        match expand_seq(&m2, body, 0, IfState::Unset, out) {
            Err(e) => Err(e),
            Ok(_) => {
                let ghost out_mid = tokens_view(*out);
                let r2 = expand_for(m, binding, elems, j + 1, body, out);
                proof {
                    if r2 is Ok {
                        let ev1 = spec_expand_seq(
                            match_view(m2),
                            *body,
                            0,
                            IfState::Unset,
                        );
                        let ev2 = spec_for_iter(
                            match_view(*m),
                            binding@,
                            tokens_view(*elems),
                            j as int + 1,
                            *body,
                        );
                        assert(tokens_view(*out) =~= out_in + (ev1->Done_out + ev2->Done_out));
                    }
                }
                r2
            },
        }
    }
}

/// Expands the template entries `reps[i..]`, appending what they emit; see
/// [`spec_expand_seq`].
pub(crate) fn expand_seq(
    m: &Match,
    reps: &Vec<Replacement>,
    i: usize,
    state: IfState,
    out: &mut Vec<Token>,
) -> (r: Result<IfState, ExpandErr>)
    requires
        i <= reps@.len(),
    ensures
        ({
            let ev = spec_expand_seq(match_view(*m), *reps, i as int, state);
            match r {
                Result::Ok(st) => ev matches ExpV::Done { out: o, state: s } && s == st
                    && tokens_view(*final(out)) == tokens_view(*old(out)) + o,
                Result::Err(e) => ev == ExpV::Aborted(expand_err_view(e)),
            }
        }),
    decreases reps, 2int, reps@.len() - i,
{
    let ghost out_in = tokens_view(*out);
    if i == reps.len() {
        proof {
            assert(tokens_view(*out) =~= out_in + Seq::<TokenV>::empty());
        }
        Ok(state)
    } else {
        assert(decreases_to!(reps => reps[i as int]));
        match expand_entry(m, &reps[i], state, out) {
            Err(e) => Err(e),
            Ok(st2) => {
                let ghost out_mid = tokens_view(*out);
                let r2 = expand_seq(m, reps, i + 1, st2, out);
                proof {
                    if r2 is Ok {
                        let ev1 = spec_expand_entry(match_view(*m), reps@[i as int], state);
                        let ev2 = spec_expand_seq(match_view(*m), *reps, i as int + 1, st2);
                        assert(tokens_view(*out) =~= out_in + (ev1->Done_out + ev2->Done_out));
                    }
                }
                r2
            },
        }
    }
}

/// Expands a whole template against a capture tree, producing the output
/// token sequence; see [`spec_expand`].
pub fn expand_template(m: &Match, template: &Vec<Replacement>) -> (r: Result<
    Vec<Token>,
    ExpandErr,
>)
    ensures
        ({
            let ev = spec_expand(match_view(*m), *template);
            match r {
                Result::Ok(ts) => ev matches ExpV::Done { out: o, .. } && tokens_view(ts) == o,
                Result::Err(e) => ev == ExpV::Aborted(expand_err_view(e)),
            }
        }),
{
    let mut out: Vec<Token> = Vec::new();
    proof {
        assert(tokens_view(out) =~= Seq::<TokenV>::empty());
    }
    match expand_seq(m, template, 0, IfState::Unset, &mut out) {
        Err(e) => Err(e),
        Ok(_) => {
            proof {
                let ev = spec_expand(match_view(*m), *template);
                assert(tokens_view(out) =~= Seq::<TokenV>::empty() + ev->Done_out);
            }
            Ok(out)
        },
    }
}

} // verus!

