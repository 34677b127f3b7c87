//! Builders for the token sequences the host entry points emit around the
//! engine: the forwarding declaration registered for a rule set, and the
//! wrappers that hand a decorated item to a named macro.
use vstd::prelude::*;

use crate::expand::{dec_digits, usize_to_dec};
use crate::token::{Delimiter, Spacing, Token, TokenV, deep_clone_tokens, token_view, tokens_view,
    lemma_tokens_view};

verus! {

broadcast use crate::token::lemma_tokens_view;

/// The value of the forwarder declared for a registered rule set: a
/// `macro_rules` definition of `name` that swallows any token trees and hands
/// them on to the engine's expansion entry point together with the name and
/// the registered version.
pub open spec fn rules_shim_view(name: Seq<char>, version: nat) -> Seq<TokenV> {
    seq![
        TokenV::Ident("macro_rules"@),
        TokenV::Punct('!', Spacing::Alone),
        TokenV::Ident(name),
        TokenV::Group(
            Delimiter::Brace,
            seq![
                TokenV::Group(
                    Delimiter::Parenthesis,
                    seq![
                        TokenV::Punct('$', Spacing::Alone),
                        TokenV::Group(
                            Delimiter::Parenthesis,
                            seq![
                                TokenV::Punct('$', Spacing::Alone),
                                TokenV::Ident("t"@),
                                TokenV::Punct(':', Spacing::Alone),
                                TokenV::Ident("tt"@),
                            ],
                        ),
                        TokenV::Punct('*', Spacing::Alone),
                    ],
                ),
                TokenV::Punct('=', Spacing::Joint),
                TokenV::Punct('>', Spacing::Alone),
                TokenV::Group(
                    Delimiter::Brace,
                    seq![
                        TokenV::Punct(':', Spacing::Joint),
                        TokenV::Punct(':', Spacing::Alone),
                        TokenV::Ident("inception"@),
                        TokenV::Punct(':', Spacing::Joint),
                        TokenV::Punct(':', Spacing::Alone),
                        TokenV::Ident("expand"@),
                        TokenV::Punct('!', Spacing::Alone),
                        TokenV::Group(
                            Delimiter::Brace,
                            seq![
                                TokenV::Ident(name),
                                TokenV::Literal(dec_digits(version)),
                                TokenV::Group(
                                    Delimiter::Brace,
                                    seq![
                                        TokenV::Punct('$', Spacing::Alone),
                                        TokenV::Group(
                                            Delimiter::Parenthesis,
                                            seq![
                                                TokenV::Punct('$', Spacing::Joint),
                                                TokenV::Ident("t"@),
                                            ],
                                        ),
                                        TokenV::Punct('*', Spacing::Alone),
                                    ],
                                ),
                            ],
                        ),
                    ],
                ),
                TokenV::Punct(';', Spacing::Alone),
            ],
        ),
    ]
}

/// Builds the forwarder for a rule set registered under `name` with the given
/// version; see [`rules_shim_view`].
#[verifier::rlimit(60)]
pub fn rules_shim(name: &String, version: usize) -> (r: Vec<Token>)
    ensures
        tokens_view(r) == rules_shim_view(name@, version as nat),
{
    let mut matcher_inner: Vec<Token> = Vec::new();
    matcher_inner.push(Token::Punct('$', Spacing::Alone));
    matcher_inner.push(Token::Ident("t".to_owned()));
    matcher_inner.push(Token::Punct(':', Spacing::Alone));
    matcher_inner.push(Token::Ident("tt".to_owned()));
    let ghost g_mi = matcher_inner;
    let mut matcher: Vec<Token> = Vec::new();
    matcher.push(Token::Punct('$', Spacing::Alone));
    matcher.push(Token::Group(Delimiter::Parenthesis, matcher_inner));
    matcher.push(Token::Punct('*', Spacing::Alone));
    let ghost g_matcher = matcher;

    let mut forward_inner: Vec<Token> = Vec::new();
    forward_inner.push(Token::Punct('$', Spacing::Joint));
    forward_inner.push(Token::Ident("t".to_owned()));
    let ghost g_fi = forward_inner;
    let mut forward: Vec<Token> = Vec::new();
    forward.push(Token::Punct('$', Spacing::Alone));
    forward.push(Token::Group(Delimiter::Parenthesis, forward_inner));
    forward.push(Token::Punct('*', Spacing::Alone));
    let ghost g_forward = forward;

    let mut invocation: Vec<Token> = Vec::new();
    invocation.push(Token::Ident(name.clone()));
    invocation.push(Token::Literal(usize_to_dec(version)));
    invocation.push(Token::Group(Delimiter::Brace, forward));
    let ghost g_invocation = invocation;

    let mut body: Vec<Token> = Vec::new();
    body.push(Token::Punct(':', Spacing::Joint));
    body.push(Token::Punct(':', Spacing::Alone));
    body.push(Token::Ident("inception".to_owned()));
    body.push(Token::Punct(':', Spacing::Joint));
    body.push(Token::Punct(':', Spacing::Alone));
    body.push(Token::Ident("expand".to_owned()));
    body.push(Token::Punct('!', Spacing::Alone));
    body.push(Token::Group(Delimiter::Brace, invocation));
    let ghost g_body = body;

    let mut arm: Vec<Token> = Vec::new();
    arm.push(Token::Group(Delimiter::Parenthesis, matcher));
    arm.push(Token::Punct('=', Spacing::Joint));
    arm.push(Token::Punct('>', Spacing::Alone));
    arm.push(Token::Group(Delimiter::Brace, body));
    arm.push(Token::Punct(';', Spacing::Alone));
    let ghost g_arm = arm;

    let mut r: Vec<Token> = Vec::new();
    r.push(Token::Ident("macro_rules".to_owned()));
    r.push(Token::Punct('!', Spacing::Alone));
    r.push(Token::Ident(name.clone()));
    r.push(Token::Group(Delimiter::Brace, arm));
    proof {
        assert(tokens_view(g_mi) =~= seq![
            TokenV::Punct('$', Spacing::Alone),
            TokenV::Ident("t"@),
            TokenV::Punct(':', Spacing::Alone),
            TokenV::Ident("tt"@),
        ]);
        assert(tokens_view(g_matcher) =~~= seq![
            TokenV::Punct('$', Spacing::Alone),
            TokenV::Group(
                Delimiter::Parenthesis,
                seq![
                    TokenV::Punct('$', Spacing::Alone),
                    TokenV::Ident("t"@),
                    TokenV::Punct(':', Spacing::Alone),
                    TokenV::Ident("tt"@),
                ],
            ),
            TokenV::Punct('*', Spacing::Alone),
        ]);
        assert(tokens_view(g_fi) =~= seq![
            TokenV::Punct('$', Spacing::Joint),
            TokenV::Ident("t"@),
        ]);
        assert(tokens_view(g_forward) =~~= seq![
            TokenV::Punct('$', Spacing::Alone),
            TokenV::Group(
                Delimiter::Parenthesis,
                seq![TokenV::Punct('$', Spacing::Joint), TokenV::Ident("t"@)],
            ),
            TokenV::Punct('*', Spacing::Alone),
        ]);
        assert(tokens_view(g_invocation) =~~= seq![
            TokenV::Ident(name@),
            TokenV::Literal(dec_digits(version as nat)),
            TokenV::Group(Delimiter::Brace, tokens_view(g_forward)),
        ]);
        assert(tokens_view(g_body) =~~= seq![
            TokenV::Punct(':', Spacing::Joint),
            TokenV::Punct(':', Spacing::Alone),
            TokenV::Ident("inception"@),
            TokenV::Punct(':', Spacing::Joint),
            TokenV::Punct(':', Spacing::Alone),
            TokenV::Ident("expand"@),
            TokenV::Punct('!', Spacing::Alone),
            TokenV::Group(Delimiter::Brace, tokens_view(g_invocation)),
        ]);
        assert(tokens_view(g_arm) =~~= seq![
            TokenV::Group(Delimiter::Parenthesis, tokens_view(g_matcher)),
            TokenV::Punct('=', Spacing::Joint),
            TokenV::Punct('>', Spacing::Alone),
            TokenV::Group(Delimiter::Brace, tokens_view(g_body)),
            TokenV::Punct(';', Spacing::Alone),
        ]);
        assert(tokens_view(r) =~~= seq![
            TokenV::Ident("macro_rules"@),
            TokenV::Punct('!', Spacing::Alone),
            TokenV::Ident(name@),
            TokenV::Group(Delimiter::Brace, tokens_view(g_arm)),
        ]);
        assert(tokens_view(r) =~~= rules_shim_view(name@, version as nat));
    }
    r
}

/// The value of one forwarded invocation `name ! { item }`.
pub open spec fn invocation_view(name: Seq<char>, item: Seq<TokenV>) -> Seq<TokenV> {
    seq![
        TokenV::Ident(name),
        TokenV::Punct('!', Spacing::Alone),
        TokenV::Group(Delimiter::Brace, item),
    ]
}

/// Builds `name ! { item }`: how a decorated item is handed to one macro.
pub fn attr_expansion(name: &String, item: &Vec<Token>) -> (r: Vec<Token>)
    ensures
        tokens_view(r) == invocation_view(name@, tokens_view(*item)),
{
    let mut r: Vec<Token> = Vec::new();
    r.push(Token::Ident(name.clone()));
    r.push(Token::Punct('!', Spacing::Alone));
    r.push(Token::Group(Delimiter::Brace, deep_clone_tokens(item)));
    proof {
        assert(tokens_view(r) =~~= invocation_view(name@, tokens_view(*item)));
    }
    r
}

/// The value of a derive expansion: the item itself, then one forwarded
/// invocation per requested macro name, in order.
pub open spec fn derive_view(names: Seq<Seq<char>>, item: Seq<TokenV>, i: int) -> Seq<TokenV>
    decreases names.len() - i,
{
    if 0 <= i < names.len() {
        invocation_view(names[i], item) + derive_view(names, item, i + 1)
    } else {
        Seq::empty()
    }
}

/// Builds the derive expansion: the decorated item kept as it is, followed by
/// `name ! { item }` for each requested macro name, in order.
pub fn derive_expansion(names: &Vec<String>, item: &Vec<Token>) -> (r: Vec<Token>)
    ensures
        tokens_view(r) == tokens_view(*item) + derive_view(
            Seq::new(names@.len(), |i: int| names@[i]@),
            tokens_view(*item),
            0,
        ),
{
    let ghost namesv = Seq::new(names@.len(), |i: int| names@[i]@);
    let ghost itemv = tokens_view(*item);
    let mut r = deep_clone_tokens(item);
    let mut i: usize = 0;
    proof {
        assert(tokens_view(r) =~= itemv + Seq::<TokenV>::empty());
    }
    while i < names.len()
        invariant
            i <= names@.len(),
            namesv == Seq::new(names@.len(), |k: int| names@[k]@),
            itemv == tokens_view(*item),
            tokens_view(r) + derive_view(namesv, itemv, i as int) == itemv + derive_view(
                namesv,
                itemv,
                0,
            ),
        decreases names@.len() - i,
    {
        let ghost before = tokens_view(r);
        let mut one = attr_expansion(&names[i], item);
        let ghost onev = tokens_view(one);
        r.append(&mut one);
        proof {
            assert(tokens_view(r) =~= before + onev);
            assert(onev =~= invocation_view(namesv[i as int], itemv));
            assert(tokens_view(r) + derive_view(namesv, itemv, i as int + 1) =~= before + (
            invocation_view(namesv[i as int], itemv) + derive_view(namesv, itemv, i as int + 1)));
            assert(invocation_view(namesv[i as int], itemv) + derive_view(
                namesv,
                itemv,
                i as int + 1,
            ) =~= derive_view(namesv, itemv, i as int));
        }
        i = i + 1;
    }
    proof {
        assert(derive_view(namesv, itemv, names@.len() as int) =~= Seq::<TokenV>::empty());
        assert(tokens_view(r) =~= tokens_view(r) + Seq::<TokenV>::empty());
    }
    r
}

} // verus!
