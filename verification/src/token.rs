//! The token tree: the structural token representation that patterns are
//! matched against and that template expansion produces.
use vstd::prelude::*;

verus! {

/// The delimiter of a token group. `Bare` is the delimiter-less group used to
/// normalise a variable-length capture to a single addressable token.
#[derive(Clone, Copy, PartialEq, Eq, Structural, Debug)]
pub enum Delimiter {
    Parenthesis,
    Bracket,
    Brace,
    Bare,
}

/// Whether a punctuation token is immediately followed by another token that
/// forms a multi-character operator with it (`Joint`) or stands alone.
#[derive(Clone, Copy, PartialEq, Eq, Structural, Debug)]
pub enum Spacing {
    Joint,
    Alone,
}

/// One token of the generic token tree: a delimited group owning its
/// contents, an identifier, a punctuation character, or a literal kept as its
/// source text.
#[derive(Debug, PartialEq)]
pub enum Token {
    Group(Delimiter, Vec<Token>),
    Ident(String),
    Punct(char, Spacing),
    Literal(String),
}

/// The mathematical value of a [`Token`].
#[verifier::ext_equal]
pub ghost enum TokenV {
    Group(Delimiter, Seq<TokenV>),
    Ident(Seq<char>),
    Punct(char, Spacing),
    Literal(Seq<char>),
}

/// The mathematical value of a token.
pub open spec fn token_view(t: Token) -> TokenV
    decreases t, 0int,
{
    match t {
        Token::Group(d, ts) => TokenV::Group(d, tokens_view_from(ts, 0)),
        Token::Ident(s) => TokenV::Ident(s@),
        Token::Punct(c, sp) => TokenV::Punct(c, sp),
        Token::Literal(s) => TokenV::Literal(s@),
    }
}

/// The values of the tokens of `ts` from index `i` on.
pub open spec fn tokens_view_from(ts: Vec<Token>, i: int) -> Seq<TokenV>
    decreases ts, ts@.len() - i + 1,
{
    if 0 <= i < ts@.len() {
        seq![token_view(ts[i])] + tokens_view_from(ts, i + 1)
    } else {
        Seq::empty()
    }
}

/// The values of a whole token sequence.
pub open spec fn tokens_view(ts: Vec<Token>) -> Seq<TokenV> {
    tokens_view_from(ts, 0)
}

/// `tokens_view_from(ts, i)` lists the values of the tokens `ts[i..]`,
/// elementwise.
pub broadcast proof fn lemma_tokens_view_from(ts: Vec<Token>, i: int)
    requires
        0 <= i <= ts@.len(),
    ensures
        (#[trigger] tokens_view_from(ts, i)).len() == ts@.len() - i,
        forall|k: int|
            0 <= k < ts@.len() - i ==> tokens_view_from(ts, i)[k] == token_view(ts@[i + k]),
    decreases ts@.len() - i,
{
    if i < ts@.len() {
        lemma_tokens_view_from(ts, i + 1);
    }
}

/// `tokens_view` lists the values of the tokens of `ts`, elementwise.
pub broadcast proof fn lemma_tokens_view(ts: Vec<Token>)
    ensures
        (#[trigger] tokens_view(ts)).len() == ts@.len(),
        forall|k: int| 0 <= k < ts@.len() ==> tokens_view(ts)[k] == token_view(ts@[k]),
{
    lemma_tokens_view_from(ts, 0);
}

impl Token {
    /// A structural copy of the token.
    pub fn deep_clone(&self) -> (r: Token)
        ensures
            token_view(r) == token_view(*self),
        decreases self,
    {
        match self {
            Token::Group(d, ts) => {
                let r = Token::Group(*d, deep_clone_tokens(ts));
                proof {
                    lemma_tokens_view(r->Group_1);
                    lemma_tokens_view(*ts);
                    assert(token_view(r) =~~= token_view(*self));
                }
                r
            },
            Token::Ident(s) => Token::Ident(s.clone()),
            Token::Punct(c, sp) => Token::Punct(*c, *sp),
            Token::Literal(s) => Token::Literal(s.clone()),
        }
    }
}

/// A structural copy of a token sequence.
pub fn deep_clone_tokens(ts: &Vec<Token>) -> (r: Vec<Token>)
    ensures
        tokens_view(r) == tokens_view(*ts),
        r@.len() == ts@.len(),
    decreases ts,
{
    let mut r: Vec<Token> = Vec::new();
    let mut i: usize = 0;
    while i < ts.len()
        invariant
            i <= ts@.len(),
            r@.len() == i as int,
            forall|j: int| 0 <= j < i as int ==> token_view(r@[j]) == token_view(ts@[j]),
        decreases ts@.len() - i,
    {
        assert(decreases_to!(ts => ts[i as int]));
        r.push(ts[i].deep_clone());
        i = i + 1;
    }
    proof {
        lemma_tokens_view(r);
        lemma_tokens_view(*ts);
        assert(tokens_view(r) =~= tokens_view(*ts));
    }
    r
}

/// Copies the tokens of the half-open index range `start..end`.
pub fn clone_token_range(ts: &Vec<Token>, start: usize, end: usize) -> (r: Vec<Token>)
    requires
        start <= end <= ts@.len(),
    ensures
        tokens_view(r) == tokens_view(*ts).subrange(start as int, end as int),
        r@.len() == end - start,
{
    let mut r: Vec<Token> = Vec::new();
    let mut i: usize = start;
    while i < end
        invariant
            start <= i <= end <= ts@.len(),
            r@.len() == i - start,
            forall|j: int|
                0 <= j < r@.len() ==> token_view(r@[j]) == token_view(ts@[start as int + j]),
        decreases end - i,
    {
        assert(decreases_to!(ts => ts[i as int]));
        r.push(ts[i].deep_clone());
        i = i + 1;
    }
    proof {
        lemma_tokens_view(r);
        lemma_tokens_view(*ts);
        assert(tokens_view(r) =~= tokens_view(*ts).subrange(start as int, end as int));
    }
    r
}

} // verus!
