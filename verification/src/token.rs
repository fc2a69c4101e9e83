//! Token trees: the unit in which directive arguments are read.

use vstd::prelude::*;
use crate::text::push_char;

verus! {

/// The bracket kind of a group.
#[derive(Clone, Copy, Debug, PartialEq, Eq, Structural)]
pub enum Delimiter {
    Parenthesis,
    Brace,
    Bracket,
    /// No visible bracket.
    Invisible,
}

/// One token tree.
#[derive(Debug, PartialEq, Eq)]
pub enum Token {
    /// An identifier or keyword, by its text.
    Ident(String),
    /// A literal, by its source text (quotes included).
    Literal(String),
    /// One punctuation character; the flag says that the next token joins it.
    Punct(char, bool),
    /// A delimited group and the tokens inside it.
    Group(Delimiter, Vec<Token>),
}

/// The mathematical value of a [`Token`].
pub ghost enum SpecToken {
    Ident(Seq<char>),
    Literal(Seq<char>),
    Punct(char, bool),
    Group(Delimiter, Seq<SpecToken>),
}

/// The value of `t`.
pub open spec fn token_view(t: Token) -> SpecToken
    decreases t,
{
    match t {
        Token::Ident(s) => SpecToken::Ident(s@),
        Token::Literal(s) => SpecToken::Literal(s@),
        Token::Punct(c, j) => SpecToken::Punct(c, j),
        Token::Group(d, v) => SpecToken::Group(
            d,
            Seq::new(
                v@.len(),
                |i: int|
                    if 0 <= i < v@.len() {
                        token_view(v@[i])
                    } else {
                        arbitrary()
                    },
            ),
        ),
    }
}

impl DeepView for Token {
    type V = SpecToken;

    open spec fn deep_view(&self) -> SpecToken {
        token_view(*self)
    }
}

/// The value of a group is the group of the values of its tokens.
pub proof fn lemma_group_view(d: Delimiter, v: Vec<Token>)
    ensures
        Token::Group(d, v).deep_view() == SpecToken::Group(d, v.deep_view()),
{
    reveal_with_fuel(token_view, 2);
    assert(Token::Group(d, v).deep_view()->Group_1 =~= v.deep_view());
}

/// Whether `t` is the comma.
pub open spec fn is_comma(t: SpecToken) -> bool {
    t matches SpecToken::Punct(c, _) && c == ','
}

/// Whether `t` is the equals sign.
pub open spec fn is_equals(t: SpecToken) -> bool {
    t matches SpecToken::Punct(c, _) && c == '='
}

/// The text that opens a group.
pub open spec fn open_text(d: Delimiter) -> Seq<char> {
    match d {
        Delimiter::Parenthesis => seq!['('],
        Delimiter::Brace => seq!['{', ' '],
        Delimiter::Bracket => seq!['['],
        Delimiter::Invisible => Seq::empty(),
    }
}

/// The text that closes a group.
pub open spec fn close_text(d: Delimiter) -> Seq<char> {
    match d {
        Delimiter::Parenthesis => seq![')'],
        Delimiter::Brace => seq!['}'],
        Delimiter::Bracket => seq![']'],
        Delimiter::Invisible => Seq::empty(),
    }
}

/// What stands between the tokens `before` and the token after them: nothing
/// at the start and behind a joint punctuation character, else one space.
pub open spec fn separator(before: Seq<SpecToken>) -> Seq<char> {
    if before.len() == 0 || (before.last() matches SpecToken::Punct(_, joint) && joint) {
        Seq::empty()
    } else {
        seq![' ']
    }
}

/// The text of one token.
pub open spec fn render_token(t: SpecToken) -> Seq<char>
    decreases t, 0int,
{
    match t {
        SpecToken::Ident(s) => s,
        SpecToken::Literal(s) => s,
        SpecToken::Punct(c, _) => seq![c],
        SpecToken::Group(d, inner) => open_text(d) + render(inner) + (if d == Delimiter::Brace
            && inner.len() > 0 {
            seq![' ']
        } else {
            Seq::empty()
        }) + close_text(d),
    }
}

/// The text of a token sequence: the tokens' texts in order, one space
/// between two of them unless the first is a joint punctuation character.
pub open spec fn render(ts: Seq<SpecToken>) -> Seq<char>
    decreases ts, 1int,
{
    if ts.len() == 0 {
        Seq::empty()
    } else {
        render(ts.drop_last()) + separator(ts.drop_last()) + render_token(ts.last())
    }
}

impl Token {
    /// The identifier `text`.
    pub fn ident(text: &str) -> (r: Token)
        ensures
            r.deep_view() == SpecToken::Ident(text@),
    {
        Token::Ident(String::from_str(text))
    }

    /// The literal with the source text `text`.
    pub fn literal(text: &str) -> (r: Token)
        ensures
            r.deep_view() == SpecToken::Literal(text@),
    {
        Token::Literal(String::from_str(text))
    }

    /// The punctuation character `c`, not joined to what follows.
    pub fn punct(c: char) -> (r: Token)
        ensures
            r.deep_view() == SpecToken::Punct(c, false),
    {
        Token::Punct(c, false)
    }

    /// The group of `tokens` in parentheses.
    pub fn group(tokens: Vec<Token>) -> (r: Token)
        ensures
            r.deep_view() == SpecToken::Group(Delimiter::Parenthesis, tokens.deep_view()),
    {
        proof {
            lemma_group_view(Delimiter::Parenthesis, tokens);
        }
        Token::Group(Delimiter::Parenthesis, tokens)
    }

    /// Whether this token is the identifier `name`.
    pub fn is_ident(&self, name: &String) -> (r: bool)
        ensures
            r == (self.deep_view() == SpecToken::Ident(name@)),
    {
        match self {
            Token::Ident(s) => *s == *name,
            _ => false,
        }
    }

    /// Whether this token is the punctuation character `c`.
    pub fn is_punct(&self, c: char) -> (r: bool)
        ensures
            r == (self.deep_view() matches SpecToken::Punct(x, _) && x == c),
    {
        match self {
            Token::Punct(x, _) => *x == c,
            _ => false,
        }
    }
}

/// A copy of `t`.
pub fn clone_token(t: &Token) -> (r: Token)
    ensures
        r.deep_view() == t.deep_view(),
    decreases t,
{
    match t {
        Token::Ident(s) => Token::Ident(s.clone()),
        Token::Literal(s) => Token::Literal(s.clone()),
        Token::Punct(c, j) => Token::Punct(*c, *j),
        Token::Group(d, v) => {
            let mut inner: Vec<Token> = Vec::new();
            let mut i: usize = 0;
            while i < v.len()
                invariant
                    i <= v.len(),
                    inner.len() == i,
                    forall|k: int| 0 <= k < i ==> inner@[k].deep_view() == v@[k].deep_view(),
                    decreases_to!(t => v),
                decreases v.len() - i,
            {
                inner.push(clone_token(&v[i]));
                i += 1;
            }
            proof {
                lemma_group_view(*d, inner);
                lemma_group_view(*d, *v);
                assert(inner.deep_view() =~= v.deep_view());
            }
            Token::Group(*d, inner)
        }
    }
}

impl Clone for Token {
    fn clone(&self) -> (r: Self)
        ensures
            r.deep_view() == self.deep_view(),
    {
        clone_token(self)
    }
}

/// A copy of each token of `v`, in order.
pub fn clone_tokens(v: &Vec<Token>) -> (r: Vec<Token>)
    ensures
        r.deep_view() == v.deep_view(),
{
    let mut out: Vec<Token> = Vec::new();
    let mut i: usize = 0;
    while i < v.len()
        invariant
            i <= v.len(),
            out.len() == i,
            forall|k: int| 0 <= k < i ==> out@[k].deep_view() == v@[k].deep_view(),
        decreases v.len() - i,
    {
        out.push(clone_token(&v[i]));
        i += 1;
    }
    out
}

/// Appends the text of the one token `t` to `out`.
pub fn render_token_into(t: &Token, out: &mut String)
    ensures
        final(out)@ == old(out)@ + render_token(t.deep_view()),
    decreases t,
{
    match t {
        Token::Ident(s) => {
            out.append(s.as_str());
        },
        Token::Literal(s) => {
            out.append(s.as_str());
        },
        Token::Punct(c, _) => {
            push_char(out, *c);
        },
        Token::Group(d, inner) => {
            proof {
                lemma_group_view(*d, *inner);
            }
            match d {
                Delimiter::Parenthesis => {
                    push_char(out, '(');
                },
                Delimiter::Brace => {
                    push_char(out, '{');
                    push_char(out, ' ');
                },
                Delimiter::Bracket => {
                    push_char(out, '[');
                },
                Delimiter::Invisible => {},
            }
            render_into(inner, out);
            match d {
                Delimiter::Parenthesis => {
                    push_char(out, ')');
                },
                Delimiter::Brace => {
                    if inner.len() > 0 {
                        push_char(out, ' ');
                    }
                    push_char(out, '}');
                },
                Delimiter::Bracket => {
                    push_char(out, ']');
                },
                Delimiter::Invisible => {},
            }
        },
    }
}

/// Appends the text of `tokens` to `out`.
pub fn render_into(tokens: &Vec<Token>, out: &mut String)
    ensures
        final(out)@ == old(out)@ + render(tokens.deep_view()),
    decreases tokens,
{
    let ghost start = out@;
    let ghost all = tokens.deep_view();
    let mut i: usize = 0;
    let mut joint = false;
    while i < tokens.len()
        invariant
            i <= tokens.len(),
            all == tokens.deep_view(),
            out@ == start + render(all.subrange(0, i as int)),
            joint == (i > 0 && (all[i - 1] matches SpecToken::Punct(_, j) && j)),
        decreases tokens.len() - i,
    {
        let ghost before = all.subrange(0, i as int);
        let ghost upto = all.subrange(0, i + 1);
        proof {
            assert(upto.drop_last() =~= before);
        }
        if i != 0 && !joint {
            push_char(out, ' ');
        }
        joint = match &tokens[i] {
            Token::Punct(_, j) => *j,
            _ => false,
        };
        render_token_into(&tokens[i], out);
        i += 1;
    }
    assert(all.subrange(0, i as int) =~= all);
}

/// The text of `tokens`.
pub fn render_tokens(tokens: &Vec<Token>) -> (r: String)
    ensures
        r@ == render(tokens.deep_view()),
{
    let mut out = String::new();
    render_into(tokens, &mut out);
    out
}

} // verus!
