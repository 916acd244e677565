//! Lexing of a declaration batch into tokens: words, punctuation marks
//! (with `::` and `->` kept as single marks) and string literals.

use vstd::prelude::*;
use vstd::string::*;

verus! {

/// The kind of a token.
#[derive(Clone, Copy, Debug, PartialEq, Eq, Structural)]
pub enum TokenKind {
    /// A maximal run of word characters (letters, digits, underscores).
    Word,
    /// A punctuation mark.
    Sym,
    /// A string literal, kept with its quotes and escapes as written.
    Lit,
}

/// Mathematical view of a token.
pub struct TokenView {
    pub kind: TokenKind,
    pub text: Seq<char>,
}

/// A token of the declaration batch.
pub struct Token {
    pub kind: TokenKind,
    pub text: String,
}

impl View for Token {
    type V = TokenView;

    open spec fn view(&self) -> TokenView {
        TokenView { kind: self.kind, text: self.text@ }
    }
}

/// Word characters: letters, digits and underscores.
pub open spec fn is_word_char(c: char) -> bool {
    ('a' <= c && c <= 'z') || ('A' <= c && c <= 'Z') || ('0' <= c && c <= '9') || c == '_'
}

/// Whitespace.
pub open spec fn is_space_char(c: char) -> bool {
    c == ' ' || c == '\n' || c == '\t' || c == '\r'
}

/// Punctuation marks that always stand alone.
pub open spec fn is_solo_sym(c: char) -> bool {
    c == '#' || c == '[' || c == ']' || c == '(' || c == ')' || c == '{' || c == '}' || c == ','
        || c == ';' || c == '*' || c == '&' || c == '<' || c == '>' || c == '=' || c == '!'
        || c == '.' || c == '\''
}

/// End of the run of word characters starting at `i`.
pub open spec fn word_end(s: Seq<char>, i: int) -> int
    decreases s.len() - i when 0 <= i <= s.len()
{
    if i < s.len() && is_word_char(s[i]) {
        word_end(s, i + 1)
    } else {
        i
    }
}

pub proof fn lemma_word_end_bounds(s: Seq<char>, i: int)
    requires
        0 <= i <= s.len(),
    ensures
        i <= word_end(s, i) <= s.len(),
    decreases s.len() - i,
{
    if i < s.len() && is_word_char(s[i]) {
        lemma_word_end_bounds(s, i + 1);
    }
}

/// Position just after the closing quote of a string literal whose body
/// starts at `i` (the opening quote already consumed). A backslash escapes
/// the character after it. `None` if the literal never closes.
pub open spec fn lit_end(s: Seq<char>, i: int) -> Option<int>
    decreases s.len() - i when 0 <= i <= s.len()
{
    if i >= s.len() {
        None
    } else if s[i] == '"' {
        Some(i + 1)
    } else if s[i] == '\\' {
        if i + 1 < s.len() {
            lit_end(s, i + 2)
        } else {
            None
        }
    } else {
        lit_end(s, i + 1)
    }
}

pub proof fn lemma_lit_end_bounds(s: Seq<char>, i: int)
    requires
        0 <= i <= s.len(),
    ensures
        match lit_end(s, i) {
            Some(j) => i < j <= s.len(),
            None => true,
        },
    decreases s.len() - i,
{
    if i < s.len() && s[i] != '"' {
        if s[i] == '\\' {
            if i + 1 < s.len() {
                lemma_lit_end_bounds(s, i + 2);
            }
        } else {
            lemma_lit_end_bounds(s, i + 1);
        }
    }
}

/// The tokens of `s` from position `i` on; `None` on a character that fits
/// no token form.
pub open spec fn spec_tokenize_from(s: Seq<char>, i: int) -> Option<Seq<TokenView>>
    decreases s.len() - i when 0 <= i <= s.len()
        via spec_tokenize_from_decreases
{
    if i >= s.len() {
        Some(Seq::empty())
    } else if is_space_char(s[i]) {
        spec_tokenize_from(s, i + 1)
    } else if is_word_char(s[i]) {
        let j = word_end(s, i);
        opt_prepend(
            seq![TokenView { kind: TokenKind::Word, text: s.subrange(i, j) }],
            spec_tokenize_from(s, j),
        )
    } else if s[i] == '"' {
        match lit_end(s, i + 1) {
            Some(j) => opt_prepend(
                seq![TokenView { kind: TokenKind::Lit, text: s.subrange(i, j) }],
                spec_tokenize_from(s, j),
            ),
            None => None,
        }
    } else if s[i] == ':' && i + 1 < s.len() && s[i + 1] == ':' {
        opt_prepend(
            seq![TokenView { kind: TokenKind::Sym, text: "::"@ }],
            spec_tokenize_from(s, i + 2),
        )
    } else if s[i] == '-' && i + 1 < s.len() && s[i + 1] == '>' {
        opt_prepend(
            seq![TokenView { kind: TokenKind::Sym, text: "->"@ }],
            spec_tokenize_from(s, i + 2),
        )
    } else if s[i] == ':' || s[i] == '-' || is_solo_sym(s[i]) {
        opt_prepend(
            seq![TokenView { kind: TokenKind::Sym, text: s.subrange(i, i + 1) }],
            spec_tokenize_from(s, i + 1),
        )
    } else {
        None
    }
}

#[via_fn]
proof fn spec_tokenize_from_decreases(s: Seq<char>, i: int) {
    if 0 <= i <= s.len() && i < s.len() {
        if is_word_char(s[i]) && !is_space_char(s[i]) {
            lemma_word_end_bounds(s, i + 1);
        } else if s[i] == '"' {
            lemma_lit_end_bounds(s, i + 1);
        }
    }
}

/// The tokens of a whole declaration batch.
pub open spec fn spec_tokenize(s: Seq<char>) -> Option<Seq<TokenView>> {
    spec_tokenize_from(s, 0)
}

/// The views of a vector of tokens.
pub open spec fn token_views(ts: Seq<Token>) -> Seq<TokenView> {
    ts.map_values(|t: Token| t@)
}

/// Prepend a sequence of tokens onto an optional tail.
pub open spec fn opt_prepend(a: Seq<TokenView>, o: Option<Seq<TokenView>>) -> Option<
    Seq<TokenView>,
> {
    match o {
        Some(b) => Some(a + b),
        None => None,
    }
}

/// After pushing one token, the prepend composition refolds around the
/// grown token vector.
proof fn lemma_tok_step(
    pre: Seq<Token>,
    post: Seq<Token>,
    tv: TokenView,
    rest: Option<Seq<TokenView>>,
)
    requires
        post.len() == pre.len() + 1,
        post.subrange(0, pre.len() as int) == pre,
        post.last()@ == tv,
    ensures
        opt_prepend(token_views(pre), opt_prepend(seq![tv], rest)) == opt_prepend(
            token_views(post),
            rest,
        ),
{
    assert(token_views(post) =~= token_views(pre) + seq![tv]);
    if rest is Some {
        let b = rest->0;
        assert(token_views(pre) + (seq![tv] + b) =~= (token_views(pre) + seq![tv]) + b);
    }
}

fn is_word_char_x(c: char) -> (b: bool)
    ensures
        b == is_word_char(c),
{
    ('a' <= c && c <= 'z') || ('A' <= c && c <= 'Z') || ('0' <= c && c <= '9') || c == '_'
}

fn is_space_char_x(c: char) -> (b: bool)
    ensures
        b == is_space_char(c),
{
    c == ' ' || c == '\n' || c == '\t' || c == '\r'
}

fn is_solo_sym_x(c: char) -> (b: bool)
    ensures
        b == is_solo_sym(c),
{
    c == '#' || c == '[' || c == ']' || c == '(' || c == ')' || c == '{' || c == '}' || c == ','
        || c == ';' || c == '*' || c == '&' || c == '<' || c == '>' || c == '=' || c == '!'
        || c == '.' || c == '\''
}

/// Find the end of the word-character run starting at `start`.
fn scan_word_end(s: &str, start: usize) -> (j: usize)
    requires
        start <= s@.len(),
    ensures
        j as int == word_end(s@, start as int),
        start <= j <= s@.len(),
{
    let n = s.unicode_len();
    let mut j = start;
    while j < n && is_word_char_x(s.get_char(j))
        invariant
            n == s@.len(),
            start <= j <= n,
            word_end(s@, start as int) == word_end(s@, j as int),
        decreases n - j,
    {
        j += 1;
    }
    j
}

/// Find the position after the closing quote of the literal whose body
/// starts at `start`.
fn scan_lit_end(s: &str, start: usize) -> (r: Option<usize>)
    requires
        start <= s@.len(),
    ensures
        match r {
            Some(j) => lit_end(s@, start as int) == Some(j as int) && start < j <= s@.len(),
            None => lit_end(s@, start as int) is None,
        },
{
    let n = s.unicode_len();
    let mut j = start;
    loop
        invariant_except_break
            n == s@.len(),
            start <= j <= n,
            lit_end(s@, start as int) == lit_end(s@, j as int),
        ensures
            n == s@.len(),
            lit_end(s@, start as int) == Some(j as int),
            start < j <= n,
        decreases n - j,
    {
        if j >= n {
            assert(lit_end(s@, j as int) is None);
            return None;
        }
        let cj = s.get_char(j);
        if cj == '"' {
            j += 1;
            break;
        } else if cj == '\\' {
            if j + 1 >= n {
                assert(lit_end(s@, j as int) is None);
                return None;
            }
            j += 2;
        } else {
            j += 1;
        }
    }
    Some(j)
}

/// Lex the whole batch. Returns the token list, or `None` exactly when the
/// batch holds a character that fits no token form or an unclosed literal.
#[verifier::loop_isolation(false)]
pub fn tokenize(s: &str) -> (r: Option<Vec<Token>>)
    ensures
        match r {
            Some(ts) => spec_tokenize(s@) == Some(token_views(ts@)),
            None => spec_tokenize(s@) is None,
        },
{
    let n = s.unicode_len();
    let mut toks: Vec<Token> = Vec::new();
    let mut i: usize = 0;
    loop
        invariant
            n == s@.len(),
            i <= n,
            spec_tokenize(s@) == opt_prepend(token_views(toks@), spec_tokenize_from(s@, i as int)),
        decreases n - i,
    {
        if i >= n {
            proof {
                assert(token_views(toks@) + Seq::<TokenView>::empty() =~= token_views(toks@));
            }
            return Some(toks);
        }
        let c = s.get_char(i);
        if is_space_char_x(c) {
            i += 1;
        } else if is_word_char_x(c) {
            let j = scan_word_end(s, i);
            assert(i < j) by {
                assert(word_end(s@, i as int) == word_end(s@, i + 1));
                lemma_word_end_bounds(s@, i + 1);
            }
            let text = s.substring_char(i, j).to_owned();
            let ghost pre = toks@;
            let ghost tv = TokenView { kind: TokenKind::Word, text: s@.subrange(i as int, j as int) };
            let ghost rest = spec_tokenize_from(s@, j as int);
            toks.push(Token { kind: TokenKind::Word, text });
            proof {
                assert(toks@.subrange(0, pre.len() as int) =~= pre);
                lemma_tok_step(pre, toks@, tv, rest);
            }
            i = j;
        } else if c == '"' {
            let j = match scan_lit_end(s, i + 1) {
                Some(j) => j,
                None => {
                    return None;
                },
            };
            let text = s.substring_char(i, j).to_owned();
            let ghost pre = toks@;
            let ghost tv = TokenView { kind: TokenKind::Lit, text: s@.subrange(i as int, j as int) };
            let ghost rest = spec_tokenize_from(s@, j as int);
            toks.push(Token { kind: TokenKind::Lit, text });
            proof {
                assert(toks@.subrange(0, pre.len() as int) =~= pre);
                lemma_tok_step(pre, toks@, tv, rest);
            }
            i = j;
        } else if c == ':' && i + 1 < n && s.get_char(i + 1) == ':' {
            let ghost pre = toks@;
            let ghost tv = TokenView { kind: TokenKind::Sym, text: "::"@ };
            let ghost rest = spec_tokenize_from(s@, i + 2);
            toks.push(Token { kind: TokenKind::Sym, text: "::".to_owned() });
            proof {
                assert(toks@.subrange(0, pre.len() as int) =~= pre);
                lemma_tok_step(pre, toks@, tv, rest);
            }
            i += 2;
        } else if c == '-' && i + 1 < n && s.get_char(i + 1) == '>' {
            let ghost pre = toks@;
            let ghost tv = TokenView { kind: TokenKind::Sym, text: "->"@ };
            let ghost rest = spec_tokenize_from(s@, i + 2);
            toks.push(Token { kind: TokenKind::Sym, text: "->".to_owned() });
            proof {
                assert(toks@.subrange(0, pre.len() as int) =~= pre);
                lemma_tok_step(pre, toks@, tv, rest);
            }
            i += 2;
        } else if c == ':' || c == '-' || is_solo_sym_x(c) {
            let text = s.substring_char(i, i + 1).to_owned();
            let ghost pre = toks@;
            let ghost tv = TokenView { kind: TokenKind::Sym, text: s@.subrange(i as int, i + 1) };
            let ghost rest = spec_tokenize_from(s@, i + 1);
            toks.push(Token { kind: TokenKind::Sym, text });
            proof {
                assert(toks@.subrange(0, pre.len() as int) =~= pre);
                lemma_tok_step(pre, toks@, tv, rest);
            }
            i += 1;
        } else {
            assert(spec_tokenize_from(s@, i as int) is None);
            return None;
        }
    }
}

} // verus!
