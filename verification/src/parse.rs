//! The declaration loader: a recursive-descent parser over the token list.
//!
//! Two declaration shapes are accepted and normalized into the same function
//! record: declarations inside a foreign-linkage block, and free function
//! declarations at the top level. Only declarations whose name begins with
//! the library prefix are retained. Any parameter that is not a plain
//! `name: type` binding is dropped from its parameter list; a batch that fits
//! neither shape is a parse error.

use vstd::prelude::*;
use vstd::string::*;
use crate::model::{arg_views, func_views, ArgView, FuncView, LvArg, LvFunc};
use crate::strutil::{is_prefix, str_eq, str_starts_with};
use crate::token::{Token, TokenKind, TokenView, token_views, spec_tokenize, tokenize};
use crate::types::LvType;
use crate::spec_lib_prefix;

verus! {

/// The batch is not syntactically valid: no partial result is returned.
#[derive(Clone, Copy, Debug, PartialEq, Eq, Structural)]
pub enum ParseError {
    Malformed,
}

/// The token at `i` is the punctuation mark `x`.
pub open spec fn at_sym(ts: Seq<TokenView>, i: int, x: Seq<char>) -> bool {
    0 <= i < ts.len() && ts[i].kind == TokenKind::Sym && ts[i].text == x
}

/// The token at `i` is the word `x`.
pub open spec fn at_word(ts: Seq<TokenView>, i: int, x: Seq<char>) -> bool {
    0 <= i < ts.len() && ts[i].kind == TokenKind::Word && ts[i].text == x
}

/// The token at `i` is some word.
pub open spec fn at_any_word(ts: Seq<TokenView>, i: int) -> bool {
    0 <= i < ts.len() && ts[i].kind == TokenKind::Word
}

/// The keyword that opens a foreign-linkage block.
pub open spec fn foreign_kw() -> Seq<char> {
    seq!['e', 'x', 't', 'e', 'r', 'n']
}

/// Position after the bracket that closes `depth` open `open`-brackets,
/// scanning from `i`.
pub open spec fn group_end(
    ts: Seq<TokenView>,
    i: int,
    open: Seq<char>,
    close: Seq<char>,
    depth: int,
) -> Option<int>
    decreases ts.len() - i when 0 <= i <= ts.len() && depth >= 1
{
    if i >= ts.len() {
        None
    } else if at_sym(ts, i, open) {
        group_end(ts, i + 1, open, close, depth + 1)
    } else if at_sym(ts, i, close) {
        if depth == 1 {
            Some(i + 1)
        } else {
            group_end(ts, i + 1, open, close, depth - 1)
        }
    } else {
        group_end(ts, i + 1, open, close, depth)
    }
}

pub proof fn lemma_group_end_bounds(
    ts: Seq<TokenView>,
    i: int,
    open: Seq<char>,
    close: Seq<char>,
    depth: int,
)
    requires
        0 <= i <= ts.len(),
        depth >= 1,
    ensures
        match group_end(ts, i, open, close, depth) {
            Some(j) => i < j <= ts.len(),
            None => true,
        },
    decreases ts.len() - i,
{
    if i < ts.len() {
        if at_sym(ts, i, open) {
            lemma_group_end_bounds(ts, i + 1, open, close, depth + 1);
        } else if at_sym(ts, i, close) {
            if depth != 1 {
                lemma_group_end_bounds(ts, i + 1, open, close, depth - 1);
            }
        } else {
            lemma_group_end_bounds(ts, i + 1, open, close, depth);
        }
    }
}

/// Position after any attribute groups (`#` `[` ... `]`) starting at `i`.
pub open spec fn skip_attrs(ts: Seq<TokenView>, i: int) -> Option<int>
    decreases ts.len() - i when 0 <= i <= ts.len()
        via skip_attrs_decreases
{
    if i < ts.len() && at_sym(ts, i, "#"@) {
        if at_sym(ts, i + 1, "["@) {
            match group_end(ts, i + 2, "["@, "]"@, 1) {
                Some(j) => skip_attrs(ts, j),
                None => None,
            }
        } else {
            None
        }
    } else {
        Some(i)
    }
}

#[via_fn]
proof fn skip_attrs_decreases(ts: Seq<TokenView>, i: int) {
    if 0 <= i <= ts.len() && i < ts.len() && at_sym(ts, i, "#"@) && at_sym(ts, i + 1, "["@) {
        lemma_group_end_bounds(ts, i + 2, "["@, "]"@, 1);
    }
}

pub proof fn lemma_skip_attrs_bounds(ts: Seq<TokenView>, i: int)
    requires
        0 <= i <= ts.len(),
    ensures
        match skip_attrs(ts, i) {
            Some(a) => i <= a <= ts.len(),
            None => true,
        },
    decreases ts.len() - i,
{
    if i < ts.len() && at_sym(ts, i, "#"@) && at_sym(ts, i + 1, "["@) {
        lemma_group_end_bounds(ts, i + 2, "["@, "]"@, 1);
        if group_end(ts, i + 2, "["@, "]"@, 1) is Some {
            lemma_skip_attrs_bounds(ts, group_end(ts, i + 2, "["@, "]"@, 1)->0);
        }
    }
}

/// Index of the first top-level `,` or `)` from `i` on, tracking bracket
/// depth over parentheses, square brackets and angle brackets.
pub open spec fn seg_end(ts: Seq<TokenView>, i: int, depth: int) -> Option<int>
    decreases ts.len() - i when 0 <= i <= ts.len() && depth >= 0
{
    if i >= ts.len() {
        None
    } else if depth == 0 && (at_sym(ts, i, ","@) || at_sym(ts, i, ")"@)) {
        Some(i)
    } else if at_sym(ts, i, "("@) || at_sym(ts, i, "["@) || at_sym(ts, i, "<"@) {
        seg_end(ts, i + 1, depth + 1)
    } else if at_sym(ts, i, ")"@) || at_sym(ts, i, "]"@) || at_sym(ts, i, ">"@) {
        seg_end(ts, i + 1, if depth > 0 { depth - 1 } else { 0 })
    } else {
        seg_end(ts, i + 1, depth)
    }
}

pub proof fn lemma_seg_end_bounds(ts: Seq<TokenView>, i: int, depth: int)
    requires
        0 <= i <= ts.len(),
        depth >= 0,
    ensures
        match seg_end(ts, i, depth) {
            Some(j) => i <= j < ts.len() && (at_sym(ts, j, ","@) || at_sym(ts, j, ")"@)),
            None => true,
        },
    decreases ts.len() - i,
{
    if i < ts.len() && !(depth == 0 && (at_sym(ts, i, ","@) || at_sym(ts, i, ")"@))) {
        if at_sym(ts, i, "("@) || at_sym(ts, i, "["@) || at_sym(ts, i, "<"@) {
            lemma_seg_end_bounds(ts, i + 1, depth + 1);
        } else if at_sym(ts, i, ")"@) || at_sym(ts, i, "]"@) || at_sym(ts, i, ">"@) {
            lemma_seg_end_bounds(ts, i + 1, if depth > 0 { depth - 1 } else { 0 });
        } else {
            lemma_seg_end_bounds(ts, i + 1, depth);
        }
    }
}

/// Index of the first mark `x` at or after `i`.
pub open spec fn find_sym(ts: Seq<TokenView>, i: int, x: Seq<char>) -> Option<int>
    decreases ts.len() - i when 0 <= i <= ts.len()
{
    if i >= ts.len() {
        None
    } else if at_sym(ts, i, x) {
        Some(i)
    } else {
        find_sym(ts, i + 1, x)
    }
}

pub proof fn lemma_find_sym_bounds(ts: Seq<TokenView>, i: int, x: Seq<char>)
    requires
        0 <= i <= ts.len(),
    ensures
        match find_sym(ts, i, x) {
            Some(j) => i <= j < ts.len() && at_sym(ts, j, x),
            None => true,
        },
    decreases ts.len() - i,
{
    if i < ts.len() && !at_sym(ts, i, x) {
        lemma_find_sym_bounds(ts, i + 1, x);
    }
}

/// The texts of a token run, joined by single spaces: the canonical
/// spelling of a type.
pub open spec fn join_texts(ts: Seq<TokenView>) -> Seq<char>
    decreases ts.len(),
{
    if ts.len() == 0 {
        Seq::empty()
    } else if ts.len() == 1 {
        ts[0].text
    } else {
        ts[0].text + " "@ + join_texts(ts.drop_first())
    }
}

/// A parameter segment yields an argument exactly when it is a plain
/// `name: type` binding; any other form is dropped.
pub open spec fn seg_to_arg(seg: Seq<TokenView>) -> Option<ArgView> {
    if seg.len() >= 3 && seg[0].kind == TokenKind::Word && seg[1].kind == TokenKind::Sym
        && seg[1].text == ":"@ {
        Some(ArgView { name: seg[0].text, typ: join_texts(seg.subrange(2, seg.len() as int)) })
    } else {
        None
    }
}

/// Parse the parameter list from just after its `(` up to and past its `)`.
pub open spec fn parse_params(ts: Seq<TokenView>, i: int) -> Option<(Seq<ArgView>, int)>
    decreases ts.len() - i when 0 <= i <= ts.len()
        via parse_params_decreases
{
    if i >= ts.len() {
        None
    } else if at_sym(ts, i, ")"@) {
        Some((Seq::empty(), i + 1))
    } else {
        match seg_end(ts, i, 0) {
            None => None,
            Some(j) => if j == i {
                None
            } else {
                let arg = seg_to_arg(ts.subrange(i, j));
                let k = if at_sym(ts, j, ","@) {
                    j + 1
                } else {
                    j
                };
                match parse_params(ts, k) {
                    None => None,
                    Some((rest, end)) => Some(
                        (
                            match arg {
                                Some(a) => seq![a] + rest,
                                None => rest,
                            },
                            end,
                        ),
                    ),
                }
            },
        }
    }
}

#[via_fn]
proof fn parse_params_decreases(ts: Seq<TokenView>, i: int) {
    if 0 <= i <= ts.len() && i < ts.len() && !at_sym(ts, i, ")"@) {
        lemma_seg_end_bounds(ts, i, 0);
    }
}

pub proof fn lemma_parse_params_bounds(ts: Seq<TokenView>, i: int)
    requires
        0 <= i <= ts.len(),
    ensures
        match parse_params(ts, i) {
            Some((args, end)) => i < end <= ts.len(),
            None => true,
        },
    decreases ts.len() - i,
{
    if i < ts.len() && !at_sym(ts, i, ")"@) {
        lemma_seg_end_bounds(ts, i, 0);
        match seg_end(ts, i, 0) {
            None => {},
            Some(j) => {
                if j != i {
                    let k = if at_sym(ts, j, ","@) {
                        j + 1
                    } else {
                        j
                    };
                    lemma_parse_params_bounds(ts, k);
                }
            },
        }
    }
}

/// Parse one function declaration of a foreign-linkage block: optional
/// attributes, optional `pub`, `fn`, a name, a parameter list, an optional
/// return type, and the closing `;`.
pub open spec fn parse_foreign_fn(ts: Seq<TokenView>, i: int) -> Option<(FuncView, int)> {
    match skip_attrs(ts, i) {
        None => None,
        Some(a) => {
            let b = if at_word(ts, a, "pub"@) {
                a + 1
            } else {
                a
            };
            if at_word(ts, b, "fn"@) && at_any_word(ts, b + 1) && at_sym(ts, b + 2, "("@) {
                match parse_params(ts, b + 3) {
                    None => None,
                    Some((args, j)) => {
                        if at_sym(ts, j, ";"@) {
                            Some((FuncView { name: ts[b + 1].text, args, ret: None }, j + 1))
                        } else if at_sym(ts, j, "->"@) {
                            match find_sym(ts, j + 1, ";"@) {
                                None => None,
                                Some(k) => if k == j + 1 {
                                    None
                                } else {
                                    Some(
                                        (
                                            FuncView {
                                                name: ts[b + 1].text,
                                                args,
                                                ret: Some(join_texts(ts.subrange(j + 1, k))),
                                            },
                                            k + 1,
                                        ),
                                    )
                                },
                            }
                        } else {
                            None
                        }
                    },
                }
            } else {
                None
            }
        },
    }
}

pub proof fn lemma_parse_foreign_fn_bounds(ts: Seq<TokenView>, i: int)
    requires
        0 <= i <= ts.len(),
    ensures
        match parse_foreign_fn(ts, i) {
            Some((f, end)) => i < end <= ts.len(),
            None => true,
        },
{
    lemma_skip_attrs_bounds(ts, i);
    match skip_attrs(ts, i) {
        None => {},
        Some(a) => {
            let b = if at_word(ts, a, "pub"@) {
                a + 1
            } else {
                a
            };
            if at_word(ts, b, "fn"@) && at_any_word(ts, b + 1) && at_sym(ts, b + 2, "("@) {
                lemma_parse_params_bounds(ts, b + 3);
                match parse_params(ts, b + 3) {
                    None => {},
                    Some((args, j)) => {
                        if at_sym(ts, j, "->"@) {
                            lemma_find_sym_bounds(ts, j + 1, ";"@);
                        }
                    },
                }
            }
        },
    }
}

/// Parse the members of a foreign-linkage block up to and past its `}`.
pub open spec fn parse_foreign_items(ts: Seq<TokenView>, i: int) -> Option<(Seq<FuncView>, int)>
    decreases ts.len() - i when 0 <= i <= ts.len()
        via parse_foreign_items_decreases
{
    if i >= ts.len() {
        None
    } else if at_sym(ts, i, "}"@) {
        Some((Seq::empty(), i + 1))
    } else {
        match parse_foreign_fn(ts, i) {
            None => None,
            Some((f, j)) => match parse_foreign_items(ts, j) {
                None => None,
                Some((fs, end)) => Some(
                    (
                        (if is_prefix(spec_lib_prefix(), f.name) {
                            seq![f]
                        } else {
                            Seq::empty()
                        }) + fs,
                        end,
                    ),
                ),
            },
        }
    }
}

#[via_fn]
proof fn parse_foreign_items_decreases(ts: Seq<TokenView>, i: int) {
    if 0 <= i <= ts.len() && i < ts.len() && !at_sym(ts, i, "}"@) {
        lemma_parse_foreign_fn_bounds(ts, i);
    }
}

pub proof fn lemma_parse_foreign_items_bounds(ts: Seq<TokenView>, i: int)
    requires
        0 <= i <= ts.len(),
    ensures
        match parse_foreign_items(ts, i) {
            Some((fs, end)) => i < end <= ts.len(),
            None => true,
        },
    decreases ts.len() - i,
{
    if i < ts.len() && !at_sym(ts, i, "}"@) {
        lemma_parse_foreign_fn_bounds(ts, i);
        match parse_foreign_fn(ts, i) {
            None => {},
            Some((f, j)) => {
                lemma_parse_foreign_items_bounds(ts, j);
            },
        }
    }
}

/// Parse a free function declaration: optional `pub`, `fn`, a name, a
/// parameter list, an optional return type, and a braced body, which is
/// skipped.
pub open spec fn parse_free_fn(ts: Seq<TokenView>, i: int) -> Option<(FuncView, int)> {
    let b = if at_word(ts, i, "pub"@) {
        i + 1
    } else {
        i
    };
    if at_word(ts, b, "fn"@) && at_any_word(ts, b + 1) && at_sym(ts, b + 2, "("@) {
        match parse_params(ts, b + 3) {
            None => None,
            Some((args, j)) => {
                if at_sym(ts, j, "{"@) {
                    match group_end(ts, j + 1, "{"@, "}"@, 1) {
                        None => None,
                        Some(k) => Some((FuncView { name: ts[b + 1].text, args, ret: None }, k)),
                    }
                } else if at_sym(ts, j, "->"@) {
                    match find_sym(ts, j + 1, "{"@) {
                        None => None,
                        Some(k) => if k == j + 1 {
                            None
                        } else {
                            match group_end(ts, k + 1, "{"@, "}"@, 1) {
                                None => None,
                                Some(m) => Some(
                                    (
                                        FuncView {
                                            name: ts[b + 1].text,
                                            args,
                                            ret: Some(join_texts(ts.subrange(j + 1, k))),
                                        },
                                        m,
                                    ),
                                ),
                            }
                        },
                    }
                } else {
                    None
                }
            },
        }
    } else {
        None
    }
}

pub proof fn lemma_parse_free_fn_bounds(ts: Seq<TokenView>, i: int)
    requires
        0 <= i <= ts.len(),
    ensures
        match parse_free_fn(ts, i) {
            Some((f, end)) => i < end <= ts.len(),
            None => true,
        },
{
    let b = if at_word(ts, i, "pub"@) {
        i + 1
    } else {
        i
    };
    if at_word(ts, b, "fn"@) && at_any_word(ts, b + 1) && at_sym(ts, b + 2, "("@) {
        lemma_parse_params_bounds(ts, b + 3);
        match parse_params(ts, b + 3) {
            None => {},
            Some((args, j)) => {
                if at_sym(ts, j, "{"@) {
                    lemma_group_end_bounds(ts, j + 1, "{"@, "}"@, 1);
                } else if at_sym(ts, j, "->"@) {
                    lemma_find_sym_bounds(ts, j + 1, "{"@);
                    match find_sym(ts, j + 1, "{"@) {
                        None => {},
                        Some(k) => {
                            lemma_group_end_bounds(ts, k + 1, "{"@, "}"@, 1);
                        },
                    }
                }
            },
        }
    }
}

/// Parse the whole batch from `i` on. The first component collects the
/// retained functions of every foreign-linkage block, in order; the second
/// collects the retained free functions, in order.
pub open spec fn parse_items(ts: Seq<TokenView>, i: int) -> Option<(Seq<FuncView>, Seq<FuncView>)>
    decreases ts.len() - i when 0 <= i <= ts.len()
        via parse_items_decreases
{
    if i >= ts.len() {
        Some((Seq::empty(), Seq::empty()))
    } else {
        match skip_attrs(ts, i) {
            None => None,
            Some(a) => {
                if a >= ts.len() {
                    None
                } else if at_word(ts, a, foreign_kw()) {
                    let b = if a + 1 < ts.len() && ts[a + 1].kind == TokenKind::Lit {
                        a + 2
                    } else {
                        a + 1
                    };
                    if at_sym(ts, b, "{"@) {
                        match parse_foreign_items(ts, b + 1) {
                            None => None,
                            Some((fs, j)) => match parse_items(ts, j) {
                                None => None,
                                Some((g1, g2)) => Some((fs + g1, g2)),
                            },
                        }
                    } else {
                        None
                    }
                } else if at_word(ts, a, "pub"@) || at_word(ts, a, "fn"@) {
                    match parse_free_fn(ts, a) {
                        None => None,
                        Some((f, j)) => match parse_items(ts, j) {
                            None => None,
                            Some((g1, g2)) => Some(
                                (
                                    g1,
                                    (if is_prefix(spec_lib_prefix(), f.name) {
                                        seq![f]
                                    } else {
                                        Seq::empty()
                                    }) + g2,
                                ),
                            ),
                        },
                    }
                } else {
                    None
                }
            },
        }
    }
}

#[via_fn]
proof fn parse_items_decreases(ts: Seq<TokenView>, i: int) {
    if 0 <= i <= ts.len() && i < ts.len() {
        lemma_skip_attrs_bounds(ts, i);
        match skip_attrs(ts, i) {
            None => {},
            Some(a) => {
                if a < ts.len() {
                    if at_word(ts, a, foreign_kw()) {
                        let b = if a + 1 < ts.len() && ts[a + 1].kind == TokenKind::Lit {
                            a + 2
                        } else {
                            a + 1
                        };
                        if at_sym(ts, b, "{"@) {
                            lemma_parse_foreign_items_bounds(ts, b + 1);
                        }
                    } else if at_word(ts, a, "pub"@) || at_word(ts, a, "fn"@) {
                        lemma_parse_free_fn_bounds(ts, a);
                    }
                }
            },
        }
    }
}

/// What loading a declaration batch yields: the retained functions of the
/// foreign-linkage blocks, then the retained free functions; `None` exactly
/// when the batch is malformed.
pub open spec fn spec_load(s: Seq<char>) -> Option<Seq<FuncView>> {
    match spec_tokenize(s) {
        None => None,
        Some(ts) => match parse_items(ts, 0) {
            None => None,
            Some((a, b)) => Some(a + b),
        },
    }
}

/// Is the token at `i` the mark `x`?
fn x_at_sym(ts: &Vec<Token>, i: usize, x: &str) -> (b: bool)
    ensures
        b == at_sym(token_views(ts@), i as int, x@),
{
    proof {
        assert(token_views(ts@).len() == ts@.len());
    }
    if i >= ts.len() {
        return false;
    }
    proof {
        assert(token_views(ts@)[i as int] == ts@[i as int]@);
    }
    let t = &ts[i];
    if t.kind == TokenKind::Sym {
        str_eq(t.text.as_str(), x)
    } else {
        false
    }
}

/// Is the token at `i` the word `x`?
fn x_at_word(ts: &Vec<Token>, i: usize, x: &str) -> (b: bool)
    ensures
        b == at_word(token_views(ts@), i as int, x@),
{
    proof {
        assert(token_views(ts@).len() == ts@.len());
    }
    if i >= ts.len() {
        return false;
    }
    proof {
        assert(token_views(ts@)[i as int] == ts@[i as int]@);
    }
    let t = &ts[i];
    if t.kind == TokenKind::Word {
        str_eq(t.text.as_str(), x)
    } else {
        false
    }
}

/// Is the token at `i` some word?
fn x_at_any_word(ts: &Vec<Token>, i: usize) -> (b: bool)
    ensures
        b == at_any_word(token_views(ts@), i as int),
{
    proof {
        assert(token_views(ts@).len() == ts@.len());
    }
    if i >= ts.len() {
        return false;
    }
    proof {
        assert(token_views(ts@)[i as int] == ts@[i as int]@);
    }
    ts[i].kind == TokenKind::Word
}

/// Is the token at `i` a string literal?
fn x_at_lit(ts: &Vec<Token>, i: usize) -> (b: bool)
    ensures
        b == (0 <= i < ts@.len() && token_views(ts@)[i as int].kind == TokenKind::Lit),
{
    proof {
        assert(token_views(ts@).len() == ts@.len());
    }
    if i >= ts.len() {
        return false;
    }
    proof {
        assert(token_views(ts@)[i as int] == ts@[i as int]@);
    }
    ts[i].kind == TokenKind::Lit
}

/// Is the token at `i` the foreign-linkage keyword?
fn x_at_foreign_kw(ts: &Vec<Token>, i: usize) -> (b: bool)
    ensures
        b == at_word(token_views(ts@), i as int, foreign_kw()),
{
    proof {
        assert(token_views(ts@).len() == ts@.len());
    }
    if i >= ts.len() {
        return false;
    }
    proof {
        assert(token_views(ts@)[i as int] == ts@[i as int]@);
    }
    let t = &ts[i];
    if !(t.kind == TokenKind::Word) {
        return false;
    }
    let s = t.text.as_str();
    if s.unicode_len() != 6 {
        return false;
    }
    let b = s.get_char(0) == 'e' && s.get_char(1) == 'x' && s.get_char(2) == 't' && s.get_char(3)
        == 'e' && s.get_char(4) == 'r' && s.get_char(5) == 'n';
    proof {
        if b {
            assert(s@ =~= foreign_kw());
        }
    }
    b
}

fn x_group_end(ts: &Vec<Token>, i: usize, open: &str, close: &str) -> (r: Option<usize>)
    requires
        i <= ts@.len(),
    ensures
        ({
            let tvs = token_views(ts@);
            match r {
                Some(j) => group_end(tvs, i as int, open@, close@, 1) == Some(j as int) && i < j
                    <= ts@.len(),
                None => group_end(tvs, i as int, open@, close@, 1) is None,
            }
        }),
{
    let ghost tvs = token_views(ts@);
    let n = ts.len();
    proof {
        assert(tvs.len() == ts@.len());
    }
    let mut j = i;
    let mut extra: usize = 0;
    loop
        invariant_except_break
            tvs == token_views(ts@),
            n == ts@.len(),
            i <= j <= n,
            extra <= j - i,
            group_end(tvs, i as int, open@, close@, 1) == group_end(
                tvs,
                j as int,
                open@,
                close@,
                extra as int + 1,
            ),
        ensures
            group_end(tvs, i as int, open@, close@, 1) == Some(j as int),
            i < j <= n,
        decreases n - j,
    {
        if j >= n {
            assert(group_end(tvs, j as int, open@, close@, extra as int + 1) is None);
            return None;
        }
        if x_at_sym(ts, j, open) {
            extra += 1;
            j += 1;
        } else if x_at_sym(ts, j, close) {
            if extra == 0 {
                j += 1;
                break;
            }
            extra -= 1;
            j += 1;
        } else {
            j += 1;
        }
    }
    Some(j)
}

fn x_skip_attrs(ts: &Vec<Token>, i: usize) -> (r: Option<usize>)
    requires
        i <= ts@.len(),
    ensures
        ({
            let tvs = token_views(ts@);
            match r {
                Some(a) => skip_attrs(tvs, i as int) == Some(a as int) && i <= a <= ts@.len(),
                None => skip_attrs(tvs, i as int) is None,
            }
        }),
{
    let ghost tvs = token_views(ts@);
    let n = ts.len();
    let mut cur = i;
    loop
        invariant_except_break
            tvs == token_views(ts@),
            n == ts@.len(),
            i <= cur <= n,
            skip_attrs(tvs, i as int) == skip_attrs(tvs, cur as int),
        ensures
            skip_attrs(tvs, i as int) == Some(cur as int),
            i <= cur <= ts@.len(),
        decreases ts@.len() - cur,
    {
        if !x_at_sym(ts, cur, "#") {
            assert(skip_attrs(tvs, cur as int) == Some(cur as int));
            break;
        }
        if !x_at_sym(ts, cur + 1, "[") {
            return None;
        }
        match x_group_end(ts, cur + 2, "[", "]") {
            Some(j) => {
                cur = j;
            },
            None => {
                return None;
            },
        }
    }
    Some(cur)
}

fn x_seg_end(ts: &Vec<Token>, i: usize) -> (r: Option<usize>)
    requires
        i <= ts@.len(),
    ensures
        ({
            let tvs = token_views(ts@);
            match r {
                Some(j) => seg_end(tvs, i as int, 0) == Some(j as int) && i <= j < ts@.len(),
                None => seg_end(tvs, i as int, 0) is None,
            }
        }),
{
    let ghost tvs = token_views(ts@);
    let n = ts.len();
    proof {
        assert(tvs.len() == ts@.len());
    }
    let mut j = i;
    let mut depth: usize = 0;
    loop
        invariant_except_break
            tvs == token_views(ts@),
            n == ts@.len(),
            i <= j <= n,
            depth <= j - i,
            seg_end(tvs, i as int, 0) == seg_end(tvs, j as int, depth as int),
        ensures
            seg_end(tvs, i as int, 0) == Some(j as int),
            i <= j < n,
        decreases n - j,
    {
        if j >= n {
            assert(seg_end(tvs, j as int, depth as int) is None);
            return None;
        }
        if depth == 0 && (x_at_sym(ts, j, ",") || x_at_sym(ts, j, ")")) {
            assert(seg_end(tvs, j as int, depth as int) == Some(j as int));
            break;
        }
        if x_at_sym(ts, j, "(") || x_at_sym(ts, j, "[") || x_at_sym(ts, j, "<") {
            depth += 1;
            j += 1;
        } else if x_at_sym(ts, j, ")") || x_at_sym(ts, j, "]") || x_at_sym(ts, j, ">") {
            if depth > 0 {
                depth -= 1;
            }
            j += 1;
        } else {
            j += 1;
        }
    }
    Some(j)
}

fn x_find_sym(ts: &Vec<Token>, i: usize, x: &str) -> (r: Option<usize>)
    requires
        i <= ts@.len(),
    ensures
        ({
            let tvs = token_views(ts@);
            match r {
                Some(j) => find_sym(tvs, i as int, x@) == Some(j as int) && i <= j < ts@.len(),
                None => find_sym(tvs, i as int, x@) is None,
            }
        }),
{
    let ghost tvs = token_views(ts@);
    let n = ts.len();
    proof {
        assert(tvs.len() == ts@.len());
    }
    let mut j = i;
    while j < n
        invariant
            tvs == token_views(ts@),
            n == ts@.len(),
            i <= j <= n,
            find_sym(tvs, i as int, x@) == find_sym(tvs, j as int, x@),
        decreases n - j,
    {
        if x_at_sym(ts, j, x) {
            return Some(j);
        }
        j += 1;
    }
    None
}

/// Join the texts of the tokens in `[from, to)` with single spaces.
fn x_join_texts(ts: &Vec<Token>, from: usize, to: usize) -> (r: String)
    requires
        from <= to <= ts@.len(),
    ensures
        r@ == join_texts(token_views(ts@).subrange(from as int, to as int)),
    decreases to - from,
{
    let ghost seg = token_views(ts@).subrange(from as int, to as int);
    proof {
        assert(token_views(ts@).len() == ts@.len());
    }
    if from >= to {
        let r = String::new();
        assert(r@ =~= join_texts(seg));
        r
    } else if to - from == 1 {
        proof {
            assert(seg[0] == token_views(ts@)[from as int]);
            assert(token_views(ts@)[from as int] == ts@[from as int]@);
        }
        ts[from].text.clone()
    } else {
        proof {
            assert(seg[0] == ts@[from as int]@);
        }
        let mut s = ts[from].text.clone();
        s.append(" ");
        let rest = x_join_texts(ts, from + 1, to);
        s.append(rest.as_str());
        proof {
            assert(seg.drop_first() =~= token_views(ts@).subrange(from + 1, to as int));
            assert(s@ =~= seg[0].text + " "@ + join_texts(seg.drop_first()));
        }
        s
    }
}

/// Turn the parameter segment `[i, j)` into an argument, if it is a plain
/// `name: type` binding.
fn x_seg_to_arg(ts: &Vec<Token>, i: usize, j: usize) -> (r: Option<LvArg>)
    requires
        i <= j <= ts@.len(),
    ensures
        ({
            let seg = token_views(ts@).subrange(i as int, j as int);
            match r {
                Some(a) => seg_to_arg(seg) == Some(a@),
                None => seg_to_arg(seg) is None,
            }
        }),
{
    let ghost seg = token_views(ts@).subrange(i as int, j as int);
    proof {
        assert(token_views(ts@).len() == ts@.len());
        if seg.len() >= 2 {
            assert(seg[0] == ts@[i as int]@);
            assert(seg[1] == ts@[i + 1]@);
        }
    }
    if j - i >= 3 && ts[i].kind == TokenKind::Word && ts[i + 1].kind == TokenKind::Sym && str_eq(
        ts[i + 1].text.as_str(),
        ":",
    ) {
        let typ = x_join_texts(ts, i + 2, j);
        proof {
            assert(seg.subrange(2, seg.len() as int) =~= token_views(ts@).subrange(
                i + 2,
                j as int,
            ));
        }
        Some(LvArg { name: ts[i].text.clone(), typ: LvType { literal_name: typ } })
    } else {
        None
    }
}

/// Parse the parameter list from just after its `(` up to and past its `)`.
fn x_parse_params(ts: &Vec<Token>, i: usize) -> (r: Option<(Vec<LvArg>, usize)>)
    requires
        i <= ts@.len(),
    ensures
        ({
            let tvs = token_views(ts@);
            match r {
                Some((args, end)) => parse_params(tvs, i as int) == Some(
                    (arg_views(args@), end as int),
                ) && i < end <= ts@.len(),
                None => parse_params(tvs, i as int) is None,
            }
        }),
    decreases ts@.len() - i,
{
    let ghost tvs = token_views(ts@);
    let n = ts.len();
    proof {
        assert(tvs.len() == ts@.len());
    }
    if i >= n {
        return None;
    }
    if x_at_sym(ts, i, ")") {
        let empty: Vec<LvArg> = Vec::new();
        proof {
            assert(arg_views(empty@) =~= Seq::<ArgView>::empty());
        }
        return Some((empty, i + 1));
    }
    let j = match x_seg_end(ts, i) {
        Some(j) => j,
        None => {
            return None;
        },
    };
    if j == i {
        return None;
    }
    let arg = x_seg_to_arg(ts, i, j);
    let k = if x_at_sym(ts, j, ",") {
        j + 1
    } else {
        j
    };
    match x_parse_params(ts, k) {
        None => None,
        Some((rest, end)) => {
            let mut args = rest;
            let ghost rest_views = arg_views(args@);
            match arg {
                Some(a) => {
                    let ghost av = a@;
                    args.insert(0, a);
                    proof {
                        assert(arg_views(args@) =~= seq![av] + rest_views);
                    }
                },
                None => {},
            }
            Some((args, end))
        },
    }
}

/// Parse one member of a foreign-linkage block.
fn x_parse_foreign_fn(ts: &Vec<Token>, i: usize) -> (r: Option<(LvFunc, usize)>)
    requires
        i <= ts@.len(),
    ensures
        ({
            let tvs = token_views(ts@);
            match r {
                Some((f, end)) => parse_foreign_fn(tvs, i as int) == Some((f@, end as int)) && i
                    < end <= ts@.len(),
                None => parse_foreign_fn(tvs, i as int) is None,
            }
        }),
{
    let ghost tvs = token_views(ts@);
    proof {
        assert(tvs.len() == ts@.len());
    }
    let a = match x_skip_attrs(ts, i) {
        Some(a) => a,
        None => {
            return None;
        },
    };
    let n = ts.len();
    let b = if x_at_word(ts, a, "pub") {
        a + 1
    } else {
        a
    };
    if !x_at_word(ts, b, "fn") {
        return None;
    }
    if !x_at_any_word(ts, b + 1) {
        return None;
    }
    if !x_at_sym(ts, b + 2, "(") {
        return None;
    }
    proof {
        assert(tvs[b + 1] == ts@[b + 1 as int]@);
    }
    let name = ts[b + 1].text.clone();
    let (args, j) = match x_parse_params(ts, b + 3) {
        Some(p) => p,
        None => {
            return None;
        },
    };
    if x_at_sym(ts, j, ";") {
        let f = LvFunc { name, args, ret: None };
        return Some((f, j + 1));
    }
    if !x_at_sym(ts, j, "->") {
        return None;
    }
    let k = match x_find_sym(ts, j + 1, ";") {
        Some(k) => k,
        None => {
            return None;
        },
    };
    if k == j + 1 {
        return None;
    }
    let rett = x_join_texts(ts, j + 1, k);
    let f = LvFunc { name, args, ret: Some(LvType { literal_name: rett }) };
    Some((f, k + 1))
}

/// Parse the members of a foreign-linkage block up to and past its `}`,
/// keeping those whose name begins with the library prefix.
fn x_parse_foreign_items(ts: &Vec<Token>, i: usize) -> (r: Option<(Vec<LvFunc>, usize)>)
    requires
        i <= ts@.len(),
    ensures
        ({
            let tvs = token_views(ts@);
            match r {
                Some((fs, end)) => parse_foreign_items(tvs, i as int) == Some(
                    (func_views(fs@), end as int),
                ) && i < end <= ts@.len(),
                None => parse_foreign_items(tvs, i as int) is None,
            }
        }),
    decreases ts@.len() - i,
{
    let ghost tvs = token_views(ts@);
    let n = ts.len();
    proof {
        assert(tvs.len() == ts@.len());
    }
    if i >= n {
        return None;
    }
    if x_at_sym(ts, i, "}") {
        let empty: Vec<LvFunc> = Vec::new();
        proof {
            assert(func_views(empty@) =~= Seq::<FuncView>::empty());
        }
        return Some((empty, i + 1));
    }
    let (f, j) = match x_parse_foreign_fn(ts, i) {
        Some(p) => p,
        None => {
            return None;
        },
    };
    match x_parse_foreign_items(ts, j) {
        None => None,
        Some((rest, end)) => {
            let mut fs = rest;
            let ghost rest_views = func_views(fs@);
            let keep = str_starts_with(f.name.as_str(), "lv_");
            if keep {
                let ghost fv = f@;
                fs.insert(0, f);
                proof {
                    assert(func_views(fs@) =~= seq![fv] + rest_views);
                }
            } else {
                proof {
                    assert(Seq::<FuncView>::empty() + rest_views =~= rest_views);
                }
            }
            Some((fs, end))
        },
    }
}

/// Parse a free function declaration, skipping its braced body.
fn x_parse_free_fn(ts: &Vec<Token>, i: usize) -> (r: Option<(LvFunc, usize)>)
    requires
        i <= ts@.len(),
    ensures
        ({
            let tvs = token_views(ts@);
            match r {
                Some((f, end)) => parse_free_fn(tvs, i as int) == Some((f@, end as int)) && i
                    < end <= ts@.len(),
                None => parse_free_fn(tvs, i as int) is None,
            }
        }),
{
    let ghost tvs = token_views(ts@);
    proof {
        assert(tvs.len() == ts@.len());
    }
    let n = ts.len();
    let b = if x_at_word(ts, i, "pub") {
        i + 1
    } else {
        i
    };
    if !x_at_word(ts, b, "fn") {
        return None;
    }
    if !x_at_any_word(ts, b + 1) {
        return None;
    }
    if !x_at_sym(ts, b + 2, "(") {
        return None;
    }
    proof {
        assert(tvs[b + 1] == ts@[b + 1 as int]@);
    }
    let name = ts[b + 1].text.clone();
    let (args, j) = match x_parse_params(ts, b + 3) {
        Some(p) => p,
        None => {
            return None;
        },
    };
    if x_at_sym(ts, j, "{") {
        let k = match x_group_end(ts, j + 1, "{", "}") {
            Some(k) => k,
            None => {
                return None;
            },
        };
        let f = LvFunc { name, args, ret: None };
        return Some((f, k));
    }
    if !x_at_sym(ts, j, "->") {
        return None;
    }
    let k = match x_find_sym(ts, j + 1, "{") {
        Some(k) => k,
        None => {
            return None;
        },
    };
    if k == j + 1 {
        return None;
    }
    let rett = x_join_texts(ts, j + 1, k);
    let m = match x_group_end(ts, k + 1, "{", "}") {
        Some(m) => m,
        None => {
            return None;
        },
    };
    let f = LvFunc { name, args, ret: Some(LvType { literal_name: rett }) };
    Some((f, m))
}

/// Parse the whole batch from `i` on: foreign-linkage members first, free
/// functions second, both restricted to the library prefix.
fn x_parse_items(ts: &Vec<Token>, i: usize) -> (r: Option<(Vec<LvFunc>, Vec<LvFunc>)>)
    requires
        i <= ts@.len(),
    ensures
        ({
            let tvs = token_views(ts@);
            match r {
                Some((fs, gs)) => parse_items(tvs, i as int) == Some(
                    (func_views(fs@), func_views(gs@)),
                ),
                None => parse_items(tvs, i as int) is None,
            }
        }),
    decreases ts@.len() - i,
{
    let ghost tvs = token_views(ts@);
    let n = ts.len();
    proof {
        assert(tvs.len() == ts@.len());
    }
    if i >= n {
        let a: Vec<LvFunc> = Vec::new();
        let b: Vec<LvFunc> = Vec::new();
        proof {
            assert(func_views(a@) =~= Seq::<FuncView>::empty());
        }
        return Some((a, b));
    }
    let a = match x_skip_attrs(ts, i) {
        Some(a) => a,
        None => {
            return None;
        },
    };
    if a >= n {
        return None;
    }
    if x_at_foreign_kw(ts, a) {
        let b = if x_at_lit(ts, a + 1) {
            a + 2
        } else {
            a + 1
        };
        if !x_at_sym(ts, b, "{") {
            return None;
        }
        let (fs, j) = match x_parse_foreign_items(ts, b + 1) {
            Some(p) => p,
            None => {
                return None;
            },
        };
        match x_parse_items(ts, j) {
            None => None,
            Some((g1, g2)) => {
                let mut out = fs;
                let ghost fs_views = func_views(out@);
                let ghost g1_views = func_views(g1@);
                let mut tail = g1;
                out.append(&mut tail);
                proof {
                    assert(func_views(out@) =~= fs_views + g1_views);
                }
                Some((out, g2))
            },
        }
    } else if x_at_word(ts, a, "pub") || x_at_word(ts, a, "fn") {
        let (f, j) = match x_parse_free_fn(ts, a) {
            Some(p) => p,
            None => {
                return None;
            },
        };
        match x_parse_items(ts, j) {
            None => None,
            Some((g1, g2)) => {
                let mut out = g2;
                let ghost g2_views = func_views(out@);
                let keep = str_starts_with(f.name.as_str(), "lv_");
                if keep {
                    let ghost fv = f@;
                    out.insert(0, f);
                    proof {
                        assert(func_views(out@) =~= seq![fv] + g2_views);
                    }
                } else {
                    proof {
                        assert(Seq::<FuncView>::empty() + g2_views =~= g2_views);
                    }
                }
                Some((g1, out))
            },
        }
    } else {
        None
    }
}

/// Load a declaration batch: lex it, parse it, and hand back the retained
/// function records, foreign-linkage members first.
pub fn load_decls(code: &str) -> (r: Result<Vec<LvFunc>, ParseError>)
    ensures
        match r {
            Ok(fs) => spec_load(code@) == Some(func_views(fs@)),
            Err(e) => spec_load(code@) is None && e == ParseError::Malformed,
        },
{
    let toks = match tokenize(code) {
        Some(toks) => toks,
        None => {
            return Err(ParseError::Malformed);
        },
    };
    match x_parse_items(&toks, 0) {
        None => Err(ParseError::Malformed),
        Some((fs, gs)) => {
            let mut out = fs;
            let ghost a_views = func_views(out@);
            let ghost b_views = func_views(gs@);
            let mut tail = gs;
            out.append(&mut tail);
            proof {
                assert(func_views(out@) =~= a_views + b_views);
            }
            Ok(out)
        },
    }
}


} // verus!
