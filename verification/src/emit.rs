//! The code emitter: turn a widget and its assigned functions into a
//! target-language source fragment (type definition, constructor, and
//! builder-style setter methods).

use vstd::prelude::*;
use vstd::string::*;
use crate::model::{ArgView, FuncView, LvArg, LvFunc, LvWidget, WidgetView};
use crate::parse::foreign_kw;
use crate::strutil::{is_prefix, is_suffix, str_eq, str_starts_with, str_ends_with, str_matches_at};
use crate::types::{spec_is_const, spec_is_str, spec_type_table, table_lookup, LvType};
use crate::spec_lib_prefix;

verus! {

/// A unit that cannot be represented in the target language with current
/// mapping coverage is skipped: the unit is omitted and processing
/// continues.
#[derive(Debug, Copy, Clone, PartialEq, Eq, Structural)]
pub enum WrapperError {
    Skip,
}

pub type WrapperResult<T> = Result<T, WrapperError>;

/// The target-language expression for a recognized spelling: the borrowed
/// string-reference type for the string-like spelling, the toolkit
/// namespace for toolkit type names, the spelling itself otherwise.
pub open spec fn spec_type_code(t: Seq<char>) -> Option<Seq<char>> {
    match spec_type_table(t) {
        None => None,
        Some(m) => Some(
            if spec_is_str(t) {
                "&cstr_core::CStr"@
            } else if is_suffix("_t"@, m) {
                "lvgl_sys::"@ + m
            } else {
                m
            },
        ),
    }
}

/// The target language's reserved words, which cannot stand as plain
/// identifiers.
pub open spec fn spec_is_keyword(n: Seq<char>) -> bool {
    ||| n == "abstract"@
    ||| n == "as"@
    ||| n == "async"@
    ||| n == "await"@
    ||| n == "become"@
    ||| n == "box"@
    ||| n == "break"@
    ||| n == "const"@
    ||| n == "continue"@
    ||| n == "crate"@
    ||| n == "do"@
    ||| n == "dyn"@
    ||| n == "else"@
    ||| n == "enum"@
    ||| n == foreign_kw()
    ||| n == "false"@
    ||| n == "final"@
    ||| n == "fn"@
    ||| n == "for"@
    ||| n == "if"@
    ||| n == "impl"@
    ||| n == "in"@
    ||| n == "let"@
    ||| n == "loop"@
    ||| n == "macro"@
    ||| n == "match"@
    ||| n == "mod"@
    ||| n == "move"@
    ||| n == "mut"@
    ||| n == "override"@
    ||| n == "priv"@
    ||| n == "pub"@
    ||| n == "ref"@
    ||| n == "return"@
    ||| n == "Self"@
    ||| n == "self"@
    ||| n == "static"@
    ||| n == "struct"@
    ||| n == "super"@
    ||| n == "trait"@
    ||| n == "true"@
    ||| n == "try"@
    ||| n == "type"@
    ||| n == "typeof"@
    ||| n == "unsafe"@
    ||| n == "unsized"@
    ||| n == "use"@
    ||| n == "virtual"@
    ||| n == "where"@
    ||| n == "while"@
    ||| n == "yield"@
}

/// An argument name as an identifier: reserved words carry the raw-ident
/// marker.
pub open spec fn spec_arg_ident(n: Seq<char>) -> Seq<char> {
    if spec_is_keyword(n) {
        "r#"@ + n
    } else {
        n
    }
}

/// An argument's declaration: its identifier and its mapped type.
pub open spec fn spec_arg_decl(a: ArgView) -> Option<Seq<char>> {
    match spec_type_code(a.typ) {
        None => None,
        Some(t) => Some(spec_arg_ident(a.name) + ": "@ + t),
    }
}

/// An argument at the native call site: string-like arguments hand over
/// their raw character pointer, all others pass through unchanged.
pub open spec fn spec_arg_use(a: ArgView) -> Seq<char> {
    if spec_is_str(a.typ) {
        spec_arg_ident(a.name) + ".as_ptr()"@
    } else {
        spec_arg_ident(a.name)
    }
}

/// `s` with every occurrence of `pat` removed, scanning left to right.
pub open spec fn spec_remove_all(s: Seq<char>, pat: Seq<char>) -> Seq<char>
    decreases s.len() when pat.len() > 0
{
    if s.len() < pat.len() {
        s
    } else if s.take(pat.len() as int) == pat {
        spec_remove_all(s.skip(pat.len() as int), pat)
    } else {
        seq![s[0]] + spec_remove_all(s.drop_first(), pat)
    }
}

/// A function's name with every occurrence of the widget's qualified
/// prefix removed.
pub open spec fn spec_rebased_name(fname: Seq<char>, wname: Seq<char>) -> Seq<char> {
    spec_remove_all(fname, spec_lib_prefix() + wname + "_"@)
}

/// The emitted method name: a leading `set_` token is stripped; a result
/// that collides with the reserved word `type` gets a trailing marker.
pub open spec fn spec_method_name(n: Seq<char>) -> Seq<char> {
    if is_prefix("set_"@, n) {
        if n.skip(4) == "type"@ {
            "type_"@
        } else {
            n.skip(4)
        }
    } else {
        n
    }
}

/// The receiver declaration: a const-qualified first argument binds the
/// receiver without `mut`, any other binds it mutably.
pub open spec fn spec_recv_decl(args: Seq<ArgView>) -> Seq<char> {
    if args.len() == 0 {
        Seq::empty()
    } else if spec_is_const(args[0].typ) {
        "self"@
    } else {
        "mut self"@
    }
}

/// The declarations of the arguments from `k` on, each preceded by a
/// separator: the receiver (argument zero) is never among them.
pub open spec fn spec_decl_tail(args: Seq<ArgView>, k: int) -> Seq<char>
    decreases args.len() - k when 0 <= k
{
    if k >= args.len() {
        Seq::empty()
    } else {
        ", "@ + spec_arg_decl(args[k])->0 + spec_decl_tail(args, k + 1)
    }
}

/// The call-site uses of the arguments from `k` on.
pub open spec fn spec_use_tail(args: Seq<ArgView>, k: int) -> Seq<char>
    decreases args.len() - k when 0 <= k
{
    if k >= args.len() {
        Seq::empty()
    } else {
        ", "@ + spec_arg_use(args[k]) + spec_use_tail(args, k + 1)
    }
}

/// The native call's argument list: the receiver's raw handle, then the
/// remaining arguments.
pub open spec fn spec_call_list(args: Seq<ArgView>) -> Seq<char> {
    if args.len() == 0 {
        Seq::empty()
    } else {
        "&mut *self.raw"@ + spec_use_tail(args, 1)
    }
}

/// Every argument but the receiver has a recognized type.
pub open spec fn spec_all_args_mappable(args: Seq<ArgView>) -> bool {
    forall|k: int| 1 <= k < args.len() ==> (#[trigger] spec_type_code(args[k].typ)) is Some
}

/// The constructor fragment: a static factory that invokes the native
/// constructor, fails fast on an exhausted allocator, and wraps the raw
/// result.
pub open spec fn spec_ctor_code(fname: Seq<char>) -> Seq<char> {
    "    pub fn new<'a>(parent: &mut impl crate::core::ObjExt<C>) -> Self {\n        unsafe {\n            let obj = lvgl_sys::"@
        + fname
        + "(&mut *parent.raw);\n            let obj = Obj::from_raw(obj.as_mut().expect(\"OOM\"), parent.context);\n            Self { obj }\n        }\n    }\n"@
}

/// The setter fragment: a chainable method that forwards to the native
/// call and returns the receiver.
pub open spec fn spec_setter_code(f: FuncView, mname: Seq<char>) -> Seq<char> {
    "    pub fn "@ + mname + "("@ + spec_recv_decl(f.args) + spec_decl_tail(f.args, 1)
        + ") -> Self {\n        unsafe {\n            lvgl_sys::"@ + f.name + "("@
        + spec_call_list(f.args) + ");\n        }\n        self\n    }\n"@
}

/// The fragment for one function of a widget: the constructor special
/// case; a skip for any other function with a return type, and for any
/// unrecognized argument type; a setter otherwise.
pub open spec fn spec_func_code(f: FuncView, wname: Seq<char>) -> Option<Seq<char>> {
    let rebased = spec_rebased_name(f.name, wname);
    if rebased == "create"@ {
        Some(spec_ctor_code(f.name))
    } else if f.ret is Some {
        None
    } else if !spec_all_args_mappable(f.args) {
        None
    } else {
        Some(spec_setter_code(f, spec_method_name(rebased)))
    }
}

/// The concatenation of the emitted fragments of a widget's methods, in
/// assignment order; skipped functions contribute nothing.
pub open spec fn spec_methods_code(ms: Seq<FuncView>, wname: Seq<char>) -> Seq<char>
    decreases ms.len(),
{
    if ms.len() == 0 {
        Seq::empty()
    } else {
        (match spec_func_code(ms[0], wname) {
            Some(t) => t,
            None => Seq::empty(),
        }) + spec_methods_code(ms.drop_first(), wname)
    }
}

/// The name of what an upper-camel-case transform yields.
pub uninterp spec fn pascal_of(s: Seq<char>) -> Seq<char>;

/// Relies on inflector's `to_pascal_case`: the upper-camel-case transform
/// of a name, a function of its characters alone.
#[verifier::external_body]
fn to_pascal(s: &str) -> (r: String)
    ensures
        r@ == pascal_of(s@),
{
    inflector::cases::pascalcase::to_pascal_case(s)
}

/// The fragment for a whole widget: a type declaration and an
/// implementation block holding the emitted methods. The generic base
/// object is never emitted.
pub open spec fn spec_widget_code(w: WidgetView) -> Option<Seq<char>> {
    if w.name == "obj"@ {
        None
    } else {
        Some(
            "define_object!("@ + pascal_of(w.name) + ");\n\nimpl<C: 'static> "@ + pascal_of(w.name)
                + "<C> {\n"@ + spec_methods_code(w.methods, w.name) + "}\n"@,
        )
    }
}

/// Is `n` the foreign-linkage keyword?
fn str_is_foreign_kw(n: &str) -> (b: bool)
    ensures
        b == (n@ == foreign_kw()),
{
    if n.unicode_len() != 6 {
        return false;
    }
    let b = n.get_char(0) == 'e' && n.get_char(1) == 'x' && n.get_char(2) == 't' && n.get_char(3)
        == 'e' && n.get_char(4) == 'r' && n.get_char(5) == 'n';
    proof {
        if b {
            assert(n@ =~= foreign_kw());
        }
    }
    b
}

/// Is `n` a reserved word of the target language?
pub fn is_keyword(n: &str) -> (b: bool)
    ensures
        b == spec_is_keyword(n@),
{
    str_eq(n, "abstract") || str_eq(n, "as") || str_eq(n, "async") || str_eq(n, "await") || str_eq(
        n,
        "become",
    ) || str_eq(n, "box") || str_eq(n, "break") || str_eq(n, "const") || str_eq(n, "continue")
        || str_eq(n, "crate") || str_eq(n, "do") || str_eq(n, "dyn") || str_eq(n, "else") || str_eq(
        n,
        "enum",
    ) || str_is_foreign_kw(n) || str_eq(n, "false") || str_eq(n, "final") || str_eq(n, "fn")
        || str_eq(n, "for") || str_eq(n, "if") || str_eq(n, "impl") || str_eq(n, "in") || str_eq(
        n,
        "let",
    ) || str_eq(n, "loop") || str_eq(n, "macro") || str_eq(n, "match") || str_eq(n, "mod")
        || str_eq(n, "move") || str_eq(n, "mut") || str_eq(n, "override") || str_eq(n, "priv")
        || str_eq(n, "pub") || str_eq(n, "ref") || str_eq(n, "return") || str_eq(n, "Self")
        || str_eq(n, "self") || str_eq(n, "static") || str_eq(n, "struct") || str_eq(n, "super")
        || str_eq(n, "trait") || str_eq(n, "true") || str_eq(n, "try") || str_eq(n, "type")
        || str_eq(n, "typeof") || str_eq(n, "unsafe") || str_eq(n, "unsized") || str_eq(n, "use")
        || str_eq(n, "virtual") || str_eq(n, "where") || str_eq(n, "while") || str_eq(n, "yield")
}

/// The identifier for an argument name.
pub fn arg_ident(n: &str) -> (r: String)
    ensures
        r@ == spec_arg_ident(n@),
{
    if is_keyword(n) {
        let mut s = String::from_str("r#");
        s.append(n);
        s
    } else {
        n.to_owned()
    }
}

/// `s` with every occurrence of `pat` removed, scanning left to right.
#[verifier::loop_isolation(false)]
pub fn remove_all(s: &str, pat: &str) -> (r: String)
    requires
        pat@.len() > 0,
    ensures
        r@ == spec_remove_all(s@, pat@),
{
    let n = s.unicode_len();
    let plen = pat.unicode_len();
    let mut out = String::new();
    let mut i: usize = 0;
    proof {
        assert(s@.skip(0) =~= s@);
        assert(out@ + spec_remove_all(s@, pat@) =~= spec_remove_all(s@, pat@));
    }
    while i < n
        invariant
            i <= n,
            spec_remove_all(s@, pat@) == out@ + spec_remove_all(s@.skip(i as int), pat@),
        decreases n - i,
    {
        let ghost rem = s@.skip(i as int);
        if str_matches_at(s, i, pat) {
            proof {
                assert(rem.take(pat@.len() as int) =~= s@.subrange(i as int, i + pat@.len()));
                assert(rem.skip(pat@.len() as int) =~= s@.skip(i + pat@.len()));
            }
            i = i + plen;
        } else {
            proof {
                if rem.len() >= pat@.len() {
                    assert(rem.take(pat@.len() as int) =~= s@.subrange(
                        i as int,
                        i + pat@.len(),
                    ));
                }
            }
            let ghost pre = out@;
            let piece = s.substring_char(i, i + 1);
            out.append(piece);
            proof {
                assert(rem[0] == s@[i as int]);
                assert(rem.drop_first() =~= s@.skip(i + 1));
                assert(seq![rem[0]] =~= s@.subrange(i as int, i + 1));
                assert(pre + (seq![rem[0]] + spec_remove_all(s@.skip(i + 1), pat@)) =~= (pre
                    + seq![rem[0]]) + spec_remove_all(s@.skip(i + 1), pat@));
            }
            i += 1;
        }
    }
    proof {
        assert(s@.skip(n as int) =~= Seq::<char>::empty());
        assert(out@ + Seq::<char>::empty() =~= out@);
    }
    out
}

/// The emitted method name for a rebased function name.
pub fn method_name(n: &str) -> (r: String)
    ensures
        r@ == spec_method_name(n@),
{
    if !str_starts_with(n, "set_") {
        return n.to_owned();
    }
    proof {
        reveal_strlit("set_");
    }
    let len = n.unicode_len();
    let stripped = n.substring_char(4, len);
    proof {
        assert(stripped@ =~= n@.skip(4));
    }
    if str_eq(stripped, "type") {
        String::from_str("type_")
    } else {
        stripped.to_owned()
    }
}

/// Emission of target-language source for one unit, guided by its parent.
pub trait Rusty {
    type Parent;

    /// The fragment this unit denotes, or nothing where it is skipped.
    spec fn spec_code(&self, parent: &Self::Parent) -> Option<Seq<char>>;

    /// Emit the fragment, or signal a skip.
    fn code(&self, parent: &Self::Parent) -> (r: WrapperResult<String>)
        ensures
            match r {
                Ok(s) => self.spec_code(parent) == Some(s@),
                Err(e) => self.spec_code(parent) is None && e == WrapperError::Skip,
            },
    ;
}

impl Rusty for LvType {
    type Parent = LvArg;

    open spec fn spec_code(&self, parent: &LvArg) -> Option<Seq<char>> {
        spec_type_code(self@)
    }

    fn code(&self, _parent: &LvArg) -> (r: WrapperResult<String>) {
        match table_lookup(self.literal_name.as_str()) {
            None => Err(WrapperError::Skip),
            Some(m) => {
                if self.is_str() {
                    Ok(String::from_str("&cstr_core::CStr"))
                } else if str_ends_with(m.as_str(), "_t") {
                    let mut s = String::from_str("lvgl_sys::");
                    s.append(m.as_str());
                    Ok(s)
                } else {
                    Ok(m)
                }
            },
        }
    }
}

impl Rusty for LvArg {
    type Parent = LvFunc;

    open spec fn spec_code(&self, parent: &LvFunc) -> Option<Seq<char>> {
        spec_arg_decl(self@)
    }

    fn code(&self, parent: &LvFunc) -> (r: WrapperResult<String>) {
        match self.typ.code(self) {
            Err(e) => Err(e),
            Ok(t) => {
                let mut s = self.get_name_ident();
                s.append(": ");
                s.append(t.as_str());
                proof {
                    assert(s@ =~= spec_arg_ident(self@.name) + ": "@ + t@);
                }
                Ok(s)
            },
        }
    }
}

impl LvArg {
    /// The argument's name as an identifier, reserved words marked raw.
    pub fn get_name_ident(&self) -> (r: String)
        ensures
            r@ == spec_arg_ident(self@.name),
    {
        arg_ident(self.name.as_str())
    }

    /// Pre-processing for the argument before the native call: none is
    /// needed for any recognized type.
    pub fn get_processing(&self) -> (r: String)
        ensures
            r@ == Seq::<char>::empty(),
    {
        String::new()
    }

    /// The argument at the native call site.
    pub fn get_value_usage(&self) -> (r: String)
        ensures
            r@ == spec_arg_use(self@),
    {
        let mut s = self.get_name_ident();
        if self.typ.is_str() {
            s.append(".as_ptr()");
            proof {
                assert(s@ =~= spec_arg_ident(self@.name) + ".as_ptr()"@);
            }
        }
        s
    }
}

impl Rusty for LvFunc {
    type Parent = LvWidget;

    open spec fn spec_code(&self, parent: &LvWidget) -> Option<Seq<char>> {
        spec_func_code(self@, parent@.name)
    }

    #[verifier::loop_isolation(false)]
    #[verifier::rlimit(60)]
    fn code(&self, parent: &LvWidget) -> (r: WrapperResult<String>) {
        let ghost fv = self@;
        let ghost wname = parent@.name;
        let mut templ = String::from_str("lv_");
        templ.append(parent.name.as_str());
        templ.append("_");
        proof {
            reveal_strlit("lv_");
            reveal_strlit("_");
            assert(templ@ =~= spec_lib_prefix() + wname + "_"@);
            assert(templ@.len() > 0);
        }
        let rebased = remove_all(self.name.as_str(), templ.as_str());
        let ghost grebased = spec_rebased_name(fv.name, wname);
        proof {
            assert(rebased@ == grebased);
        }
        if str_eq(rebased.as_str(), "create") {
            let mut s = String::from_str(
                "    pub fn new<'a>(parent: &mut impl crate::core::ObjExt<C>) -> Self {\n        unsafe {\n            let obj = lvgl_sys::",
            );
            s.append(self.name.as_str());
            s.append(
                "(&mut *parent.raw);\n            let obj = Obj::from_raw(obj.as_mut().expect(\"OOM\"), parent.context);\n            Self { obj }\n        }\n    }\n",
            );
            proof {
                assert(s@ =~= spec_ctor_code(fv.name));
            }
            return Ok(s);
        }
        match &self.ret {
            Some(_) => {
                return Err(WrapperError::Skip);
            },
            None => {},
        }
        let mname = method_name(rebased.as_str());
        let mut decls = String::new();
        let mut calls = String::new();
        if self.args.len() > 0 {
            calls.append("&mut *self.raw");
        }
        let mut k: usize = 1;
        proof {
            assert(decls@ + spec_decl_tail(fv.args, 1) =~= spec_decl_tail(fv.args, 1));
            if fv.args.len() > 0 {
                assert(calls@ =~= "&mut *self.raw"@);
            }
        }
        while k < self.args.len()
            invariant
                1 <= k <= self.args@.len() || (k == 1 && self.args@.len() == 0),
                forall|m: int|
                    1 <= m < k ==> (#[trigger] spec_type_code(fv.args[m].typ)) is Some,
                decls@ + spec_decl_tail(fv.args, k as int) == spec_decl_tail(fv.args, 1),
                fv.args.len() > 0 ==> calls@ + spec_use_tail(fv.args, k as int) == spec_call_list(
                    fv.args,
                ),
                fv.args.len() == 0 ==> calls@ == Seq::<char>::empty(),
            decreases self.args@.len() - k,
        {
            let a = &self.args[k];
            proof {
                assert(fv.args[k as int] == self.args@[k as int]@);
            }
            let d = match a.code(self) {
                Ok(d) => d,
                Err(_) => {
                    assert(!spec_all_args_mappable(fv.args));
                    return Err(WrapperError::Skip);
                },
            };
            let ghost pre_d = decls@;
            decls.append(", ");
            decls.append(d.as_str());
            let u = a.get_value_usage();
            let ghost pre_c = calls@;
            calls.append(", ");
            calls.append(u.as_str());
            proof {
                assert(decls@ =~= pre_d + (", "@ + spec_arg_decl(fv.args[k as int])->0));
                assert(pre_d + (", "@ + spec_arg_decl(fv.args[k as int])->0 + spec_decl_tail(
                    fv.args,
                    k + 1,
                )) =~= decls@ + spec_decl_tail(fv.args, k + 1));
                assert(calls@ =~= pre_c + (", "@ + spec_arg_use(fv.args[k as int])));
                assert(pre_c + (", "@ + spec_arg_use(fv.args[k as int]) + spec_use_tail(
                    fv.args,
                    k + 1,
                )) =~= calls@ + spec_use_tail(fv.args, k + 1));
            }
            k += 1;
        }
        proof {
            assert(spec_all_args_mappable(fv.args));
            assert(decls@ + Seq::<char>::empty() =~= decls@);
            assert(spec_decl_tail(fv.args, fv.args.len() as int) =~= Seq::<char>::empty());
            if fv.args.len() > 0 {
                assert(spec_use_tail(fv.args, fv.args.len() as int) =~= Seq::<char>::empty());
                assert(calls@ + Seq::<char>::empty() =~= calls@);
            } else {
                assert(calls@ =~= spec_call_list(fv.args));
            }
        }
        proof {
            if fv.args.len() > 0 {
                assert(fv.args[0] == self.args@[0 as int]@);
            }
            reveal_strlit("");
        }
        let recv: &str = if self.args.len() == 0 {
            ""
        } else if self.args[0].get_type().is_const() {
            "self"
        } else {
            "mut self"
        };
        proof {
            assert(recv@ =~= spec_recv_decl(fv.args));
        }
        let mut s = String::from_str("    pub fn ");
        s.append(mname.as_str());
        s.append("(");
        s.append(recv);
        s.append(decls.as_str());
        s.append(") -> Self {\n        unsafe {\n            lvgl_sys::");
        s.append(self.name.as_str());
        s.append("(");
        s.append(calls.as_str());
        s.append(");\n        }\n        self\n    }\n");
        proof {
            assert(s@ =~= spec_setter_code(fv, spec_method_name(grebased)));
        }
        Ok(s)
    }
}

impl Rusty for LvWidget {
    type Parent = ();

    open spec fn spec_code(&self, parent: &()) -> Option<Seq<char>> {
        spec_widget_code(self@)
    }

    #[verifier::loop_isolation(false)]
    fn code(&self, _parent: &()) -> (r: WrapperResult<String>) {
        let ghost wv = self@;
        if str_eq(self.name.as_str(), "obj") {
            return Err(WrapperError::Skip);
        }
        let pascal = to_pascal(self.name.as_str());
        let mut body = String::new();
        let ghost mvs = wv.methods;
        let mut k: usize = 0;
        proof {
            assert(mvs.skip(0) =~= mvs);
            assert(body@ + spec_methods_code(mvs, wv.name) =~= spec_methods_code(mvs, wv.name));
        }
        while k < self.methods.len()
            invariant
                k <= self.methods@.len(),
                body@ + spec_methods_code(mvs.skip(k as int), wv.name) == spec_methods_code(
                    mvs,
                    wv.name,
                ),
            decreases self.methods@.len() - k,
        {
            let m = &self.methods[k];
            proof {
                assert(mvs[k as int] == self.methods@[k as int]@);
                assert(mvs.skip(k as int)[0] == mvs[k as int]);
                assert(mvs.skip(k as int).drop_first() =~= mvs.skip(k + 1));
            }
            match m.code(self) {
                Ok(t) => {
                    let ghost pre = body@;
                    body.append(t.as_str());
                    proof {
                        assert(pre + (t@ + spec_methods_code(mvs.skip(k + 1), wv.name)) =~= body@
                            + spec_methods_code(mvs.skip(k + 1), wv.name));
                    }
                },
                Err(_) => {
                    proof {
                        assert(Seq::<char>::empty() + spec_methods_code(mvs.skip(k + 1), wv.name)
                            =~= spec_methods_code(mvs.skip(k + 1), wv.name));
                    }
                },
            }
            k += 1;
        }
        proof {
            assert(mvs.skip(self.methods@.len() as int) =~= Seq::<FuncView>::empty());
            assert(body@ + Seq::<char>::empty() =~= body@);
        }
        let mut s = String::from_str("define_object!(");
        s.append(pascal.as_str());
        s.append(");\n\nimpl<C: 'static> ");
        s.append(pascal.as_str());
        s.append("<C> {\n");
        s.append(body.as_str());
        s.append("}\n");
        proof {
            assert(s@ =~= spec_widget_code(wv)->0);
        }
        Ok(s)
    }
}

} // verus!
