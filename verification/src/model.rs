//! The signature model: structured representations of a parameter, a
//! function declaration and a widget, with their mathematical views.

use vstd::prelude::*;
use crate::strutil::{contains_seq, str_contains};
use crate::types::LvType;

verus! {

/// Mathematical view of a parameter: its name and its type spelling.
pub struct ArgView {
    pub name: Seq<char>,
    pub typ: Seq<char>,
}

/// Mathematical view of a function declaration.
pub struct FuncView {
    pub name: Seq<char>,
    pub args: Seq<ArgView>,
    pub ret: Option<Seq<char>>,
}

/// Mathematical view of a widget: its token and its member functions.
pub struct WidgetView {
    pub name: Seq<char>,
    pub methods: Seq<FuncView>,
}

/// The views of a sequence of parameters.
pub open spec fn arg_views(xs: Seq<LvArg>) -> Seq<ArgView> {
    xs.map_values(|a: LvArg| a@)
}

/// The views of a sequence of function declarations.
pub open spec fn func_views(fs: Seq<LvFunc>) -> Seq<FuncView> {
    fs.map_values(|f: LvFunc| f@)
}

/// The views of a sequence of widgets.
pub open spec fn widget_views(ws: Seq<LvWidget>) -> Seq<WidgetView> {
    ws.map_values(|w: LvWidget| w@)
}

/// A named, typed parameter of a function declaration.
pub struct LvArg {
    pub name: String,
    pub typ: LvType,
}

impl View for LvArg {
    type V = ArgView;

    open spec fn view(&self) -> ArgView {
        ArgView { name: self.name@, typ: self.typ@ }
    }
}

impl Clone for LvArg {
    fn clone(&self) -> (r: Self)
        ensures
            r@ == self@,
    {
        LvArg { name: self.name.clone(), typ: self.typ.clone() }
    }
}

impl LvArg {
    pub fn new(name: String, typ: LvType) -> (r: Self)
        ensures
            r@.name == name@,
            r@.typ == typ@,
    {
        Self { name, typ }
    }

    pub fn get_type(&self) -> (r: &LvType)
        ensures
            r@ == self@.typ,
    {
        &self.typ
    }
}

/// A function declaration: name, ordered parameters, optional return type.
pub struct LvFunc {
    pub name: String,
    pub args: Vec<LvArg>,
    pub ret: Option<LvType>,
}

impl View for LvFunc {
    type V = FuncView;

    open spec fn view(&self) -> FuncView {
        FuncView {
            name: self.name@,
            args: self.args@.map_values(|a: LvArg| a@),
            ret: match self.ret {
                Some(t) => Some(t@),
                None => None,
            },
        }
    }
}

impl Clone for LvFunc {
    fn clone(&self) -> (r: Self)
        ensures
            r@ == self@,
    {
        let mut args: Vec<LvArg> = Vec::new();
        let mut k: usize = 0;
        while k < self.args.len()
            invariant
                k <= self.args@.len(),
                arg_views(args@) =~= arg_views(self.args@.take(k as int)),
            decreases self.args@.len() - k,
        {
            let ghost pre = args@;
            args.push(self.args[k].clone());
            proof {
                assert(arg_views(args@) =~= arg_views(pre) + seq![self.args@[k as int]@]);
                assert(arg_views(self.args@.take(k + 1)) =~= arg_views(self.args@.take(k as int))
                    + seq![self.args@[k as int]@]);
            }
            k += 1;
        }
        let ret = match &self.ret {
            Some(t) => Some(t.clone()),
            None => None,
        };
        let r = LvFunc { name: self.name.clone(), args, ret };
        proof {
            assert(self.args@.take(self.args@.len() as int) =~= self.args@);
            assert(r@.args =~= self@.args);
        }
        r
    }
}

/// The marker that the generic base object's type spelling carries.
pub open spec fn spec_obj_marker() -> Seq<char> {
    "lv_obj_t"@
}

/// A function is a method iff it has at least one parameter and the first
/// parameter's type spelling holds the generic base object marker.
pub open spec fn spec_is_method(f: FuncView) -> bool {
    f.args.len() > 0 && contains_seq(f.args[0].typ, spec_obj_marker())
}

impl LvFunc {
    pub fn new(name: String, args: Vec<LvArg>, ret: Option<LvType>) -> (r: Self)
        ensures
            r@.name == name@,
            r@.args == args@.map_values(|a: LvArg| a@),
            r@.ret == (match ret {
                Some(t) => Some(t@),
                None => None::<Seq<char>>,
            }),
    {
        Self { name, args, ret }
    }

    /// Whether this function operates on a widget instance.
    pub fn is_method(&self) -> (r: bool)
        ensures
            r == spec_is_method(self@),
    {
        if self.args.len() > 0 {
            let first_arg = &self.args[0];
            assert(self@.args[0] == self.args@.map_values(|a: LvArg| a@)[0]);
            str_contains(first_arg.typ.literal_name.as_str(), "lv_obj_t")
        } else {
            false
        }
    }
}

/// A widget: an inferred object subtype, identified by a shared token, with
/// the member functions assigned to it in encounter order.
pub struct LvWidget {
    pub name: String,
    pub methods: Vec<LvFunc>,
}

impl View for LvWidget {
    type V = WidgetView;

    open spec fn view(&self) -> WidgetView {
        WidgetView { name: self.name@, methods: self.methods@.map_values(|f: LvFunc| f@) }
    }
}

} // verus!
