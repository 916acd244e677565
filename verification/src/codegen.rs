//! The aggregate of one generation run: the full function list and the
//! derived widget list, built once from a single input text.

use vstd::prelude::*;
use vstd::string::*;
use crate::extract::{extract, spec_extract, spec_widget_names, str_views, widget_names};
use crate::model::{func_views, widget_views, FuncView, LvFunc, LvWidget, WidgetView};
use crate::parse::{load_decls, spec_load, ParseError};

verus! {

/// What one run computes from an input batch: the retained functions, and
/// the widgets derived from them.
pub open spec fn spec_codegen(s: Seq<char>) -> Option<(Seq<FuncView>, Seq<WidgetView>)> {
    match spec_load(s) {
        None => None,
        Some(fs) => Some((fs, spec_extract(fs))),
    }
}

pub struct CodeGen {
    pub functions: Vec<LvFunc>,
    pub widgets: Vec<LvWidget>,
}

impl CodeGen {
    /// Run the whole pipeline on one input batch. Fails exactly when the
    /// batch is malformed; otherwise the run holds the retained functions
    /// and their widgets.
    pub fn from(code: &str) -> (r: Result<CodeGen, ParseError>)
        ensures
            match r {
                Ok(cg) => spec_codegen(code@) == Some(
                    (func_views(cg.functions@), widget_views(cg.widgets@)),
                ),
                Err(e) => spec_codegen(code@) is None && e == ParseError::Malformed,
            },
    {
        let functions = match load_decls(code) {
            Ok(f) => f,
            Err(e) => {
                return Err(e);
            },
        };
        let widgets = extract(&functions);
        Ok(CodeGen { functions, widgets })
    }

    /// The derived widget list of this run.
    pub fn get_widgets(&self) -> (r: &Vec<LvWidget>)
        ensures
            r == &self.widgets,
    {
        &self.widgets
    }

    /// Load a declaration batch into function records.
    pub fn load_func_defs(bindgen_code: &str) -> (r: Result<Vec<LvFunc>, ParseError>)
        ensures
            match r {
                Ok(fs) => spec_load(bindgen_code@) == Some(func_views(fs@)),
                Err(e) => spec_load(bindgen_code@) is None && e == ParseError::Malformed,
            },
    {
        load_decls(bindgen_code)
    }

    /// The constructor tokens of a batch, in encounter order.
    pub fn get_widget_names(functions: &Vec<LvFunc>) -> (r: Vec<String>)
        ensures
            str_views(r@) == spec_widget_names(func_views(functions@)),
    {
        widget_names(functions)
    }

    /// Derive the widget list of a batch of functions. Extraction is
    /// partial by design and never fails.
    pub fn extract_widgets(functions: &Vec<LvFunc>) -> (r: Result<Vec<LvWidget>, ParseError>)
        ensures
            match r {
                Ok(ws) => widget_views(ws@) == spec_extract(func_views(functions@)),
                Err(_) => false,
            },
    {
        Ok(extract(functions))
    }

    /// The names of all retained functions, in order.
    #[verifier::loop_isolation(false)]
    pub fn get_function_names(&self) -> (r: Result<Vec<String>, ParseError>)
        ensures
            match r {
                Ok(ns) => str_views(ns@) == func_views(self.functions@).map_values(
                    |f: FuncView| f.name,
                ),
                Err(_) => false,
            },
    {
        let ghost goal = func_views(self.functions@).map_values(|f: FuncView| f.name);
        let mut out: Vec<String> = Vec::new();
        proof {
            assert(goal.len() == self.functions@.len());
            assert(str_views(out@) =~= goal.take(0));
        }
        let mut k: usize = 0;
        while k < self.functions.len()
            invariant
                k <= self.functions@.len(),
                str_views(out@) == goal.take(k as int),
            decreases self.functions@.len() - k,
        {
            let ghost pre = out@;
            out.push(self.functions[k].name.clone());
            proof {
                assert(goal[k as int] == self.functions@[k as int]@.name);
                assert(str_views(out@) =~= str_views(pre).push(self.functions@[k as int].name@));
                assert(goal.take(k + 1) =~= goal.take(k as int).push(goal[k as int]));
            }
            k += 1;
        }
        proof {
            assert(goal.take(goal.len() as int) =~= goal);
        }
        Ok(out)
    }
}

} // verus!
