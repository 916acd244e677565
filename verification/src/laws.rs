//! Laws of the pipeline, stated and proved over the mathematical model.

use vstd::prelude::*;
use crate::emit::{
    pascal_of, spec_arg_decl, spec_decl_tail, spec_func_code, spec_rebased_name, spec_widget_code,
};
use crate::extract::{spec_create_token, spec_dedup, spec_extract, spec_widget_names};
use crate::model::{ArgView, FuncView, WidgetView};
use crate::parse::spec_load;
use crate::strutil::is_prefix;

verus! {

/// Every element of the deduplicated list already stood in the original.
proof fn lemma_dedup_elem(xs: Seq<Seq<char>>, k: int)
    requires
        0 <= k < spec_dedup(xs).len(),
    ensures
        exists|j: int| 0 <= j < xs.len() && xs[j] == spec_dedup(xs)[k],
    decreases xs.len(),
{
    let rest = spec_dedup(xs.drop_last());
    if k < rest.len() {
        lemma_dedup_elem(xs.drop_last(), k);
        let j = choose|j: int|
            0 <= j < xs.drop_last().len() && xs.drop_last()[j] == spec_dedup(xs.drop_last())[k];
        assert(xs[j] == spec_dedup(xs)[k]);
    } else {
        assert(xs[xs.len() - 1] == spec_dedup(xs)[k]);
    }
}

/// Every captured token comes from a function that matches the
/// constructor convention with exactly one parameter.
proof fn lemma_widget_names_elem(fs: Seq<FuncView>, m: int)
    requires
        0 <= m < spec_widget_names(fs).len(),
    ensures
        exists|i: int|
            0 <= i < fs.len() && spec_create_token(fs[i].name) == Some(spec_widget_names(fs)[m])
                && fs[i].args.len() == 1,
    decreases fs.len(),
{
    let head = if spec_create_token(fs[0].name) is Some && fs[0].args.len() == 1 {
        seq![spec_create_token(fs[0].name)->0]
    } else {
        Seq::<Seq<char>>::empty()
    };
    if m < head.len() {
        assert(spec_create_token(fs[0].name) == Some(spec_widget_names(fs)[m]) && fs[0].args.len()
            == 1);
    } else {
        lemma_widget_names_elem(fs.drop_first(), m - head.len());
        let i = choose|i: int|
            0 <= i < fs.drop_first().len() && spec_create_token(fs.drop_first()[i].name) == Some(
                spec_widget_names(fs.drop_first())[m - head.len()],
            ) && fs.drop_first()[i].args.len() == 1;
        assert(fs[i + 1] == fs.drop_first()[i]);
        assert(spec_create_token(fs[i + 1].name) == Some(spec_widget_names(fs)[m]) && fs[i
            + 1].args.len() == 1);
    }
}

/// Law: every widget a batch yields takes its name from one distinct match
/// of the constructor convention: some function of the batch spells
/// `lv_<token>_create`, has exactly one parameter, and captures exactly the
/// widget's name.
pub proof fn lemma_widget_names_from_constructors(fs: Seq<FuncView>, k: int)
    requires
        0 <= k < spec_extract(fs).len(),
    ensures
        exists|i: int|
            0 <= i < fs.len() && spec_create_token(fs[i].name) == Some(spec_extract(fs)[k].name)
                && fs[i].args.len() == 1,
{
    let names = spec_widget_names(fs);
    assert(spec_extract(fs)[k].name == spec_dedup(names)[k]);
    lemma_dedup_elem(names, k);
    let j = choose|j: int| 0 <= j < names.len() && names[j] == spec_dedup(names)[k];
    lemma_widget_names_elem(fs, j);
}

/// Law: the generic base object is never emitted as a widget.
pub proof fn lemma_base_object_never_emitted(w: WidgetView)
    requires
        w.name == "obj"@,
    ensures
        spec_widget_code(w) is None,
{
}

/// Law: an emitted widget fragment opens with the widget's name in
/// upper-camel-case: its text begins with the type-declaration expansion
/// point applied to the transformed token.
pub proof fn lemma_emitted_widget_name(w: WidgetView)
    requires
        spec_widget_code(w) is Some,
    ensures
        w.name != "obj"@,
        is_prefix("define_object!("@ + pascal_of(w.name), spec_widget_code(w)->0),
{
    let head = "define_object!("@ + pascal_of(w.name);
    let t = spec_widget_code(w)->0;
    assert(t.subrange(0, head.len() as int) =~= head);
}

/// Law: every emitted widget name is the upper-camel-case transform of
/// some captured constructor token, and the base-object token never
/// appears as an emitted widget.
pub proof fn lemma_emitted_widget_names_law(fs: Seq<FuncView>, k: int)
    requires
        0 <= k < spec_extract(fs).len(),
        spec_widget_code(spec_extract(fs)[k]) is Some,
    ensures
        spec_extract(fs)[k].name != "obj"@,
        is_prefix(
            "define_object!("@ + pascal_of(spec_extract(fs)[k].name),
            spec_widget_code(spec_extract(fs)[k])->0,
        ),
        exists|i: int|
            0 <= i < fs.len() && spec_create_token(fs[i].name) == Some(spec_extract(fs)[k].name)
                && fs[i].args.len() == 1,
{
    lemma_widget_names_from_constructors(fs, k);
    lemma_emitted_widget_name(spec_extract(fs)[k]);
}

/// Law: a function with a return type present, other than the constructor
/// special case, has no method emitted for it: the return-type skip is
/// total, not partial.
pub proof fn lemma_return_type_skip(f: FuncView, wname: Seq<char>)
    requires
        f.ret is Some,
        spec_rebased_name(f.name, wname) != "create"@,
    ensures
        spec_func_code(f, wname) is None,
{
}

/// The per-argument declarations, in declaration order.
pub open spec fn spec_decls_of(args: Seq<ArgView>) -> Seq<Seq<char>> {
    args.map_values(|a: ArgView| spec_arg_decl(a)->0)
}

/// Pieces joined in order, each behind a separator.
pub open spec fn concat_commas(xs: Seq<Seq<char>>) -> Seq<char>
    decreases xs.len(),
{
    if xs.len() == 0 {
        Seq::empty()
    } else {
        ", "@ + xs[0] + concat_commas(xs.drop_first())
    }
}

proof fn lemma_decl_tail_is_join(args: Seq<ArgView>, k: int)
    requires
        0 <= k <= args.len(),
    ensures
        spec_decl_tail(args, k) == concat_commas(spec_decls_of(args).skip(k)),
    decreases args.len() - k,
{
    if k >= args.len() {
        assert(spec_decls_of(args).skip(k) =~= Seq::<Seq<char>>::empty());
    } else {
        lemma_decl_tail_is_join(args, k + 1);
        assert(spec_decls_of(args).skip(k)[0] == spec_arg_decl(args[k])->0);
        assert(spec_decls_of(args).skip(k).drop_first() =~= spec_decls_of(args).skip(k + 1));
    }
}

/// Law: the emitted parameter list of a setter excludes the receiver and
/// preserves the relative order of the remaining parameters: it is exactly
/// the declarations of the arguments after the first, joined in order.
pub proof fn lemma_params_exclude_receiver(args: Seq<ArgView>)
    requires
        args.len() >= 1,
    ensures
        spec_decl_tail(args, 1) == concat_commas(spec_decls_of(args).skip(1)),
{
    lemma_decl_tail_is_join(args, 1);
}

/// The emitted fragments of a widget list, in order, skipped widgets
/// contributing nothing.
pub open spec fn spec_fragments(ws: Seq<WidgetView>) -> Seq<Seq<char>>
    decreases ws.len(),
{
    if ws.len() == 0 {
        Seq::empty()
    } else {
        (match spec_widget_code(ws[0]) {
            Some(t) => seq![t],
            None => Seq::empty(),
        }) + spec_fragments(ws.drop_first())
    }
}

/// What one whole run of the pipeline emits for an input batch.
pub open spec fn spec_pipeline(s: Seq<char>) -> Option<Seq<Seq<char>>> {
    match spec_load(s) {
        None => None,
        Some(fs) => Some(spec_fragments(spec_extract(fs))),
    }
}

/// Law: the pipeline is a pure function of the input batch: two runs on
/// identical input yield identical fragments, byte for byte, with no
/// hidden ordering nondeterminism.
pub proof fn lemma_pipeline_deterministic(s1: Seq<char>, s2: Seq<char>)
    requires
        s1 == s2,
    ensures
        spec_pipeline(s1) == spec_pipeline(s2),
{
}

} // verus!
