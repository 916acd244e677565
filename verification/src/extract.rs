//! The widget extractor: infer the widget-name set from the constructor
//! naming convention and assign each qualifying function to at most one
//! widget.

use vstd::prelude::*;
use vstd::string::*;
use crate::model::{func_views, widget_views, FuncView, LvFunc, LvWidget, WidgetView, spec_is_method};
use crate::strutil::{find_char_from, is_prefix, is_suffix, str_eq, str_starts_with, str_ends_with};

verus! {

/// The views of a sequence of strings.
pub open spec fn str_views(xs: Seq<String>) -> Seq<Seq<char>> {
    xs.map_values(|s: String| s@)
}

/// The constructor convention: a name of the shape
/// `lv_<token>_create` where `<token>` is nonempty and holds no separator.
/// The captured token seeds a widget.
pub open spec fn spec_create_token(name: Seq<char>) -> Option<Seq<char>> {
    if name.len() >= 11 && is_prefix("lv_"@, name) && is_suffix("_create"@, name) && (forall|
        k: int,
    |
        3 <= k < name.len() - 7 ==> name[k] != '_') {
        Some(name.subrange(3, name.len() - 7))
    } else {
        None
    }
}

/// The widget tokens captured from the constructor convention, in encounter
/// order, one per function whose name matches and whose parameter count is
/// exactly one.
pub open spec fn spec_widget_names(fs: Seq<FuncView>) -> Seq<Seq<char>>
    decreases fs.len(),
{
    if fs.len() == 0 {
        Seq::empty()
    } else {
        (if spec_create_token(fs[0].name) is Some && fs[0].args.len() == 1 {
            seq![spec_create_token(fs[0].name)->0]
        } else {
            Seq::empty()
        }) + spec_widget_names(fs.drop_first())
    }
}

/// First occurrences, in order: duplicate constructor matches collapse to
/// one widget.
pub open spec fn spec_dedup(xs: Seq<Seq<char>>) -> Seq<Seq<char>>
    decreases xs.len(),
{
    if xs.len() == 0 {
        Seq::empty()
    } else {
        let rest = spec_dedup(xs.drop_last());
        if rest.contains(xs.last()) {
            rest
        } else {
            rest.push(xs.last())
        }
    }
}

/// The widget token of a function name: the substring between the library
/// prefix and the first following separator. A name without the prefix, or
/// without a separator after it, names no widget.
pub open spec fn spec_method_token(name: Seq<char>) -> Option<Seq<char>> {
    let stripped = if is_prefix("lv_"@, name) {
        name.skip(3)
    } else {
        Seq::empty()
    };
    match find_char_from(stripped, '_', 0) {
        None => None,
        Some(i) => Some(stripped.take(i)),
    }
}

/// The functions assigned to the widget named `wname`: the methods whose
/// widget token is `wname`, in encounter order.
pub open spec fn spec_widget_methods(fs: Seq<FuncView>, wname: Seq<char>) -> Seq<FuncView>
    decreases fs.len(),
{
    if fs.len() == 0 {
        Seq::empty()
    } else {
        (if spec_is_method(fs[0]) && spec_method_token(fs[0].name) == Some(wname) {
            seq![fs[0]]
        } else {
            Seq::empty()
        }) + spec_widget_methods(fs.drop_first(), wname)
    }
}

/// The widgets of a function batch: one per distinct constructor token, in
/// first-encounter order, each owning its methods in encounter order.
pub open spec fn spec_extract(fs: Seq<FuncView>) -> Seq<WidgetView> {
    spec_dedup(spec_widget_names(fs)).map_values(
        |n: Seq<char>| WidgetView { name: n, methods: spec_widget_methods(fs, n) },
    )
}

/// Capture the constructor token of `name`, if the name matches the
/// constructor convention.
#[verifier::loop_isolation(false)]
pub fn create_token(name: &str) -> (r: Option<String>)
    ensures
        match r {
            Some(t) => spec_create_token(name@) == Some(t@),
            None => spec_create_token(name@) is None,
        },
{
    let len = name.unicode_len();
    if len < 11 {
        return None;
    }
    if !str_starts_with(name, "lv_") {
        return None;
    }
    if !str_ends_with(name, "_create") {
        return None;
    }
    let stop = len - 7;
    let mut k: usize = 3;
    while k < stop
        invariant
            3 <= k <= stop,
            forall|m: int| 3 <= m < k ==> name@[m] != '_',
        decreases stop - k,
    {
        if name.get_char(k) == '_' {
            return None;
        }
        k += 1;
    }
    Some(name.substring_char(3, stop).to_owned())
}

/// The widget token of a method name.
#[verifier::loop_isolation(false)]
pub fn method_token(name: &str) -> (r: Option<String>)
    ensures
        match r {
            Some(t) => spec_method_token(name@) == Some(t@),
            None => spec_method_token(name@) is None,
        },
{
    if !str_starts_with(name, "lv_") {
        return None;
    }
    proof {
        reveal_strlit("lv_");
    }
    let ghost stripped = name@.skip(3);
    let len = name.unicode_len();
    let mut k: usize = 3;
    while k < len
        invariant
            3 <= k <= len,
            find_char_from(stripped, '_', 0) == find_char_from(stripped, '_', k - 3),
        decreases len - k,
    {
        if name.get_char(k) == '_' {
            assert(stripped[k - 3] == '_');
            assert(find_char_from(stripped, '_', k - 3) == Some(k - 3));
            let t = name.substring_char(3, k).to_owned();
            proof {
                assert(stripped.take(k - 3) =~= name@.subrange(3, k as int));
            }
            return Some(t);
        }
        assert(stripped[k - 3] != '_');
        k += 1;
    }
    assert(find_char_from(stripped, '_', k - 3) is None);
    None
}

/// The constructor tokens of a batch, in encounter order, duplicates kept.
#[verifier::loop_isolation(false)]
pub fn widget_names(functions: &Vec<LvFunc>) -> (r: Vec<String>)
    ensures
        str_views(r@) == spec_widget_names(func_views(functions@)),
{
    let ghost fvs = func_views(functions@);
    proof {
        assert(fvs.len() == functions@.len());
    }
    let mut out: Vec<String> = Vec::new();
    proof {
        assert(fvs.skip(0) =~= fvs);
        assert(str_views(out@) =~= Seq::<Seq<char>>::empty());
        assert(Seq::<Seq<char>>::empty() + spec_widget_names(fvs) =~= spec_widget_names(fvs));
    }
    let mut k: usize = 0;
    while k < functions.len()
        invariant
            k <= functions@.len(),
            spec_widget_names(fvs) == str_views(out@) + spec_widget_names(fvs.skip(k as int)),
        decreases functions@.len() - k,
    {
        let f = &functions[k];
        proof {
            assert(fvs[k as int] == functions@[k as int]@);
            assert(fvs.skip(k as int)[0] == fvs[k as int]);
            assert(fvs.skip(k as int).drop_first() =~= fvs.skip(k + 1));
        }
        let tok = create_token(f.name.as_str());
        match tok {
            Some(t) => {
                if f.args.len() == 1 {
                    let ghost pre = out@;
                    let ghost tv = t@;
                    out.push(t);
                    proof {
                        assert(str_views(out@) =~= str_views(pre) + seq![tv]);
                        assert(str_views(pre) + (seq![tv] + spec_widget_names(fvs.skip(k + 1)))
                            =~= (str_views(pre) + seq![tv]) + spec_widget_names(fvs.skip(k + 1)));
                    }
                }
            },
            None => {},
        }
        proof {
            if !(spec_create_token(fvs[k as int].name) is Some && fvs[k as int].args.len() == 1) {
                assert(Seq::<Seq<char>>::empty() + spec_widget_names(fvs.skip(k + 1))
                    =~= spec_widget_names(fvs.skip(k + 1)));
            }
        }
        k += 1;
    }
    proof {
        assert(fvs.skip(functions@.len() as int) =~= Seq::<FuncView>::empty());
        assert(str_views(out@) + Seq::<Seq<char>>::empty() =~= str_views(out@));
    }
    out
}

/// Does the string list already hold `x`?
#[verifier::loop_isolation(false)]
fn names_contain(xs: &Vec<String>, x: &String) -> (b: bool)
    ensures
        b == str_views(xs@).contains(x@),
{
    let mut k: usize = 0;
    while k < xs.len()
        invariant
            k <= xs@.len(),
            forall|m: int| 0 <= m < k ==> str_views(xs@)[m] != x@,
        decreases xs@.len() - k,
    {
        proof {
            assert(str_views(xs@)[k as int] == xs@[k as int]@);
        }
        if str_eq(xs[k].as_str(), x.as_str()) {
            assert(str_views(xs@).contains(x@));
            return true;
        }
        k += 1;
    }
    assert(!str_views(xs@).contains(x@));
    false
}

/// Keep the first occurrence of each token, in order.
#[verifier::loop_isolation(false)]
fn dedup_names(xs: Vec<String>) -> (r: Vec<String>)
    ensures
        str_views(r@) == spec_dedup(str_views(xs@)),
{
    let ghost xvs = str_views(xs@);
    proof {
        assert(xvs.len() == xs@.len());
    }
    let mut out: Vec<String> = Vec::new();
    let mut k: usize = 0;
    while k < xs.len()
        invariant
            k <= xs@.len(),
            str_views(out@) == spec_dedup(xvs.take(k as int)),
        decreases xs@.len() - k,
    {
        proof {
            assert(xvs.take(k + 1).drop_last() =~= xvs.take(k as int));
            assert(xvs.take(k + 1).last() == xvs[k as int]);
            assert(xvs[k as int] == xs@[k as int]@);
        }
        let seen = names_contain(&out, &xs[k]);
        if !seen {
            let ghost pre = out@;
            out.push(xs[k].clone());
            proof {
                assert(str_views(out@) =~= str_views(pre).push(xs@[k as int]@));
            }
        }
        k += 1;
    }
    proof {
        assert(xvs.take(xs@.len() as int) =~= xvs);
    }
    out
}

/// Collect the methods of the widget named `wname`, in encounter order.
#[verifier::loop_isolation(false)]
fn collect_methods(functions: &Vec<LvFunc>, wname: &String) -> (r: Vec<LvFunc>)
    ensures
        func_views(r@) == spec_widget_methods(func_views(functions@), wname@),
{
    let ghost fvs = func_views(functions@);
    proof {
        assert(fvs.len() == functions@.len());
    }
    let mut out: Vec<LvFunc> = Vec::new();
    proof {
        assert(fvs.skip(0) =~= fvs);
        assert(func_views(out@) =~= Seq::<FuncView>::empty());
        assert(Seq::<FuncView>::empty() + spec_widget_methods(fvs, wname@) =~= spec_widget_methods(
            fvs,
            wname@,
        ));
    }
    let mut k: usize = 0;
    while k < functions.len()
        invariant
            k <= functions@.len(),
            spec_widget_methods(fvs, wname@) == func_views(out@) + spec_widget_methods(
                fvs.skip(k as int),
                wname@,
            ),
        decreases functions@.len() - k,
    {
        let f = &functions[k];
        proof {
            assert(fvs[k as int] == functions@[k as int]@);
            assert(fvs.skip(k as int)[0] == fvs[k as int]);
            assert(fvs.skip(k as int).drop_first() =~= fvs.skip(k + 1));
        }
        let is_m = f.is_method();
        let matches_widget = if is_m {
            match method_token(f.name.as_str()) {
                Some(t) => str_eq(t.as_str(), wname.as_str()),
                None => false,
            }
        } else {
            false
        };
        if matches_widget {
            let ghost pre = out@;
            out.push(f.clone());
            proof {
                assert(func_views(out@) =~= func_views(pre) + seq![fvs[k as int]]);
                assert(func_views(pre) + (seq![fvs[k as int]] + spec_widget_methods(
                    fvs.skip(k + 1),
                    wname@,
                )) =~= (func_views(pre) + seq![fvs[k as int]]) + spec_widget_methods(
                    fvs.skip(k + 1),
                    wname@,
                ));
            }
        } else {
            proof {
                assert(Seq::<FuncView>::empty() + spec_widget_methods(fvs.skip(k + 1), wname@)
                    =~= spec_widget_methods(fvs.skip(k + 1), wname@));
            }
        }
        k += 1;
    }
    proof {
        assert(fvs.skip(functions@.len() as int) =~= Seq::<FuncView>::empty());
        assert(func_views(out@) + Seq::<FuncView>::empty() =~= func_views(out@));
    }
    out
}

/// Build the widget list of a batch: one widget per distinct constructor
/// token, each owning its methods.
#[verifier::loop_isolation(false)]
pub fn extract(functions: &Vec<LvFunc>) -> (r: Vec<LvWidget>)
    ensures
        widget_views(r@) == spec_extract(func_views(functions@)),
{
    let ghost fvs = func_views(functions@);
    let names = widget_names(functions);
    let names = dedup_names(names);
    let ghost dvs = spec_dedup(spec_widget_names(fvs));
    proof {
        assert(str_views(names@) == dvs);
        assert(str_views(names@).len() == names@.len());
    }
    let mut out: Vec<LvWidget> = Vec::new();
    let mut k: usize = 0;
    while k < names.len()
        invariant
            k <= names@.len(),
            widget_views(out@) == spec_extract(fvs).take(k as int),
        decreases names@.len() - k,
    {
        proof {
            assert(dvs[k as int] == names@[k as int]@);
        }
        let methods = collect_methods(functions, &names[k]);
        let ghost pre = out@;
        out.push(LvWidget { name: names[k].clone(), methods });
        proof {
            assert(widget_views(out@) =~= widget_views(pre).push(
                WidgetView { name: dvs[k as int], methods: spec_widget_methods(fvs, dvs[k as int]) },
            ));
            assert(spec_extract(fvs)[k as int] == WidgetView {
                name: dvs[k as int],
                methods: spec_widget_methods(fvs, dvs[k as int]),
            });
            assert(spec_extract(fvs).take(k + 1) =~= spec_extract(fvs).take(k as int).push(
                spec_extract(fvs)[k as int],
            ));
        }
        k += 1;
    }
    proof {
        assert(spec_extract(fvs).take(spec_extract(fvs).len() as int) =~= spec_extract(fvs));
        assert(spec_extract(fvs).len() == names@.len());
    }
    out
}

} // verus!
