use lvgl_codegen::{CodeGen, LvArg, LvFunc, LvType, LvWidget, ParseError, Rusty, WrapperError};

#[test]
fn pipeline_is_deterministic() {
    let input = format!(
        "ex{}n \"C\" {{ pub fn lv_arc_create (parent : * mut lv_obj_t) -> * mut lv_obj_t ; pub fn lv_arc_set_bg_end_angle (arc : * mut lv_obj_t , end : u16) ; pub fn lv_bar_create (parent : * mut lv_obj_t) -> * mut lv_obj_t ; }}",
        "ter"
    );
    let run = |text: &str| -> Vec<String> {
        let cg = CodeGen::from(text).unwrap();
        let mut fragments = Vec::new();
        for w in cg.get_widgets() {
            if let Ok(f) = w.code(&()) {
                fragments.push(f);
            }
        }
        fragments
    };
    let first = run(input.as_str());
    let second = run(input.as_str());
    assert_eq!(first, second);
    assert_eq!(first.len(), 2);
}

#[test]
fn emitted_widget_name_is_pascal_case_of_token() {
    let input = format!(
        "ex{}n \"C\" {{ pub fn lv_btnmatrix_create (parent : * mut lv_obj_t) -> * mut lv_obj_t ; }}",
        "ter"
    );
    let cg = CodeGen::from(input.as_str()).unwrap();
    let widgets = cg.get_widgets();
    assert_eq!(widgets.len(), 1);
    let code = widgets[0].code(&()).unwrap();
    assert!(code.starts_with("define_object!(Btnmatrix);"));
}

#[test]
fn malformed_batch_is_a_parse_error() {
    assert!(matches!(CodeGen::from("@ @ @"), Err(ParseError::Malformed)));
    assert!(matches!(CodeGen::from("pub fn"), Err(ParseError::Malformed)));
    assert!(matches!(
        CodeGen::from("pub fn lv_x (a : u16)"),
        Err(ParseError::Malformed)
    ));
}

#[test]
fn unknown_spelling_is_a_skip() {
    let func = LvFunc::new("lv_x_set_a".to_string(), vec![], None);
    let arg = LvArg::new("a".to_string(), LvType::new("unknown_t".to_string()));
    assert_eq!(arg.code(&func).unwrap_err(), WrapperError::Skip);
}

#[test]
fn type_properties_follow_the_spelling() {
    assert!(LvType::new("const lv_obj_t".to_string()).is_const());
    assert!(!LvType::new("* const lv_obj_t".to_string()).is_const());
    assert!(LvType::new("* const cty :: c_char".to_string()).is_str());
    assert!(!LvType::new("u16".to_string()).is_str());
}

#[test]
fn method_detection_reads_the_first_parameter() {
    let method = LvFunc::new(
        "lv_arc_set_angle".to_string(),
        vec![LvArg::new(
            "arc".to_string(),
            LvType::new("* mut lv_obj_t".to_string()),
        )],
        None,
    );
    assert!(method.is_method());
    let free = LvFunc::new("lv_tick_inc".to_string(), vec![], None);
    assert!(!free.is_method());
    let other = LvFunc::new(
        "lv_timer_handler".to_string(),
        vec![LvArg::new(
            "t".to_string(),
            LvType::new("* mut lv_timer_t".to_string()),
        )],
        None,
    );
    assert!(!other.is_method());
}

#[test]
fn reserved_word_argument_gets_raw_marker() {
    let f = LvFunc::new(
        "lv_bar_set_mode".to_string(),
        vec![
            LvArg::new("obj".to_string(), LvType::new("* mut lv_obj_t".to_string())),
            LvArg::new("in".to_string(), LvType::new("u16".to_string())),
        ],
        None,
    );
    let widget = LvWidget {
        name: "bar".to_string(),
        methods: vec![],
    };
    let code = f.code(&widget).unwrap();
    assert!(code.contains("pub fn mode(mut self, r#in: u16) -> Self"));
    assert!(code.contains("lvgl_sys::lv_bar_set_mode(&mut *self.raw, r#in);"));
}

#[test]
fn reserved_method_name_gets_trailing_marker() {
    let f = LvFunc::new(
        "lv_bar_set_type".to_string(),
        vec![LvArg::new(
            "obj".to_string(),
            LvType::new("* mut lv_obj_t".to_string()),
        )],
        None,
    );
    let widget = LvWidget {
        name: "bar".to_string(),
        methods: vec![],
    };
    let code = f.code(&widget).unwrap();
    assert!(code.contains("pub fn type_(mut self) -> Self"));
}

#[test]
fn const_receiver_binds_without_mut() {
    let f = LvFunc::new(
        "lv_bar_set_quiet".to_string(),
        vec![LvArg::new(
            "obj".to_string(),
            LvType::new("const lv_obj_t marker".to_string()),
        )],
        None,
    );
    let widget = LvWidget {
        name: "bar".to_string(),
        methods: vec![],
    };
    let code = f.code(&widget).unwrap();
    assert!(code.contains("pub fn quiet(self) -> Self"));
}

#[test]
fn return_type_skips_non_constructor_methods() {
    let f = LvFunc::new(
        "lv_bar_set_depth".to_string(),
        vec![
            LvArg::new("obj".to_string(), LvType::new("* mut lv_obj_t".to_string())),
            LvArg::new("v".to_string(), LvType::new("u16".to_string())),
        ],
        Some(LvType::new("u16".to_string())),
    );
    let widget = LvWidget {
        name: "bar".to_string(),
        methods: vec![],
    };
    assert_eq!(f.code(&widget).unwrap_err(), WrapperError::Skip);
}

#[test]
fn foreign_declarations_come_before_free_ones() {
    let input = format!(
        "pub fn lv_zeta_thing (a : u16) {{ }} ex{}n \"C\" {{ pub fn lv_alpha_thing (a : u16) ; }}",
        "ter"
    );
    let cg = CodeGen::from(input.as_str()).unwrap();
    let names = cg.get_function_names().unwrap();
    assert_eq!(names, vec!["lv_alpha_thing", "lv_zeta_thing"]);
}

#[test]
fn prefixless_declarations_are_discarded() {
    let input = format!(
        "ex{}n \"C\" {{ pub fn other_thing (a : u16) ; pub fn lv_kept_thing (a : u16) ; }}",
        "ter"
    );
    let cg = CodeGen::from(input.as_str()).unwrap();
    let names = cg.get_function_names().unwrap();
    assert_eq!(names, vec!["lv_kept_thing"]);
}

#[test]
fn variadic_markers_are_dropped_from_parameters() {
    let input = format!(
        "ex{}n \"C\" {{ pub fn lv_label_printf (label : * mut lv_obj_t , fmt : * const cty :: c_char , ...) ; }}",
        "ter"
    );
    let funcs = CodeGen::load_func_defs(input.as_str()).unwrap();
    assert_eq!(funcs.len(), 1);
    assert_eq!(funcs[0].args.len(), 2);
    assert_eq!(funcs[0].args[1].name, "fmt");
}

#[test]
fn duplicate_constructor_matches_collapse_to_one_widget() {
    let input = format!(
        "ex{}n \"C\" {{ pub fn lv_arc_create (parent : * mut lv_obj_t) -> * mut lv_obj_t ; pub fn lv_arc_create (parent : * mut lv_obj_t) -> * mut lv_obj_t ; }}",
        "ter"
    );
    let cg = CodeGen::from(input.as_str()).unwrap();
    assert_eq!(cg.get_widgets().len(), 1);
}

#[test]
fn type_mapper_keeps_toolkit_spellings() {
    let f = LvFunc::new(
        "lv_arc_set_mode".to_string(),
        vec![
            LvArg::new("obj".to_string(), LvType::new("* mut lv_obj_t".to_string())),
            LvArg::new("mode".to_string(), LvType::new("lv_arc_mode_t".to_string())),
        ],
        None,
    );
    let widget = LvWidget {
        name: "arc".to_string(),
        methods: vec![],
    };
    let code = f.code(&widget).unwrap();
    assert!(code.contains("pub fn mode(mut self, mode: lvgl_sys::lv_arc_mode_t) -> Self"));
}
