use lvgl_codegen::{CodeGen, LvArg, LvFunc, LvType, LvWidget, Rusty};

#[test]
fn can_load_bindgen_fns() {
    let bindgen_code = format!(
        "ex{}n \"C\" {{ # [doc = \" Return with the screen of an object\"] # [doc = \" @param obj pointer to an object\"] # [doc = \" @return pointer to a screen\"] pub fn lv_obj_get_screen (obj : * const lv_obj_t) -> * mut lv_obj_t ; }}",
        "ter"
    );

    let cg = CodeGen::load_func_defs(bindgen_code.as_str()).unwrap();

    let ffn = cg.get(0).unwrap();
    assert_eq!(ffn.name, "lv_obj_get_screen");
    assert_eq!(ffn.args[0].name, "obj");
}

#[test]
fn can_identify_widgets_from_function_names() {
    let funcs = vec![
        LvFunc::new(
            "lv_obj_create".to_string(),
            vec![
                LvArg::new("parent".to_string(), LvType::new("abc".to_string())),
                LvArg::new("copy_from".to_string(), LvType::new("bcf".to_string())),
            ],
            None,
        ),
        LvFunc::new(
            "lv_btn_create".to_string(),
            vec![
                LvArg::new("parent".to_string(), LvType::new("abc".to_string())),
                LvArg::new("copy_from".to_string(), LvType::new("bcf".to_string())),
            ],
            None,
        ),
        LvFunc::new(
            "lv_do_something".to_string(),
            vec![
                LvArg::new("parent".to_string(), LvType::new("abc".to_string())),
                LvArg::new("copy_from".to_string(), LvType::new("bcf".to_string())),
            ],
            None,
        ),
        LvFunc::new(
            "lv_invalid_create".to_string(),
            vec![LvArg::new(
                "parent".to_string(),
                LvType::new("abc".to_string()),
            )],
            None,
        ),
        LvFunc::new(
            "lv_cb_create".to_string(),
            vec![
                LvArg::new("parent".to_string(), LvType::new("abc".to_string())),
                LvArg::new("copy_from".to_string(), LvType::new("bcf".to_string())),
            ],
            None,
        ),
    ];

    // The constructor convention asks for exactly one parameter, so of the
    // five declarations only `lv_invalid_create` seeds a widget.
    let widget_names = CodeGen::get_widget_names(&funcs);

    assert_eq!(widget_names.len(), 1);
    assert_eq!(widget_names[0], "invalid");
}

#[test]
fn generate_method_wrapper() {
    // pub fn lv_arc_set_bg_end_angle(arc: *mut lv_obj_t, end: u16);
    let arc_set_bg_end_angle = LvFunc::new(
        "lv_arc_set_bg_end_angle".to_string(),
        vec![
            LvArg::new("arc".to_string(), LvType::new("*mut lv_obj_t".to_string())),
            LvArg::new("end".to_string(), LvType::new("u16".to_string())),
        ],
        None,
    );
    let arc_widget = LvWidget {
        name: "arc".to_string(),
        methods: vec![],
    };

    let code = arc_set_bg_end_angle.code(&arc_widget).unwrap();
    let expected_code = "    pub fn bg_end_angle(mut self, end: u16) -> Self {\n        unsafe {\n            lvgl_sys::lv_arc_set_bg_end_angle(&mut *self.raw, end);\n        }\n        self\n    }\n";

    assert_eq!(code, expected_code);
}

#[test]
fn generate_method_wrapper_for_str_types_as_argument() {
    let bindgen_code = format!(
        "ex{}n \"C\" {{ # [doc = \" Set a new text for a label. Memory will be allocated to store the text by the label.\"] # [doc = \" @param label pointer to a label object\"] # [doc = \" @param text '\\\\0' terminated character string. NULL to refresh with the current text.\"] pub fn lv_label_set_text (label : * mut lv_obj_t , text : * const cty :: c_char) ; }}",
        "ter"
    );
    let cg = CodeGen::load_func_defs(bindgen_code.as_str()).unwrap();

    let label_set_text = cg.get(0).unwrap().clone();
    let parent_widget = LvWidget {
        name: "label".to_string(),
        methods: vec![],
    };

    let code = label_set_text.code(&parent_widget).unwrap();
    let expected_code = "    pub fn text(mut self, text: &cstr_core::CStr) -> Self {\n        unsafe {\n            lvgl_sys::lv_label_set_text(&mut *self.raw, text.as_ptr());\n        }\n        self\n    }\n";

    assert_eq!(code, expected_code);
}

#[test]
fn generate_basic_widget_code() {
    let arc_widget = LvWidget {
        name: "arc".to_string(),
        methods: vec![],
    };

    let code = arc_widget.code(&()).unwrap();
    let expected_code = "define_object!(Arc);\n\nimpl<C: 'static> Arc<C> {\n}\n";

    assert_eq!(code, expected_code);
}

#[test]
fn generate_widget_with_constructor_code() {
    // pub fn lv_arc_create(par: *mut lv_obj_t, copy: *const lv_obj_t) -> *mut lv_obj_t;
    let arc_create = LvFunc::new(
        "lv_arc_create".to_string(),
        vec![
            LvArg::new("par".to_string(), LvType::new("*mut lv_obj_t".to_string())),
            LvArg::new(
                "copy".to_string(),
                LvType::new("*const lv_obj_t".to_string()),
            ),
        ],
        Some(LvType::new("*mut lv_obj_t".to_string())),
    );

    let arc_widget = LvWidget {
        name: "arc".to_string(),
        methods: vec![arc_create],
    };

    let code = arc_widget.code(&()).unwrap();
    let expected_code = "define_object!(Arc);\n\nimpl<C: 'static> Arc<C> {\n    pub fn new<'a>(parent: &mut impl crate::core::ObjExt<C>) -> Self {\n        unsafe {\n            let obj = lvgl_sys::lv_arc_create(&mut *parent.raw);\n            let obj = Obj::from_raw(obj.as_mut().expect(\"OOM\"), parent.context);\n            Self { obj }\n        }\n    }\n}\n";

    assert_eq!(code, expected_code);
}
