use lvgl_codegen::{CodeGen, LvArg, LvFunc, LvType, LvWidget, Rusty};

#[test]
fn widget_with_constructor_and_setter() {
    let input = format!(
        "ex{}n \"C\" {{ pub fn lv_widget_create (parent : * mut lv_obj_t) -> * mut lv_obj_t ; pub fn lv_widget_set_value (obj : * mut lv_obj_t , v : u16) ; }}",
        "ter"
    );
    let cg = CodeGen::from(input.as_str()).unwrap();
    let widgets = cg.get_widgets();
    assert_eq!(widgets.len(), 1);
    assert_eq!(widgets[0].name, "widget");

    let code = widgets[0].code(&()).unwrap();
    let expected = "define_object!(Widget);\n\nimpl<C: 'static> Widget<C> {\n    pub fn new<'a>(parent: &mut impl crate::core::ObjExt<C>) -> Self {\n        unsafe {\n            let obj = lvgl_sys::lv_widget_create(&mut *parent.raw);\n            let obj = Obj::from_raw(obj.as_mut().expect(\"OOM\"), parent.context);\n            Self { obj }\n        }\n    }\n    pub fn value(mut self, v: u16) -> Self {\n        unsafe {\n            lvgl_sys::lv_widget_set_value(&mut *self.raw, v);\n        }\n        self\n    }\n}\n";
    assert_eq!(code, expected);
}

#[test]
fn string_argument_uses_raw_pointer_at_call_site() {
    let input = format!(
        "ex{}n \"C\" {{ pub fn lv_label_create (parent : * mut lv_obj_t) -> * mut lv_obj_t ; pub fn lv_label_set_text (label : * mut lv_obj_t , text : * const cty :: c_char) ; }}",
        "ter"
    );
    let cg = CodeGen::from(input.as_str()).unwrap();
    let widgets = cg.get_widgets();
    assert_eq!(widgets.len(), 1);
    let code = widgets[0].code(&()).unwrap();
    assert!(code.contains("pub fn text(mut self, text: &cstr_core::CStr) -> Self"));
    assert!(code.contains("lvgl_sys::lv_label_set_text(&mut *self.raw, text.as_ptr());"));
}

#[test]
fn two_parameter_create_seeds_no_widget() {
    let input = format!(
        "ex{}n \"C\" {{ pub fn lv_other_create (parent : * mut lv_obj_t , template : * mut lv_obj_t) -> * mut lv_obj_t ; }}",
        "ter"
    );
    let cg = CodeGen::from(input.as_str()).unwrap();
    assert_eq!(cg.get_widgets().len(), 0);
}

#[test]
fn unmapped_argument_type_skips_only_that_method() {
    let good = LvFunc::new(
        "lv_bar_set_ok".to_string(),
        vec![
            LvArg::new("obj".to_string(), LvType::new("* mut lv_obj_t".to_string())),
            LvArg::new("v".to_string(), LvType::new("u16".to_string())),
        ],
        None,
    );
    let bad = LvFunc::new(
        "lv_bar_set_bad".to_string(),
        vec![
            LvArg::new("obj".to_string(), LvType::new("* mut lv_obj_t".to_string())),
            LvArg::new("v".to_string(), LvType::new("lv_unknown_t".to_string())),
        ],
        None,
    );
    let widget = LvWidget {
        name: "bar".to_string(),
        methods: vec![good, bad],
    };
    let code = widget.code(&()).unwrap();
    let expected = "define_object!(Bar);\n\nimpl<C: 'static> Bar<C> {\n    pub fn ok(mut self, v: u16) -> Self {\n        unsafe {\n            lvgl_sys::lv_bar_set_ok(&mut *self.raw, v);\n        }\n        self\n    }\n}\n";
    assert_eq!(code, expected);
    assert!(!code.contains("bad"));
}

#[test]
fn base_object_widget_is_never_emitted() {
    let input = format!(
        "ex{}n \"C\" {{ pub fn lv_obj_create (parent : * mut lv_obj_t) -> * mut lv_obj_t ; }}",
        "ter"
    );
    let cg = CodeGen::from(input.as_str()).unwrap();
    let widgets = cg.get_widgets();
    assert_eq!(widgets.len(), 1);
    assert_eq!(widgets[0].name, "obj");
    assert!(widgets[0].code(&()).is_err());
}
