//! The type mapper: a closed table from recognized C type spellings to
//! target-language type expressions, and the derived properties of a spelling.

use vstd::prelude::*;
use vstd::string::*;
use crate::strutil::{is_prefix, is_suffix, str_starts_with, str_ends_with, str_eq};

verus! {

/// The spelling of the "pointer to a null-terminated character sequence" type.
pub open spec fn spec_cstr_spelling() -> Seq<char> {
    "* const cty :: c_char"@
}

/// The qualifier that marks a spelling as const.
pub open spec fn spec_const_qualifier() -> Seq<char> {
    "const "@
}

/// A spelling is const-qualified iff it begins with the const qualifier.
pub open spec fn spec_is_const(t: Seq<char>) -> bool {
    is_prefix(spec_const_qualifier(), t)
}

/// A spelling is string-like iff it ends with the null-terminated
/// character-pointer spelling.
pub open spec fn spec_is_str(t: Seq<char>) -> bool {
    is_suffix(spec_cstr_spelling(), t)
}

/// The recognized type spellings: primitive integers and booleans, the
/// toolkit's enum and handle types, and the string-like pointer spelling.
pub open spec fn spec_in_table(t: Seq<char>) -> bool {
    ||| t == "i16"@
    ||| t == "u16"@
    ||| t == "i32"@
    ||| t == "u8"@
    ||| t == "u32"@
    ||| t == "bool"@
    ||| t == "lv_opa_t"@
    ||| t == "lv_anim_enable_t"@
    ||| t == "lv_arc_mode_t"@
    ||| t == "lv_bar_mode_t"@
    ||| t == "lv_btnmatrix_ctrl_t"@
    ||| t == "lv_chart_axis_t"@
    ||| t == "lv_chart_type_t"@
    ||| t == "lv_chart_update_mode_t"@
    ||| t == "lv_color_t"@
    ||| t == "lv_coord_t"@
    ||| t == "lv_dir_t"@
    ||| t == "lv_img_size_mode_t"@
    ||| t == "lv_imgbtn_state_t"@
    ||| t == "lv_keyboard_mode_t"@
    ||| t == "lv_label_long_mode_t"@
    ||| t == "lv_menu_mode_header_t"@
    ||| t == "lv_menu_mode_root_back_btn_t"@
    ||| t == "lv_roller_mode_t"@
    ||| t == "lv_slider_mode_t"@
    ||| t == "lv_span_mode_t"@
    ||| t == "lv_span_overflow_t"@
    ||| t == "lv_table_cell_ctrl_t"@
    ||| t == "lv_text_align_t"@
    ||| t == spec_cstr_spelling()
}

/// The table entry for a spelling: recognized spellings map to themselves,
/// except the string-like pointer spelling, whose entry is a placeholder
/// (the emitter renders string-like arguments specially).
pub open spec fn spec_type_table(t: Seq<char>) -> Option<Seq<char>> {
    if t == spec_cstr_spelling() {
        Some("_"@)
    } else if spec_in_table(t) {
        Some(t)
    } else {
        None
    }
}

/// Look a spelling up in the table.
pub fn table_lookup(t: &str) -> (r: Option<String>)
    ensures
        match r {
            Some(m) => spec_type_table(t@) == Some(m@),
            None => spec_type_table(t@) is None,
        },
{
    if str_eq(t, "* const cty :: c_char") {
        return Some("_".to_owned());
    }
    let hit = str_eq(t, "i16") || str_eq(t, "u16") || str_eq(t, "i32") || str_eq(t, "u8")
        || str_eq(t, "u32") || str_eq(t, "bool") || str_eq(t, "lv_opa_t")
        || str_eq(t, "lv_anim_enable_t") || str_eq(t, "lv_arc_mode_t")
        || str_eq(t, "lv_bar_mode_t") || str_eq(t, "lv_btnmatrix_ctrl_t")
        || str_eq(t, "lv_chart_axis_t") || str_eq(t, "lv_chart_type_t")
        || str_eq(t, "lv_chart_update_mode_t") || str_eq(t, "lv_color_t")
        || str_eq(t, "lv_coord_t") || str_eq(t, "lv_dir_t")
        || str_eq(t, "lv_img_size_mode_t") || str_eq(t, "lv_imgbtn_state_t")
        || str_eq(t, "lv_keyboard_mode_t") || str_eq(t, "lv_label_long_mode_t")
        || str_eq(t, "lv_menu_mode_header_t") || str_eq(t, "lv_menu_mode_root_back_btn_t")
        || str_eq(t, "lv_roller_mode_t") || str_eq(t, "lv_slider_mode_t")
        || str_eq(t, "lv_span_mode_t") || str_eq(t, "lv_span_overflow_t")
        || str_eq(t, "lv_table_cell_ctrl_t") || str_eq(t, "lv_text_align_t");
    if hit {
        Some(t.to_owned())
    } else {
        None
    }
}

/// A literal spelling of a source type.
pub struct LvType {
    pub literal_name: String,
}

impl View for LvType {
    type V = Seq<char>;

    open spec fn view(&self) -> Seq<char> {
        self.literal_name@
    }
}

impl Clone for LvType {
    fn clone(&self) -> (r: Self)
        ensures
            r@ == self@,
    {
        LvType { literal_name: self.literal_name.clone() }
    }
}

impl LvType {
    pub fn new(literal_name: String) -> (r: Self)
        ensures
            r@ == literal_name@,
    {
        Self { literal_name }
    }

    /// True iff the spelling begins with the const qualifier.
    pub fn is_const(&self) -> (r: bool)
        ensures
            r == spec_is_const(self@),
    {
        str_starts_with(self.literal_name.as_str(), "const ")
    }

    /// True iff the spelling ends with the null-terminated
    /// character-pointer spelling.
    pub fn is_str(&self) -> (r: bool)
        ensures
            r == spec_is_str(self@),
    {
        str_ends_with(self.literal_name.as_str(), "* const cty :: c_char")
    }
}

} // verus!
