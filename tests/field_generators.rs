use mujoco_rs_util::array_slice::{create_array_slice, display_parsed, extract_possible_enum};
use mujoco_rs_util::getset::create_impl_getter_setter;
use mujoco_rs_util::getter_setter;
use mujoco_rs_util::getter_setter::create_getters_setters;
use mujoco_rs_util::text::trim_str;
use mujoco_rs_util::type_map::{capitalize, convert_type};
use mujoco_rs_util::GenError;

#[test]
fn flag_array_with_name_times_count_comment() {
    let text = "struct mjFoo_ {\n  unsigned int foo[10];    // some flag array (bar x 3)\n};\n";
    let (single, summed) = create_array_slice(text, "d", "mjFoo_").unwrap();
    assert_eq!(single, vec!["foo: &[[u32; 3] [cast]; \"some flag array\"; d.bar],".to_string()]);
    assert!(summed.is_empty());
}

#[test]
fn unrelated_lines_do_not_change_matched_entries() {
    let a = "struct mjS_ {\n  int x;    // unrelated\n  mjtNum* qpos;    // position (nq x 1)\n  int y;    // another\n  mjtNum* qvel;    // velocity (nv x 1)\n};\n";
    let b = "struct mjS_ {\n  mjtNum* qpos;    // position (nq x 1)\n  int y;    // another\n  mjtNum* qvel;    // velocity (nv x 1)\n  int x;    // unrelated\n};\n";
    let (ra, _) = create_array_slice(a, "m", "mjS_").unwrap();
    let (rb, _) = create_array_slice(b, "m", "mjS_").unwrap();
    assert_eq!(ra, rb);
    assert_eq!(
        ra,
        vec![
            "qpos: &[MjtNum; \"position\"; m.nq],".to_string(),
            "qvel: &[MjtNum; \"velocity\"; m.nv],".to_string(),
        ]
    );
}

#[test]
fn count_times_name_and_name_only_shapes() {
    let text = "struct mjD_ {\n  mjtNum* xpos;    // Cartesian position (3 x nbody)\n  int* parent;    // parent ids (nbody)\n};\n";
    let (single, _) = create_array_slice(text, "m", "mjD_").unwrap();
    assert_eq!(
        single,
        vec![
            "xpos: &[[MjtNum; 3] [cast]; \"Cartesian position\"; m.nbody],".to_string(),
            "parent: &[i32; \"parent ids\"; m.nbody],".to_string(),
        ]
    );
}

#[test]
fn summed_length_form() {
    let text = "struct mjM_ {\n  mjtNum* data;    // user data (12 x sum(nsensordim))\n};\n";
    let (single, summed) = create_array_slice(text, "m", "mjM_").unwrap();
    assert!(single.is_empty());
    assert_eq!(summed, vec!["data: &[MjtNum; \"user data\"; [12; (m.nsensordim); (m.)]],".to_string()]);
}

#[test]
fn missing_struct_is_an_error() {
    assert_eq!(create_array_slice("struct other_ {\n};\n", "m", "mjS_"), Err(GenError::AnchorNotFound));
    assert_eq!(create_getters_setters("nothing here", "mjS_"), Err(GenError::AnchorNotFound));
}

#[test]
fn ill_formed_struct_name_is_an_error() {
    assert_eq!(create_array_slice("struct a {\n};\n", "m", "("), Err(GenError::InvalidPattern));
}

#[test]
fn display_parsed_forms() {
    assert_eq!(display_parsed("int", "a", "c", "n", "1", "m", false), "a: &[i32; \"c\"; m.n],");
    assert_eq!(display_parsed("int", "a", "c", "n", "", "m", false), "a: &[i32; \"c\"; m.n],");
    assert_eq!(display_parsed("double", "a", "c", "n", "k", "m", false), "a: &[[f64; k as usize] [cast]; \"c\"; m.n],");
    assert_eq!(display_parsed("mjtDyn", "a", "c", "n", "1", "m", false), "a: &[MjtDyn [cast]; \"c\"; m.n],");
    assert_eq!(display_parsed("mjtByte", "a", "c", "n", "1", "m", false), "a: &[MjtByte; \"c\"; m.n],");
    assert_eq!(display_parsed("long", "a", "c", "n", "5", "m", true), "a: &[std::ffi::c_long; \"c\"; [5; (m.n); (m.)]],");
}

#[test]
fn enum_override_in_comment() {
    let (comment, ty) = extract_possible_enum("dynamics type (mjtDyn)", "int");
    assert_eq!(comment.trim(), "dynamics type");
    assert_eq!(ty, "mjtDyn");
    assert_eq!(convert_type(&ty), "MjtDyn");
    let (c, t, was_enum) = getter_setter::extract_possible_enum("dynamics type (mjtDyn)", "int");
    assert_eq!((c.trim(), t.as_str(), was_enum), ("dynamics type", "mjtDyn", true));
}

#[test]
fn comment_without_enum_is_kept() {
    let (comment, ty) = extract_possible_enum("number of bodies (nbody)", "int");
    assert_eq!((comment.as_str(), ty.as_str()), ("number of bodies (nbody)", "int"));
    let (_, _, was_enum) = getter_setter::extract_possible_enum("plain", "int");
    assert!(!was_enum);
}

#[test]
fn type_mapping() {
    assert_eq!(convert_type("float"), "f32");
    assert_eq!(convert_type("double"), "f64");
    assert_eq!(convert_type("char"), "i8");
    assert_eq!(convert_type("int"), "i32");
    assert_eq!(convert_type("unsigned char"), "u8");
    assert_eq!(convert_type("unsigned int"), "u32");
    assert_eq!(convert_type("mjtNum"), "MjtNum");
    assert_eq!(convert_type("long"), "std::ffi::c_long");
}

#[test]
fn canonical_names_map_to_themselves() {
    assert_eq!(convert_type("MjtNum"), "MjtNum");
    assert_eq!(convert_type("MjModel"), "MjModel");
    assert_eq!(convert_type(&convert_type("mjtDyn")), "MjtDyn");
    assert_eq!(capitalize("MjtNum"), "MjtNum");
    assert_eq!(capitalize(&capitalize("mjtNum")), "MjtNum");
}

#[test]
fn mixed_shapes_keep_source_order() {
    let text = "struct mjS_ {
  mjtNum* xpos;    // position (3 x nbody)
  mjtNum* qpos;    // joints (nq x 1)
  int* parent;    // parent ids (nbody)
};
";
    let (single, _) = create_array_slice(text, "m", "mjS_").unwrap();
    assert_eq!(
        single,
        vec![
            "xpos: &[[MjtNum; 3] [cast]; \"position\"; m.nbody],".to_string(),
            "qpos: &[MjtNum; \"joints\"; m.nq],".to_string(),
            "parent: &[i32; \"parent ids\"; m.nbody],".to_string(),
        ]
    );
}

#[test]
fn unicode_whitespace_is_trimmed() {
    assert_eq!(trim_str("\u{A0}\u{0B} ab c\u{3000}\t"), "ab c");
}

#[test]
fn capitalize_first_letter() {
    assert_eq!(capitalize("mjtNum"), "MjtNum");
    assert_eq!(capitalize("int"), "Int");
}

#[test]
fn getters_setters_scalars_and_arrays() {
    let text = "struct mjVisual_ {\n  float scale;    // overall scale\n  int type;    // geom type (mjtGeom)\n  mjStatistic stat;    // statistics\n  float rgba[4];    // color\n  int adr[nbody];    // addresses\n};\n";
    let (scalars, arrays) = create_getters_setters(text, "mjVisual_").unwrap();
    assert_eq!(
        scalars,
        vec![
            "scale: f32; \"overall scale.\";".to_string(),
            "type: &MjtGeom; \"geom type.\"; // force type coercion!".to_string(),
            "stat: &MjStatistic; \"statistics.\";".to_string(),
        ]
    );
    assert_eq!(
        arrays,
        vec![
            "rgba: &[f32; 4]; \"color.\";".to_string(),
            "adr: &[i32; nbody as usize]; \"addresses.\";".to_string(),
        ]
    );
}

#[test]
fn impl_getter_setter_lines() {
    let text = "struct mjOption_ {\n  int nconmax; // max contacts\n  mjtNum* ptr; // pointer\n  mjtNum timestep[1]; // time step\n  double x; // unknown\n};\n";
    let out = create_impl_getter_setter(text, "mjOption_", "opt").unwrap();
    assert_eq!(
        out,
        vec![
            "impl_getter_setter!(get, nconmax, \"max contacts\", u32, opt);".to_string(),
            "impl_getter_setter!(get, timestep, \"time step\", MjtNum, opt);".to_string(),
            "impl_getter_setter!(get, x, \"unknown\", std::ffi::c_double, opt);".to_string(),
        ]
    );
    assert_eq!(create_impl_getter_setter("no struct", "mjOption_", "opt"), Err(GenError::AnchorNotFound));
}
