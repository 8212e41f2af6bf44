use mujoco_rs_util::fixed_arr_fn::{create_fixed_array_fn_wrappers, fixed_array_param, fixed_array_wrapper};
use mujoco_rs_util::model_fn::{create_mj_self_methods, process_arguments};
use mujoco_rs_util::typedef::create_types;

#[test]
fn fixed_array_wrapper_for_header() {
    let text = "MJAPI void mju_zero3(mjtNum res[3]);\nMJAPI int mju_sum(const mjtNum vec[4], int n);\n";
    let out = create_fixed_array_fn_wrappers(text);
    assert_eq!(
        out,
        vec![
            "\n        pub fn mju_zero3(res: &mut [MjtNum; 3])  {\n            unsafe { mju_zero3(res.as_mut_ptr()) }\n        }\n        ".to_string(),
            "\n        pub fn mju_sum(vec: &[MjtNum; 4], n: std::ffi::c_int) -> std::ffi::c_int  {\n            unsafe { mju_sum(vec.as_ptr(), n) }\n        }\n        ".to_string(),
        ]
    );
}

#[test]
fn pointer_parameter_skips_declaration() {
    assert_eq!(fixed_array_wrapper("void", "mju_f", "mjtNum res[3], const mjModel* m, int n"), None);
    assert!(fixed_array_wrapper("void", "mju_f", "mjtNum res[3], int n").is_some());
    let text = "MJAPI void mju_f(mjtNum res[3], const mjModel* m, int n);\n";
    assert!(create_fixed_array_fn_wrappers(text).is_empty());
}

#[test]
fn pointer_return_and_void_parameters_skip_declaration() {
    assert_eq!(fixed_array_wrapper("mjtNum*", "mju_g", "int n"), None);
    assert_eq!(fixed_array_wrapper("int", "mj_h", "void"), None);
}

#[test]
fn enum_return_type_is_capitalized() {
    let w = fixed_array_wrapper("mjtByte", "mj_k", "int n").unwrap();
    assert!(w.contains("pub fn mj_k(n: std::ffi::c_int) -> MjtByte  {"));
}

#[test]
fn fixed_array_parameters() {
    assert_eq!(fixed_array_param(" const mjtNum q[4]"), Some(("q: &[MjtNum; 4]".to_string(), "q.as_ptr()".to_string())));
    assert_eq!(fixed_array_param("float f[n]"), Some(("f: &mut [std::ffi::c_float; n]".to_string(), "f.as_mut_ptr()".to_string())));
    assert_eq!(fixed_array_param("mjtNum x"), Some(("x: MjtNum".to_string(), "x".to_string())));
    assert_eq!(fixed_array_param("void"), None);
}

#[test]
fn method_arguments() {
    let (params, names) = process_arguments("const mjtNum vec[3], int n", "mjData*").unwrap();
    assert_eq!(params, vec!["vec: &[MjtNum; 3]".to_string(), "n: std::ffi::c_int".to_string()]);
    assert_eq!(names, vec!["vec.as_ptr()".to_string(), "n".to_string()]);
    let (params, names) = process_arguments("const mjModel* m, mjData* d", "mjData*").unwrap();
    assert_eq!(params, vec!["&mut self".to_string(), "m: &MjModel".to_string()]);
    assert_eq!(names, vec!["m".to_string(), "self.ffi_mut()".to_string()]);
    let (params, names) = process_arguments("const mjData* d, int fooBar", "mjData*").unwrap();
    assert_eq!(params, vec!["&self".to_string(), "foo_bar: std::ffi::c_int".to_string()]);
    assert_eq!(names, vec!["self.ffi()".to_string(), "foo_bar".to_string()]);
    assert_eq!(process_arguments("void buf[4]", "mjData*"), None);
}

#[test]
fn methods_for_struct() {
    let text = "// Compute something.\n// Second line.\nMJAPI void mj_forwardSkip(const mjModel* m, mjData* d);\n";
    let out = create_mj_self_methods(text, "mjData*", &vec![]).unwrap();
    assert_eq!(
        out,
        vec!["\n/// Compute something.\n/// Second line.\npub fn forward_skip(&mut self, m: &MjModel) {\n    unsafe { mj_forwardSkip(m, self.ffi_mut()) }\n}".to_string()]
    );
    let blocked = create_mj_self_methods(text, "mjData*", &vec!["mjModel".to_string()]).unwrap();
    assert!(blocked.is_empty());
}

#[test]
fn type_aliases_from_reference() {
    let text = "Some doc about model.\n\n.. mujoco-include:: mjModel_\n";
    let out = create_types(text, Some("mj")).unwrap();
    assert_eq!(
        out,
        vec!["/// Some doc about model.".to_string(), "type MjModel = mjModel;".to_string(), String::new()]
    );
    assert!(create_types(text, Some("xyz")).unwrap().is_empty());
}
