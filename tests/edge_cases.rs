use mujoco_rs_util::fixed_arr_fn::create_fixed_array_fn_wrappers;
use mujoco_rs_util::getset::create_impl_getter_setter;
use mujoco_rs_util::getter_setter::create_getters_setters;
use mujoco_rs_util::info_method;
use mujoco_rs_util::model_fn::create_mj_self_methods;
use mujoco_rs_util::typedef::create_types;
use mujoco_rs_util::views;
use mujoco_rs_util::GenError;

#[test]
fn empty_inputs_give_no_output() {
    assert!(create_fixed_array_fn_wrappers("").is_empty());
    assert_eq!(info_method::create_views(""), (vec![], vec![]));
    assert!(views::create_views("").is_empty());
    assert!(create_types("", None).unwrap().is_empty());
    assert!(create_mj_self_methods("", "mjData*", &vec![]).unwrap().is_empty());
}

#[test]
fn ill_formed_names_are_errors() {
    assert_eq!(create_getters_setters("struct a {\n};\n", "("), Err(GenError::InvalidPattern));
    assert_eq!(create_impl_getter_setter("struct a {}", "(", "x"), Err(GenError::InvalidPattern));
    assert_eq!(create_mj_self_methods("", "(", &vec![]), Err(GenError::InvalidPattern));
    assert_eq!(create_types("", Some("(")), Err(GenError::InvalidPattern));
}

#[test]
fn block_without_rows_is_skipped() {
    let text = "#define MJDATA_EMPTY \\\n  nothing here )\n";
    assert_eq!(info_method::create_views(text), (vec![], vec![]));
}

#[test]
fn data_class_gets_model_bound() {
    let text = "#define MJDATA_SENSOR \\\n  X( mjtNum, sensor_, value, nsensordata, 1 )\n";
    let (info, view) = info_method::create_views(text);
    assert_eq!(info, vec!["info_method! { Data, ffi(), sensor,\n\t[value: 1],\n\t[],\n\t[]\n}".to_string()]);
    assert_eq!(
        view,
        vec!["info_with_view!(Data, sensor,\n\t[[sensor_] value: MjtNum],\n\t[], M: Deref<Target = MjModel>);".to_string()]
    );
}
