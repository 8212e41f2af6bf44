use mujoco_rs_util::info_method::{
    create_views, join_attributes_chunked_pretty, length_entry, size_source, view_decl, SizeSource,
    RE_INFO_METHOD_MATCH,
};
use mujoco_rs_util::views;

const BLOCK: &str = "#define MJMODEL_ACTUATOR \\\n  X( int,     actuator_, trntype,  nu, 1 )     \\\n  X( mjtNum,  actuator_, gear,     nu, 6 )     \\\n  X( int,     , _foo,  na, 1 )   \\\n  X( float, , user, nu, MJ_M(nuser_actuator) )\n";

#[test]
fn test_info_method_match() {
    const TEST_INFO_METHOD_INVOKE: &str = "
        info_method! { Model, ffi(), body,
            [parentid: 1, rootid: 2, weldid: 3, mocapid: 4],
            [user: nuser_site * 5],
            [objtype: ntupledata, objid: ntupledata]
        }";

    let re = regex::Regex::new(RE_INFO_METHOD_MATCH).unwrap();
    for capture in re.captures_iter(TEST_INFO_METHOD_INVOKE) {
        let struct_type = capture.name("struct_type").map_or("", |x| x.as_str());
        let ffi = capture.name("ffi").map_or("", |x| x.as_str());
        let view_of = capture.name("view_of").map_or("", |x| x.as_str());
        let fixed_size_fields = capture.name("fixed_size_fields").map_or("", |x| x.as_str());
        let ffi_obtained_size_fields = capture.name("ffi_obtained_size_fields").map_or("", |x| x.as_str());
        let instance_dependent_size_fields = capture.name("instance_dependent_size_fields").map_or("", |x| x.as_str());

        assert_eq!(struct_type, "Model");
        assert_eq!(view_of, "body");
        assert_eq!(ffi, "ffi()");
        assert_eq!(fixed_size_fields, "parentid: 1, rootid: 2, weldid: 3, mocapid: 4");
        assert_eq!(ffi_obtained_size_fields, "user: nuser_site * 5");
        assert_eq!(instance_dependent_size_fields, "objtype: ntupledata, objid: ntupledata");
    }
}

#[test]
fn allow_listed_short_total_dimension_is_fixed() {
    assert_eq!(size_source("nu", "1"), SizeSource::Fixed);
    assert_eq!(length_entry("ctrl", "nu", "1"), "ctrl: 1");
}

#[test]
fn other_short_total_dimension_is_instance_dependent() {
    assert_eq!(size_source("na", "1"), SizeSource::InstanceDependent);
    assert_eq!(length_entry("act", "na", "1"), "act: na");
}

#[test]
fn long_total_dimension_is_fixed() {
    assert_eq!(size_source("ntupledata", "1"), SizeSource::Fixed);
}

#[test]
fn helper_wrapped_dimension_is_external() {
    assert_eq!(size_source("nu", "MJ_M(nuser_actuator)"), SizeSource::External);
    assert_eq!(size_source("na", "MJ_M(nuser_actuator)"), SizeSource::External);
    assert_eq!(size_source("ntupledata", "MJ_M(nuser_actuator)"), SizeSource::External);
    assert_eq!(length_entry("user", "nbody", "MJ_M(nuser_body)"), "user: nuser_body");
    assert_eq!(length_entry("user", "nsite", "MJ_M(nuser_site) * 5"), "user: nuser_site* 5");
}

#[test]
fn view_declarations() {
    assert_eq!(view_decl("int", "actuator_", "trntype"), "[actuator_] trntype: i32");
    assert_eq!(view_decl("mjtNum", "", "gear"), "gear: MjtNum");
    assert_eq!(view_decl("mjtGeom", "geom_", "type"), "[geom_] r#type: MjtGeom [cast]");
    assert_eq!(view_decl("double", "body_", "_x"), "[body__] x: f64");
    assert_eq!(view_decl("char", "", "name"), "name: char");
}

#[test]
fn chunked_join() {
    let data: Vec<String> = ["a", "b", "c", "d", "e", "f", "g"].iter().map(|s| s.to_string()).collect();
    assert_eq!(join_attributes_chunked_pretty(&data, 3), "a, b,\n\t c, d,\n\t e, f,\n\t g");
    assert_eq!(join_attributes_chunked_pretty(&data, 10), "a,\n\t b,\n\t c,\n\t d,\n\t e,\n\t f,\n\t g");
    assert_eq!(join_attributes_chunked_pretty(&vec![], 3), "");
}

#[test]
fn info_method_block() {
    let (info, view) = create_views(BLOCK);
    assert_eq!(
        info,
        vec!["info_method! { Model, ffi(), actuator,\n\t[trntype: 1,\n\t gear: 6],\n\t[user: nuser_actuator],\n\t[foo: na]\n}".to_string()]
    );
    assert_eq!(
        view,
        vec!["info_with_view!(Model, actuator,\n\t[[actuator_] trntype: i32,\n\t [actuator_] gear: MjtNum,\n\t foo: i32,\n\t user: f32],\n\t[]);".to_string()]
    );
}

#[test]
fn view_index_block() {
    let out = views::create_views(BLOCK);
    assert_eq!(
        out,
        vec![
            "model: ACTUATOR".to_string(),
            "      let trntype = mj_view_indices!(id, mj_model_nx_to_mapping!(model_ffi, nu), mj_model_nx_to_nitem!(model_ffi, nu), model_ffi.nu);".to_string(),
            "      let gear = (id * 6, 6);".to_string(),
            "      let _foo = mj_view_indices!(id, mj_model_nx_to_mapping!(model_ffi, na), mj_model_nx_to_nitem!(model_ffi, na), model_ffi.na);".to_string(),
            "      let user = (id * nuser_actuator, nuser_actuator);".to_string(),
        ]
    );
}
