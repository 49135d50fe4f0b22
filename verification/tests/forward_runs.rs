use seis::counter::{index, AppState};
use seis::forward::{mf_suffix, ForwardBridge, ForwardModelTemplate, PointSourceType};

const FKW_COMMENTS: [&str; 13] = [
    "!差分阶数，吸收边界厚度",
    "!采样间隔，采样点数，震源子波主频，震源子波延迟时",
    "!震源所在X、Z方向节点序号，检波点所在Z方向节点序号",
    "!点震源的类型：1胀缩震源，2垂直震源，3水平震源",
    "!1保存波场数据，0不保存波场数据",
    "!模型的纵波速度",
    "!模型的横波速度",
    "!模型的密度",
    "!保存震源子波的文件名",
    "!保存共炮点记录水平分量的文件名",
    "!保存共炮点记录垂直分量的文件名",
    "!保存波场水平分量的文件名",
    "!保存波场垂直分量的文件名",
];

fn bridge() -> ForwardBridge {
    ForwardBridge::new(r"G:\Source\FKW-Point-MF.exe", r"G:\Model\graben", "graben")
}

#[test]
fn new_keeps_its_arguments() {
    let f = bridge();
    assert_eq!(f.exe_file(), r"G:\Source\FKW-Point-MF.exe");
    assert_eq!(f.holder_dir(), r"G:\Model\graben");
    assert_eq!(f.target_prev(), "graben");
}

#[test]
fn model_directories() {
    let f = bridge();
    assert_eq!(f.models_dir(), r"G:\Model\graben\models");
    assert_eq!(f.model_dir(7), r"G:\Model\graben\models\graben007");
    assert_eq!(f.model_dir(123), r"G:\Model\graben\models\graben123");
    assert_eq!(f.model_dir(1000), r"G:\Model\graben\models\graben1000");
    assert_ne!(f.model_dir(1), f.model_dir(10));
}

#[test]
fn run_targets() {
    let f = bridge();
    assert!(f.is_run_target("graben007", true));
    assert!(!f.is_run_target("graben007", false));
    assert!(!f.is_run_target("horst007", true));
    assert!(!f.is_run_target("grab", true));
}

#[test]
fn exe_copy_paths() {
    assert_eq!(ForwardBridge::exe_copy_path(r"M\graben001", "run.exe"), r"M\graben001\run.exe");
    assert_eq!(ForwardBridge::range_exe_copy_path(r"M\graben001"), r"M\graben001\LUPENGmbNEW-PML.exe");
}

#[test]
fn model_grid_files_are_picked() {
    let names: Vec<String> = ["a\\modvp.grd", "a\\notes.txt", "a\\modpp.grd", "a\\vp.grd.bak", "a\\modvs.grd"]
        .iter()
        .map(|s| s.to_string())
        .collect();
    assert_eq!(
        ForwardBridge::vp_vs_pp_filename(&names),
        vec!["a\\modvp.grd", "a\\modpp.grd", "a\\modvs.grd"]
    );
}

#[test]
fn model_names() {
    assert_eq!(ForwardBridge::model_name(r"G:\Model\graben\grabenvp.grd"), Some("grabenvp".to_string()));
    assert_eq!(ForwardBridge::model_name(r"a\b.c\d.e.grd"), Some("d.e".to_string()));
    assert_eq!(ForwardBridge::model_name(r"a\.grd"), Some(String::new()));
    assert_eq!(ForwardBridge::model_name("modvp.grd"), None);
    assert_eq!(ForwardBridge::model_name(r"a\modvp"), None);
    assert_eq!(ForwardBridge::model_name(r"a.b\model"), None);
}

#[test]
fn mf_suffixes() {
    assert_eq!(mf_suffix(r"G:\models\graben012"), Some("MF012".to_string()));
    assert_eq!(mf_suffix("abc"), Some("MFabc".to_string()));
    assert_eq!(mf_suffix("ab"), None);
    assert_eq!(mf_suffix("xé"), Some("MFxé".to_string()));
    assert_eq!(mf_suffix("éab"), None);
}

#[test]
fn point_source_codes() {
    assert_eq!(PointSourceType::Harmomegathus.code(), 1);
    assert_eq!(PointSourceType::Vertical.code(), 2);
    assert_eq!(PointSourceType::Horizontal.code(), 3);
}

#[test]
fn default_fkw_values() {
    let t = ForwardModelTemplate::default();
    assert_eq!(
        t.to_str_vec_fkw(),
        vec![
            "10,200",
            "0.0003,2048,25,0.04",
            "0,1,1",
            "2",
            "0",
            "modvp.grd",
            "modvs.grd",
            "modpp.grd",
            "wavelet.bln",
            "mod-point-x2.cdp",
            "mod-point-z2.cdp",
            "mod-point-X.dat",
            "mod-point-Z.dat",
        ]
    );
}

#[test]
fn default_run_values() {
    let t = ForwardModelTemplate::default();
    let v = t.to_str_vec();
    assert_eq!(v.len(), 13);
    assert_eq!(v[3], "2");
    assert_eq!(v[4], "modvp.grd");
    assert_eq!(v[12], "1,21");
}

#[test]
fn fkw_text_interleaves_comments_and_values() {
    let t = ForwardModelTemplate::default();
    let values = t.to_str_vec_fkw();
    let mut expected = String::new();
    for i in 0..13 {
        expected.push_str(&format!("{}\r\n", FKW_COMMENTS[i]));
        expected.push_str(&format!("{}\r\n", values[i]));
    }
    assert_eq!(t.fkw_text(), expected);
    assert_eq!(t.fkw_text().matches("\r\n").count(), 26);
}

#[test]
fn run_text_ends_with_self_excitation() {
    let t = ForwardModelTemplate::default();
    assert!(t.run_text().ends_with("!自激自收区域的起点、终点位置\r\n1,21\r\n"));
    assert!(t.run_text().starts_with("!差分阶数，吸收边界厚度\r\n10,200\r\n"));
}

#[test]
fn parameter_path_in_directory() {
    assert_eq!(ForwardModelTemplate::parameter_path(r"M\graben001"), r"M\graben001\fkwPARAMETER.txt");
}

#[test]
fn setters_change_their_values() {
    let mut t = ForwardModelTemplate::default();
    t.set_epicentre_x(-15);
    t.set_points(4096);
    t.set_dt("0.0001");
    let v = t.to_str_vec_fkw();
    assert_eq!(v[1], "0.0001,4096,25,0.04");
    assert_eq!(v[2], "-15,1,1");
}

#[test]
fn prefix_names_the_files() {
    let mut t = ForwardModelTemplate::default();
    t.set_mod_prefix("graben");
    let v = t.to_str_vec_fkw();
    assert_eq!(&v[5..], &[
        "grabenvp.grd",
        "grabenvs.grd",
        "grabenpp.grd",
        "wavelet.bln",
        "graben-point-x2.cdp",
        "graben-point-z2.cdp",
        "graben-wave-X.dat",
        "graben-wave-Z.dat",
    ]);
}

#[test]
fn suffix_follows_prefix_and_replaces_earlier_suffix() {
    let mut t = ForwardModelTemplate::default();
    t.set_mod_prefix("graben");
    t.set_mod_suffix("MF001");
    t.set_mod_suffix("MF002");
    let v = t.to_str_vec_fkw();
    assert_eq!(&v[5..], &[
        "grabenvpMF002.grd",
        "grabenvsMF002.grd",
        "grabenppMF002.grd",
        "wavelet.bln",
        "graben-point-x2MF002.cdp",
        "graben-point-z2MF002.cdp",
        "graben-wave-ZMF002.dat",
        "graben-wave-Z.dat",
    ]);
}

#[test]
fn suffix_uses_default_prefix() {
    let mut t = ForwardModelTemplate::default();
    t.set_mod_suffix("A");
    assert_eq!(t.to_str_vec_fkw()[5], "modvpA.grd");
}

#[test]
fn requests_are_counted() {
    let mut state = AppState::new();
    assert_eq!(state.counter(), 0);
    assert_eq!(index(&mut state), "Request number: 1");
    assert_eq!(index(&mut state), "Request number: 2");
    assert_eq!(state.counter(), 2);
}

#[test]
fn range_directories_leave_the_end_out() {
    let f = bridge();
    assert_eq!(
        f.range_dirs(8, 11),
        vec![
            r"G:\Model\graben\models\graben008",
            r"G:\Model\graben\models\graben009",
            r"G:\Model\graben\models\graben010",
        ]
    );
    assert!(f.range_dirs(5, 5).is_empty());
    assert!(f.range_dirs(6, 2).is_empty());
}
