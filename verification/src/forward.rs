//! The forward-modelling runs: where the models and the modelling program
//! go, and the parameter files the program reads.

use vstd::prelude::*;
use vstd::string::StringSliceAdditionalSpecFns;
use vstd::utf8::is_char_boundary;
use crate::decimal::{
    decimal, decimal_text, digits_value, lemma_decimal_digits, padded_text, signed_decimal,
    signed_text, zero_padded,
};
use crate::text::{ends_with, has_prefix, has_suffix, last_index_of, rfind_char, starts_with, substring, views};

verus! {

/// The modelling set-up: the modelling program, the directory that holds
/// the models, and the prefix of the model directories to run.
pub struct ForwardBridge {
    exe_file: String,
    holder_dir: String,
    target_prev: String,
}

/// What a modelling set-up holds.
pub struct ForwardBridgeView {
    pub exe_file: Seq<char>,
    pub holder_dir: Seq<char>,
    pub target_prev: Seq<char>,
}

impl View for ForwardBridge {
    type V = ForwardBridgeView;

    closed spec fn view(&self) -> ForwardBridgeView {
        ForwardBridgeView {
            exe_file: self.exe_file@,
            holder_dir: self.holder_dir@,
            target_prev: self.target_prev@,
        }
    }
}

/// The directory of the models under `holder_dir`.
pub open spec fn models_dir_of(holder_dir: Seq<char>) -> Seq<char> {
    holder_dir + "\\models"@
}

/// The directory of model `i`: the models directory, then the prefix and
/// the number of the model written with at least three digits.
pub open spec fn model_dir_of(holder_dir: Seq<char>, target_prev: Seq<char>, i: nat) -> Seq<char> {
    models_dir_of(holder_dir) + "\\"@ + target_prev + zero_padded(i, 3)
}

/// Whether `name` is the name of a grid of P-wave velocity, S-wave velocity
/// or density.
pub open spec fn is_model_grd(name: Seq<char>) -> bool {
    ends_with(name, "vp.grd"@) || ends_with(name, "vs.grd"@) || ends_with(name, "pp.grd"@)
}

/// The model grids picked among `names` are exactly the names that end
/// with `vp.grd`, `vs.grd` or `pp.grd`: each one picked is among `names` and
/// ends so, and each name that ends so is picked. Other files, `.grd` files
/// among them, are never picked.
pub proof fn lemma_model_grd_selection(names: Seq<Seq<char>>)
    ensures
        ({
            let picked = names.filter(|n: Seq<char>| is_model_grd(n));
            &&& forall|k: int|
                0 <= k < picked.len() ==> names.contains(#[trigger] picked[k]) && (ends_with(
                    picked[k],
                    "vp.grd"@,
                ) || ends_with(picked[k], "vs.grd"@) || ends_with(picked[k], "pp.grd"@))
            &&& forall|i: int|
                0 <= i < names.len() && (ends_with(names[i], "vp.grd"@) || ends_with(
                    names[i],
                    "vs.grd"@,
                ) || ends_with(names[i], "pp.grd"@)) ==> picked.contains(#[trigger] names[i])
        }),
{
    let pred = |n: Seq<char>| is_model_grd(n);
    let picked = names.filter(pred);
    assert forall|k: int| 0 <= k < picked.len() implies names.contains(#[trigger] picked[k]) && (
    ends_with(picked[k], "vp.grd"@) || ends_with(picked[k], "vs.grd"@) || ends_with(
        picked[k],
        "pp.grd"@,
    )) by {
        names.lemma_filter_pred(pred, k);
        assert(picked.contains(picked[k]));
        names.lemma_filter_contains_rev(pred, picked[k]);
    }
    assert forall|i: int|
        0 <= i < names.len() && (ends_with(names[i], "vp.grd"@) || ends_with(names[i], "vs.grd"@)
            || ends_with(names[i], "pp.grd"@)) implies picked.contains(#[trigger] names[i]) by {
        names.lemma_filter_contains(pred, i);
    }
}

/// The name of the model in the grid file path `path`: what lies between the
/// last backslash and the last dot, where the dot comes after the backslash.
pub open spec fn model_name_of(path: Seq<char>) -> Option<Seq<char>> {
    match (last_index_of(path, '\\'), last_index_of(path, '.')) {
        (Some(b), Some(d)) => if b < d {
            Some(path.subrange(b + 1, d))
        } else {
            None
        },
        _ => None,
    }
}

impl ForwardBridge {
    /// A set-up for the program `exe_file`, the models under `holder_dir`,
    /// and the model directories whose names begin with `target_prev`.
    pub fn new(exe_file: &str, holder_dir: &str, target_prev: &str) -> (f: ForwardBridge)
        ensures
            f@ == (ForwardBridgeView {
                exe_file: exe_file@,
                holder_dir: holder_dir@,
                target_prev: target_prev@,
            }),
    {
        ForwardBridge {
            exe_file: String::from_str(exe_file),
            holder_dir: String::from_str(holder_dir),
            target_prev: String::from_str(target_prev),
        }
    }

    /// The modelling program.
    pub fn exe_file(&self) -> (s: &str)
        ensures
            s@ == self@.exe_file,
    {
        self.exe_file.as_str()
    }

    /// The directory that holds the models.
    pub fn holder_dir(&self) -> (s: &str)
        ensures
            s@ == self@.holder_dir,
    {
        self.holder_dir.as_str()
    }

    /// The prefix of the model directories.
    pub fn target_prev(&self) -> (s: &str)
        ensures
            s@ == self@.target_prev,
    {
        self.target_prev.as_str()
    }

    /// The directory of the models: `models` under the holding directory.
    pub fn models_dir(&self) -> (s: String)
        ensures
            s@ == models_dir_of(self@.holder_dir),
    {
        let mut s = self.holder_dir.clone();
        s.append("\\models");
        s
    }

    /// The directory of model `i`, as the runs over a range of models name it.
    pub fn model_dir(&self, i: usize) -> (s: String)
        ensures
            s@ == model_dir_of(self@.holder_dir, self@.target_prev, i as nat),
    {
        let mut s = self.models_dir();
        s.append("\\");
        s.append(self.target_prev.as_str());
        s.append(padded_text(i as u64, 3).as_str());
        s
    }

    /// The directories of models `start` to `end`, the end left out, in
    /// order: those that the runs over a range of models visit.
    pub fn range_dirs(&self, start: usize, end: usize) -> (v: Vec<String>)
        ensures
            views(v@) == Seq::new(
                (if start < end {
                    end - start
                } else {
                    0
                }) as nat,
                |k: int| model_dir_of(self@.holder_dir, self@.target_prev, (start + k) as nat),
            ),
    {
        let mut v: Vec<String> = Vec::new();
        let mut i: usize = start;
        while i < end
            invariant
                start <= i,
                i <= end || i == start,
                views(v@) == Seq::new(
                    (i - start) as nat,
                    |k: int| model_dir_of(self@.holder_dir, self@.target_prev, (start + k) as nat),
                ),
            decreases end - i,
        {
            let ghost before = views(v@);
            let dir = self.model_dir(i);
            v.push(dir);
            assert(views(v@) =~= before.push(dir@));
            i = i + 1;
            assert(views(v@) =~= Seq::new(
                (i - start) as nat,
                |k: int| model_dir_of(self@.holder_dir, self@.target_prev, (start + k) as nat),
            ));
        }
        assert(views(v@) =~= Seq::new(
            (if start < end {
                end - start
            } else {
                0
            }) as nat,
            |k: int| model_dir_of(self@.holder_dir, self@.target_prev, (start + k) as nat),
        ));
        v
    }

    /// Whether the entry `file_name` of the models directory is to be run:
    /// it is a directory and its name begins with the prefix.
    pub fn is_run_target(&self, file_name: &str, is_dir: bool) -> (b: bool)
        ensures
            b == (starts_with(file_name@, self@.target_prev) && is_dir),
            b <==> (is_dir && exists|rest: Seq<char>| #[trigger] (self@.target_prev + rest)
                == file_name@),
    {
        proof {
            crate::text::lemma_starts_with_concat(file_name@, self@.target_prev);
        }
        has_prefix(file_name, self.target_prev.as_str()) && is_dir
    }

    /// The grid files of P-wave velocity, S-wave velocity and density among
    /// the files `names`, in their order.
    pub fn vp_vs_pp_filename(names: &Vec<String>) -> (r: Vec<String>)
        ensures
            views(r@) == views(names@).filter(|n: Seq<char>| is_model_grd(n)),
            forall|k: int|
                0 <= k < r@.len() ==> views(names@).contains(#[trigger] r@[k]@) && (ends_with(
                    r@[k]@,
                    "vp.grd"@,
                ) || ends_with(r@[k]@, "vs.grd"@) || ends_with(r@[k]@, "pp.grd"@)),
            forall|i: int|
                0 <= i < names@.len() && (ends_with(names@[i]@, "vp.grd"@) || ends_with(
                    names@[i]@,
                    "vs.grd"@,
                ) || ends_with(names@[i]@, "pp.grd"@)) ==> views(r@).contains(
                    #[trigger] names@[i]@,
                ),
    {
        let ghost pred = |n: Seq<char>| is_model_grd(n);
        let mut r: Vec<String> = Vec::new();
        let mut i: usize = 0;
        while i < names.len()
            invariant
                i <= names@.len(),
                pred == (|n: Seq<char>| is_model_grd(n)),
                views(r@) == views(names@).take(i as int).filter(pred),
            decreases names@.len() - i,
        {
            let name = names[i].as_str();
            let keep = has_suffix(name, "vp.grd") || has_suffix(name, "vs.grd") || has_suffix(
                name,
                "pp.grd",
            );
            let ghost before = views(r@);
            proof {
                let t = views(names@).take(i + 1);
                assert(t.drop_last() =~= views(names@).take(i as int));
                assert(t.last() == names@[i as int]@);
                views(names@).take(i as int).lemma_filter_push(names@[i as int]@, pred);
                assert(t =~= views(names@).take(i as int).push(names@[i as int]@));
            }
            if keep {
                r.push(names[i].clone());
                assert(views(r@) =~= before.push(names@[i as int]@));
            }
            i = i + 1;
        }
        assert(views(names@).take(names@.len() as int) =~= views(names@));
        proof {
            lemma_model_grd_selection(views(names@));
            assert forall|k: int| 0 <= k < r@.len() implies views(names@).contains(
                #[trigger] r@[k]@,
            ) && (ends_with(r@[k]@, "vp.grd"@) || ends_with(r@[k]@, "vs.grd"@) || ends_with(
                r@[k]@,
                "pp.grd"@,
            )) by {
                assert(views(r@)[k] == r@[k]@);
            }
            assert forall|i: int|
                0 <= i < names@.len() && (ends_with(names@[i]@, "vp.grd"@) || ends_with(
                    names@[i]@,
                    "vs.grd"@,
                ) || ends_with(names@[i]@, "pp.grd"@)) implies views(r@).contains(
                #[trigger] names@[i]@,
            ) by {
                assert(views(names@)[i] == names@[i]@);
            }
        }
        r
    }

    /// The name of the model in the grid file path `path`: between the last
    /// backslash and the last dot. `None` where there is no backslash, no
    /// dot, or the last dot comes before the last backslash.
    pub fn model_name(path: &str) -> (r: Option<String>)
        ensures
            r is Some <==> model_name_of(path@) is Some,
            r matches Some(s) ==> model_name_of(path@) == Some(s@),
    {
        let cs = crate::text::chars_of(path);
        match (rfind_char(&cs, '\\'), rfind_char(&cs, '.')) {
            (Some(b), Some(d)) => if b < d {
                Some(substring(&cs, b + 1, d))
            } else {
                None
            },
            _ => None,
        }
    }

    /// The path of the copy of a program named `exe_file_name` in the model
    /// directory `dir`.
    pub fn exe_copy_path(dir: &str, exe_file_name: &str) -> (s: String)
        ensures
            s@ == dir@ + "\\"@ + exe_file_name@,
    {
        let mut s = String::from_str(dir);
        s.append("\\");
        s.append(exe_file_name);
        s
    }

    /// The path of the copy of the program that the runs over a range of
    /// models make in the model directory `dir`.
    pub fn range_exe_copy_path(dir: &str) -> (s: String)
        ensures
            s@ == dir@ + "\\"@ + "LUPENGmbNEW-PML.exe"@,
    {
        Self::exe_copy_path(dir, "LUPENGmbNEW-PML.exe")
    }
}

/// The suffix of the file names of the model in the directory `dir_path`:
/// `MF` and the last three bytes of the path. `None` where the path is
/// shorter than three bytes or its last three bytes do not begin a
/// character.
pub fn mf_suffix(dir_path: &str) -> (r: Option<String>)
    ensures
        r is Some <==> (dir_path.spec_bytes().len() >= 3 && is_char_boundary(
            dir_path.spec_bytes(),
            dir_path.spec_bytes().len() - 3,
        )),
        r matches Some(s) ==> exists|tail: Seq<char>|
            {
                &&& s@ == "MF"@ + tail
                &&& vstd::utf8::encode_utf8(tail) == dir_path.spec_bytes().skip(
                    dir_path.spec_bytes().len() - 3,
                )
            },
{
    let len = dir_path.as_bytes().len();
    if len < 3 {
        return None;
    }
    if !dir_path.is_char_boundary(len - 3) {
        return None;
    }
    let (_, tail) = dir_path.split_at(len - 3);
    let mut s = String::from_str("MF");
    s.append(tail);
    assert(tail.spec_bytes() =~= dir_path.spec_bytes().skip(len - 3));
    Some(s)
}

/// The kinds of point source of the modelling program.
pub enum PointSourceType {
    Harmomegathus,
    Vertical,
    Horizontal,
}

/// The number by which the parameter file names a kind of source.
pub open spec fn source_code(t: PointSourceType) -> nat {
    match t {
        PointSourceType::Harmomegathus => 1,
        PointSourceType::Vertical => 2,
        PointSourceType::Horizontal => 3,
    }
}

impl PointSourceType {
    /// The number by which the parameter file names this kind of source:
    /// 1 dilatational, 2 vertical, 3 horizontal.
    pub fn code(&self) -> (c: u32)
        ensures
            c == source_code(*self),
    {
        match self {
            PointSourceType::Harmomegathus => 1,
            PointSourceType::Vertical => 2,
            PointSourceType::Horizontal => 3,
        }
    }
}

/// The parameters of a modelling run. The sampling interval, the dominant
/// frequency and the delay of the source wavelet are held as the decimal
/// text of their `f64` values.
pub struct ForwardModelTemplate {
    diff_order: u32,
    absorb_boundary_thickness: u32,
    dt: String,
    points: u32,
    main_freq: String,
    delay: String,
    epicentre_x: i32,
    epicentre_z: i32,
    seismometers_z: i32,
    source_type: PointSourceType,
    save_or_not: i32,
    vp_grd: String,
    vs_grd: String,
    pp_grd: String,
    wavelet_bln: String,
    cdp_x2: String,
    cdp_z2: String,
    wave_field_x: String,
    wave_field_z: String,
    self_start: i32,
    self_end: i32,
    mode_prefix: String,
}

/// What the parameters of a modelling run hold.
pub struct TemplateView {
    pub diff_order: u32,
    pub absorb_boundary_thickness: u32,
    pub dt: Seq<char>,
    pub points: u32,
    pub main_freq: Seq<char>,
    pub delay: Seq<char>,
    pub epicentre_x: i32,
    pub epicentre_z: i32,
    pub seismometers_z: i32,
    pub source_type: PointSourceType,
    pub save_or_not: i32,
    pub vp_grd: Seq<char>,
    pub vs_grd: Seq<char>,
    pub pp_grd: Seq<char>,
    pub wavelet_bln: Seq<char>,
    pub cdp_x2: Seq<char>,
    pub cdp_z2: Seq<char>,
    pub wave_field_x: Seq<char>,
    pub wave_field_z: Seq<char>,
    pub self_start: i32,
    pub self_end: i32,
    pub mode_prefix: Seq<char>,
}

impl View for ForwardModelTemplate {
    type V = TemplateView;

    closed spec fn view(&self) -> TemplateView {
        TemplateView {
            diff_order: self.diff_order,
            absorb_boundary_thickness: self.absorb_boundary_thickness,
            dt: self.dt@,
            points: self.points,
            main_freq: self.main_freq@,
            delay: self.delay@,
            epicentre_x: self.epicentre_x,
            epicentre_z: self.epicentre_z,
            seismometers_z: self.seismometers_z,
            source_type: self.source_type,
            save_or_not: self.save_or_not,
            vp_grd: self.vp_grd@,
            vs_grd: self.vs_grd@,
            pp_grd: self.pp_grd@,
            wavelet_bln: self.wavelet_bln@,
            cdp_x2: self.cdp_x2@,
            cdp_z2: self.cdp_z2@,
            wave_field_x: self.wave_field_x@,
            wave_field_z: self.wave_field_z@,
            self_start: self.self_start,
            self_end: self.self_end,
            mode_prefix: self.mode_prefix@,
        }
    }
}

/// The line of the difference order and the thickness of the absorbing
/// boundary.
pub open spec fn order_line(t: TemplateView) -> Seq<char> {
    decimal(t.diff_order as nat) + ","@ + decimal(t.absorb_boundary_thickness as nat)
}

/// The line of the sampling interval, the number of samples, the dominant
/// frequency and the delay of the wavelet.
pub open spec fn sampling_line(t: TemplateView) -> Seq<char> {
    t.dt + ","@ + decimal(t.points as nat) + ","@ + t.main_freq + ","@ + t.delay
}

/// The line of the source node in X and Z and the receiver node in Z.
pub open spec fn position_line(t: TemplateView) -> Seq<char> {
    signed_decimal(t.epicentre_x as int) + ","@ + signed_decimal(t.epicentre_z as int) + ","@
        + signed_decimal(t.seismometers_z as int)
}

/// The values of the parameter file of the point-source program, one per
/// line, in the order of its comment lines.
pub open spec fn fkw_values(t: TemplateView) -> Seq<Seq<char>> {
    seq![
        order_line(t),
        sampling_line(t),
        position_line(t),
        decimal(source_code(t.source_type)),
        signed_decimal(t.save_or_not as int),
        t.vp_grd,
        t.vs_grd,
        t.pp_grd,
        t.wavelet_bln,
        t.cdp_x2,
        t.cdp_z2,
        t.wave_field_x,
        t.wave_field_z,
    ]
}

/// The values of the parameter file of the self-excited program, one per
/// line, in the order of its comment lines.
pub open spec fn run_values(t: TemplateView) -> Seq<Seq<char>> {
    seq![
        order_line(t),
        sampling_line(t),
        position_line(t),
        decimal(source_code(t.source_type)),
        t.vp_grd,
        t.vs_grd,
        t.pp_grd,
        t.wavelet_bln,
        t.cdp_x2,
        t.cdp_z2,
        t.wave_field_x,
        t.wave_field_z,
        signed_decimal(t.self_start as int) + ","@ + signed_decimal(t.self_end as int),
    ]
}

/// The comment lines of the parameter file of the point-source program.
pub open spec fn fkw_comments() -> Seq<Seq<char>> {
    seq![
        "!差分阶数，吸收边界厚度"@,
        "!采样间隔，采样点数，震源子波主频，震源子波延迟时"@,
        "!震源所在X、Z方向节点序号，检波点所在Z方向节点序号"@,
        "!点震源的类型：1胀缩震源，2垂直震源，3水平震源"@,
        "!1保存波场数据，0不保存波场数据"@,
        "!模型的纵波速度"@,
        "!模型的横波速度"@,
        "!模型的密度"@,
        "!保存震源子波的文件名"@,
        "!保存共炮点记录水平分量的文件名"@,
        "!保存共炮点记录垂直分量的文件名"@,
        "!保存波场水平分量的文件名"@,
        "!保存波场垂直分量的文件名"@,
    ]
}

/// The comment lines of the parameter file of the self-excited program.
pub open spec fn run_comments() -> Seq<Seq<char>> {
    seq![
        "!差分阶数，吸收边界厚度"@,
        "!采样间隔，采样点数，震源子波主频，震源子波延迟时"@,
        "!震源所在X、Z方向节点序号，检波点所在Z方向节点序号"@,
        "!点震源的类型：1胀缩震源，2垂直震源，3水平震源"@,
        "!模型的纵波速度"@,
        "!模型的横波速度"@,
        "!模型的密度"@,
        "!保存震源子波的文件名"@,
        "!保存共炮点记录水平分量的文件名"@,
        "!保存共炮点记录垂直分量的文件名"@,
        "!保存波场水平分量的文件名"@,
        "!保存波场垂直分量的文件名"@,
        "!自激自收区域的起点、终点位置"@,
    ]
}

/// A parameter file: each comment line, then the value that it describes,
/// each line ended by CR LF.
pub open spec fn parameter_text(comments: Seq<Seq<char>>, values: Seq<Seq<char>>) -> Seq<char>
    decreases comments.len(),
{
    if comments.len() == 0 || values.len() == 0 {
        Seq::empty()
    } else {
        parameter_text(comments.drop_last(), values.drop_last()) + comments.last() + "\r\n"@
            + values.last() + "\r\n"@
    }
}

/// The parameters with the model prefix `prefix`: the prefix itself and
/// the model, record and snapshot file names made from it.
pub open spec fn with_prefix(t: TemplateView, prefix: Seq<char>) -> TemplateView {
    TemplateView {
        mode_prefix: prefix,
        vp_grd: prefix + "vp.grd"@,
        vs_grd: prefix + "vs.grd"@,
        pp_grd: prefix + "pp.grd"@,
        cdp_x2: prefix + "-point-x2.cdp"@,
        cdp_z2: prefix + "-point-z2.cdp"@,
        wave_field_x: prefix + "-wave-X.dat"@,
        wave_field_z: prefix + "-wave-Z.dat"@,
        ..t
    }
}

/// The parameters with the model suffix `suffix` after the model prefix:
/// the model and record file names, and the snapshot name of the X field,
/// which is given the name of the Z field; the Z snapshot name stays.
pub open spec fn with_suffix(t: TemplateView, suffix: Seq<char>) -> TemplateView {
    let p = t.mode_prefix;
    TemplateView {
        vp_grd: p + "vp"@ + suffix + ".grd"@,
        vs_grd: p + "vs"@ + suffix + ".grd"@,
        pp_grd: p + "pp"@ + suffix + ".grd"@,
        cdp_x2: p + "-point-x2"@ + suffix + ".cdp"@,
        cdp_z2: p + "-point-z2"@ + suffix + ".cdp"@,
        wave_field_x: p + "-wave-Z"@ + suffix + ".dat"@,
        ..t
    }
}

/// The path of the parameter file in the directory `dir_name`.
pub open spec fn parameter_path_of(dir_name: Seq<char>) -> Seq<char> {
    dir_name + "\\fkwPARAMETER.txt"@
}

/// Appends `v` as decimal text to `s`.
fn append_unsigned(s: &mut String, v: u32)
    ensures
        final(s)@ == old(s)@ + decimal(v as nat),
{
    s.append(decimal_text(v as u64).as_str());
}

/// Appends `v` as decimal text to `s`.
fn append_signed(s: &mut String, v: i32)
    ensures
        final(s)@ == old(s)@ + signed_decimal(v as int),
{
    s.append(signed_text(v as i64).as_str());
}

/// The string of `prefix` then `rest`.
fn joined(prefix: &str, rest: &str) -> (s: String)
    ensures
        s@ == prefix@ + rest@,
{
    let mut s = String::from_str(prefix);
    s.append(rest);
    s
}

/// The string of `prefix`, `middle`, `suffix` and `tail`, in order.
fn name_of(prefix: &str, middle: &str, suffix: &str, tail: &str) -> (s: String)
    ensures
        s@ == prefix@ + middle@ + suffix@ + tail@,
{
    let mut s = String::from_str(prefix);
    s.append(middle);
    s.append(suffix);
    s.append(tail);
    s
}

/// Builds a parameter file from its comment lines and values.
fn render_parameters(comments: &Vec<&str>, values: &Vec<String>) -> (s: String)
    requires
        comments@.len() == values@.len(),
    ensures
        s@ == parameter_text(comments@.map_values(|c: &str| c@), views(values@)),
{
    let ghost cv = comments@.map_values(|c: &str| c@);
    let mut s = String::new();
    let mut i: usize = 0;
    while i < comments.len()
        invariant
            comments@.len() == values@.len(),
            cv == comments@.map_values(|c: &str| c@),
            i <= comments@.len(),
            s@ == parameter_text(cv.take(i as int), views(values@).take(i as int)),
        decreases comments@.len() - i,
    {
        proof {
            let c2 = cv.take(i + 1);
            let v2 = views(values@).take(i + 1);
            assert(c2.drop_last() =~= cv.take(i as int));
            assert(v2.drop_last() =~= views(values@).take(i as int));
            assert(c2.last() == comments@[i as int]@);
            assert(v2.last() == values@[i as int]@);
        }
        s.append(comments[i]);
        s.append("\r\n");
        s.append(values[i].as_str());
        s.append("\r\n");
        i = i + 1;
    }
    assert(cv.take(comments@.len() as int) =~= cv);
    assert(views(values@).take(values@.len() as int) =~= views(values@));
    s
}

impl ForwardModelTemplate {
    /// The order line: difference order and boundary thickness.
    fn order_text(&self) -> (s: String)
        ensures
            s@ == order_line(self@),
    {
        let mut s = String::new();
        append_unsigned(&mut s, self.diff_order);
        s.append(",");
        append_unsigned(&mut s, self.absorb_boundary_thickness);
        s
    }

    /// The sampling line.
    fn sampling_text(&self) -> (s: String)
        ensures
            s@ == sampling_line(self@),
    {
        let mut s = self.dt.clone();
        s.append(",");
        append_unsigned(&mut s, self.points);
        s.append(",");
        s.append(self.main_freq.as_str());
        s.append(",");
        s.append(self.delay.as_str());
        s
    }

    /// The position line.
    fn position_text(&self) -> (s: String)
        ensures
            s@ == position_line(self@),
    {
        let mut s = String::new();
        append_signed(&mut s, self.epicentre_x);
        s.append(",");
        append_signed(&mut s, self.epicentre_z);
        s.append(",");
        append_signed(&mut s, self.seismometers_z);
        s
    }

    /// The values of the parameter file of the point-source program.
    pub fn to_str_vec_fkw(&self) -> (v: Vec<String>)
        ensures
            views(v@) == fkw_values(self@),
            v@.len() == 13,
            v@[5]@ == self@.vp_grd && v@[6]@ == self@.vs_grd && v@[7]@ == self@.pp_grd,
    {
        let mut v: Vec<String> = Vec::new();
        v.push(self.order_text());
        v.push(self.sampling_text());
        v.push(self.position_text());
        v.push(decimal_text(self.source_type.code() as u64));
        v.push(signed_text(self.save_or_not as i64));
        v.push(self.vp_grd.clone());
        v.push(self.vs_grd.clone());
        v.push(self.pp_grd.clone());
        v.push(self.wavelet_bln.clone());
        v.push(self.cdp_x2.clone());
        v.push(self.cdp_z2.clone());
        v.push(self.wave_field_x.clone());
        v.push(self.wave_field_z.clone());
        assert(views(v@) =~= fkw_values(self@));
        v
    }

    /// The values of the parameter file of the self-excited program.
    pub fn to_str_vec(&self) -> (v: Vec<String>)
        ensures
            views(v@) == run_values(self@),
            v@.len() == 13,
            v@[4]@ == self@.vp_grd && v@[5]@ == self@.vs_grd && v@[6]@ == self@.pp_grd,
    {
        let mut v: Vec<String> = Vec::new();
        v.push(self.order_text());
        v.push(self.sampling_text());
        v.push(self.position_text());
        v.push(decimal_text(self.source_type.code() as u64));
        v.push(self.vp_grd.clone());
        v.push(self.vs_grd.clone());
        v.push(self.pp_grd.clone());
        v.push(self.wavelet_bln.clone());
        v.push(self.cdp_x2.clone());
        v.push(self.cdp_z2.clone());
        v.push(self.wave_field_x.clone());
        v.push(self.wave_field_z.clone());
        let mut last = String::new();
        append_signed(&mut last, self.self_start);
        last.append(",");
        append_signed(&mut last, self.self_end);
        v.push(last);
        assert(views(v@) =~= run_values(self@));
        v
    }

    /// The text of the parameter file of the point-source program.
    pub fn fkw_text(&self) -> (s: String)
        ensures
            s@ == parameter_text(fkw_comments(), fkw_values(self@)),
    {
        let comments: Vec<&str> = vec![
            "!差分阶数，吸收边界厚度",
            "!采样间隔，采样点数，震源子波主频，震源子波延迟时",
            "!震源所在X、Z方向节点序号，检波点所在Z方向节点序号",
            "!点震源的类型：1胀缩震源，2垂直震源，3水平震源",
            "!1保存波场数据，0不保存波场数据",
            "!模型的纵波速度",
            "!模型的横波速度",
            "!模型的密度",
            "!保存震源子波的文件名",
            "!保存共炮点记录水平分量的文件名",
            "!保存共炮点记录垂直分量的文件名",
            "!保存波场水平分量的文件名",
            "!保存波场垂直分量的文件名",
        ];
        let values = self.to_str_vec_fkw();
        assert(comments@.map_values(|c: &str| c@) =~= fkw_comments());
        assert(values@.len() == views(values@).len());
        render_parameters(&comments, &values)
    }

    /// The text of the parameter file of the self-excited program.
    pub fn run_text(&self) -> (s: String)
        ensures
            s@ == parameter_text(run_comments(), run_values(self@)),
    {
        let comments: Vec<&str> = vec![
            "!差分阶数，吸收边界厚度",
            "!采样间隔，采样点数，震源子波主频，震源子波延迟时",
            "!震源所在X、Z方向节点序号，检波点所在Z方向节点序号",
            "!点震源的类型：1胀缩震源，2垂直震源，3水平震源",
            "!模型的纵波速度",
            "!模型的横波速度",
            "!模型的密度",
            "!保存震源子波的文件名",
            "!保存共炮点记录水平分量的文件名",
            "!保存共炮点记录垂直分量的文件名",
            "!保存波场水平分量的文件名",
            "!保存波场垂直分量的文件名",
            "!自激自收区域的起点、终点位置",
        ];
        let values = self.to_str_vec();
        assert(comments@.map_values(|c: &str| c@) =~= run_comments());
        assert(values@.len() == views(values@).len());
        render_parameters(&comments, &values)
    }

    /// The path of the parameter file in the directory `dir_name`.
    pub fn parameter_path(dir_name: &str) -> (s: String)
        ensures
            s@ == parameter_path_of(dir_name@),
    {
        let mut s = String::from_str(dir_name);
        s.append("\\fkwPARAMETER.txt");
        s
    }

    /// Sets the X node of the source.
    pub fn set_epicentre_x(&mut self, value: i32)
        ensures
            final(self)@ == (TemplateView { epicentre_x: value, ..old(self)@ }),
    {
        self.epicentre_x = value;
    }

    /// Sets the number of samples.
    pub fn set_points(&mut self, value: u32)
        ensures
            final(self)@ == (TemplateView { points: value, ..old(self)@ }),
    {
        self.points = value;
    }

    /// Sets the sampling interval, given as the decimal text of its `f64`.
    pub fn set_dt(&mut self, value: &str)
        ensures
            final(self)@ == (TemplateView { dt: value@, ..old(self)@ }),
    {
        self.dt = String::from_str(value);
    }

    /// Sets the model prefix and the model, record and snapshot file names
    /// made from it.
    pub fn set_mod_prefix(&mut self, prefix: &str)
        ensures
            final(self)@ == with_prefix(old(self)@, prefix@),
    {
        self.mode_prefix = String::from_str(prefix);
        self.vp_grd = joined(prefix, "vp.grd");
        self.vs_grd = joined(prefix, "vs.grd");
        self.pp_grd = joined(prefix, "pp.grd");
        self.cdp_x2 = joined(prefix, "-point-x2.cdp");
        self.cdp_z2 = joined(prefix, "-point-z2.cdp");
        self.wave_field_x = joined(prefix, "-wave-X.dat");
        self.wave_field_z = joined(prefix, "-wave-Z.dat");
    }

    /// Puts the model suffix `suffix` after the model prefix in the model
    /// and record file names and in the X snapshot name, which is given the
    /// name of the Z field.
    pub fn set_mod_suffix(&mut self, suffix: &str)
        ensures
            final(self)@ == with_suffix(old(self)@, suffix@),
    {
        let p = self.mode_prefix.clone();
        let p = p.as_str();
        self.vp_grd = name_of(p, "vp", suffix, ".grd");
        self.vs_grd = name_of(p, "vs", suffix, ".grd");
        self.pp_grd = name_of(p, "pp", suffix, ".grd");
        self.cdp_x2 = name_of(p, "-point-x2", suffix, ".cdp");
        self.cdp_z2 = name_of(p, "-point-z2", suffix, ".cdp");
        self.wave_field_x = name_of(p, "-wave-X", suffix, ".dat");
        self.wave_field_x = name_of(p, "-wave-Z", suffix, ".dat");
    }
}

/// The parameters that a modelling run starts from.
pub open spec fn default_template() -> TemplateView {
    TemplateView {
        diff_order: 10,
        absorb_boundary_thickness: 200,
        dt: "0.0003"@,
        points: 2048,
        main_freq: "25"@,
        delay: "0.04"@,
        epicentre_x: 0,
        epicentre_z: 1,
        seismometers_z: 1,
        source_type: PointSourceType::Vertical,
        save_or_not: 0,
        vp_grd: "modvp.grd"@,
        vs_grd: "modvs.grd"@,
        pp_grd: "modpp.grd"@,
        wavelet_bln: "wavelet.bln"@,
        cdp_x2: "mod-point-x2.cdp"@,
        cdp_z2: "mod-point-z2.cdp"@,
        wave_field_x: "mod-point-X.dat"@,
        wave_field_z: "mod-point-Z.dat"@,
        self_start: 1,
        self_end: 21,
        mode_prefix: "mod"@,
    }
}

impl Default for ForwardModelTemplate {
    /// Difference order 10, absorbing boundary of 200 nodes, 2048 samples
    /// 0.0003 apart, a 25 Hz wavelet delayed 0.04, the source at node
    /// (0, 1) and the receivers at depth node 1, a vertical source, no
    /// snapshots, the files of the model `mod`, and self-excitation from
    /// 1 to 21.
    fn default() -> (t: Self)
        ensures
            t@ == default_template(),
    {
        ForwardModelTemplate {
            diff_order: 10,
            absorb_boundary_thickness: 200,
            dt: String::from_str("0.0003"),
            points: 2048,
            main_freq: String::from_str("25"),
            delay: String::from_str("0.04"),
            epicentre_x: 0,
            epicentre_z: 1,
            seismometers_z: 1,
            source_type: PointSourceType::Vertical,
            save_or_not: 0,
            vp_grd: String::from_str("modvp.grd"),
            vs_grd: String::from_str("modvs.grd"),
            pp_grd: String::from_str("modpp.grd"),
            wavelet_bln: String::from_str("wavelet.bln"),
            cdp_x2: String::from_str("mod-point-x2.cdp"),
            cdp_z2: String::from_str("mod-point-z2.cdp"),
            wave_field_x: String::from_str("mod-point-X.dat"),
            wave_field_z: String::from_str("mod-point-Z.dat"),
            self_start: 1,
            self_end: 21,
            mode_prefix: String::from_str("mod"),
        }
    }
}

/// A later model suffix replaces an earlier one: the file names depend on
/// the last suffix set alone.
pub proof fn lemma_suffix_replaces(t: TemplateView, first: Seq<char>, second: Seq<char>)
    ensures
        with_suffix(with_suffix(t, first), second) == with_suffix(t, second),
{
}

/// In both parameter files the value under each model comment names the
/// grid of that kind: the P-wave velocity line names the `vp` grid, the
/// S-wave velocity line the `vs` grid and the density line the `pp` grid.
/// The two files list the same file names under the same comments, from
/// the P-wave velocity grid to the Z snapshot.
pub proof fn lemma_grid_lines(t: TemplateView)
    ensures
        run_comments()[4] == "!模型的纵波速度"@ && run_values(t)[4] == t.vp_grd,
        run_comments()[5] == "!模型的横波速度"@ && run_values(t)[5] == t.vs_grd,
        run_comments()[6] == "!模型的密度"@ && run_values(t)[6] == t.pp_grd,
        fkw_comments()[5] == "!模型的纵波速度"@ && fkw_values(t)[5] == t.vp_grd,
        fkw_comments()[6] == "!模型的横波速度"@ && fkw_values(t)[6] == t.vs_grd,
        fkw_comments()[7] == "!模型的密度"@ && fkw_values(t)[7] == t.pp_grd,
        forall|k: int|
            0 <= k < 8 ==> #[trigger] run_values(t)[4 + k] == fkw_values(t)[5 + k]
                && run_comments()[4 + k] == fkw_comments()[5 + k],
{
    assert forall|k: int| 0 <= k < 8 implies #[trigger] run_values(t)[4 + k] == fkw_values(t)[5
        + k] && run_comments()[4 + k] == fkw_comments()[5 + k] by {
        if k == 0 {
        } else if k == 1 {
        } else if k == 2 {
        } else if k == 3 {
        } else if k == 4 {
        } else if k == 5 {
        } else if k == 6 {
        } else {
        }
    }
}

/// Each parameter file has as many values as comment lines: thirteen.
pub proof fn lemma_parameter_lines(t: TemplateView)
    ensures
        fkw_comments().len() == fkw_values(t).len() == 13,
        run_comments().len() == run_values(t).len() == 13,
{
}

/// A later model prefix replaces an earlier one.
pub proof fn lemma_prefix_replaces(t: TemplateView, first: Seq<char>, second: Seq<char>)
    ensures
        with_prefix(with_prefix(t, first), second) == with_prefix(t, second),
{
}

/// After the prefix `prefix` and then the suffix `suffix` are set, each
/// model and record file name is the prefix, the kind of file, the suffix
/// and the extension.
pub proof fn lemma_prefix_then_suffix(t: TemplateView, prefix: Seq<char>, suffix: Seq<char>)
    ensures
        ({
            let r = with_suffix(with_prefix(t, prefix), suffix);
            &&& r.mode_prefix == prefix
            &&& r.vp_grd == prefix + "vp"@ + suffix + ".grd"@
            &&& r.vs_grd == prefix + "vs"@ + suffix + ".grd"@
            &&& r.pp_grd == prefix + "pp"@ + suffix + ".grd"@
            &&& r.cdp_x2 == prefix + "-point-x2"@ + suffix + ".cdp"@
            &&& r.cdp_z2 == prefix + "-point-z2"@ + suffix + ".cdp"@
            &&& r.wave_field_x == prefix + "-wave-Z"@ + suffix + ".dat"@
            &&& r.wave_field_z == prefix + "-wave-Z.dat"@
        }),
{
}

/// Leading zeros do not change the value of a run of digits.
proof fn lemma_leading_zeros(k: nat, d: Seq<char>)
    ensures
        digits_value(Seq::new(k, |i: int| '0') + d) == digits_value(d),
    decreases d.len(), k,
{
    let z = Seq::new(k, |i: int| '0');
    if d.len() == 0 {
        assert(z + d =~= z);
        if k > 0 {
            let z1 = Seq::new((k - 1) as nat, |i: int| '0');
            assert(z.drop_last() =~= z1);
            lemma_leading_zeros((k - 1) as nat, d);
            assert(z1 + d =~= z1);
            assert(('0' as u32) == 48);
        }
    } else {
        assert((z + d).drop_last() =~= z + d.drop_last());
        assert((z + d).last() == d.last());
        lemma_leading_zeros(k, d.drop_last());
    }
}

/// Zero-padded decimal text has the value of the number it writes.
proof fn lemma_zero_padded_value(n: nat, width: nat)
    ensures
        digits_value(zero_padded(n, width)) == n,
{
    lemma_decimal_digits(n);
    let d = decimal(n);
    if d.len() < width {
        lemma_leading_zeros((width - d.len()) as nat, d);
    }
}

/// Different models are run in different directories.
pub proof fn lemma_model_dirs_distinct(holder_dir: Seq<char>, target_prev: Seq<char>, i: nat, j: nat)
    requires
        i != j,
    ensures
        model_dir_of(holder_dir, target_prev, i) != model_dir_of(holder_dir, target_prev, j),
{
    let base = models_dir_of(holder_dir) + "\\"@ + target_prev;
    let a = model_dir_of(holder_dir, target_prev, i);
    let b = model_dir_of(holder_dir, target_prev, j);
    lemma_zero_padded_value(i, 3);
    lemma_zero_padded_value(j, 3);
    if a == b {
        assert(a.skip(base.len() as int) =~= zero_padded(i, 3));
        assert(b.skip(base.len() as int) =~= zero_padded(j, 3));
    }
}

} // verus!
