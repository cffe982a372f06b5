//! The per-toy feature table: feature kinds, the parameters each feature listens to,
//! the frontend's view of a feature, and the table built from a device's actuators.
use vstd::prelude::*;
use crate::levels::LevelTweaks;
use crate::processing::{ProcessingMode, ProcessingModeValues, ProcessingModeView, SmoothProcessingValues, RateProcessingValues, samples_ok};
use crate::levels::sample_ok;

verus! {

/// The kind of actuator a feature drives.
#[derive(Clone, Copy, Debug, PartialEq, Eq, Structural, Hash)]
pub enum VCFeatureType {
    Vibrator,
    Rotator,
    Linear,
    Oscillate,
    Constrict,
    Inflate,
    Position,
    /// A rotator driven through scalar commands; shown to observers as a rotator.
    ScalarRotator,
}

/// The feature kinds that observers see: scalar rotators are shown as rotators.
#[derive(Clone, Copy, Debug, PartialEq, Eq, Structural, Hash)]
pub enum FeVCFeatureType {
    Vibrator,
    Rotator,
    Linear,
    Oscillate,
    Constrict,
    Inflate,
    Position,
}

/// The kind of actuator a device advertises.
#[derive(Clone, Copy, Debug, PartialEq, Eq, Structural)]
pub enum ActuatorKind {
    Unknown,
    Vibrate,
    Rotate,
    Oscillate,
    Constrict,
    Inflate,
    Position,
}

/// The observer-side kind of a feature kind.
pub open spec fn fe_type_of(t: VCFeatureType) -> FeVCFeatureType {
    match t {
        VCFeatureType::Vibrator => FeVCFeatureType::Vibrator,
        VCFeatureType::Rotator => FeVCFeatureType::Rotator,
        VCFeatureType::Linear => FeVCFeatureType::Linear,
        VCFeatureType::Oscillate => FeVCFeatureType::Oscillate,
        VCFeatureType::Constrict => FeVCFeatureType::Constrict,
        VCFeatureType::Inflate => FeVCFeatureType::Inflate,
        VCFeatureType::Position => FeVCFeatureType::Position,
        VCFeatureType::ScalarRotator => FeVCFeatureType::Rotator,
    }
}

/// The feature kind an observer-side kind stands for.
pub open spec fn type_of_fe(t: FeVCFeatureType) -> VCFeatureType {
    match t {
        FeVCFeatureType::Vibrator => VCFeatureType::Vibrator,
        FeVCFeatureType::Rotator => VCFeatureType::Rotator,
        FeVCFeatureType::Linear => VCFeatureType::Linear,
        FeVCFeatureType::Oscillate => VCFeatureType::Oscillate,
        FeVCFeatureType::Constrict => VCFeatureType::Constrict,
        FeVCFeatureType::Inflate => VCFeatureType::Inflate,
        FeVCFeatureType::Position => VCFeatureType::Position,
    }
}

impl VCFeatureType {
    /// Sets this kind to the one an observer-side kind stands for.
    pub fn from_fe(&mut self, fe_feature_type: FeVCFeatureType)
        ensures
            *final(self) == type_of_fe(fe_feature_type),
    {
        *self = match fe_feature_type {
            FeVCFeatureType::Constrict => VCFeatureType::Constrict,
            FeVCFeatureType::Inflate => VCFeatureType::Inflate,
            FeVCFeatureType::Linear => VCFeatureType::Linear,
            FeVCFeatureType::Oscillate => VCFeatureType::Oscillate,
            FeVCFeatureType::Position => VCFeatureType::Position,
            FeVCFeatureType::Rotator => VCFeatureType::Rotator,
            FeVCFeatureType::Vibrator => VCFeatureType::Vibrator,
        };
    }

    /// The kind observers see.
    pub fn to_fe(&self) -> (r: FeVCFeatureType)
        ensures
            r == fe_type_of(*self),
    {
        match self {
            VCFeatureType::Constrict => FeVCFeatureType::Constrict,
            VCFeatureType::Inflate => FeVCFeatureType::Inflate,
            VCFeatureType::Linear => FeVCFeatureType::Linear,
            VCFeatureType::Oscillate => FeVCFeatureType::Oscillate,
            VCFeatureType::Position => FeVCFeatureType::Position,
            VCFeatureType::Rotator => FeVCFeatureType::Rotator,
            VCFeatureType::ScalarRotator => FeVCFeatureType::Rotator,
            VCFeatureType::Vibrator => FeVCFeatureType::Vibrator,
        }
    }

    /// Whether an observer-side kind names this kind (a scalar rotator answers to rotator).
    pub fn matches_fe(&self, fe: FeVCFeatureType) -> (r: bool)
        ensures
            r == (fe_type_of(*self) == fe),
    {
        let mine = self.to_fe();
        mine == fe
    }
}

/// The OSC parameter a feature listens to, with the state of its processing mode.
#[derive(Clone, Debug)]
pub struct ToyParameter {
    pub parameter: String,
    pub processing_mode_values: ProcessingModeValues,
}

/// A parameter as mathematical values.
pub ghost struct ParameterView {
    pub parameter: Seq<char>,
    pub mode: ProcessingModeView,
}

impl View for ToyParameter {
    type V = ParameterView;

    open spec fn view(&self) -> ParameterView {
        ParameterView { parameter: self.parameter@, mode: self.processing_mode_values@ }
    }
}

/// Settings of a feature's input processor: the mode its outputs go through, and that
/// mode's state. The processor itself runs outside the core and hands in its outputs.
#[derive(Clone, Debug)]
pub struct PenetrationSystem {
    pub pen_system_processing_mode: ProcessingMode,
    pub pen_system_processing_mode_values: ProcessingModeValues,
}

/// Input processor settings as mathematical values.
pub ghost struct PenetrationView {
    pub mode: ProcessingMode,
    pub values: ProcessingModeView,
}

impl View for PenetrationSystem {
    type V = PenetrationView;

    open spec fn view(&self) -> PenetrationView {
        PenetrationView { mode: self.pen_system_processing_mode, values: self.pen_system_processing_mode_values@ }
    }
}

/// One actuator of a toy and how it is driven.
#[derive(Clone, Debug)]
pub struct VCToyFeature {
    pub feature_enabled: bool,
    pub feature_type: VCFeatureType,
    pub osc_parameters: Vec<ToyParameter>,
    pub feature_index: u32,
    pub flip_input_float: bool,
    pub feature_levels: LevelTweaks,
    pub penetration_system: Option<PenetrationSystem>,
}

/// A feature as mathematical values.
pub ghost struct FeatureView {
    pub enabled: bool,
    pub feature_type: VCFeatureType,
    pub parameters: Seq<ParameterView>,
    pub index: u32,
    pub flip: bool,
    pub levels: LevelTweaks,
    pub pen: Option<PenetrationView>,
}

impl View for VCToyFeature {
    type V = FeatureView;

    open spec fn view(&self) -> FeatureView {
        FeatureView {
            enabled: self.feature_enabled,
            feature_type: self.feature_type,
            parameters: self.osc_parameters@.map_values(|p: ToyParameter| p@),
            index: self.feature_index,
            flip: self.flip_input_float,
            levels: self.feature_levels,
            pen: match self.penetration_system {
                Some(p) => Some(p@),
                None => None,
            },
        }
    }
}

impl FeatureView {
    /// Tweaks are well formed and every stored state is within the sample magnitude.
    pub open spec fn wf(self) -> bool {
        &&& self.levels.wf()
        &&& forall|j: int| 0 <= j < self.parameters.len() ==> (#[trigger] self.parameters[j]).mode.wf()
        &&& match self.pen {
            Some(p) => p.values.wf(),
            None => true,
        }
    }
}

/// The feature table of one toy.
#[derive(Clone, Debug)]
pub struct VCToyFeatures {
    pub features: Vec<VCToyFeature>,
}

impl View for VCToyFeatures {
    type V = Seq<FeatureView>;

    open spec fn view(&self) -> Seq<FeatureView> {
        self.features@.map_values(|f: VCToyFeature| f@)
    }
}

/// Every feature of the table is well formed.
pub open spec fn table_wf(fs: Seq<FeatureView>) -> bool {
    forall|i: int| 0 <= i < fs.len() ==> (#[trigger] fs[i]).wf()
}

/// Whether feature `f` is enabled and listens to `addr`.
pub open spec fn listens_to(f: FeatureView, addr: Seq<char>) -> bool {
    f.enabled && exists|j: int| 0 <= j < f.parameters.len() && (#[trigger] f.parameters[j]).parameter == addr
}

/// The state a mode starts with.
pub open spec fn fresh_mode(m: ProcessingMode) -> ProcessingModeView {
    match m {
        ProcessingMode::Raw => ProcessingModeView::Raw,
        ProcessingMode::Smooth => ProcessingModeView::Smooth(Seq::empty()),
        ProcessingMode::Rate => ProcessingModeView::Rate(
            RateProcessingValues { rate_saved_level: 0, rate_saved_osc_input: 0, rate_timestamp: None },
        ),
        ProcessingMode::Constant => ProcessingModeView::Constant,
    }
}

impl ProcessingModeValues {
    /// The starting state of a mode.
    pub fn new(mode: ProcessingMode) -> (r: Self)
        ensures
            r@ == fresh_mode(mode),
            r@.wf(),
    {
        match mode {
            ProcessingMode::Raw => ProcessingModeValues::Raw,
            ProcessingMode::Smooth => {
                let r = ProcessingModeValues::Smooth(SmoothProcessingValues { smooth_queue: Vec::new() });
                assert(r@ == fresh_mode(mode));
                r
            },
            ProcessingMode::Rate => ProcessingModeValues::Rate(
                RateProcessingValues { rate_saved_level: 0, rate_saved_osc_input: 0, rate_timestamp: None },
            ),
            ProcessingMode::Constant => ProcessingModeValues::Constant,
        }
    }

    /// The mode this state belongs to.
    pub fn mode(&self) -> (r: ProcessingMode)
        ensures
            r == self@.mode(),
    {
        match self {
            ProcessingModeValues::Raw => ProcessingMode::Raw,
            ProcessingModeValues::Smooth(_) => ProcessingMode::Smooth,
            ProcessingModeValues::Rate(_) => ProcessingMode::Rate,
            ProcessingModeValues::Constant => ProcessingMode::Constant,
        }
    }

    /// Whether the stored samples and levels are within the sample magnitude.
    pub fn check(&self) -> (r: bool)
        ensures
            r == self@.wf(),
    {
        match self {
            ProcessingModeValues::Smooth(v) => {
                let q = &v.smooth_queue;
                let mut i: usize = 0;
                while i < q.len()
                    invariant
                        i <= q.len(),
                        self@ == ProcessingModeView::Smooth(q@),
                        forall|k: int| 0 <= k < i ==> sample_ok(#[trigger] q@[k] as int),
                    decreases q.len() - i,
                {
                    if q[i] < -crate::levels::SAMPLE_LIMIT || q[i] > crate::levels::SAMPLE_LIMIT {
                        assert(!sample_ok(q@[i as int] as int));
                        assert(!samples_ok(q@));
                        return false;
                    }
                    i = i + 1;
                }
                true
            },
            ProcessingModeValues::Rate(p) => {
                -crate::levels::SAMPLE_LIMIT <= p.rate_saved_level && p.rate_saved_level <= crate::levels::SAMPLE_LIMIT
                    && -crate::levels::SAMPLE_LIMIT <= p.rate_saved_osc_input && p.rate_saved_osc_input <= crate::levels::SAMPLE_LIMIT
            },
            _ => true,
        }
    }
}

impl LevelTweaks {
    /// Whether the tweaks are well formed.
    pub fn check(&self) -> (r: bool)
        ensures
            r == self.wf(),
    {
        0 <= self.minimum_level && self.minimum_level <= self.maximum_level && self.maximum_level <= crate::levels::FULL
            && 0 <= self.idle_level && self.idle_level <= crate::levels::FULL
            && 0 <= self.constant_level && self.constant_level <= crate::levels::FULL
            && self.smooth_rate >= 1
    }

    /// Takes every setting from the frontend's tweaks.
    pub fn from_fe(&mut self, fe_lt: FeLevelTweaks)
        ensures
            *final(self) == fe_lt.to_core(),
    {
        self.idle_level = fe_lt.idle_level;
        self.maximum_level = fe_lt.maximum_level;
        self.minimum_level = fe_lt.minimum_level;
        self.smooth_rate = fe_lt.smooth_rate;
        self.linear_position_speed = fe_lt.linear_position_speed;
        self.rate_tune = fe_lt.rate_tune;
        self.constant_level = fe_lt.constant_level;
    }

    /// The frontend's copy of these tweaks.
    pub fn to_fe(&self) -> (r: FeLevelTweaks)
        ensures
            r.to_core() == *self,
    {
        FeLevelTweaks {
            minimum_level: self.minimum_level,
            maximum_level: self.maximum_level,
            idle_level: self.idle_level,
            smooth_rate: self.smooth_rate,
            linear_position_speed: self.linear_position_speed,
            rate_tune: self.rate_tune,
            constant_level: self.constant_level,
        }
    }
}

/// The tweaks as the frontend edits them.
#[derive(Clone, Copy, Debug, PartialEq, Eq, Structural)]
pub struct FeLevelTweaks {
    pub minimum_level: i32,
    pub maximum_level: i32,
    pub idle_level: i32,
    pub smooth_rate: u32,
    pub linear_position_speed: u32,
    pub rate_tune: i32,
    pub constant_level: i32,
}

impl FeLevelTweaks {
    /// The same settings as core tweaks.
    pub open spec fn to_core(self) -> LevelTweaks {
        LevelTweaks {
            minimum_level: self.minimum_level,
            maximum_level: self.maximum_level,
            idle_level: self.idle_level,
            smooth_rate: self.smooth_rate,
            linear_position_speed: self.linear_position_speed,
            rate_tune: self.rate_tune,
            constant_level: self.constant_level,
        }
    }
}

/// A parameter as the frontend edits it: the address and the mode, without state.
#[derive(Clone, Debug)]
pub struct FeToyParameter {
    pub parameter: String,
    pub processing_mode: ProcessingMode,
}

/// A feature as the frontend edits it.
#[derive(Clone, Debug)]
pub struct FeVCToyFeature {
    pub feature_enabled: bool,
    pub feature_type: FeVCFeatureType,
    pub osc_parameters: Vec<FeToyParameter>,
    pub feature_index: u32,
    pub flip_input_float: bool,
    pub feature_levels: FeLevelTweaks,
}

/// The core parameters a frontend parameter list stands for, each with a fresh state.
pub open spec fn params_from_fe(ps: Seq<FeToyParameter>) -> Seq<ParameterView> {
    Seq::new(ps.len(), |j: int| ParameterView { parameter: ps[j].parameter@, mode: fresh_mode(ps[j].processing_mode) })
}

/// A feature after taking the frontend's settings; its kind, index and input processor stay.
pub open spec fn feature_from_fe(f: FeatureView, fe: FeVCToyFeature) -> FeatureView {
    FeatureView {
        enabled: fe.feature_enabled,
        flip: fe.flip_input_float,
        parameters: params_from_fe(fe.osc_parameters@),
        levels: fe.feature_levels.to_core(),
        ..f
    }
}

impl VCToyFeature {
    /// A feature as a device first advertises it: enabled, unflipped, default tweaks, and
    /// listening to `osc_parameter` in smooth mode.
    pub fn new(osc_parameter: String, feature_index: u32, feature_type: VCFeatureType) -> (r: Self)
        ensures
            r@ == default_feature(feature_type, feature_index, osc_parameter@),
            r@.wf(),
    {
        let mut osc_parameters: Vec<ToyParameter> = Vec::new();
        let mode = ProcessingModeValues::new(ProcessingMode::Smooth);
        osc_parameters.push(ToyParameter { parameter: osc_parameter, processing_mode_values: mode });
        let r = VCToyFeature {
            feature_enabled: true,
            feature_type,
            osc_parameters,
            feature_index,
            flip_input_float: false,
            feature_levels: LevelTweaks::default(),
            penetration_system: None,
        };
        assert(r@.parameters =~= seq![ParameterView { parameter: osc_parameter@, mode: ProcessingModeView::Smooth(Seq::empty()) }]);
        r
    }

    /// Takes the frontend's settings: enabled flag, flip, parameters (each starting afresh)
    /// and tweaks. The kind is the device's and does not change.
    pub fn from_fe(&mut self, fe_feature: &FeVCToyFeature)
        ensures
            final(self)@ == feature_from_fe(old(self)@, *fe_feature),
    {
        self.feature_enabled = fe_feature.feature_enabled;
        self.flip_input_float = fe_feature.flip_input_float;
        let mut params: Vec<ToyParameter> = Vec::new();
        let mut j: usize = 0;
        while j < fe_feature.osc_parameters.len()
            invariant
                j <= fe_feature.osc_parameters.len(),
                params@.map_values(|p: ToyParameter| p@) =~= params_from_fe(fe_feature.osc_parameters@.subrange(0, j as int)),
            decreases fe_feature.osc_parameters.len() - j,
        {
            let fp = &fe_feature.osc_parameters[j];
            let values = ProcessingModeValues::new(fp.processing_mode);
            let name = fp.parameter.clone();
            let ghost prev = params@;
            let tp = ToyParameter { parameter: name, processing_mode_values: values };
            assert(tp@ == ParameterView { parameter: fe_feature.osc_parameters@[j as int].parameter@, mode: fresh_mode(fe_feature.osc_parameters@[j as int].processing_mode) });
            params.push(tp);
            assert(params@ == prev.push(tp));
            assert(params@.map_values(|p: ToyParameter| p@) =~= prev.map_values(|p: ToyParameter| p@).push(tp@));
            assert(params_from_fe(fe_feature.osc_parameters@.subrange(0, j as int + 1)) =~=
                params_from_fe(fe_feature.osc_parameters@.subrange(0, j as int)).push(tp@));
            assert(params@.map_values(|p: ToyParameter| p@) =~= params_from_fe(fe_feature.osc_parameters@.subrange(0, j as int + 1)));
            j = j + 1;
        }
        assert(fe_feature.osc_parameters@.subrange(0, j as int) =~= fe_feature.osc_parameters@);
        self.osc_parameters = params;
        self.feature_levels.from_fe(fe_feature.feature_levels);
    }

    /// The frontend's copy of this feature.
    pub fn to_fe(&self) -> (r: FeVCToyFeature)
        ensures
            is_fe_of(r, self@),
    {
        let mut params: Vec<FeToyParameter> = Vec::new();
        let mut j: usize = 0;
        while j < self.osc_parameters.len()
            invariant
                j <= self.osc_parameters.len(),
                params@.len() == j,
                forall|k: int| 0 <= k < j ==> {
                    &&& (#[trigger] params@[k]).parameter@ == self@.parameters[k].parameter
                    &&& params@[k].processing_mode == self@.parameters[k].mode.mode()
                },
            decreases self.osc_parameters.len() - j,
        {
            let p = &self.osc_parameters[j];
            assert(self@.parameters[j as int] == p@);
            params.push(FeToyParameter { parameter: p.parameter.clone(), processing_mode: p.processing_mode_values.mode() });
            j = j + 1;
        }
        FeVCToyFeature {
            feature_enabled: self.feature_enabled,
            feature_type: self.feature_type.to_fe(),
            osc_parameters: params,
            feature_index: self.feature_index,
            flip_input_float: self.flip_input_float,
            feature_levels: self.feature_levels.to_fe(),
        }
    }

    /// Whether the feature is well formed.
    pub fn check(&self) -> (r: bool)
        ensures
            r == self@.wf(),
    {
        if !self.feature_levels.check() {
            return false;
        }
        let mut j: usize = 0;
        while j < self.osc_parameters.len()
            invariant
                j <= self.osc_parameters.len(),
                forall|k: int| 0 <= k < j ==> (#[trigger] self@.parameters[k]).mode.wf(),
            decreases self.osc_parameters.len() - j,
        {
            if !self.osc_parameters[j].processing_mode_values.check() {
                assert(self@.parameters[j as int] == self.osc_parameters@[j as int]@);
                return false;
            }
            j = j + 1;
        }
        match &self.penetration_system {
            Some(p) => p.pen_system_processing_mode_values.check(),
            None => true,
        }
    }
}

/// Taking well-formed frontend settings keeps a feature well formed.
proof fn lemma_from_fe_wf(f: FeatureView, fe: FeVCToyFeature)
    requires
        f.wf(),
        fe.feature_levels.to_core().wf(),
    ensures
        feature_from_fe(f, fe).wf(),
{
    let g = feature_from_fe(f, fe);
    assert forall|j: int| 0 <= j < g.parameters.len() implies (#[trigger] g.parameters[j]).mode.wf() by {
        let m = fe.osc_parameters@[j].processing_mode;
        if m == ProcessingMode::Smooth {
            assert(samples_ok(Seq::<i32>::empty()));
        }
    }
}

/// Whether `r` is the frontend's copy of feature `f`.
pub open spec fn is_fe_of(r: FeVCToyFeature, f: FeatureView) -> bool {
    &&& r.feature_enabled == f.enabled
    &&& r.feature_type == fe_type_of(f.feature_type)
    &&& r.feature_index == f.index
    &&& r.flip_input_float == f.flip
    &&& r.feature_levels.to_core() == f.levels
    &&& r.osc_parameters@.len() == f.parameters.len()
    &&& forall|j: int| 0 <= j < r.osc_parameters@.len() ==> {
        &&& (#[trigger] r.osc_parameters@[j]).parameter@ == f.parameters[j].parameter
        &&& r.osc_parameters@[j].processing_mode == f.parameters[j].mode.mode()
    }
}

/// Whether a frontend feature addresses feature `f`: same index, and a kind that names it.
pub open spec fn fe_addresses(f: FeatureView, fe: FeVCToyFeature) -> bool {
    f.index == fe.feature_index && fe_type_of(f.feature_type) == fe.feature_type
}

/// A feature as a device first advertises it.
pub open spec fn default_feature(t: VCFeatureType, index: u32, parameter: Seq<char>) -> FeatureView {
    FeatureView {
        enabled: true,
        feature_type: t,
        parameters: seq![ParameterView { parameter, mode: ProcessingModeView::Smooth(Seq::empty()) }],
        index,
        flip: false,
        levels: LevelTweaks {
            minimum_level: 0,
            maximum_level: crate::levels::FULL,
            idle_level: 0,
            smooth_rate: 2,
            linear_position_speed: 100,
            rate_tune: (40 * crate::levels::STEP) as i32,
            constant_level: 0,
        },
        pen: None,
    }
}

/// A copy of a list of levels.
fn copy_levels(q: &Vec<i32>) -> (r: Vec<i32>)
    ensures
        r@ == q@,
{
    let mut out: Vec<i32> = Vec::new();
    let mut i: usize = 0;
    while i < q.len()
        invariant
            i <= q.len(),
            out@ == q@.subrange(0, i as int),
        decreases q.len() - i,
    {
        out.push(q[i]);
        assert(out@ =~= q@.subrange(0, i as int + 1));
        i = i + 1;
    }
    assert(q@.subrange(0, q.len() as int) =~= q@);
    out
}

impl ProcessingModeValues {
    /// A copy with the same state.
    pub fn duplicate(&self) -> (r: Self)
        ensures
            r@ == self@,
    {
        match self {
            ProcessingModeValues::Raw => ProcessingModeValues::Raw,
            ProcessingModeValues::Smooth(v) => ProcessingModeValues::Smooth(SmoothProcessingValues { smooth_queue: copy_levels(&v.smooth_queue) }),
            ProcessingModeValues::Rate(p) => ProcessingModeValues::Rate(*p),
            ProcessingModeValues::Constant => ProcessingModeValues::Constant,
        }
    }
}

impl ToyParameter {
    /// A copy with the same address and state.
    pub fn duplicate(&self) -> (r: Self)
        ensures
            r@ == self@,
    {
        ToyParameter { parameter: self.parameter.clone(), processing_mode_values: self.processing_mode_values.duplicate() }
    }
}

impl VCToyFeature {
    /// A copy with the same settings and state.
    pub fn duplicate(&self) -> (r: Self)
        ensures
            r@ == self@,
    {
        let mut params: Vec<ToyParameter> = Vec::new();
        let mut j: usize = 0;
        while j < self.osc_parameters.len()
            invariant
                j <= self.osc_parameters.len(),
                params@.map_values(|p: ToyParameter| p@) =~= self@.parameters.subrange(0, j as int),
            decreases self.osc_parameters.len() - j,
        {
            let ghost prev = params@;
            let p = self.osc_parameters[j].duplicate();
            params.push(p);
            assert(params@.map_values(|p: ToyParameter| p@) =~= prev.map_values(|p: ToyParameter| p@).push(p@));
            assert(self@.parameters.subrange(0, j as int + 1) =~= self@.parameters.subrange(0, j as int).push(self@.parameters[j as int]));
            j = j + 1;
        }
        assert(self@.parameters.subrange(0, j as int) =~= self@.parameters);
        let pen = match &self.penetration_system {
            Some(p) => Some(PenetrationSystem {
                pen_system_processing_mode: p.pen_system_processing_mode,
                pen_system_processing_mode_values: p.pen_system_processing_mode_values.duplicate(),
            }),
            None => None,
        };
        let r = VCToyFeature {
            feature_enabled: self.feature_enabled,
            feature_type: self.feature_type,
            osc_parameters: params,
            feature_index: self.feature_index,
            flip_input_float: self.flip_input_float,
            feature_levels: self.feature_levels,
            penetration_system: pen,
        };
        assert(r@.parameters =~= self@.parameters);
        r
    }
}

impl VCToyFeatures {
    /// An empty table.
    pub fn new() -> (r: Self)
        ensures
            r@ == Seq::<FeatureView>::empty(),
    {
        VCToyFeatures { features: Vec::new() }
    }

    /// A copy with the same features and states.
    pub fn duplicate(&self) -> (r: Self)
        ensures
            r@ == self@,
    {
        let mut out: Vec<VCToyFeature> = Vec::new();
        let mut i: usize = 0;
        while i < self.features.len()
            invariant
                i <= self.features.len(),
                out@.map_values(|f: VCToyFeature| f@) =~= self@.subrange(0, i as int),
            decreases self.features.len() - i,
        {
            let ghost prev = out@;
            let f = self.features[i].duplicate();
            out.push(f);
            assert(out@.map_values(|f: VCToyFeature| f@) =~= prev.map_values(|f: VCToyFeature| f@).push(f@));
            assert(self@.subrange(0, i as int + 1) =~= self@.subrange(0, i as int).push(self@[i as int]));
            i = i + 1;
        }
        assert(self@.subrange(0, i as int) =~= self@);
        VCToyFeatures { features: out }
    }

    /// Applies the frontend's settings to every feature it addresses; returns whether any
    /// feature was addressed.
    pub fn from_fe(&mut self, fe_feature: &FeVCToyFeature) -> (r: bool)
        ensures
            r == exists|i: int| 0 <= i < old(self)@.len() && fe_addresses(#[trigger] old(self)@[i], *fe_feature),
            final(self)@ == Seq::new(old(self)@.len(), |i: int|
                if fe_addresses(old(self)@[i], *fe_feature) { feature_from_fe(old(self)@[i], *fe_feature) } else { old(self)@[i] }),
            table_wf(old(self)@) && fe_feature.feature_levels.to_core().wf() ==> table_wf(final(self)@),
    {
        let ghost start = self@;
        let mut success = false;
        let mut i: usize = 0;
        while i < self.features.len()
            invariant
                i <= self.features.len(),
                self@.len() == start.len(),
                start == old(self)@,
                success == exists|k: int| 0 <= k < i && fe_addresses(#[trigger] start[k], *fe_feature),
                forall|k: int| 0 <= k < i ==> #[trigger] self@[k] == if fe_addresses(start[k], *fe_feature) {
                    feature_from_fe(start[k], *fe_feature)
                } else {
                    start[k]
                },
                forall|k: int| i <= k < start.len() ==> #[trigger] self@[k] == start[k],
            decreases self.features.len() - i,
        {
            assert(self@[i as int] == self.features@[i as int]@);
            let hit = self.features[i].feature_index == fe_feature.feature_index
                && self.features[i].feature_type.matches_fe(fe_feature.feature_type);
            if hit {
                let ghost before = self.features@;
                let ghost before_v = self@;
                self.features[i].from_fe(fe_feature);
                success = true;
                proof {
                    assert forall|k: int| 0 <= k < self@.len() && k != i implies #[trigger] self@[k] == before_v[k] by {
                        assert(self.features@[k] == before[k]);
                    }
                    assert(self@[i as int] == self.features@[i as int]@);
                }
            }
            proof {
                if !hit && success {
                    let k = choose|k: int| 0 <= k < i && fe_addresses(#[trigger] start[k], *fe_feature);
                    assert(0 <= k < i + 1);
                }
            }
            i = i + 1;
        }
        assert(self@ =~= Seq::new(start.len(), |k: int|
            if fe_addresses(start[k], *fe_feature) { feature_from_fe(start[k], *fe_feature) } else { start[k] }));
        proof {
            if table_wf(start) && fe_feature.feature_levels.to_core().wf() {
                assert forall|k: int| 0 <= k < self@.len() implies (#[trigger] self@[k]).wf() by {
                    assert(start[k].wf());
                    lemma_from_fe_wf(start[k], *fe_feature);
                }
            }
        }
        success
    }

    /// The frontend's copies of all features, in table order.
    pub fn to_fe(&self) -> (r: Vec<FeVCToyFeature>)
        ensures
            r@.len() == self@.len(),
            forall|i: int| 0 <= i < r@.len() ==> is_fe_of(#[trigger] r@[i], self@[i]),
    {
        let mut out: Vec<FeVCToyFeature> = Vec::new();
        let mut i: usize = 0;
        while i < self.features.len()
            invariant
                i <= self.features.len(),
                out@.len() == i,
                forall|k: int| 0 <= k < i ==> is_fe_of(#[trigger] out@[k], self@[k]),
            decreases self.features.len() - i,
        {
            assert(self@[i as int] == self.features@[i as int]@);
            out.push(self.features[i].to_fe());
            i = i + 1;
        }
        out
    }

    /// Whether every feature of the table is well formed.
    pub fn check(&self) -> (r: bool)
        ensures
            r == table_wf(self@),
    {
        let mut i: usize = 0;
        while i < self.features.len()
            invariant
                i <= self.features.len(),
                forall|k: int| 0 <= k < i ==> (#[trigger] self@[k]).wf(),
            decreases self.features.len() - i,
        {
            assert(self@[i as int] == self.features@[i as int]@);
            if !self.features[i].check() {
                return false;
            }
            i = i + 1;
        }
        true
    }

    /// Positions of the enabled features that listen to `param`, in table order, or `None`
    /// when there are none.
    pub fn get_features_from_param(&self, param: &String) -> (r: Option<Vec<usize>>)
        ensures
            match r {
                None => forall|i: int| 0 <= i < self@.len() ==> !listens_to(#[trigger] self@[i], param@),
                Some(v) => {
                    &&& v@.len() > 0
                    &&& forall|k: int| 0 <= k < v@.len() ==> (v@[k] as int) < self@.len()
                    &&& forall|k: int, l: int| 0 <= k < l < v@.len() ==> v@[k] < v@[l]
                    &&& forall|i: int| 0 <= i < self@.len() ==>
                        (listens_to(#[trigger] self@[i], param@) <==> v@.contains(i as usize))
                },
            },
    {
        let mut found: Vec<usize> = Vec::new();
        let mut i: usize = 0;
        while i < self.features.len()
            invariant
                i <= self.features.len(),
                forall|k: int| 0 <= k < found@.len() ==> (found@[k] as int) < i,
                forall|k: int, l: int| 0 <= k < l < found@.len() ==> found@[k] < found@[l],
                forall|m: int| 0 <= m < i ==> (listens_to(#[trigger] self@[m], param@) <==> found@.contains(m as usize)),
                forall|m: int| 0 <= m < self@.len() ==> #[trigger] self@[m] == self.features@[m]@,
            decreases self.features.len() - i,
        {
            let f = &self.features[i];
            let mut hit = false;
            if f.feature_enabled {
                let mut j: usize = 0;
                while j < f.osc_parameters.len()
                    invariant
                        j <= f.osc_parameters.len(),
                        f == self.features@[i as int],
                        hit == exists|n: int| 0 <= n < j && (#[trigger] f.osc_parameters@[n]).parameter@ == param@,
                    decreases f.osc_parameters.len() - j,
                {
                    if f.osc_parameters[j].parameter == *param {
                        hit = true;
                    }
                    j = j + 1;
                }
            }
            proof {
                let fv = self@[i as int];
                assert(fv == f@);
                assert(fv.parameters.len() == f.osc_parameters@.len());
                assert forall|n: int| 0 <= n < fv.parameters.len() implies
                    (#[trigger] fv.parameters[n]).parameter == f.osc_parameters@[n].parameter@ by {}
                if fv.enabled {
                    if hit {
                        let n = choose|n: int| 0 <= n < f.osc_parameters@.len() && (#[trigger] f.osc_parameters@[n]).parameter@ == param@;
                        assert(fv.parameters[n].parameter == param@);
                    }
                    if listens_to(fv, param@) {
                        let n = choose|n: int| 0 <= n < fv.parameters.len() && (#[trigger] fv.parameters[n]).parameter == param@;
                        assert(f.osc_parameters@[n].parameter@ == param@);
                    }
                }
                assert(listens_to(fv, param@) == hit);
            }
            let ghost before = found@;
            if hit {
                found.push(i);
            }
            proof {
                assert forall|m: int| 0 <= m < i + 1 implies (listens_to(#[trigger] self@[m], param@) <==> found@.contains(m as usize)) by {
                    if m < i {
                        if before.contains(m as usize) {
                            let w = choose|w: int| 0 <= w < before.len() && before[w] == m as usize;
                            assert(found@[w] == m as usize);
                        }
                        if found@.contains(m as usize) {
                            let w = choose|w: int| 0 <= w < found@.len() && found@[w] == m as usize;
                            if w < before.len() {
                                assert(before[w] == m as usize);
                            }
                        }
                    } else {
                        if hit {
                            assert(found@[found@.len() - 1] == i);
                        } else {
                            if found@.contains(m as usize) {
                                let w = choose|w: int| 0 <= w < found@.len() && found@[w] == m as usize;
                                assert(found@[w] < i);
                            }
                        }
                    }
                }
            }
            i = i + 1;
        }
        if found.len() == 0 {
            proof {
                assert forall|m: int| 0 <= m < self@.len() implies !listens_to(#[trigger] self@[m], param@) by {
                    assert(!found@.contains(m as usize));
                }
            }
            None
        } else {
            Some(found)
        }
    }
}

} // verus!
