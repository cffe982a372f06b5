//! The feature table a toy starts with when no saved configuration fits it: one feature
//! per advertised actuator, each listening to `/avatar/parameters/<Kind>_<index>`.
use vstd::prelude::*;
use crate::features::{ActuatorKind, VCFeatureType, VCToyFeature, VCToyFeatures, FeatureView, default_feature, table_wf};

verus! {

/// The kind name used in a default parameter path; scalar rotators go by "Rotator".
pub open spec fn path_label(t: VCFeatureType) -> Seq<char> {
    match t {
        VCFeatureType::Vibrator => "Vibrator"@,
        VCFeatureType::Rotator => "Rotator"@,
        VCFeatureType::Linear => "Linear"@,
        VCFeatureType::Oscillate => "Oscillate"@,
        VCFeatureType::Constrict => "Constrict"@,
        VCFeatureType::Inflate => "Inflate"@,
        VCFeatureType::Position => "Position"@,
        VCFeatureType::ScalarRotator => "Rotator"@,
    }
}

/// The decimal digit `d` as text.
pub open spec fn digit_text(d: nat) -> Seq<char> {
    if d == 0 { "0"@ }
    else if d == 1 { "1"@ }
    else if d == 2 { "2"@ }
    else if d == 3 { "3"@ }
    else if d == 4 { "4"@ }
    else if d == 5 { "5"@ }
    else if d == 6 { "6"@ }
    else if d == 7 { "7"@ }
    else if d == 8 { "8"@ }
    else { "9"@ }
}

/// `n` in decimal, without leading zeros.
pub open spec fn decimal(n: nat) -> Seq<char>
    decreases n,
{
    if n < 10 {
        digit_text(n)
    } else {
        decimal(n / 10) + digit_text(n % 10)
    }
}

/// The parameter path a feature of kind `t` at `index` listens to by default.
pub open spec fn default_parameter(t: VCFeatureType, index: nat) -> Seq<char> {
    "/avatar/parameters/"@ + path_label(t) + "_"@ + decimal(index)
}

/// The default feature of kind `t` at `index`.
pub open spec fn populated_feature(t: VCFeatureType, index: nat) -> FeatureView {
    default_feature(t, index as u32, default_parameter(t, index))
}

/// The feature kind a scalar actuator becomes; unknown actuators get none.
pub open spec fn scalar_feature_kind(a: ActuatorKind) -> Option<VCFeatureType> {
    match a {
        ActuatorKind::Rotate => Some(VCFeatureType::ScalarRotator),
        ActuatorKind::Vibrate => Some(VCFeatureType::Vibrator),
        ActuatorKind::Constrict => Some(VCFeatureType::Constrict),
        ActuatorKind::Inflate => Some(VCFeatureType::Inflate),
        ActuatorKind::Oscillate => Some(VCFeatureType::Oscillate),
        ActuatorKind::Position => Some(VCFeatureType::Position),
        ActuatorKind::Unknown => None,
    }
}

/// Features for `n` actuators of kind `t`, indexed from zero.
pub open spec fn uniform_features(t: VCFeatureType, n: nat) -> Seq<FeatureView> {
    Seq::new(n, |i: int| populated_feature(t, i as nat))
}

/// Features for the scalar actuators `kinds`: each keeps its position as index, and
/// unknown actuators are skipped.
pub open spec fn scalar_features(kinds: Seq<ActuatorKind>) -> Seq<FeatureView>
    decreases kinds.len(),
{
    if kinds.len() == 0 {
        Seq::empty()
    } else {
        let rest = scalar_features(kinds.drop_last());
        match scalar_feature_kind(kinds.last()) {
            Some(t) => rest.push(populated_feature(t, (kinds.len() - 1) as nat)),
            None => rest,
        }
    }
}

/// The whole default table: linear actuators, then rotators, then scalar actuators.
pub open spec fn populated(linears: nat, rotators: nat, scalars: Seq<ActuatorKind>) -> Seq<FeatureView> {
    uniform_features(VCFeatureType::Linear, linears) + uniform_features(VCFeatureType::Rotator, rotators)
        + scalar_features(scalars)
}

fn digit_str(d: u32) -> (r: &'static str)
    requires
        d < 10,
    ensures
        r@ == digit_text(d as nat),
{
    if d == 0 { "0" }
    else if d == 1 { "1" }
    else if d == 2 { "2" }
    else if d == 3 { "3" }
    else if d == 4 { "4" }
    else if d == 5 { "5" }
    else if d == 6 { "6" }
    else if d == 7 { "7" }
    else if d == 8 { "8" }
    else { "9" }
}

/// Appends `n` in decimal.
fn push_decimal(s: &mut String, n: u32)
    ensures
        final(s)@ == old(s)@ + decimal(n as nat),
    decreases n,
{
    if n >= 10 {
        push_decimal(s, n / 10);
    }
    s.append(digit_str(n % 10));
    proof {
        if n >= 10 {
            assert(old(s)@ + decimal(n as nat) =~= old(s)@ + decimal((n / 10) as nat) + digit_text((n % 10) as nat));
        } else {
            assert(n % 10 == n);
        }
    }
}

fn path_label_str(t: VCFeatureType) -> (r: &'static str)
    ensures
        r@ == path_label(t),
{
    match t {
        VCFeatureType::Vibrator => "Vibrator",
        VCFeatureType::Rotator => "Rotator",
        VCFeatureType::Linear => "Linear",
        VCFeatureType::Oscillate => "Oscillate",
        VCFeatureType::Constrict => "Constrict",
        VCFeatureType::Inflate => "Inflate",
        VCFeatureType::Position => "Position",
        VCFeatureType::ScalarRotator => "Rotator",
    }
}

/// The parameter path a feature of kind `t` at `index` listens to by default.
pub fn default_parameter_path(t: VCFeatureType, index: u32) -> (r: String)
    ensures
        r@ == default_parameter(t, index as nat),
{
    let mut s = String::from_str("/avatar/parameters/");
    s.append(path_label_str(t));
    s.append("_");
    push_decimal(&mut s, index);
    s
}

/// Whether `n` actuators can be counted by a feature index.
pub open spec fn countable(n: nat) -> bool {
    n <= u32::MAX
}

/// Whether `n` actuators can be counted by a feature index.
pub fn countable_count(n: usize) -> (r: bool)
    ensures
        r == countable(n as nat),
{
    n as u64 <= u32::MAX as u64
}

impl VCToyFeatures {
    fn push_uniform(&mut self, t: VCFeatureType, count: usize)
        requires
            countable(count as nat),
        ensures
            final(self)@ == old(self)@ + uniform_features(t, count as nat),
    {
        let ghost start = self@;
        let mut i: usize = 0;
        while i < count
            invariant
                i <= count,
                countable(count as nat),
                self@ == start + uniform_features(t, i as nat),
            decreases count - i,
        {
            let f = VCToyFeature::new(default_parameter_path(t, i as u32), i as u32, t);
            let ghost prev = self@;
            self.features.push(f);
            assert(self@ =~= prev.push(f@));
            assert(uniform_features(t, (i + 1) as nat) =~= uniform_features(t, i as nat).push(populated_feature(t, i as nat)));
            assert(start + uniform_features(t, (i + 1) as nat) =~= (start + uniform_features(t, i as nat)).push(f@));
            i = i + 1;
        }
    }

    /// Adds one linear feature per linear actuator.
    pub fn populate_linears(&mut self, count: usize)
        requires
            countable(count as nat),
        ensures
            final(self)@ == old(self)@ + uniform_features(VCFeatureType::Linear, count as nat),
    {
        self.push_uniform(VCFeatureType::Linear, count);
    }

    /// Adds one rotator feature per rotate actuator.
    pub fn populate_rotators(&mut self, count: usize)
        requires
            countable(count as nat),
        ensures
            final(self)@ == old(self)@ + uniform_features(VCFeatureType::Rotator, count as nat),
    {
        self.push_uniform(VCFeatureType::Rotator, count);
    }

    /// Adds one feature per scalar actuator of a known kind; rotate actuators become scalar
    /// rotators, and every actuator, known or not, takes up one index.
    pub fn populate_scalars(&mut self, kinds: &Vec<ActuatorKind>)
        requires
            countable(kinds.len() as nat),
        ensures
            final(self)@ == old(self)@ + scalar_features(kinds@),
    {
        let ghost start = self@;
        let mut i: usize = 0;
        while i < kinds.len()
            invariant
                i <= kinds.len(),
                countable(kinds.len() as nat),
                self@ == start + scalar_features(kinds@.subrange(0, i as int)),
            decreases kinds.len() - i,
        {
            let ghost sub = kinds@.subrange(0, i as int + 1);
            assert(sub.drop_last() =~= kinds@.subrange(0, i as int));
            let t = match kinds[i] {
                ActuatorKind::Rotate => Some(VCFeatureType::ScalarRotator),
                ActuatorKind::Vibrate => Some(VCFeatureType::Vibrator),
                ActuatorKind::Constrict => Some(VCFeatureType::Constrict),
                ActuatorKind::Inflate => Some(VCFeatureType::Inflate),
                ActuatorKind::Oscillate => Some(VCFeatureType::Oscillate),
                ActuatorKind::Position => Some(VCFeatureType::Position),
                ActuatorKind::Unknown => None,
            };
            if let Some(t) = t {
                let f = VCToyFeature::new(default_parameter_path(t, i as u32), i as u32, t);
                let ghost prev = self@;
                self.features.push(f);
                assert(self@ =~= prev.push(f@));
                assert(start + scalar_features(sub) =~= (start + scalar_features(kinds@.subrange(0, i as int))).push(f@));
            }
            i = i + 1;
        }
        assert(kinds@.subrange(0, kinds.len() as int) =~= kinds@);
    }

    /// The default table for a device with the given actuators.
    pub fn from_actuators(linear_count: usize, rotate_count: usize, scalar_kinds: &Vec<ActuatorKind>) -> (r: Self)
        requires
            countable(linear_count as nat),
            countable(rotate_count as nat),
            countable(scalar_kinds.len() as nat),
        ensures
            r@ == populated(linear_count as nat, rotate_count as nat, scalar_kinds@),
            table_wf(r@),
    {
        let mut r = VCToyFeatures::new();
        r.populate_linears(linear_count);
        r.populate_rotators(rotate_count);
        r.populate_scalars(scalar_kinds);
        assert(r@ =~= populated(linear_count as nat, rotate_count as nat, scalar_kinds@));
        proof {
            lemma_populated_wf(linear_count as nat, rotate_count as nat, scalar_kinds@);
        }
        r
    }
}

proof fn lemma_scalar_features_wf(kinds: Seq<ActuatorKind>)
    ensures
        table_wf(scalar_features(kinds)),
    decreases kinds.len(),
{
    if kinds.len() > 0 {
        lemma_scalar_features_wf(kinds.drop_last());
        let rest = scalar_features(kinds.drop_last());
        if let Some(t) = scalar_feature_kind(kinds.last()) {
            let f = populated_feature(t, (kinds.len() - 1) as nat);
            assert(f.wf());
            assert forall|i: int| 0 <= i < rest.push(f).len() implies (#[trigger] rest.push(f)[i]).wf() by {
                if i < rest.len() {
                    assert(rest.push(f)[i] == rest[i]);
                }
            }
        }
    }
}

/// The default table is well formed.
proof fn lemma_populated_wf(linears: nat, rotators: nat, scalars: Seq<ActuatorKind>)
    ensures
        table_wf(populated(linears, rotators, scalars)),
{
    lemma_scalar_features_wf(scalars);
    let a = uniform_features(VCFeatureType::Linear, linears);
    let b = uniform_features(VCFeatureType::Rotator, rotators);
    let c = scalar_features(scalars);
    let all = a + b + c;
    assert forall|i: int| 0 <= i < all.len() implies (#[trigger] all[i]).wf() by {
        if i < a.len() {
            assert(all[i] == a[i]);
        } else if i < a.len() + b.len() {
            assert(all[i] == b[i - a.len()]);
        } else {
            assert(all[i] == c[i - a.len() - b.len()]);
        }
    }
}

} // verus!
