//! A connected toy: its device handle, what it advertises, and its feature table.
use vstd::prelude::*;
use std::sync::Arc;
use buttplug::client::ButtplugClientDevice;
use crate::features::{ActuatorKind, VCToyFeatures, FeatureView, table_wf};
use crate::populate::{countable, populated};

verus! {

#[verifier::external_type_specification]
#[verifier::external_body]
pub struct ExButtplugClientDevice(ButtplugClientDevice);

/// Relies on `ButtplugClientDevice::index`: the device's index in the server's device list.
pub assume_specification[ ButtplugClientDevice::index ](d: &ButtplugClientDevice) -> u32;

/// Relies on `ButtplugClientDevice::name`: the device's name.
pub assume_specification[ ButtplugClientDevice::name ](d: &ButtplugClientDevice) -> &String;

/// Relies on `ButtplugClientDevice::connected`: whether the device is still connected.
pub assume_specification[ ButtplugClientDevice::connected ](d: &ButtplugClientDevice) -> bool;

/// The actuators a device advertises: how many linear and rotate actuators, and the kind
/// of each scalar actuator in order.
#[derive(Clone, Debug)]
pub struct AdvertisedActuators {
    pub linear_count: usize,
    pub rotate_count: usize,
    pub scalar_kinds: Vec<ActuatorKind>,
}

impl AdvertisedActuators {
    /// Every count fits a feature index.
    pub open spec fn wf(&self) -> bool {
        countable(self.linear_count as nat) && countable(self.rotate_count as nat) && countable(self.scalar_kinds@.len() as nat)
    }
}

/// Whether a toy runs on a battery, and its charge when known (fixed point).
#[derive(Clone, Copy, Debug, PartialEq, Eq, Structural)]
pub enum ToyPower {
    NoBattery,
    Pending,
    Battery(i32),
}

/// A saved configuration of a toy, keyed by its name.
#[derive(Clone, Debug)]
pub struct VCToyConfig {
    pub toy_name: String,
    pub features: VCToyFeatures,
    pub osc_data: bool,
    /// The anatomy the toy is assigned to, by name; empty when none is set.
    pub anatomy: String,
}

/// A connected toy.
#[derive(Clone, Debug)]
pub struct VCToy {
    pub toy_id: u32,
    pub toy_name: String,
    pub toy_power: ToyPower,
    pub toy_connected: bool,
    pub toy_features: AdvertisedActuators,
    pub parsed_toy_features: VCToyFeatures,
    pub osc_data: bool,
    pub listening: bool,
    pub device_handle: Arc<ButtplugClientDevice>,
    pub config: Option<VCToyConfig>,
    pub sub_id: u8,
}

/// What a toy's table becomes, given its saved config (features and OSC-data toggle) and
/// its advertised actuators: a saved config is kept when it has one feature per advertised
/// actuator, and its toggle comes with it; otherwise the default table is built (no toggle).
pub open spec fn config_choice(
    config: Option<(Seq<FeatureView>, bool)>,
    linears: nat,
    rotators: nat,
    scalars: Seq<ActuatorKind>,
) -> (Seq<FeatureView>, Option<bool>) {
    match config {
        Some((fs, osc)) => if fs.len() == linears + rotators + scalars.len() {
            (fs, Some(osc))
        } else {
            (populated(linears, rotators, scalars), None)
        },
        None => (populated(linears, rotators, scalars), None),
    }
}

/// A saved config as the values `config_choice` reads.
pub open spec fn config_view(config: Option<VCToyConfig>) -> Option<(Seq<FeatureView>, bool)> {
    match config {
        Some(c) => Some((c.features@, c.osc_data)),
        None => None,
    }
}

/// Chooses a toy's feature table: the saved config's when it has one feature per
/// advertised actuator, else the default table. Returns the table, the saved OSC-data
/// toggle when the config was kept, and the new config to save when it was not.
pub fn choose_features(toy_name: &String, config: &Option<VCToyConfig>, advertised: &AdvertisedActuators) -> (r: (VCToyFeatures, Option<bool>, Option<VCToyConfig>))
    requires
        advertised.wf(),
    ensures
        ({
            let (fs, osc) = config_choice(
                config_view(*config),
                advertised.linear_count as nat,
                advertised.rotate_count as nat,
                advertised.scalar_kinds@,
            );
            &&& r.0@ == fs
            &&& r.1 == osc
            &&& r.2 is Some <==> osc is None
            &&& r.2 is Some ==> r.2->0.features@ == fs && r.2->0.toy_name@ == toy_name@ && !r.2->0.osc_data
                && r.2->0.anatomy@.len() == 0
            &&& table_wf(r.0@) || osc is Some
        }),
{
    if let Some(conf) = config {
        let advertised_count = advertised.linear_count as u128 + advertised.rotate_count as u128 + advertised.scalar_kinds.len() as u128;
        if conf.features.features.len() as u128 == advertised_count {
            let features = conf.features.duplicate();
            return (features, Some(conf.osc_data), None);
        }
    }
    let features = VCToyFeatures::from_actuators(advertised.linear_count, advertised.rotate_count, &advertised.scalar_kinds);
    let saved = features.duplicate();
    let config = VCToyConfig { toy_name: toy_name.clone(), features: saved, osc_data: false, anatomy: String::new() };
    (features, None, Some(config))
}

/// Number of `names` equal to `name`, at most 255.
pub open spec fn duplicates(names: Seq<Seq<char>>, name: Seq<char>) -> nat
    decreases names.len(),
{
    if names.len() == 0 {
        0
    } else {
        duplicates(names.drop_last(), name) + if names.last() == name { 1nat } else { 0nat }
    }
}

/// The duplicate index of a toy named `name`: how many online toys already have that name
/// (at most 255).
pub fn sub_id_for(online_names: &Vec<String>, name: &String) -> (r: u8)
    ensures
        r == if duplicates(online_names@.map_values(|s: String| s@), name@) > 255 {
            255
        } else {
            duplicates(online_names@.map_values(|s: String| s@), name@)
        },
{
    let ghost names = online_names@.map_values(|s: String| s@);
    let mut count: usize = 0;
    let mut i: usize = 0;
    while i < online_names.len()
        invariant
            i <= online_names.len(),
            names == online_names@.map_values(|s: String| s@),
            count == duplicates(names.subrange(0, i as int), name@),
            count <= i,
        decreases online_names.len() - i,
    {
        assert(names.subrange(0, i as int + 1).drop_last() =~= names.subrange(0, i as int));
        if online_names[i] == *name {
            count = count + 1;
        }
        i = i + 1;
    }
    assert(names.subrange(0, i as int) =~= names);
    if count > 255 { 255 } else { count as u8 }
}

impl VCToy {
    /// A toy for a device that was just added: its id, name and connection state come from
    /// the device; it has no features and no config yet, and is not listening.
    pub fn new(device_handle: Arc<ButtplugClientDevice>, toy_power: ToyPower, toy_features: AdvertisedActuators, sub_id: u8) -> (r: Self)
        ensures
            r.toy_power == toy_power,
            r.toy_features.linear_count == toy_features.linear_count,
            r.toy_features.rotate_count == toy_features.rotate_count,
            r.toy_features.scalar_kinds@ == toy_features.scalar_kinds@,
            r.parsed_toy_features@ == Seq::<FeatureView>::empty(),
            !r.osc_data,
            !r.listening,
            r.config is None,
            r.sub_id == sub_id,
    {
        let toy_id = device_handle.index();
        let toy_name = device_handle.name().clone();
        let toy_connected = device_handle.connected();
        VCToy {
            toy_id,
            toy_name,
            toy_power,
            toy_connected,
            toy_features,
            parsed_toy_features: VCToyFeatures::new(),
            osc_data: false,
            listening: false,
            device_handle,
            config: None,
            sub_id,
        }
    }

    /// Sets the toy's feature table from its saved config when that fits the advertised
    /// actuators, else from the actuators themselves; in that case the new config replaces
    /// the saved one and `true` asks the caller to save it.
    pub fn populate_toy_config(&mut self) -> (r: bool)
        requires
            old(self).toy_features.wf(),
        ensures
            ({
                let (fs, osc) = config_choice(
                    config_view(old(self).config),
                    old(self).toy_features.linear_count as nat,
                    old(self).toy_features.rotate_count as nat,
                    old(self).toy_features.scalar_kinds@,
                );
                &&& final(self).parsed_toy_features@ == fs
                &&& final(self).osc_data == match osc { Some(o) => o, None => old(self).osc_data }
                &&& r == (osc is None)
                &&& r ==> final(self).config is Some && final(self).config->0.features@ == fs
                    && final(self).config->0.toy_name@ == old(self).toy_name@
                    && !final(self).config->0.osc_data && final(self).config->0.anatomy@.len() == 0
                &&& !r ==> final(self).config == old(self).config
                &&& final(self).toy_id == old(self).toy_id
                &&& final(self).toy_name == old(self).toy_name
                &&& final(self).sub_id == old(self).sub_id
                &&& final(self).toy_features == old(self).toy_features
            }),
    {
        let (features, osc, fresh) = choose_features(&self.toy_name, &self.config, &self.toy_features);
        self.parsed_toy_features = features;
        match osc {
            Some(o) => {
                self.osc_data = o;
                false
            },
            None => {
                self.config = fresh;
                true
            },
        }
    }
    /// When the toy's config is assigned to `anatomy_type`, enables or disables all its
    /// features and returns `true`; otherwise changes nothing and returns `false`.
    pub fn mutate_state_by_anatomy(&mut self, anatomy_type: &String, value: bool) -> (r: bool)
        requires
            old(self).config is Some,
        ensures
            r == (old(self).config->0.anatomy@ == anatomy_type@),
            final(self).parsed_toy_features@ == if r {
                old(self).parsed_toy_features@.map_values(|f: FeatureView| FeatureView { enabled: value, ..f })
            } else {
                old(self).parsed_toy_features@
            },
            final(self).config == old(self).config,
            final(self).toy_id == old(self).toy_id,
    {
        let matches = match &self.config {
            Some(c) => c.anatomy == *anatomy_type,
            None => false,
        };
        if !matches {
            return false;
        }
        let ghost start = self.parsed_toy_features@;
        let mut i: usize = 0;
        while i < self.parsed_toy_features.features.len()
            invariant
                i <= self.parsed_toy_features.features.len(),
                self.parsed_toy_features@.len() == start.len(),
                self.config == old(self).config,
                self.toy_id == old(self).toy_id,
                start == old(self).parsed_toy_features@,
                forall|k: int| 0 <= k < i ==> #[trigger] self.parsed_toy_features@[k] == (FeatureView { enabled: value, ..start[k] }),
                forall|k: int| i <= k < start.len() ==> #[trigger] self.parsed_toy_features@[k] == start[k],
            decreases self.parsed_toy_features.features.len() - i,
        {
            let ghost before = self.parsed_toy_features.features@;
            let ghost before_v = self.parsed_toy_features@;
            self.parsed_toy_features.features[i].feature_enabled = value;
            proof {
                assert forall|k: int| 0 <= k < self.parsed_toy_features@.len() && k != i implies
                    #[trigger] self.parsed_toy_features@[k] == before_v[k] by {
                    assert(self.parsed_toy_features.features@[k] == before[k]);
                }
                assert(before_v[i as int] == before[i as int]@);
                assert(self.parsed_toy_features@[i as int] == self.parsed_toy_features.features@[i as int]@);
                assert(self.parsed_toy_features.features@[i as int]@.parameters == before[i as int]@.parameters);
                assert(self.parsed_toy_features@[i as int] == (FeatureView { enabled: value, ..start[i as int] }));
            }
            i = i + 1;
        }
        assert(self.parsed_toy_features@ =~= start.map_values(|f: FeatureView| FeatureView { enabled: value, ..f }));
        true
    }
}

/// `s` with every occurrence of `from` replaced by `to`, scanning left to right.
pub open spec fn replace_all(s: Seq<char>, from: Seq<char>, to: Seq<char>) -> Seq<char>
    decreases s.len(),
{
    if s.len() == 0 || from.len() == 0 {
        s
    } else if from.len() <= s.len() && s.subrange(0, from.len() as int) == from {
        to + replace_all(s.subrange(from.len() as int, s.len() as int), from, to)
    } else {
        seq![s[0]] + replace_all(s.subrange(1, s.len() as int), from, to)
    }
}

/// Whether `from` occurs in `s` at position `i`.
fn occurs_at(s: &str, i: usize, from: &str) -> (r: bool)
    requires
        i <= s@.len(),
    ensures
        r == (i + from@.len() <= s@.len() && s@.subrange(i as int, i + from@.len()) == from@),
{
    let n = s.unicode_len();
    let m = from.unicode_len();
    if m > n - i {
        return false;
    }
    let mut j: usize = 0;
    while j < m
        invariant
            j <= m,
            m == from@.len(),
            n == s@.len(),
            i + m <= n,
            forall|k: int| 0 <= k < j ==> s@[i + k] == from@[k],
        decreases m - j,
    {
        if s.get_char(i + j) != from.get_char(j) {
            assert(s@.subrange(i as int, i + m)[j as int] != from@[j as int]);
            return false;
        }
        j = j + 1;
    }
    assert(s@.subrange(i as int, i + m) =~= from@);
    true
}

/// `s` with every occurrence of `from` replaced by `to`.
pub fn replace_str(s: &str, from: &str, to: &str) -> (r: String)
    requires
        from@.len() > 0,
    ensures
        r@ == replace_all(s@, from@, to@),
{
    let n = s.unicode_len();
    let m = from.unicode_len();
    let mut out = String::new();
    let mut i: usize = 0;
    assert(s@.subrange(0, n as int) =~= s@);
    assert(out@ =~= Seq::<char>::empty());
    assert(out@ + replace_all(s@, from@, to@) =~= replace_all(s@, from@, to@));
    while i < n
        invariant
            i <= n,
            n == s@.len(),
            m == from@.len(),
            m > 0,
            out@ + replace_all(s@.subrange(i as int, n as int), from@, to@) == replace_all(s@, from@, to@),
        decreases n - i,
    {
        let ghost rest = s@.subrange(i as int, n as int);
        if occurs_at(s, i, from) {
            assert(rest.subrange(0, m as int) =~= s@.subrange(i as int, i + m));
            assert(rest.subrange(m as int, rest.len() as int) =~= s@.subrange(i + m, n as int));
            let ghost before = out@;
            out.append(to);
            proof {
                let tail = replace_all(s@.subrange(i + m, n as int), from@, to@);
                assert(replace_all(rest, from@, to@) == to@ + tail);
                assert(out@ + tail =~= before + (to@ + tail));
            }
            i = i + m;
        } else {
            assert(!(m <= rest.len() && rest.subrange(0, m as int) == from@)) by {
                if m <= rest.len() {
                    assert(rest.subrange(0, m as int) =~= s@.subrange(i as int, i + m));
                }
            }
            assert(rest.subrange(1, rest.len() as int) =~= s@.subrange(i + 1, n as int));
            let c = s.substring_char(i, i + 1);
            assert(c@ =~= seq![rest[0]]);
            let ghost before = out@;
            out.append(c);
            proof {
                let tail = replace_all(s@.subrange(i + 1, n as int), from@, to@);
                assert(replace_all(rest, from@, to@) == seq![rest[0]] + tail);
                assert(out@ + tail =~= before + (seq![rest[0]] + tail));
            }
            i = i + 1;
        }
    }
    assert(s@.subrange(n as int, n as int) =~= Seq::<char>::empty());
    assert(out@ + Seq::<char>::empty() =~= out@);
    out
}

/// The name a toy's saved config is filed under: Lovense Connect toys share the configs
/// of their Lovense counterparts.
pub fn config_file_stem(toy_name: &str) -> (r: String)
    ensures
        r@ == replace_all(toy_name@, "Lovense Connect "@, "Lovense "@),
{
    proof {
        reveal_strlit("Lovense Connect ");
    }
    replace_str(toy_name, "Lovense Connect ", "Lovense ")
}

} // verus!

