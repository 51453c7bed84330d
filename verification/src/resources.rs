//! Configuration surface of the simulation: population and traffic counts,
//! network shape, sensor geometry, window and road properties, and the
//! camera-follow target.
use vstd::prelude::*;

use crate::fixed::FIXED_LIMIT;
use crate::fixed::ONE;
use crate::fixed::SCALE;
use crate::fixed::lerp;
use crate::fixed::spec_lerp;
use crate::network::NetworkLevel;
use crate::network::level_wf;

verus! {

/// Population and traffic bookkeeping.
#[derive(Clone, Copy, Debug, Default)]
pub struct Config {
    pub max_traffic: u8,
    pub current_traffic: u8,
    pub controlllable_cars: u16,
}

/// Shape of the control networks and geometry of their sensors. Lengths,
/// spreads and the mutation factor are fixed-point values.
#[derive(Clone, Copy, Debug, Default)]
pub struct NetworkConfig {
    pub hidden_layers: u8,
    pub hidden_layers_neuron_count: u8,
    pub input_neuron_count: u8,
    pub input_ray_length: i64,
    pub input_ray_spread: i64,
    pub mutate_factor: i64,
    pub output_neuron_count: u8,
}

/// Window extent in fixed-point units.
#[derive(Clone, Copy, Debug)]
pub struct WindowSize(pub i64, pub i64);

/// The road: how many lanes and how wide in all.
#[derive(Clone, Copy, Debug)]
pub struct RoadProperties {
    pub lane_count: u8,
    pub width: i64,
}

/// Center of lane `lane_idx`: the road is centered on x = 0 and divided
/// into `lane_count` equal lanes.
pub open spec fn spec_lane_center(width: int, lane_count: int, lane_idx: int) -> int {
    let lane_width = width / lane_count;
    lane_width * lane_idx - width / 2 + lane_width / 2
}

impl RoadProperties {
    /// The x coordinate of the center of the given lane.
    pub fn get_lane_ceter(self, lane_idx: u8) -> (r: i64)
        requires
            0 < self.lane_count,
            0 <= self.width <= FIXED_LIMIT,
        ensures
            r == spec_lane_center(self.width as int, self.lane_count as int, lane_idx as int),
    {
        let lane_width: i64 = self.width / (self.lane_count as i64);
        proof {
            vstd::arithmetic::div_mod::lemma_div_is_ordered(0, self.width as int, self.lane_count as int);
            vstd::arithmetic::div_mod::lemma_div_is_ordered_by_denominator(
                self.width as int,
                1,
                self.lane_count as int,
            );
            vstd::arithmetic::div_mod::lemma_div_basics(self.width as int);
            crate::geometry::lemma_mul_abs_bound(
                lane_width as int,
                lane_idx as int,
                1_000_000_000,
                255,
            );
        }
        lane_width * (lane_idx as i64) - self.width / 2 + lane_width / 2
    }
}

/// Bring the network configuration in line with a loaded list of layers.
pub fn network_config_from_levels(cfg: &mut NetworkConfig, levels: &Vec<NetworkLevel>)
    requires
        levels@.len() >= 1,
        levels@.len() <= 255,
        forall|i: int| 0 <= i < levels@.len() ==> level_wf(#[trigger] levels@[i]),
    ensures
        final(cfg).input_neuron_count == levels@[0].inputs@.len(),
        final(cfg).hidden_layers == levels@.len(),
        final(cfg).hidden_layers_neuron_count == levels@[0].outputs@.len(),
        final(cfg).output_neuron_count == levels@[levels@.len() - 1].outputs@.len(),
        final(cfg).input_ray_length == old(cfg).input_ray_length,
        final(cfg).input_ray_spread == old(cfg).input_ray_spread,
        final(cfg).mutate_factor == old(cfg).mutate_factor,
{
    cfg.input_neuron_count = levels[0].inputs.len() as u8;
    cfg.hidden_layers = levels.len() as u8;
    cfg.hidden_layers_neuron_count = levels[0].outputs.len() as u8;
    cfg.output_neuron_count = levels[levels.len() - 1].outputs.len() as u8;
}

/// The ordered neuron counts a fresh network is built from: the input
/// count, one entry per additional hidden layer, and the output count.
pub fn layer_sizes(cfg: &NetworkConfig) -> (r: Vec<u8>)
    ensures
        r@.len() == 2 + (if cfg.hidden_layers >= 1 {
            cfg.hidden_layers - 1
        } else {
            0
        }),
        r@[0] == cfg.input_neuron_count,
        r@[r@.len() - 1] == cfg.output_neuron_count,
        forall|i: int| 1 <= i < r@.len() - 1 ==> r@[i] == cfg.hidden_layers_neuron_count,
{
    let mut sizes: Vec<u8> = Vec::new();
    sizes.push(cfg.input_neuron_count);
    let mut idx: u8 = 1;
    while idx < cfg.hidden_layers
        invariant
            1 <= idx,
            cfg.hidden_layers >= 1 ==> idx <= cfg.hidden_layers,
            cfg.hidden_layers < 1 ==> idx == 1,
            sizes@.len() == idx,
            sizes@[0] == cfg.input_neuron_count,
            forall|i: int| 1 <= i < idx ==> sizes@[i] == cfg.hidden_layers_neuron_count,
        decreases cfg.hidden_layers as int - idx as int,
    {
        sizes.push(cfg.hidden_layers_neuron_count);
        idx = idx + 1;
    }
    sizes.push(cfg.output_neuron_count);
    sizes
}

/// The mounting angle of sensor `i` of `count`: the sensors sweep the field
/// of view from `+spread/2` down to `-spread/2`, a single sensor pointing
/// straight ahead.
pub open spec fn spec_ray_angle(count: int, spread: int, i: int) -> int {
    let t = if count == 1 {
        (SCALE / 2) as int
    } else {
        i * SCALE / (count - 1)
    };
    spec_lerp(spread / 2, -(spread / 2), t)
}

/// Mounting angles (fixed-point radians, relative to the heading) for
/// `count` sensors spread symmetrically about the forward direction.
pub fn ray_angles(count: u8, spread: i64) -> (r: Vec<i64>)
    requires
        0 <= spread <= FIXED_LIMIT,
    ensures
        r@.len() == count,
        forall|i: int| 0 <= i < count ==> r@[i] == spec_ray_angle(count as int, spread as int, i),
{
    let a: i64 = spread / 2;
    let mut angles: Vec<i64> = Vec::new();
    let mut i: u8 = 0;
    while i < count
        invariant
            i <= count,
            0 <= spread <= FIXED_LIMIT,
            a == spread / 2,
            angles@.len() == i,
            forall|k: int|
                0 <= k < i ==> angles@[k] == spec_ray_angle(count as int, spread as int, k),
        decreases count as int - i as int,
    {
        let t: i64 = if count == 1 {
            SCALE / 2
        } else {
            proof {
                crate::geometry::lemma_mul_abs_bound(i as int, SCALE as int, 255, 1000);
                vstd::arithmetic::div_mod::lemma_div_is_ordered(0, i as int * SCALE as int, count as int - 1);
                vstd::arithmetic::mul::lemma_mul_inequality(i as int, count as int - 1, SCALE as int);
                vstd::arithmetic::mul::lemma_mul_is_commutative(i as int, SCALE as int);
                vstd::arithmetic::mul::lemma_mul_is_commutative(count as int - 1, SCALE as int);
                vstd::arithmetic::div_mod::lemma_div_is_ordered(
                    i as int * SCALE as int,
                    (count as int - 1) * SCALE as int,
                    count as int - 1,
                );
                vstd::arithmetic::div_mod::lemma_div_by_multiple(SCALE as int, count as int - 1);
            }
            (i as i64) * SCALE / (count as i64 - 1)
        };
        let angle: i64 = lerp(a, -a, t);
        angles.push(angle);
        i = i + 1;
    }
    angles
}

/// Stores the identifier of the vehicle the camera follows, if any.
#[derive(Clone, Copy, Debug)]
pub struct CameraTarget(pub Option<usize>);

impl Default for CameraTarget {
    /// No target.
    fn default() -> (c: CameraTarget)
        ensures
            c.0 is None,
    {
        CameraTarget(None)
    }
}

impl CameraTarget {
    pub fn set_target(&mut self, new_target: usize)
        ensures
            final(self).0 == Some(new_target),
    {
        self.0 = Some(new_target);
    }

    pub fn get_target(&self) -> (r: Option<usize>)
        ensures
            r == self.0,
    {
        self.0
    }

    pub fn remove_target(&mut self)
        ensures
            final(self).0 is None,
    {
        self.0 = None;
    }
}

} // verus!
