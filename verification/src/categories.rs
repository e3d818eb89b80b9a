//! Triage category configuration, weight sampling, and enrichment.
//!
//! Each category owns an inclusive share range (in hundredths of the
//! total capacity) and an inclusive waiting-time range. One weight per
//! category is drawn uniformly from its share range; the partitioner
//! turns the weights into the bed allocation; enrichment independently
//! draws one waiting time per category from its own range.

use vstd::prelude::*;

use crate::partition::{
    ints_of, partition, spec_partition, sum_seq, lemma_sum_lower_bound,
};
use crate::sampling::{sample_i64_inclusive, sample_u32_inclusive};

verus! {

/// Shares are expressed in hundredths of the total: a share range of
/// `[2, 5]` stands for a claim of 2% to 5% of the capacity.
pub const SHARE_SCALE: u32 = 100;

/// Static configuration of one triage category: its label, the inclusive
/// share range it may claim, and the inclusive waiting-time range
/// (seconds) used for enrichment.
#[derive(Clone, Copy, Debug)]
pub struct TriageLevelConfig {
    pub name: &'static str,
    pub share_min: u32,
    pub share_max: u32,
    pub wait_min_seconds: i64,
    pub wait_max_seconds: i64,
}

/// A well-formed category configuration: a positive share range within
/// the scale, and an ordered, non-negative waiting-time range.
pub open spec fn config_wf(c: TriageLevelConfig) -> bool {
    &&& 1 <= c.share_min <= c.share_max <= SHARE_SCALE
    &&& 0 <= c.wait_min_seconds <= c.wait_max_seconds
}

/// One seeded triage category row: the label, the enriched waiting time,
/// and the beds the partitioner granted.
#[derive(Clone, Copy, Debug)]
pub struct TriageLevelSeed {
    pub name: &'static str,
    pub waiting_time_seconds: i64,
    pub beds_capacity: u32,
}

/// The bed column of a seeded category list, as mathematical integers.
pub open spec fn beds_of(s: Seq<TriageLevelSeed>) -> Seq<int> {
    s.map_values(|t: TriageLevelSeed| t.beds_capacity as int)
}

/// The ordered Manchester triage scale used for every hospital.
pub fn manchester_level_configs() -> (r: Vec<TriageLevelConfig>)
    ensures
        r@.len() == 5,
        forall|i: int| 0 <= i < 5 ==> config_wf(#[trigger] r@[i]),
        r@[0].name@ == "Emergência (Vermelho)"@ && r@[0].share_min == 2 && r@[0].share_max == 5
            && r@[0].wait_min_seconds == 0 && r@[0].wait_max_seconds == 120,
        r@[1].name@ == "Muito Urgente (Laranja)"@ && r@[1].share_min == 5 && r@[1].share_max == 12
            && r@[1].wait_min_seconds == 300 && r@[1].wait_max_seconds == 720,
        r@[2].name@ == "Urgente (Amarelo)"@ && r@[2].share_min == 20 && r@[2].share_max == 32
            && r@[2].wait_min_seconds == 2700 && r@[2].wait_max_seconds == 4500,
        r@[3].name@ == "Pouco Urgente (Verde)"@ && r@[3].share_min == 20 && r@[3].share_max == 30
            && r@[3].wait_min_seconds == 5400 && r@[3].wait_max_seconds == 9000,
        r@[4].name@ == "Não Urgente (Azul)"@ && r@[4].share_min == 20 && r@[4].share_max == 35
            && r@[4].wait_min_seconds == 10800 && r@[4].wait_max_seconds == 18000,
{
    let mut r: Vec<TriageLevelConfig> = Vec::new();
    r.push(TriageLevelConfig {
        name: "Emergência (Vermelho)",
        share_min: 2,
        share_max: 5,
        wait_min_seconds: 0,
        wait_max_seconds: 120,
    });
    r.push(TriageLevelConfig {
        name: "Muito Urgente (Laranja)",
        share_min: 5,
        share_max: 12,
        wait_min_seconds: 300,
        wait_max_seconds: 720,
    });
    r.push(TriageLevelConfig {
        name: "Urgente (Amarelo)",
        share_min: 20,
        share_max: 32,
        wait_min_seconds: 2700,
        wait_max_seconds: 4500,
    });
    r.push(TriageLevelConfig {
        name: "Pouco Urgente (Verde)",
        share_min: 20,
        share_max: 30,
        wait_min_seconds: 5400,
        wait_max_seconds: 9000,
    });
    r.push(TriageLevelConfig {
        name: "Não Urgente (Azul)",
        share_min: 20,
        share_max: 35,
        wait_min_seconds: 10800,
        wait_max_seconds: 18000,
    });
    r
}

/// Draw one share weight per category, each independently and uniformly
/// from that category's inclusive share range. No normalization happens
/// here, and any range with `min <= max` always yields a valid sample.
pub fn sample_weights(configs: &Vec<TriageLevelConfig>, rng: &mut rand::rngs::ThreadRng) -> (r:
    Vec<u32>)
    requires
        forall|i: int| 0 <= i < configs@.len()
            ==> (#[trigger] configs@[i]).share_min <= configs@[i].share_max,
    ensures
        r@.len() == configs@.len(),
        forall|i: int| 0 <= i < r@.len()
            ==> configs@[i].share_min <= #[trigger] r@[i] && r@[i] <= configs@[i].share_max,
{
    let n = configs.len();
    let mut r: Vec<u32> = Vec::new();
    let mut i: usize = 0;
    while i < n
        invariant
            i <= n,
            n == configs@.len(),
            r@.len() == i,
            forall|k: int| 0 <= k < configs@.len()
                ==> (#[trigger] configs@[k]).share_min <= configs@[k].share_max,
            forall|k: int| 0 <= k < i
                ==> configs@[k].share_min <= #[trigger] r@[k] && r@[k] <= configs@[k].share_max,
        decreases n - i,
    {
        let c = configs[i];
        r.push(sample_u32_inclusive(rng, c.share_min, c.share_max));
        i = i + 1;
    }
    r
}

/// Enrichment: draw one waiting time per category, each independently
/// and uniformly from that category's inclusive waiting-time range.
/// Entirely independent of the partitioner.
pub fn sample_waiting_times(configs: &Vec<TriageLevelConfig>, rng: &mut rand::rngs::ThreadRng) -> (
    r: Vec<i64>)
    requires
        forall|i: int| 0 <= i < configs@.len()
            ==> (#[trigger] configs@[i]).wait_min_seconds <= configs@[i].wait_max_seconds,
    ensures
        r@.len() == configs@.len(),
        forall|i: int| 0 <= i < r@.len()
            ==> configs@[i].wait_min_seconds <= #[trigger] r@[i]
                && r@[i] <= configs@[i].wait_max_seconds,
{
    let n = configs.len();
    let mut r: Vec<i64> = Vec::new();
    let mut i: usize = 0;
    while i < n
        invariant
            i <= n,
            n == configs@.len(),
            r@.len() == i,
            forall|k: int| 0 <= k < configs@.len()
                ==> (#[trigger] configs@[k]).wait_min_seconds <= configs@[k].wait_max_seconds,
            forall|k: int| 0 <= k < i
                ==> configs@[k].wait_min_seconds <= #[trigger] r@[k]
                    && r@[k] <= configs@[k].wait_max_seconds,
        decreases n - i,
    {
        let c = configs[i];
        r.push(sample_i64_inclusive(rng, c.wait_min_seconds, c.wait_max_seconds));
        i = i + 1;
    }
    r
}

/// The seeded rows carry the five Manchester labels in scale order.
pub open spec fn manchester_labels_ok(s: Seq<TriageLevelSeed>) -> bool {
    &&& s.len() == 5
    &&& s[0].name@ == "Emergência (Vermelho)"@
    &&& s[1].name@ == "Muito Urgente (Laranja)"@
    &&& s[2].name@ == "Urgente (Amarelo)"@
    &&& s[3].name@ == "Pouco Urgente (Verde)"@
    &&& s[4].name@ == "Não Urgente (Azul)"@
}

/// Every seeded waiting time lies in its category's configured range.
pub open spec fn manchester_waits_ok(s: Seq<TriageLevelSeed>) -> bool {
    &&& s.len() == 5
    &&& 0 <= s[0].waiting_time_seconds <= 120
    &&& 300 <= s[1].waiting_time_seconds <= 720
    &&& 2700 <= s[2].waiting_time_seconds <= 4500
    &&& 5400 <= s[3].waiting_time_seconds <= 9000
    &&& 10800 <= s[4].waiting_time_seconds <= 18000
}

/// A weight vector that the Manchester share ranges could have produced.
pub open spec fn manchester_weights_in_range(ws: Seq<int>) -> bool {
    &&& ws.len() == 5
    &&& 2 <= ws[0] <= 5
    &&& 5 <= ws[1] <= 12
    &&& 20 <= ws[2] <= 32
    &&& 20 <= ws[3] <= 30
    &&& 20 <= ws[4] <= 35
}

/// Build the seeded category rows of one hospital: draw one share weight
/// per category, partition the bed capacity along the drawn weights, and
/// independently enrich each category with a waiting time from its own
/// range. The beds always sum exactly to the capacity; every category
/// keeps at least one bed whenever the capacity covers all five.
pub fn build_manchester_levels(total_beds: u32, rng: &mut rand::rngs::ThreadRng) -> (r: Vec<
    TriageLevelSeed>)
    ensures
        r@.len() == 5,
        manchester_labels_ok(r@),
        manchester_waits_ok(r@),
        sum_seq(beds_of(r@)) == total_beds as int,
        total_beds >= 5 ==> forall|i: int| 0 <= i < 5 ==> (#[trigger] r@[i]).beds_capacity >= 1,
        total_beds < 5 ==> forall|i: int| 0 <= i < 5 ==> (#[trigger] r@[i]).beds_capacity == (
        if i < total_beds as int {
            1u32
        } else {
            0u32
        }),
        exists|ws: Seq<int>|
            manchester_weights_in_range(ws) && beds_of(r@) == spec_partition(
                total_beds as int,
                ws,
            ),
{
    let configs = manchester_level_configs();
    let weights = sample_weights(&configs, rng);
    proof {
        assert(forall|k: int| 0 <= k < ints_of(weights@).len() ==> ints_of(weights@)[k] >= 1);
        lemma_sum_lower_bound(ints_of(weights@), 1);
    }
    let alloc_res = partition(total_beds, &weights);
    proof {
        assert(alloc_res is Ok);
    }
    let alloc = alloc_res.unwrap();
    let waits = sample_waiting_times(&configs, rng);
    let mut r: Vec<TriageLevelSeed> = Vec::new();
    let mut i: usize = 0;
    while i < 5
        invariant
            i <= 5,
            configs@.len() == 5,
            alloc@.len() == 5,
            waits@.len() == 5,
            r@.len() == i,
            forall|k: int| 0 <= k < i
                ==> (#[trigger] r@[k]).name == configs@[k].name
                    && r@[k].waiting_time_seconds == waits@[k]
                    && r@[k].beds_capacity == alloc@[k],
        decreases 5 - i,
    {
        let c = configs[i];
        r.push(TriageLevelSeed {
            name: c.name,
            waiting_time_seconds: waits[i],
            beds_capacity: alloc[i],
        });
        i = i + 1;
    }
    proof {
        assert(beds_of(r@) =~= ints_of(alloc@));
        let ws = ints_of(weights@);
        assert(manchester_weights_in_range(ws) && beds_of(r@) == spec_partition(
            total_beds as int,
            ws,
        ));
    }
    r
}

} // verus!
