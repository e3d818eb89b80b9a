//! Hospital blueprints and the hospital seeding plan.
//!
//! A blueprint is static input: a hospital's label, its location, and
//! its total bed capacity. Planning turns each blueprint into its five
//! seeded triage categories through the sampler, the partitioner, and
//! the enrichment step. The plan is handed to the storage collaborator
//! outside this crate: a hospital seeding run always replaces prior
//! rows (full replace, not merge), and all inserts of one run belong to
//! one transaction owned by the collaborator.
//!
//! Coordinates are fixed-point integers in units of `1e-14` degree, so
//! the printed decimal coordinates of the dataset are carried exactly.

use vstd::prelude::*;

use crate::categories::{
    beds_of, build_manchester_levels, manchester_labels_ok, manchester_waits_ok, TriageLevelSeed,
};
use crate::partition::sum_seq;

verus! {

/// Outcome of one hospital seeding run: how many hospital rows and how
/// many triage category rows were handed to the store.
#[derive(Clone, Copy, Debug, PartialEq, Eq, Structural)]
pub struct HospitalSeedReport {
    pub hospitals: usize,
    pub triage_levels: usize,
}

/// Static input describing one hospital: label, fixed-point location,
/// and total bed capacity.
#[derive(Clone, Copy, Debug)]
pub struct HospitalSeed {
    pub name: &'static str,
    pub latitude_e14: i64,
    pub longitude_e14: i64,
    pub bed_capacity: u32,
}

/// The built-in Lisbon dataset: eight hospitals, each with at least as
/// many beds as there are triage categories.
pub fn hospital_blueprints() -> (r: Vec<HospitalSeed>)
    ensures
        r@.len() == 8,
        r@[0].name@ == "Hospital Egas Moniz"@ && r@[0].latitude_e14 == 3869992028648600
            && r@[0].longitude_e14 == -918819546474445 && r@[0].bed_capacity == 420,
        r@[1].name@ == "Hospital São Francisco Xavier"@ && r@[1].latitude_e14 == 3870716125689600
            && r@[1].longitude_e14 == -921788492844298 && r@[1].bed_capacity == 360,
        r@[2].name@ == "Hospital São José"@ && r@[2].latitude_e14 == 3871772918262380
            && r@[2].longitude_e14 == -913744886489834 && r@[2].bed_capacity == 510,
        r@[3].name@ == "Hospital Santa Marta"@ && r@[3].latitude_e14 == 3872378743622370
            && r@[3].longitude_e14 == -914485431710445 && r@[3].bed_capacity == 280,
        r@[4].name@ == "Hospital Dona Estefânia"@ && r@[4].latitude_e14 == 3872883109902630
            && r@[4].longitude_e14 == -913891561875593 && r@[4].bed_capacity == 330,
        r@[5].name@ == "Instituto Português Oncologia de Lisboa"@ && r@[5].latitude_e14
            == 3873978693158260 && r@[5].longitude_e14 == -916125218233200
            && r@[5].bed_capacity == 400,
        r@[6].name@ == "Hospital Curry Cabral"@ && r@[6].latitude_e14 == 3874131931380790
            && r@[6].longitude_e14 == -915205064090183 && r@[6].bed_capacity == 350,
        r@[7].name@ == "Hospital Santa Maria"@ && r@[7].latitude_e14 == 3874804195860090
            && r@[7].longitude_e14 == -916054501791882 && r@[7].bed_capacity == 520,
        forall|i: int| 0 <= i < 8 ==> (#[trigger] r@[i]).bed_capacity >= 5,
{
    let mut r: Vec<HospitalSeed> = Vec::new();
    r.push(HospitalSeed {
        name: "Hospital Egas Moniz",
        latitude_e14: 3869992028648600,
        longitude_e14: -918819546474445,
        bed_capacity: 420,
    });
    r.push(HospitalSeed {
        name: "Hospital São Francisco Xavier",
        latitude_e14: 3870716125689600,
        longitude_e14: -921788492844298,
        bed_capacity: 360,
    });
    r.push(HospitalSeed {
        name: "Hospital São José",
        latitude_e14: 3871772918262380,
        longitude_e14: -913744886489834,
        bed_capacity: 510,
    });
    r.push(HospitalSeed {
        name: "Hospital Santa Marta",
        latitude_e14: 3872378743622370,
        longitude_e14: -914485431710445,
        bed_capacity: 280,
    });
    r.push(HospitalSeed {
        name: "Hospital Dona Estefânia",
        latitude_e14: 3872883109902630,
        longitude_e14: -913891561875593,
        bed_capacity: 330,
    });
    r.push(HospitalSeed {
        name: "Instituto Português Oncologia de Lisboa",
        latitude_e14: 3873978693158260,
        longitude_e14: -916125218233200,
        bed_capacity: 400,
    });
    r.push(HospitalSeed {
        name: "Hospital Curry Cabral",
        latitude_e14: 3874131931380790,
        longitude_e14: -915205064090183,
        bed_capacity: 350,
    });
    r.push(HospitalSeed {
        name: "Hospital Santa Maria",
        latitude_e14: 3874804195860090,
        longitude_e14: -916054501791882,
        bed_capacity: 520,
    });
    r
}

/// One hospital's planned rows: the blueprint itself and its seeded
/// triage categories, to be inserted under the hospital's identity.
#[derive(Clone, Debug)]
pub struct HospitalPlan {
    pub hospital: HospitalSeed,
    pub triage_levels: Vec<TriageLevelSeed>,
}

/// Plan one full hospital seeding run: for each blueprint, sample,
/// partition, and enrich its categories. Every hospital's beds sum
/// exactly to its capacity, and every category keeps at least one bed
/// whenever the capacity covers all five.
pub fn plan_hospital_seed(blueprints: &Vec<HospitalSeed>, rng: &mut rand::rngs::ThreadRng) -> (r:
    Vec<HospitalPlan>)
    ensures
        r@.len() == blueprints@.len(),
        forall|i: int| 0 <= i < r@.len() ==> (#[trigger] r@[i]).hospital == blueprints@[i],
        forall|i: int| 0 <= i < r@.len() ==> manchester_labels_ok((#[trigger] r@[i]).triage_levels@),
        forall|i: int| 0 <= i < r@.len() ==> manchester_waits_ok((#[trigger] r@[i]).triage_levels@),
        forall|i: int| 0 <= i < r@.len()
            ==> sum_seq(beds_of((#[trigger] r@[i]).triage_levels@))
                == blueprints@[i].bed_capacity as int,
        forall|i: int| 0 <= i < r@.len() ==> blueprints@[i].bed_capacity >= 5
            ==> forall|j: int| 0 <= j < 5
                ==> ((#[trigger] r@[i]).triage_levels@[j]).beds_capacity >= 1,
{
    let n = blueprints.len();
    let mut r: Vec<HospitalPlan> = Vec::new();
    let mut i: usize = 0;
    while i < n
        invariant
            i <= n,
            n == blueprints@.len(),
            r@.len() == i,
            forall|k: int| 0 <= k < i ==> (#[trigger] r@[k]).hospital == blueprints@[k],
            forall|k: int| 0 <= k < i ==> manchester_labels_ok((#[trigger] r@[k]).triage_levels@),
            forall|k: int| 0 <= k < i ==> manchester_waits_ok((#[trigger] r@[k]).triage_levels@),
            forall|k: int| 0 <= k < i
                ==> sum_seq(beds_of((#[trigger] r@[k]).triage_levels@))
                    == blueprints@[k].bed_capacity as int,
            forall|k: int| 0 <= k < i ==> blueprints@[k].bed_capacity >= 5
                ==> forall|j: int| 0 <= j < 5
                    ==> ((#[trigger] r@[k]).triage_levels@[j]).beds_capacity >= 1,
        decreases n - i,
    {
        let b = blueprints[i];
        let levels = build_manchester_levels(b.bed_capacity, rng);
        r.push(HospitalPlan { hospital: b, triage_levels: levels });
        i = i + 1;
    }
    r
}

/// How many triage category rows a plan holds in total.
pub open spec fn count_levels(plans: Seq<HospitalPlan>) -> int
    decreases plans.len(),
{
    if plans.len() == 0 {
        0
    } else {
        count_levels(plans.drop_last()) + plans.last().triage_levels@.len()
    }
}

proof fn lemma_count_levels_take_step(plans: Seq<HospitalPlan>, i: int)
    requires
        0 <= i < plans.len(),
    ensures
        count_levels(plans.take(i + 1)) == count_levels(plans.take(i))
            + plans[i].triage_levels@.len(),
{
    assert(plans.take(i + 1).drop_last() =~= plans.take(i));
    assert(plans.take(i + 1).last() == plans[i]);
}

proof fn lemma_count_levels_prefix_le(plans: Seq<HospitalPlan>, i: int)
    requires
        0 <= i <= plans.len(),
    ensures
        count_levels(plans.take(i)) <= count_levels(plans),
    decreases plans.len() - i,
{
    if i < plans.len() {
        lemma_count_levels_take_step(plans, i);
        lemma_count_levels_prefix_le(plans, i + 1);
    } else {
        assert(plans.take(i) =~= plans);
    }
}

/// The summary a hospital seeding run reports: one count of blueprints
/// processed and one count of category rows inserted.
pub fn hospital_seed_report(plans: &Vec<HospitalPlan>) -> (r: HospitalSeedReport)
    requires
        count_levels(plans@) <= usize::MAX,
    ensures
        r.hospitals == plans@.len(),
        r.triage_levels == count_levels(plans@),
{
    let n = plans.len();
    let mut total: usize = 0;
    let mut i: usize = 0;
    while i < n
        invariant
            i <= n,
            n == plans@.len(),
            count_levels(plans@) <= usize::MAX,
            total == count_levels(plans@.take(i as int)),
        decreases n - i,
    {
        proof {
            lemma_count_levels_take_step(plans@, i as int);
            lemma_count_levels_prefix_le(plans@, i as int + 1);
        }
        total = total + plans[i].triage_levels.len();
        i = i + 1;
    }
    proof {
        assert(plans@.take(n as int) =~= plans@);
    }
    HospitalSeedReport { hospitals: n, triage_levels: total }
}

} // verus!
