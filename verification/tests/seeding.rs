use triage_seeder::categories::{
    build_manchester_levels, manchester_level_configs, sample_waiting_times, sample_weights,
    TriageLevelConfig,
};
use triage_seeder::hospitals::{hospital_blueprints, hospital_seed_report, plan_hospital_seed};

const LEVEL_NAMES: [&str; 5] = [
    "Emergência (Vermelho)",
    "Muito Urgente (Laranja)",
    "Urgente (Amarelo)",
    "Pouco Urgente (Verde)",
    "Não Urgente (Azul)",
];

#[test]
fn manchester_configuration_values() {
    let configs = manchester_level_configs();
    assert_eq!(configs.len(), 5);
    for (config, name) in configs.iter().zip(LEVEL_NAMES.iter()) {
        assert_eq!(config.name, *name);
    }
    assert_eq!((configs[0].share_min, configs[0].share_max), (2, 5));
    assert_eq!((configs[1].share_min, configs[1].share_max), (5, 12));
    assert_eq!((configs[2].share_min, configs[2].share_max), (20, 32));
    assert_eq!((configs[3].share_min, configs[3].share_max), (20, 30));
    assert_eq!((configs[4].share_min, configs[4].share_max), (20, 35));
    assert_eq!(
        (configs[0].wait_min_seconds, configs[0].wait_max_seconds),
        (0, 2 * 60)
    );
    assert_eq!(
        (configs[4].wait_min_seconds, configs[4].wait_max_seconds),
        (180 * 60, 300 * 60)
    );
}

#[test]
fn sampled_weights_stay_in_their_ranges() {
    let configs = manchester_level_configs();
    let mut rng = rand::rng();
    for _ in 0..50 {
        let weights = sample_weights(&configs, &mut rng);
        assert_eq!(weights.len(), 5);
        for (weight, config) in weights.iter().zip(configs.iter()) {
            assert!(config.share_min <= *weight && *weight <= config.share_max);
        }
    }
}

#[test]
fn degenerate_range_pins_the_sample() {
    let configs = vec![TriageLevelConfig {
        name: "only",
        share_min: 7,
        share_max: 7,
        wait_min_seconds: 42,
        wait_max_seconds: 42,
    }];
    let mut rng = rand::rng();
    assert_eq!(sample_weights(&configs, &mut rng), vec![7]);
    assert_eq!(sample_waiting_times(&configs, &mut rng), vec![42]);
}

#[test]
fn wide_range_samples_actually_vary() {
    // A sampler that ignored its randomness source would return the same
    // value every time; over thirty draws from a range of one hundred
    // values, at least two distinct weights must appear.
    let configs = vec![TriageLevelConfig {
        name: "wide",
        share_min: 1,
        share_max: 100,
        wait_min_seconds: 0,
        wait_max_seconds: 1_000_000,
    }];
    let mut rng = rand::rng();
    let mut seen = Vec::new();
    for _ in 0..30 {
        seen.push(sample_weights(&configs, &mut rng)[0]);
    }
    assert!(seen.iter().any(|w| *w != seen[0]));
}

#[test]
fn built_levels_conserve_the_capacity() {
    let mut rng = rand::rng();
    for &total in &[420u32, 360, 510, 280, 5, 6, 1000] {
        let levels = build_manchester_levels(total, &mut rng);
        assert_eq!(levels.len(), 5);
        for (level, name) in levels.iter().zip(LEVEL_NAMES.iter()) {
            assert_eq!(level.name, *name);
        }
        let beds: u64 = levels.iter().map(|l| l.beds_capacity as u64).sum();
        assert_eq!(beds, total as u64);
        assert!(levels.iter().all(|l| l.beds_capacity >= 1));
        assert!(0 <= levels[0].waiting_time_seconds && levels[0].waiting_time_seconds <= 120);
        assert!(300 <= levels[1].waiting_time_seconds && levels[1].waiting_time_seconds <= 720);
        assert!(2700 <= levels[2].waiting_time_seconds && levels[2].waiting_time_seconds <= 4500);
        assert!(5400 <= levels[3].waiting_time_seconds && levels[3].waiting_time_seconds <= 9000);
        assert!(
            10800 <= levels[4].waiting_time_seconds && levels[4].waiting_time_seconds <= 18000
        );
    }
}

#[test]
fn built_levels_with_tiny_capacity_relax_the_minimum() {
    let mut rng = rand::rng();
    let levels = build_manchester_levels(3, &mut rng);
    let beds: Vec<u32> = levels.iter().map(|l| l.beds_capacity).collect();
    assert_eq!(beds, vec![1, 1, 1, 0, 0]);
}

#[test]
fn blueprint_dataset_values() {
    let blueprints = hospital_blueprints();
    assert_eq!(blueprints.len(), 8);
    assert_eq!(blueprints[0].name, "Hospital Egas Moniz");
    assert_eq!(blueprints[0].latitude_e14, 3869992028648600);
    assert_eq!(blueprints[0].longitude_e14, -918819546474445);
    assert_eq!(blueprints[0].bed_capacity, 420);
    assert_eq!(blueprints[5].name, "Instituto Português Oncologia de Lisboa");
    assert_eq!(blueprints[7].name, "Hospital Santa Maria");
    assert_eq!(blueprints[7].bed_capacity, 520);
    let capacities: Vec<u32> = blueprints.iter().map(|b| b.bed_capacity).collect();
    assert_eq!(capacities, vec![420, 360, 510, 280, 330, 400, 350, 520]);
    assert!(blueprints.iter().all(|b| b.bed_capacity >= 5));
}

#[test]
fn full_seeding_plan_and_report() {
    let blueprints = hospital_blueprints();
    let mut rng = rand::rng();
    let plans = plan_hospital_seed(&blueprints, &mut rng);
    assert_eq!(plans.len(), 8);
    for (plan, blueprint) in plans.iter().zip(blueprints.iter()) {
        assert_eq!(plan.hospital.name, blueprint.name);
        assert_eq!(plan.hospital.bed_capacity, blueprint.bed_capacity);
        assert_eq!(plan.triage_levels.len(), 5);
        let beds: u64 = plan
            .triage_levels
            .iter()
            .map(|l| l.beds_capacity as u64)
            .sum();
        assert_eq!(beds, blueprint.bed_capacity as u64);
        assert!(plan.triage_levels.iter().all(|l| l.beds_capacity >= 1));
    }
    let report = hospital_seed_report(&plans);
    assert_eq!(report.hospitals, 8);
    assert_eq!(report.triage_levels, 40);
}
