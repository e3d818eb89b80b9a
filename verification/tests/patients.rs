use triage_seeder::patients::{
    patient_seed_report, plan_patient_seed, triage_conditions, PatientSeedMode,
    LAT_MAX_E14, LAT_MIN_E14, LON_MAX_E14, LON_MIN_E14,
};

#[test]
fn mode_labels() {
    assert_eq!(PatientSeedMode::Reset.label(), "reset");
    assert_eq!(PatientSeedMode::Append.label(), "append");
}

#[test]
fn mode_parsing_accepts_aliases_case_and_padding() {
    for s in ["reset", "REPLACE", " clear ", "Reset", "\tclear\n"] {
        assert_eq!(PatientSeedMode::from_str(s).unwrap(), PatientSeedMode::Reset);
    }
    for s in ["append", "Add", "keep  ", "APPEND", "  keep"] {
        assert_eq!(PatientSeedMode::from_str(s).unwrap(), PatientSeedMode::Append);
    }
}

#[test]
fn mode_parsing_trims_unicode_whitespace() {
    // The trimming matches str::trim: every Unicode whitespace
    // character is stripped, not only the ASCII ones.
    assert_eq!(
        PatientSeedMode::from_str("reset\u{000C}").unwrap(),
        PatientSeedMode::Reset
    );
    assert_eq!(
        PatientSeedMode::from_str("\u{00A0}append\u{00A0}").unwrap(),
        PatientSeedMode::Append
    );
    assert_eq!(
        PatientSeedMode::from_str("\u{2028}keep\u{000B}").unwrap(),
        PatientSeedMode::Append
    );
    assert_eq!(
        PatientSeedMode::from_str("\u{3000}clear\u{2009}").unwrap(),
        PatientSeedMode::Reset
    );
    assert_eq!(
        "reset\u{000C}".trim(),
        "reset",
        "the library's whitespace set must match str::trim"
    );
}

#[test]
fn mode_parsing_rejects_everything_else() {
    for s in ["", "   ", "foo", "resett", "ap pend", "reset now", "añadir"] {
        let err = PatientSeedMode::from_str(s).unwrap_err();
        assert_eq!(err.input, s);
    }
}

#[test]
fn condition_labels_in_scale_order() {
    let conditions = triage_conditions();
    assert_eq!(
        conditions,
        vec![
            "Emergência (Vermelho)",
            "Muito Urgente (Laranja)",
            "Urgente (Amarelo)",
            "Pouco Urgente (Verde)",
            "Não Urgente (Azul)",
        ]
    );
}

#[test]
fn planned_patients_stay_in_the_bounding_box() {
    let conditions = triage_conditions();
    let mut rng = rand::rng();
    for mode in [PatientSeedMode::Reset, PatientSeedMode::Append] {
        let plan = plan_patient_seed(mode, &mut rng);
        assert_eq!(plan.clear_existing, mode == PatientSeedMode::Reset);
        assert!(5 <= plan.patients.len() && plan.patients.len() <= 10);
        for patient in &plan.patients {
            assert!(conditions.contains(&patient.condition));
            assert!(LAT_MIN_E14 <= patient.latitude_e14 && patient.latitude_e14 < LAT_MAX_E14);
            assert!(LON_MIN_E14 <= patient.longitude_e14 && patient.longitude_e14 < LON_MAX_E14);
        }
    }
}

#[test]
fn append_twice_then_reset_record_counts() {
    // Two appends of six and eight rows leave fourteen; a reset run
    // afterwards leaves only what it inserted.
    let first = patient_seed_report(PatientSeedMode::Append, 0, 6);
    assert_eq!(first.inserted, 6);
    assert_eq!(first.total, 6);
    let second = patient_seed_report(PatientSeedMode::Append, first.total, 8);
    assert_eq!(second.inserted, 8);
    assert_eq!(second.total, 14);
    let third = patient_seed_report(PatientSeedMode::Reset, second.total, 9);
    assert_eq!(third.inserted, 9);
    assert_eq!(third.total, 9);
}
