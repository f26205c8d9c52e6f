use rand::rngs::SmallRng;
use rand::SeedableRng;
use ycsb::workload::{
    build_key_name, create_operation_generator, dispatch, field_length_config, field_names,
    fnvhash64, get_field_length_generator, get_key_chooser_generator, parse_distribution,
    ConfigError, CoreOperation, CoreWorkload, DistributionKind, GeneratorConfig, Properties,
    StoreOperation, TransactionError,
};

fn props() -> Properties {
    Properties {
        table: String::from("usertable"),
        field_length: 100,
        field_length_distribution: String::from("constant"),
        record_count: 1000,
        operation_count: 4000,
        insert_start: 0,
        insert_count: 1000,
        request_distribution: String::from("uniform"),
        read_proportion: 1_000_000,
        update_proportion: 0,
        insert_proportion: 0,
        scan_proportion: 0,
        read_modify_write_proportion: 0,
    }
}

#[test]
fn fnv_hash_of_zero_and_one_are_fixed() {
    assert_eq!(fnvhash64(0), 5416181115624265093);
    assert_eq!(fnvhash64(1), 10437823426863123108);
    assert_ne!(fnvhash64(0), fnvhash64(1));
    assert_eq!(fnvhash64(0), fnvhash64(0));
    assert_eq!(fnvhash64(12345), 2981736999692260876);
}

#[test]
fn key_names_are_hashes_in_decimal() {
    assert_eq!(build_key_name(0), "5416181115624265093");
    assert_eq!(build_key_name(1), "10437823426863123108");
}

#[test]
fn field_names_run_from_field0_to_field9() {
    let names = field_names();
    let expected: Vec<String> = (0..10).map(|i| format!("field{}", i)).collect();
    assert_eq!(names, expected);
}

#[test]
fn distribution_names_parse() {
    assert_eq!(parse_distribution(&String::from("zipfian")), Some(DistributionKind::Zipfian));
    assert_eq!(parse_distribution(&String::from("latest")), None);
    assert_eq!(field_length_config(None, 5), Err(ConfigError::UnknownDistribution));
    assert_eq!(
        field_length_config(Some(DistributionKind::Histogram), 5),
        Err(ConfigError::UnsupportedDistribution)
    );
    assert_eq!(field_length_config(Some(DistributionKind::Uniform), 0), Err(ConfigError::EmptyRange));
}

#[test]
fn field_length_generator_follows_the_configuration() {
    let mut p = props();
    assert_eq!(get_field_length_generator(&p), Ok(GeneratorConfig::Constant { value: 100 }));
    p.field_length_distribution = String::from("Uniform");
    assert_eq!(get_field_length_generator(&p), Ok(GeneratorConfig::Uniform { lb: 1, ub: 100 }));
    p.field_length_distribution = String::from("ZIPFIAN");
    assert_eq!(get_field_length_generator(&p), Ok(GeneratorConfig::Zipfian { min: 1, max: 100 }));
    p.field_length_distribution = String::from("gaussian");
    assert_eq!(get_field_length_generator(&p), Err(ConfigError::UnknownDistribution));
}

#[test]
fn key_chooser_covers_the_inserted_keys() {
    let mut p = props();
    assert_eq!(get_key_chooser_generator(&p), Ok(GeneratorConfig::Uniform { lb: 0, ub: 999 }));
    p.request_distribution = String::from("zipfian");
    p.insert_start = 10;
    p.insert_count = 0;
    assert_eq!(get_key_chooser_generator(&p), Ok(GeneratorConfig::Zipfian { min: 10, max: 999 }));
    p.insert_start = 999;
    assert_eq!(get_key_chooser_generator(&p), Err(ConfigError::InvalidKeyRange));
    p.insert_start = 2000;
    assert_eq!(get_key_chooser_generator(&p), Err(ConfigError::InvalidKeyRange));
    p.insert_start = u64::MAX;
    p.insert_count = 5;
    assert_eq!(get_key_chooser_generator(&p), Err(ConfigError::InvalidKeyRange));
    p.insert_start = 0;
    p.request_distribution = String::from("latest");
    assert_eq!(get_key_chooser_generator(&p), Err(ConfigError::UnknownDistribution));
}

#[test]
fn operation_mix_keeps_positive_arms_in_order() {
    let mut p = props();
    p.read_proportion = 950_000;
    p.update_proportion = 50_000;
    p.scan_proportion = 10;
    let g = create_operation_generator(&p);
    let arms: Vec<(u32, CoreOperation)> = g.pairs.iter().map(|w| (w.weight, w.value)).collect();
    assert_eq!(
        arms,
        vec![
            (950_000, CoreOperation::Read),
            (50_000, CoreOperation::Update),
            (10, CoreOperation::Scan)
        ]
    );
    assert_eq!(g.total, 1_000_010);
}

#[test]
fn transactions_dispatch_reads_updates_inserts_only() {
    assert_eq!(dispatch(CoreOperation::Read), Ok(StoreOperation::Read));
    assert_eq!(dispatch(CoreOperation::Update), Ok(StoreOperation::Update));
    assert_eq!(dispatch(CoreOperation::Insert), Ok(StoreOperation::Insert));
    assert_eq!(
        dispatch(CoreOperation::Scan),
        Err(TransactionError::Unsupported(CoreOperation::Scan))
    );
    assert_eq!(
        dispatch(CoreOperation::ReadModifyWrite),
        Err(TransactionError::Unsupported(CoreOperation::ReadModifyWrite))
    );
    assert_eq!(CoreOperation::ReadModifyWrite.name(), "ReadModifyWrite");
}

#[test]
fn workload_builds_records_from_the_key_sequence() {
    let mut rng = SmallRng::seed_from_u64(4);
    let mut p = props();
    p.insert_start = 1;
    let mut wl = CoreWorkload::new(&p, 300, 100).unwrap();
    assert_eq!(wl.table, "usertable");
    let lengths: Vec<usize> = vec![0, 1, 2, 3, 4, 5, 6, 7, 8, 100];
    let first = wl.next_record(&lengths, &mut rng);
    let second = wl.next_record(&lengths, &mut rng);
    assert_eq!(first.key, build_key_name(1));
    assert_eq!(first.key, "10437823426863123108");
    assert_eq!(second.key, build_key_name(2));
    assert_eq!(first.values.len(), 10);
    for (i, (name, value)) in first.values.iter().enumerate() {
        assert_eq!(name, &format!("field{}", i));
        assert_eq!(value.len(), lengths[i]);
        assert!(value.chars().all(|c| c.is_ascii_alphanumeric()));
    }
    assert_eq!(wl.key_sequence.counter, 3);
}

#[test]
fn workload_reads_only_when_configured_so() {
    let mut rng = SmallRng::seed_from_u64(5);
    let wl = CoreWorkload::new(&props(), 300, 100).unwrap();
    for _ in 0..1000 {
        assert_eq!(wl.next_operation(&mut rng), Some(CoreOperation::Read));
    }
    assert_eq!(wl.read_key(0), "5416181115624265093");
}

#[test]
fn workload_refuses_a_bad_configuration() {
    let mut p = props();
    p.request_distribution = String::from("hotspot");
    assert!(matches!(CoreWorkload::new(&p, 300, 100), Err(ConfigError::UnknownDistribution)));
}

#[test]
fn workload_without_operations_chooses_none() {
    let mut rng = SmallRng::seed_from_u64(6);
    let mut p = props();
    p.read_proportion = 0;
    let wl = CoreWorkload::new(&p, 300, 100).unwrap();
    assert_eq!(wl.next_operation(&mut rng), None);
}

#[test]
fn sampler_descriptions_draw_constant_and_uniform_values() {
    let mut rng = SmallRng::seed_from_u64(7);
    assert_eq!(GeneratorConfig::Constant { value: 42 }.draw(&mut rng), Some(42));
    for _ in 0..1000 {
        let v = GeneratorConfig::Uniform { lb: 5, ub: 8 }.draw(&mut rng).unwrap();
        assert!((5..=8).contains(&v));
    }
    assert_eq!(GeneratorConfig::Zipfian { min: 1, max: 9 }.draw(&mut rng), None);
    let wl = CoreWorkload::new(&props(), 300, 100).unwrap();
    assert_eq!(wl.draw_field_length(&mut rng), Some(100));
    let k = wl.draw_read_keynum(&mut rng).unwrap();
    assert!(k <= 999);
}

#[test]
fn key_names_of_small_and_large_hashes() {
    assert_eq!(build_key_name(12345), "2981736999692260876");
    assert_eq!(build_key_name(12345), fnvhash64(12345).to_string());
    assert_eq!(build_key_name(u64::MAX), fnvhash64(u64::MAX).to_string());
}
