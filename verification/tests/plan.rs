use nod::errors::NodError;
use nod::host::HostEntity;
use nod::plan::{DeploymentAction, DeploymentOptions, DeploymentPlan, RolloutStrategy, TargetPlan};

fn plan(count: usize, strategy: RolloutStrategy, batch_size: usize) -> DeploymentPlan {
    let mut targets = Vec::<TargetPlan>::with_capacity(count);
    let mut i = 0;
    while i < count {
        targets.push(TargetPlan {
            host_name: format!("h{}", i),
            action: DeploymentAction::Switch,
            new_closure: None,
            current_closure: None,
            depends_on: Vec::new(),
        });
        i += 1;
    }
    let mut options = DeploymentOptions::default_policy();
    options.strategy = strategy;
    options.batch_size = batch_size;
    DeploymentPlan { targets, options }
}

#[test]
fn all_strategy_is_a_single_wave() {
    let plan = plan(6, RolloutStrategy::All, 0);
    let waves = plan.wave_indices().unwrap();
    assert_eq!(waves.len(), 1);
    assert_eq!(waves[0], vec![0, 1, 2, 3, 4, 5]);
}

#[test]
fn empty_plan_has_no_waves() {
    for strategy in [RolloutStrategy::All, RolloutStrategy::Canary, RolloutStrategy::Batch] {
        let mut options = DeploymentOptions::default_policy();
        options.strategy = strategy;
        let plan = DeploymentPlan { targets: Vec::new(), options };
        assert!(plan.wave_indices().unwrap().is_empty());
    }
}

#[test]
fn batch_splits_fixed_size_slices() {
    let waves = plan(6, RolloutStrategy::Batch, 2).wave_indices().unwrap();
    assert_eq!(waves.len(), 3);
    assert_eq!(waves[0], vec![0, 1]);
    assert_eq!(waves[1], vec![2, 3]);
    assert_eq!(waves[2], vec![4, 5]);
}

#[test]
fn batch_zero_is_one_remaining_wave() {
    let waves = plan(5, RolloutStrategy::Batch, 0).wave_indices().unwrap();
    assert_eq!(waves.len(), 1);
    assert_eq!(waves[0], vec![0, 1, 2, 3, 4]);
}

#[test]
fn canary_slices_first_host_then_remainder() {
    let waves = plan(6, RolloutStrategy::Canary, 2).wave_indices().unwrap();
    assert_eq!(waves.len(), 4);
    assert_eq!(waves[0], vec![0]);
    assert_eq!(waves[1], vec![1, 2]);
    assert_eq!(waves[2], vec![3, 4]);
    assert_eq!(waves[3], vec![5]);
}

#[test]
fn canary_single_host_has_no_second_wave() {
    let waves = plan(1, RolloutStrategy::Canary, 2).wave_indices().unwrap();
    assert_eq!(waves.len(), 1);
    assert_eq!(waves[0], vec![0]);
}

#[test]
fn dag_dependency_levels_partition_correctly() {
    let mut plan = plan(4, RolloutStrategy::All, 0);
    plan.targets[1].depends_on = vec!["h0".to_string()];
    plan.targets[2].depends_on = vec!["h0".to_string()];
    plan.targets[3].depends_on = vec!["h1".to_string(), "h2".to_string()];

    let waves = plan.wave_indices().unwrap();
    assert_eq!(waves.len(), 3);
    assert_eq!(waves[0], vec![0]);
    assert_eq!(waves[1], vec![1, 2]);
    assert_eq!(waves[2], vec![3]);
}

#[test]
fn dag_cycle_detection_returns_error() {
    let mut plan = plan(2, RolloutStrategy::All, 0);
    plan.targets[0].depends_on = vec!["h1".to_string()];
    plan.targets[1].depends_on = vec!["h0".to_string()];

    let err = plan.wave_indices().unwrap_err();
    assert!(matches!(err, NodError::Config { .. }));
    assert!(err.message().contains("cyclic dependency detected"));
}

#[test]
fn action_round_trips() {
    assert_eq!(DeploymentAction::parse("switch"), Some(DeploymentAction::Switch));
    assert_eq!(DeploymentAction::parse("Boot"), Some(DeploymentAction::Boot));
    assert_eq!(DeploymentAction::parse("test"), Some(DeploymentAction::Test));
    assert_eq!(DeploymentAction::parse("dry-run"), Some(DeploymentAction::DryRun));
    assert_eq!(DeploymentAction::parse("build"), Some(DeploymentAction::Build));
    assert_eq!(DeploymentAction::parse("nope"), None);
}

#[test]
fn default_policy_has_no_builder() {
    let options = DeploymentOptions::default_policy();
    assert!(options.builder.is_none());
    assert!(options.out_link.is_none());
}

#[test]
fn dry_run_detection() {
    let mut options = DeploymentOptions::default_policy();
    assert!(!options.is_dry_run());
    options.dry_run = true;
    assert!(options.is_dry_run());
    options.dry_run = false;
    options.action = DeploymentAction::DryRun;
    assert!(options.is_dry_run());
}

#[test]
fn action_text_round_trips_through_parse() {
    for a in [
        DeploymentAction::Switch,
        DeploymentAction::Boot,
        DeploymentAction::Test,
        DeploymentAction::DryRun,
        DeploymentAction::Build,
    ] {
        assert_eq!(DeploymentAction::parse(&a.to_str()), Some(a));
    }
}

#[test]
fn strategy_parse_accepts_known_names() {
    assert_eq!(RolloutStrategy::parse("Canary"), Some(RolloutStrategy::Canary));
    assert_eq!(RolloutStrategy::parse("batch"), Some(RolloutStrategy::Batch));
    assert_eq!(RolloutStrategy::parse("all"), Some(RolloutStrategy::All));
    assert_eq!(RolloutStrategy::parse("rolling"), None);
}

#[test]
fn waves_respect_dependencies_across_batches() {
    let mut p = plan(4, RolloutStrategy::Batch, 1);
    p.targets[0].depends_on = vec!["h3".to_string()];
    let waves = p.wave_indices().unwrap();
    let pos = |i: usize| waves.iter().position(|w| w.contains(&i)).unwrap();
    assert!(pos(3) < pos(0));
    assert_eq!(waves.iter().map(|w| w.len()).sum::<usize>(), 4);
}

#[test]
fn plan_from_hosts_keeps_host_order() {
    let hosts = vec![HostEntity::new("a", "1", false), HostEntity::new("b", "2", false)];
    let p = DeploymentPlan::from_hosts(hosts, DeploymentAction::Boot);
    assert_eq!(p.size(), 2);
    assert_eq!(p.targets[0].host_name, "a");
    assert_eq!(p.targets[1].host_name, "b");
    assert_eq!(p.targets[1].action, DeploymentAction::Boot);
}

#[test]
fn every_action_reads_back_in_any_case() {
    let all = [
        DeploymentAction::Switch,
        DeploymentAction::Boot,
        DeploymentAction::Test,
        DeploymentAction::DryRun,
        DeploymentAction::Build,
    ];
    for a in all {
        assert_eq!(DeploymentAction::parse(&a.to_str()), Some(a));
        assert_eq!(DeploymentAction::parse(&a.to_str().to_uppercase()), Some(a));
    }
}

#[test]
fn waves_list_every_target_once() {
    for strategy in [RolloutStrategy::All, RolloutStrategy::Batch, RolloutStrategy::Canary] {
        let mut p = plan(7, strategy, 2);
        p.targets[0].depends_on = vec!["h5".to_string()];
        p.targets[2].depends_on = vec!["h0".to_string(), "h6".to_string()];
        p.targets[4].depends_on = vec!["h2".to_string()];
        let waves = p.wave_indices().unwrap();
        let mut all: Vec<usize> = waves.iter().flatten().copied().collect();
        assert_eq!(all.len(), 7);
        all.sort();
        assert_eq!(all, (0..7).collect::<Vec<usize>>());
        assert!(waves.iter().all(|w| !w.is_empty()));
    }
}
