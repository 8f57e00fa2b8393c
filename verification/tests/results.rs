use thermo_online::distribution::ClusterDistribution;
use thermo_online::results::{calc_entropy, calc_free_energy, ModelResults};

fn trapezoid(previous: f32, t0: f32, c0: f32, t1: f32, c1: f32) -> Option<f32> {
    let avg = (c1 / t1 + c0 / t0) / 2.0;
    if avg.is_finite() {
        Some(previous + (t1 - t0) * avg)
    } else {
        None
    }
}

fn helmholtz(u: f32, t: f32, s: f32) -> f32 {
    u - t * s
}

fn log_of(rows: &[(f32, f32, f32, f32)]) -> ModelResults<f32> {
    let mut log = ModelResults::new(rows.len(), 1);
    for &(t, u, c, a) in rows {
        log.record(t, u, c, a, ClusterDistribution::new(), ClusterDistribution::new());
    }
    log
}

#[test]
fn a_new_log_is_empty_in_every_column() {
    let log: ModelResults<f32> = ModelResults::new(16, 3);
    assert_eq!(log.len(), 0);
    assert_eq!(log.temp.len(), 0);
    assert_eq!(log.int_energy.len(), 0);
    assert_eq!(log.heat_capacity.len(), 0);
    assert_eq!(log.acceptance_rate.len(), 0);
    assert_eq!(log.entropy.len(), 0);
    assert_eq!(log.free_energy.len(), 0);
    assert_eq!(log.distr_0.len(), 0);
    assert_eq!(log.distr_1.len(), 0);
    assert_eq!(log.distrs_per_temp, 3);
}

#[test]
fn every_sweep_adds_one_entry_to_every_base_column() {
    let mut log: ModelResults<f32> = ModelResults::new(0, 1);
    for n in 1..=5u32 {
        log.record(
            n as f32,
            -(n as f32),
            0.5,
            0.25,
            ClusterDistribution::singleton(n, 1),
            ClusterDistribution::new(),
        );
        assert_eq!(log.len(), n);
        assert_eq!(log.temp.len(), n as usize);
        assert_eq!(log.int_energy.len(), n as usize);
        assert_eq!(log.heat_capacity.len(), n as usize);
        assert_eq!(log.acceptance_rate.len(), n as usize);
        assert_eq!(log.distr_0.len(), n as usize);
        assert_eq!(log.distr_1.len(), n as usize);
        assert_eq!(log.entropy.len(), 0);
        assert_eq!(log.free_energy.len(), 0);
    }
    assert_eq!(log.temp, vec![1.0, 2.0, 3.0, 4.0, 5.0]);
    assert_eq!(log.int_energy, vec![-1.0, -2.0, -3.0, -4.0, -5.0]);
    assert_eq!(log.distr_0[2].count(3), 1);
    log.do_data_analysis(0.0, trapezoid, helmholtz);
    assert_eq!(log.entropy.len(), 5);
    assert_eq!(log.free_energy.len(), 5);
    assert_eq!(log.temp.len(), 5);
}

#[test]
fn single_pushes_touch_one_column_each() {
    let mut log: ModelResults<f32> = ModelResults::new(4, 2);
    log.push_temp(1.5);
    assert_eq!((log.temp.len(), log.int_energy.len()), (1, 0));
    log.push_int_energy(-2.0);
    log.push_heat_capacity(0.75);
    log.push_acceptance_rate(0.5);
    log.push_distr_0(ClusterDistribution::singleton(2, 9));
    log.push_distr_1(ClusterDistribution::singleton(3, 8));
    assert_eq!(log.temp, vec![1.5]);
    assert_eq!(log.int_energy, vec![-2.0]);
    assert_eq!(log.heat_capacity, vec![0.75]);
    assert_eq!(log.acceptance_rate, vec![0.5]);
    assert_eq!(log.distr_0[0].count(2), 9);
    assert_eq!(log.distr_1[0].count(3), 8);
    assert_eq!(log.entropy.len(), 0);
    assert_eq!(log.len(), 1);
}

#[test]
fn entropy_is_the_cumulative_trapezoid_over_the_ladder() {
    let mut log = log_of(&[(2.0, 0.0, 1.0, 0.5), (1.0, 0.0, 2.0, 0.5)]);
    log.do_data_analysis(0.5, trapezoid, helmholtz);
    assert_eq!(log.entropy, vec![0.5, -0.75]);
}

#[test]
fn free_energy_is_internal_energy_less_temperature_times_entropy() {
    let mut log = log_of(&[(2.0, -3.0, 1.0, 0.5), (1.0, -4.0, 2.0, 0.5)]);
    log.do_data_analysis(0.5, trapezoid, helmholtz);
    assert_eq!(log.free_energy, vec![-4.0, -3.25]);
}

#[test]
fn an_ascending_ladder_integrates_upwards() {
    let mut log = log_of(&[(1.0, 0.0, 2.0, 0.5), (2.0, 0.0, 1.0, 0.5), (4.0, 0.0, 2.0, 0.5)]);
    log.do_data_analysis(0.0, trapezoid, helmholtz);
    assert_eq!(log.entropy, vec![0.0, 1.25, 2.25]);
}

#[test]
fn a_degenerate_point_carries_the_entropy_forward() {
    let mut log = log_of(&[
        (3.0, 0.0, 3.0, 0.5),
        (2.0, 0.0, f32::NAN, 0.5),
        (1.0, 0.0, 2.0, 0.5),
        (0.5, 0.0, 1.0, 0.5),
    ]);
    log.do_data_analysis(0.5, trapezoid, helmholtz);
    // Both trapezoids that touch the second point are not finite.
    assert_eq!(log.entropy[0], 0.5);
    assert_eq!(log.entropy[1].to_bits(), log.entropy[0].to_bits());
    assert_eq!(log.entropy[2].to_bits(), log.entropy[1].to_bits());
    assert_eq!(log.entropy[3], 0.5 + (0.5 - 1.0) * 2.0);
    assert!(log.entropy.iter().all(|s| s.is_finite()));
}

#[test]
fn a_zero_temperature_is_a_degenerate_point() {
    let mut log = log_of(&[(1.0, 0.0, 1.0, 0.5), (0.0, 0.0, 1.0, 0.5)]);
    log.do_data_analysis(0.25, trapezoid, helmholtz);
    assert_eq!(log.entropy, vec![0.25, 0.25]);
}

#[test]
fn running_the_analysis_again_gives_the_same_columns() {
    let mut log = log_of(&[
        (2.5, -1.0, 0.3, 0.5),
        (2.0, -1.5, 0.7, 0.4),
        (1.5, -1.75, 1.9, 0.3),
        (1.0, -2.0, 0.2, 0.1),
    ]);
    log.do_data_analysis(0.6931472, trapezoid, helmholtz);
    let entropy = log.entropy.clone();
    let free_energy = log.free_energy.clone();
    log.do_data_analysis(0.6931472, trapezoid, helmholtz);
    assert_eq!(log.entropy, entropy);
    assert_eq!(log.free_energy, free_energy);
    assert_eq!(log.entropy.len(), 4);
    assert_eq!(log.free_energy.len(), 4);
}

#[test]
fn the_analysis_overwrites_what_an_earlier_one_left() {
    let mut log = log_of(&[(2.0, 0.0, 1.0, 0.5), (1.0, 0.0, 2.0, 0.5)]);
    log.do_data_analysis(0.5, trapezoid, helmholtz);
    log.do_data_analysis(1.5, trapezoid, helmholtz);
    assert_eq!(log.entropy, vec![1.5, 0.25]);
    assert_eq!(log.free_energy, vec![-3.0, -0.25]);
}

#[test]
fn a_sweep_after_the_analysis_empties_the_derived_columns() {
    let mut log = log_of(&[(2.0, 0.0, 1.0, 0.5), (1.0, 0.0, 2.0, 0.5)]);
    log.do_data_analysis(0.5, trapezoid, helmholtz);
    log.record(0.5, 0.0, 1.0, 0.5, ClusterDistribution::new(), ClusterDistribution::new());
    assert_eq!(log.len(), 3);
    assert_eq!(log.entropy.len(), 0);
    assert_eq!(log.free_energy.len(), 0);
    log.do_data_analysis(0.5, trapezoid, helmholtz);
    assert_eq!(log.entropy, vec![0.5, -0.75, -1.75]);
}

#[test]
fn the_analysis_of_an_empty_log_leaves_the_derived_columns_empty() {
    let mut log: ModelResults<f32> = ModelResults::new(4, 1);
    log.do_data_analysis(0.5, trapezoid, helmholtz);
    assert_eq!(log.entropy.len(), 0);
    assert_eq!(log.free_energy.len(), 0);
}

#[test]
fn the_analysis_of_one_temperature_starts_at_the_ideal_entropy() {
    let mut log = log_of(&[(2.0, -3.0, 1.0, 0.5)]);
    log.do_data_analysis(0.5, trapezoid, helmholtz);
    assert_eq!(log.entropy, vec![0.5]);
    assert_eq!(log.free_energy, vec![-4.0]);
}

#[test]
fn the_kernels_are_called_on_neighbouring_points_in_ladder_order() {
    let temp = vec![10i64, 20, 30];
    let heat = vec![1i64, 2, 3];
    let entropy = calc_entropy(&temp, &heat, 7, |p, t0, c0, t1, c1| {
        if c1 == 3 {
            None
        } else {
            Some(p * 1000 + t0 * 100 + c0 * 10 + t1 / 10 + c1)
        }
    });
    assert_eq!(entropy, vec![7, 7000 + 1000 + 10 + 2 + 2, 8014]);
    let free = calc_free_energy(&vec![1i64, 2, 3], &temp, &entropy, |u, t, s| u + t + s);
    assert_eq!(free, vec![18, 8036, 8047]);
}
