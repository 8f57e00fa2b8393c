use thermo_online::csv::{csv_document, CsvRow};
use thermo_online::distribution::ClusterDistribution;
use thermo_online::json::{json_document, Sample, Share};
use thermo_online::params::{make_model_params, ModelParams};
use thermo_online::results::ModelResults;

const HEADER: &str = "This file was generated as output to Thermodynamic Models https://max-kay.github.io/thermo-online/\n\
All extensive variable are divided by the number of lattice sites.\n\
Code for website: https://github.com/max-kay/thermo-online\n\
Rust library used for the simulation: https://github.com/max-kay/phases\n\
temperature,internal_energy,heat_capacity,acceptance_rate,entropy,free_energy\n";

fn show(x: f32) -> String {
    format!("{}", x)
}

fn show_share(count: u32, samples: u32) -> String {
    format!("{}", count as f32 / samples as f32)
}

fn helmholtz(u: f32, t: f32, s: f32) -> f32 {
    u - t * s
}

fn trapezoid(previous: f32, t0: f32, c0: f32, t1: f32, c1: f32) -> Option<f32> {
    let avg = (c1 / t1 + c0 / t0) / 2.0;
    if avg.is_finite() {
        Some(previous + (t1 - t0) * avg)
    } else {
        None
    }
}

fn from_pairs(pairs: &[(u32, u32)]) -> ClusterDistribution {
    let mut d = ClusterDistribution::new();
    for &(size, count) in pairs {
        d.combine(&ClusterDistribution::singleton(size, count));
    }
    d
}

fn text(bytes: Vec<u8>) -> String {
    String::from_utf8(bytes).unwrap()
}

#[test]
fn a_table_without_rows_is_its_opening_lines() {
    assert_eq!(text(csv_document(&Vec::new())), HEADER);
}

#[test]
fn every_value_of_a_row_is_followed_by_a_comma() {
    let row = |n: u32| CsvRow {
        temperature: format!("t{}", n),
        internal_energy: format!("u{}", n),
        heat_capacity: format!("c{}", n),
        acceptance_rate: format!("a{}", n),
        entropy: format!("s{}", n),
        free_energy: format!("f{}", n),
    };
    let table = text(csv_document(&vec![row(1), row(2)]));
    assert_eq!(table, format!("{}t1,u1,c1,a1,s1,f1,\nt2,u2,c2,a2,s2,f2,\n", HEADER));
}

#[test]
fn the_table_of_a_log_has_one_line_per_temperature() {
    let mut log: ModelResults<f32> = ModelResults::new(2, 1);
    log.record(2.0, -3.0, 1.0, 0.5, ClusterDistribution::new(), ClusterDistribution::new());
    log.record(1.0, -4.0, 2.0, 0.125, ClusterDistribution::new(), ClusterDistribution::new());
    log.do_data_analysis(0.5, trapezoid, helmholtz);
    let table = text(log.make_csv_buffer(show));
    assert_eq!(table, format!("{}2,-3,1,0.5,0.5,-4,\n1,-4,2,0.125,-0.75,-3.25,\n", HEADER));
}

#[test]
fn values_of_the_table_parse_back_to_what_was_stored() {
    let mut log: ModelResults<f32> = ModelResults::new(3, 1);
    let e = ClusterDistribution::new;
    log.record(2.7182817, -1.0e-7, 3.4028235e38, 0.33333334, e(), e());
    log.record(0.1, -123456.79, 1.1754944e-38, 1.0, e(), e());
    log.record(1.5, f32::MIN_POSITIVE, 0.0, 0.0, e(), e());
    log.do_data_analysis(0.6931472, trapezoid, helmholtz);
    let table = text(log.make_csv_buffer(show));
    let lines: Vec<&str> = table.lines().skip(5).collect();
    assert_eq!(lines.len(), 3);
    for (i, line) in lines.iter().enumerate() {
        let cells: Vec<&str> = line.split(',').collect();
        assert_eq!(cells.len(), 7);
        assert_eq!(cells[6], "");
        let stored = [
            log.temp[i],
            log.int_energy[i],
            log.heat_capacity[i],
            log.acceptance_rate[i],
            log.entropy[i],
            log.free_energy[i],
        ];
        for (cell, value) in cells.iter().zip(stored.iter()) {
            let parsed: f32 = cell.parse().unwrap();
            assert_eq!(parsed.to_bits(), value.to_bits());
        }
    }
}

#[test]
fn the_summary_has_one_line_per_setting() {
    let params = ModelParams {
        size: 64,
        method: String::from("move_vacancy"),
        energies: String::from("{AA: -1, AB: 0.5, BB: 2}"),
        concentration_a: show(0.25),
        concentration_b: show(0.75),
        temp_steps: 40,
        start_temp: show(5.0),
        end_temp: show(0.1),
        equilibrium_steps: 1000,
        measurement_steps: 4294967295,
    };
    assert_eq!(
        text(make_model_params(&params)),
        "Model Size: 64\n\
         Method: move_vacancy\n\
         Energies: {AA: -1, AB: 0.5, BB: 2}\n\
         Concentration A: 0.25, Concentration B: 0.75\n\
         Temperature Steps: 40\n\
         Start Temperature: 5, End Temperature: 0.1\n\
         Steps for Equilibrium: 1000\n\
         Steps for Measurement: 4294967295\n"
    );
}

fn share(size: u32, frequency: &str) -> Share {
    Share { size, frequency: String::from(frequency) }
}

#[test]
fn the_document_lists_both_species_sample_by_sample() {
    let first = vec![
        Sample { temperature: String::from("2"), shares: vec![share(1, "0.5"), share(12, "3")] },
        Sample { temperature: String::from("1.5"), shares: vec![share(4, "1")] },
    ];
    let second = vec![Sample { temperature: String::from("2"), shares: vec![share(7, "0.25")] }];
    let expected = "[\n\
\x20 {\n\
\x20   \"atom\": \"A\",\n\
\x20   \"distributions\": [\n\
\x20   {\n\
\x20       \"temperature\": 2,\n\
\x20       \"distribution\": {\n\
\x20         \"1\": 0.5,\n\
\x20         \"12\": 3\n\
\x20     }\n\
\x20   },\n\
\x20   {\n\
\x20       \"temperature\": 1.5,\n\
\x20       \"distribution\": {\n\
\x20         \"4\": 1\n\
\x20     }\n\
\x20   }\n\
\x20   ]\n\
\x20 },\n\
\x20 {\n\
\x20   \"atom\": \"B\",\n\
\x20   \"distributions\": [\n\
\x20   {\n\
\x20       \"temperature\": 2,\n\
\x20       \"distribution\": {\n\
\x20         \"7\": 0.25\n\
\x20     }\n\
\x20   }\n\
\x20   ]\n\
\x20 }\n\
]\n";
    assert_eq!(text(json_document(&first, &second)), expected);
}

#[test]
fn an_empty_distribution_is_the_empty_object() {
    let first = vec![Sample { temperature: String::from("2"), shares: Vec::new() }];
    let expected = "[\n\
\x20 {\n\
\x20   \"atom\": \"A\",\n\
\x20   \"distributions\": [\n\
\x20   {\n\
\x20       \"temperature\": 2,\n\
\x20       \"distribution\": {\n\
\x20     }\n\
\x20   }\n\
\x20   ]\n\
\x20 },\n\
\x20 {\n\
\x20   \"atom\": \"B\",\n\
\x20   \"distributions\": [\n\
\x20   ]\n\
\x20 }\n\
]\n";
    assert_eq!(text(json_document(&first, &Vec::new())), expected);
}

#[test]
fn a_log_without_temperatures_gives_two_empty_lists() {
    let log: ModelResults<f32> = ModelResults::new(4, 1);
    let document = text(log.make_json_buffer(show, show_share));
    let squeezed: String = document.chars().filter(|c| !c.is_whitespace()).collect();
    assert_eq!(squeezed, "[{\"atom\":\"A\",\"distributions\":[]},{\"atom\":\"B\",\"distributions\":[]}]");
}

#[test]
fn brackets_and_braces_of_the_document_are_balanced() {
    let mut log: ModelResults<f32> = ModelResults::new(3, 2);
    log.record(2.0, 0.0, 0.0, 0.0, ClusterDistribution::new(), from_pairs(&[(2, 4)]));
    log.record(1.0, 0.0, 0.0, 0.0, from_pairs(&[(1, 1), (2, 2)]), ClusterDistribution::new());
    let document = text(log.make_json_buffer(show, show_share));
    let mut open: Vec<char> = Vec::new();
    for c in document.chars() {
        match c {
            '[' | '{' => open.push(c),
            ']' => assert_eq!(open.pop(), Some('[')),
            '}' => assert_eq!(open.pop(), Some('{')),
            _ => {}
        }
    }
    assert!(open.is_empty());
    let squeezed: String = document.chars().filter(|c| !c.is_whitespace()).collect();
    assert_eq!(
        squeezed,
        "[{\"atom\":\"A\",\"distributions\":[{\"temperature\":2,\"distribution\":{}},\
{\"temperature\":1,\"distribution\":{\"1\":0.5,\"2\":1}}]},\
{\"atom\":\"B\",\"distributions\":[{\"temperature\":2,\"distribution\":{\"2\":2}},\
{\"temperature\":1,\"distribution\":{}}]}]"
    );
}

#[test]
fn counts_are_turned_into_frequencies_only_in_the_text() {
    let mut log: ModelResults<f32> = ModelResults::new(2, 4);
    log.record(2.0, 0.0, 0.0, 0.0, from_pairs(&[(3, 2), (1, 6)]), from_pairs(&[(2, 4)]));
    log.record(1.0, 0.0, 0.0, 0.0, from_pairs(&[(10, 1)]), from_pairs(&[(5, 3), (6, 400)]));
    let document = text(log.make_json_buffer(show, show_share));
    let expected = "[\n\
\x20 {\n\
\x20   \"atom\": \"A\",\n\
\x20   \"distributions\": [\n\
\x20   {\n\
\x20       \"temperature\": 2,\n\
\x20       \"distribution\": {\n\
\x20         \"1\": 1.5,\n\
\x20         \"3\": 0.5\n\
\x20     }\n\
\x20   },\n\
\x20   {\n\
\x20       \"temperature\": 1,\n\
\x20       \"distribution\": {\n\
\x20         \"10\": 0.25\n\
\x20     }\n\
\x20   }\n\
\x20   ]\n\
\x20 },\n\
\x20 {\n\
\x20   \"atom\": \"B\",\n\
\x20   \"distributions\": [\n\
\x20   {\n\
\x20       \"temperature\": 2,\n\
\x20       \"distribution\": {\n\
\x20         \"2\": 1\n\
\x20     }\n\
\x20   },\n\
\x20   {\n\
\x20       \"temperature\": 1,\n\
\x20       \"distribution\": {\n\
\x20         \"5\": 0.75,\n\
\x20         \"6\": 100\n\
\x20     }\n\
\x20   }\n\
\x20   ]\n\
\x20 }\n\
]\n";
    assert_eq!(document, expected);
    assert_eq!(log.distr_0[0].count(3), 2);
    assert_eq!(log.distr_1[1].count(6), 400);
}
