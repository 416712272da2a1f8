use sentinel::ranking::TOP_PROCESSES;
use sentinel::{get_processes, top_processes, AppState, CpuUsage, ProcessInfo, SystemSnapshot};

fn process(pid: u32, name: &str, cpu: f32, memory: u64) -> ProcessInfo {
    ProcessInfo {
        pid,
        name: name.to_string(),
        cpu_usage: CpuUsage::from_bits(cpu.to_bits()),
        memory_usage: memory,
    }
}

fn pids(listing: &[ProcessInfo]) -> Vec<u32> {
    listing.iter().map(|p| p.pid).collect()
}

fn percent(p: &ProcessInfo) -> f32 {
    f32::from_bits(p.cpu_usage.to_bits())
}

fn snapshot(cpu: f32, processes: Vec<ProcessInfo>) -> SystemSnapshot {
    SystemSnapshot {
        global_cpu_usage: CpuUsage::from_bits(cpu.to_bits()),
        total_memory: 800,
        used_memory: 300,
        processes,
    }
}

fn empty_state() -> AppState {
    AppState::new(snapshot(0.0, Vec::new()))
}

#[test]
fn listing_holds_ten_at_most() {
    assert_eq!(TOP_PROCESSES, 10);
}

#[test]
fn empty_table_gives_empty_listing() {
    assert_eq!(top_processes(&Vec::new()), Vec::new());
    let mut state = empty_state();
    assert_eq!(get_processes(&mut state, snapshot(0.0, Vec::new())), Vec::new());
}

#[test]
fn single_process_is_listed_as_it_is() {
    let table = vec![process(7, "init", 1.5, 4096)];
    assert_eq!(top_processes(&table), vec![process(7, "init", 1.5, 4096)]);
}

#[test]
fn listing_is_ordered_from_the_busiest_down() {
    let table = vec![
        process(1, "a", 3.0, 10),
        process(2, "b", 50.0, 20),
        process(3, "c", 0.5, 30),
        process(4, "d", 99.9, 40),
        process(5, "e", 12.0, 50),
    ];
    let listing = top_processes(&table);
    assert_eq!(pids(&listing), vec![4, 2, 5, 1, 3]);
    assert_eq!(listing[0], process(4, "d", 99.9, 40));
    assert_eq!(listing[4], process(3, "c", 0.5, 30));
}

#[test]
fn listing_projects_every_field() {
    let table = vec![process(10, "worker", 2.0, 111), process(20, "server", 8.0, 222)];
    let listing = top_processes(&table);
    assert_eq!(listing[0].pid, 20);
    assert_eq!(listing[0].name, "server");
    assert_eq!(percent(&listing[0]), 8.0);
    assert_eq!(listing[0].memory_usage, 222);
    assert_eq!(listing[1].pid, 10);
    assert_eq!(listing[1].name, "worker");
    assert_eq!(percent(&listing[1]), 2.0);
    assert_eq!(listing[1].memory_usage, 111);
}

#[test]
fn listing_is_cut_to_the_ten_busiest() {
    let mut table = Vec::new();
    for pid in 1..=25u32 {
        table.push(process(pid, "p", pid as f32, 0));
    }
    let listing = top_processes(&table);
    assert_eq!(listing.len(), 10);
    assert_eq!(pids(&listing), vec![25, 24, 23, 22, 21, 20, 19, 18, 17, 16]);
}

#[test]
fn table_of_exactly_ten_is_listed_whole() {
    let mut table = Vec::new();
    for pid in 1..=10u32 {
        table.push(process(pid, "p", (pid % 4) as f32, 0));
    }
    let listing = top_processes(&table);
    assert_eq!(listing.len(), 10);
    assert_eq!(pids(&listing), vec![3, 7, 2, 6, 10, 1, 5, 9, 4, 8]);
}

#[test]
fn table_of_eleven_loses_its_least_busy() {
    let mut table = Vec::new();
    for pid in 1..=11u32 {
        table.push(process(pid, "p", (20 - pid) as f32, 0));
    }
    table.swap(0, 10);
    let listing = top_processes(&table);
    assert_eq!(pids(&listing), vec![1, 2, 3, 4, 5, 6, 7, 8, 9, 10]);
}

#[test]
fn listing_never_rises() {
    let mut table = Vec::new();
    let mut seed: u32 = 12345;
    for pid in 0..300u32 {
        seed = seed.wrapping_mul(1_664_525).wrapping_add(1_013_904_223);
        table.push(process(pid, "p", (seed >> 8) as f32 / 167_772.16, 0));
    }
    let listing = top_processes(&table);
    assert_eq!(listing.len(), 10);
    for pair in listing.windows(2) {
        assert!(percent(&pair[0]) >= percent(&pair[1]));
    }
    let mut all: Vec<f32> = table.iter().map(percent).collect();
    all.sort_by(|a, b| b.partial_cmp(a).unwrap());
    let listed: Vec<f32> = listing.iter().map(percent).collect();
    assert_eq!(listed, all[..10].to_vec());
}

#[test]
fn equal_samples_keep_table_order() {
    let table = vec![
        process(31, "x", 5.0, 0),
        process(12, "y", 9.0, 0),
        process(77, "z", 5.0, 0),
        process(5, "w", 9.0, 0),
        process(40, "v", 5.0, 0),
    ];
    assert_eq!(pids(&top_processes(&table)), vec![12, 5, 31, 77, 40]);
}

#[test]
fn all_idle_processes_stay_in_table_order() {
    let mut table = Vec::new();
    for pid in [9u32, 3, 7, 1, 8, 2, 6, 4, 5, 10, 12, 11] {
        table.push(process(pid, "idle", 0.0, 0));
    }
    assert_eq!(pids(&top_processes(&table)), vec![9, 3, 7, 1, 8, 2, 6, 4, 5, 10]);
}

#[test]
fn the_two_zeros_rank_as_equal() {
    let table = vec![process(1, "a", -0.0, 0), process(2, "b", 0.0, 0), process(3, "c", -0.0, 0)];
    assert_eq!(pids(&top_processes(&table)), vec![1, 2, 3]);
}

#[test]
fn a_nan_ties_with_its_neighbours() {
    // A NaN is below nothing and nothing is below it: it stays where the
    // table has it, and an entry that comes after it does not pass it.
    let table = vec![process(1, "a", 1.0, 0), process(2, "n", f32::NAN, 0), process(3, "b", 2.0, 0)];
    assert_eq!(pids(&top_processes(&table)), vec![1, 2, 3]);
    let table = vec![process(1, "a", 1.0, 0), process(3, "b", 2.0, 0), process(2, "n", f32::NAN, 0)];
    assert_eq!(pids(&top_processes(&table)), vec![3, 1, 2]);
    let table = vec![process(2, "n", f32::NAN, 0), process(1, "a", 1.0, 0), process(3, "b", 2.0, 0)];
    assert_eq!(pids(&top_processes(&table)), vec![2, 3, 1]);
}

#[test]
fn only_nans_stay_in_table_order() {
    let table = vec![
        process(4, "a", f32::NAN, 0),
        process(2, "b", f32::from_bits(0xffc0_0000), 0),
        process(9, "c", f32::from_bits(0x7f80_0001), 0),
    ];
    assert_eq!(pids(&top_processes(&table)), vec![4, 2, 9]);
}

#[test]
fn listing_with_nans_has_no_rise_between_neighbours() {
    let mut table = Vec::new();
    let mut seed: u32 = 99;
    for pid in 0..40u32 {
        seed = seed.wrapping_mul(1_664_525).wrapping_add(1_013_904_223);
        let cpu = if seed % 5 == 0 { f32::NAN } else { (seed >> 20) as f32 };
        table.push(process(pid, "p", cpu, 0));
    }
    let listing = top_processes(&table);
    assert_eq!(listing.len(), 10);
    for pair in listing.windows(2) {
        assert!(!(percent(&pair[0]) < percent(&pair[1])));
    }
}

#[test]
fn infinite_samples_rank_at_the_ends() {
    let table = vec![
        process(1, "a", 10.0, 0),
        process(2, "b", f32::NEG_INFINITY, 0),
        process(3, "c", f32::INFINITY, 0),
        process(4, "d", -3.0, 0),
    ];
    assert_eq!(pids(&top_processes(&table)), vec![3, 1, 4, 2]);
}

#[test]
fn listing_leaves_the_table_as_it_was() {
    let table = vec![process(1, "a", 1.0, 5), process(2, "b", 2.0, 6)];
    let _ = top_processes(&table);
    assert_eq!(table, vec![process(1, "a", 1.0, 5), process(2, "b", 2.0, 6)]);
}

#[test]
fn get_processes_publishes_the_table_and_lists_it() {
    let mut state = empty_state();
    let table = vec![process(1, "a", 1.0, 5), process(2, "b", 2.0, 6), process(3, "c", 1.5, 7)];
    let listing = get_processes(&mut state, snapshot(0.0, table));
    assert_eq!(pids(&listing), vec![2, 3, 1]);
    assert_eq!(pids(&state.sys.processes), vec![1, 2, 3]);
    assert!(state.sys.has_process(3));
    assert!(!state.sys.has_process(4));
}

#[test]
fn get_processes_replaces_the_earlier_table() {
    let mut state = empty_state();
    let earlier = vec![process(1, "a", 1.0, 5), process(2, "b", 2.0, 6)];
    let _ = get_processes(&mut state, snapshot(0.0, earlier));
    let listing = get_processes(&mut state, snapshot(0.0, vec![process(9, "z", 1.0, 5)]));
    assert_eq!(pids(&listing), vec![9]);
    assert!(state.sys.has_process(9));
    assert!(!state.sys.has_process(1));
    assert!(!state.sys.has_process(2));
}

#[test]
fn get_processes_publishes_the_counters_and_leaves_the_history_alone() {
    let mut state = AppState::new(snapshot(33.0, Vec::new()));
    state.cpu_history.push(CpuUsage::from_bits(4.0f32.to_bits()));
    let before = state.cpu_history.to_vec();
    let refreshed = SystemSnapshot {
        global_cpu_usage: CpuUsage::from_bits(35.5f32.to_bits()),
        total_memory: 900,
        used_memory: 450,
        processes: vec![process(1, "a", 1.0, 5)],
    };
    let _ = get_processes(&mut state, refreshed);
    assert_eq!(state.sys, snapshot_with(35.5, 900, 450, vec![process(1, "a", 1.0, 5)]));
    assert_eq!(state.cpu_history.to_vec(), before);
}

fn snapshot_with(cpu: f32, total: u64, used: u64, processes: Vec<ProcessInfo>) -> SystemSnapshot {
    SystemSnapshot {
        global_cpu_usage: CpuUsage::from_bits(cpu.to_bits()),
        total_memory: total,
        used_memory: used,
        processes,
    }
}

#[test]
fn clone_copies_every_field() {
    let entry = process(55, "name with spaces", 42.5, 1 << 40);
    let copy = entry.clone();
    assert_eq!(copy, entry);
    assert_eq!(copy.name, "name with spaces");
}

#[test]
fn listing_of_a_short_table_is_a_rearrangement_of_it() {
    let table = vec![
        process(8, "h", 0.25, 1),
        process(3, "c", 75.0, 2),
        process(5, "e", 0.25, 3),
        process(1, "a", 12.5, 4),
        process(9, "i", 75.0, 5),
        process(2, "b", 0.0, 6),
    ];
    let listing = top_processes(&table);
    assert_eq!(listing.len(), table.len());
    let mut listed = pids(&listing);
    let mut given = pids(&table);
    listed.sort();
    given.sort();
    assert_eq!(listed, given);
    for entry in &listing {
        assert!(table.contains(entry));
    }
}

#[test]
fn ranking_agrees_with_a_stable_sort_by_falling_usage() {
    let mut seed: u32 = 2024;
    for round in 0..50u32 {
        let mut table = Vec::new();
        for pid in 0..(round * 3 + 1) {
            seed = seed.wrapping_mul(1_664_525).wrapping_add(1_013_904_223);
            // Few distinct samples, so that many entries tie.
            table.push(process(pid, "p", ((seed >> 16) % 7) as f32 * 12.5, 0));
        }
        let mut expected: Vec<(u32, f32)> = table.iter().map(|p| (p.pid, percent(p))).collect();
        expected.sort_by(|a, b| b.1.partial_cmp(&a.1).unwrap());
        expected.truncate(10);
        let listing = top_processes(&table);
        let listed: Vec<(u32, f32)> = listing.iter().map(|p| (p.pid, percent(p))).collect();
        assert_eq!(listed, expected);
    }
}
