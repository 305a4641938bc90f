use wardian_state::discovery::{conventional_port_list, ports_in, rank_candidates, PortSource, MAX_CANDIDATES};

#[test]
fn a_declared_port_outranks_every_convention() {
    let ranked = rank_candidates(&[4444]);
    assert_eq!(ranked[0].port, 4444);
    assert_eq!(ranked[0].source, PortSource::Declared);
    assert_eq!(ranked[1].port, conventional_port_list()[0]);
}

#[test]
fn declaring_a_conventional_port_promotes_it_rather_than_repeating_it() {
    let ranked = rank_candidates(&[8080]);
    assert_eq!(ranked[0].port, 8080);
    assert_eq!(ranked[0].source, PortSource::Declared);
    assert_eq!(ranked.iter().filter(|candidate| candidate.port == 8080).count(), 1);
}

#[test]
fn the_conventional_list_alone_is_deduplicated_and_bounded() {
    let ranked = rank_candidates(&[]);
    assert_eq!(ranked.len(), conventional_port_list().len());
    assert!(ranked.len() <= MAX_CANDIDATES);
    assert!(ranked.iter().all(|candidate| candidate.source == PortSource::Conventional));
}

#[test]
fn a_workspace_declaring_many_ports_cannot_grow_the_sweep_without_bound() {
    let declared: Vec<u16> = (2000..2100).collect();
    assert_eq!(rank_candidates(&declared).len(), MAX_CANDIDATES);
}

#[test]
fn a_zero_port_is_not_a_candidate() {
    let ranked = rank_candidates(&[0]);
    assert!(ranked.iter().all(|candidate| candidate.port != 0));
}

#[test]
fn reads_a_port_out_of_every_shape_a_config_writes_it_in() {
    assert_eq!(ports_in("  \"dev\": \"vite --port 5199\""), vec![5199]);
    assert_eq!(ports_in("next dev --port=3005"), vec![3005]);
    assert_eq!(ports_in("server: { port: 4173 }"), vec![4173]);
    assert_eq!(ports_in("PORT=8123"), vec![8123]);
    assert_eq!(ports_in("\"port\": \"9001\""), vec![9001]);
}

#[test]
fn the_same_port_declared_twice_is_one_candidate() {
    assert_eq!(ports_in("--port 5173\nport: 5173"), vec![5173]);
}

#[test]
fn a_privileged_or_impossible_port_is_not_read_as_a_declaration() {
    assert!(ports_in("port: 80").is_empty());
    assert!(ports_in("port: 443").is_empty());
    assert!(ports_in("port: 99999").is_empty());
    assert!(ports_in("port: 0").is_empty());
}

#[test]
fn the_word_port_without_a_number_is_not_a_declaration() {
    assert!(ports_in("this transport supports many ports").is_empty());
    assert!(ports_in("import { port } from './config'").is_empty());
    assert!(ports_in("reportingEnabled: true").is_empty());
}

#[test]
fn matching_is_case_insensitive_across_the_spellings_configs_use() {
    assert_eq!(ports_in("PORT=3000"), vec![3000]);
    assert_eq!(ports_in("Port: 3000"), vec![3000]);
    assert_eq!(ports_in("serverPort = 3000"), vec![3000]);
}

#[test]
fn a_long_declaration_still_ranks_declared_first_without_repeats() {
    let mut declared: Vec<u16> = (2000..2100).collect();
    declared.insert(0, 0);
    declared.push(2000);
    let ranked = rank_candidates(&declared);
    assert_eq!(ranked.len(), MAX_CANDIDATES);
    assert!(ranked.iter().all(|c| c.port != 0 && c.source == PortSource::Declared));
    let small = rank_candidates(&[3000, 9000, 3000]);
    assert_eq!(small[0].port, 3000);
    assert_eq!(small[1].port, 9000);
    assert!(small[2..].iter().all(|c| c.source == PortSource::Conventional && c.port != 3000));
    let mut ports: Vec<u16> = small.iter().map(|c| c.port).collect();
    ports.sort();
    ports.dedup();
    assert_eq!(ports.len(), small.len());
}

#[test]
fn declared_ports_keep_the_order_of_their_first_declaration() {
    assert_eq!(ports_in("port=4000 PORT: 3000 port 4000 Port:5000"), vec![4000, 3000, 5000]);
    assert_eq!(ports_in("port 80 port 8080 port 80 port 8080"), vec![8080]);
    assert!(ports_in("reportingEnabled: true").is_empty());
}
