use h2m_cache::pipeline::{apply_resolution, gather_records, select_candidates, Candidate, HostEntry, Resolution};
use h2m_cache::record::ServerInfo;

fn info(hostname: &str, ip: &str, port: u16, game: &str) -> ServerInfo {
    ServerInfo {
        hostname: hostname.to_string(),
        ip: ip.to_string(),
        port,
        game: game.to_string(),
    }
}

fn host(ip: &str, servers: Vec<ServerInfo>) -> HostEntry {
    HostEntry {
        ip_address: ip.to_string(),
        webfront_url: format!("http://{ip}:1624"),
        servers,
    }
}

#[test]
fn one_failed_lookup_of_three_leaves_two_records() {
    let servers = vec![
        info("a", "1.1.1.1", 1, "H2M"),
        info("b", "2.2.2.2", 2, "H2M"),
        info("c", "3.3.3.3", 3, "H2M"),
    ];
    let regions = vec![Some("US".to_string()), None, Some("EU".to_string())];
    let out = gather_records(servers, regions);
    assert_eq!(out.len(), 2);
    assert_eq!(out[0].hostname, "a");
    assert_eq!(out[0].region, "US");
    assert_eq!(out[1].hostname, "c");
    assert_eq!(out[1].region, "EU");
    assert!(out.iter().all(|r| r.hostname != "b"));
}

#[test]
fn all_lookups_failing_gives_no_records() {
    let out = gather_records(vec![info("a", "1", 1, "H2M")], vec![None]);
    assert!(out.is_empty());
    assert!(gather_records(Vec::new(), Vec::new()).is_empty());
}

#[test]
fn other_games_are_never_candidates() {
    let hosts = vec![
        host("9.9.9.9", vec![info("a", "1.1.1.1", 1, "H2M"), info("b", "2.2.2.2", 2, "IW4")]),
        host("8.8.8.8", vec![]),
        host("7.7.7.7", vec![info("c", "3.3.3.3", 3, "H2M")]),
    ];
    let cands = select_candidates(&hosts, "H2M");
    assert_eq!(cands.len(), 2);
    assert_eq!(cands[0].server.hostname, "a");
    assert_eq!(cands[0].host_ip, "9.9.9.9");
    assert_eq!(cands[0].webfront_url, "http://9.9.9.9:1624");
    assert_eq!(cands[1].server.hostname, "c");
    assert_eq!(cands[1].host_ip, "7.7.7.7");
    assert!(cands.iter().all(|c| c.server.game == "H2M"));
    assert!(select_candidates(&hosts, "T6").is_empty());
}

fn cand() -> Candidate {
    Candidate {
        server: info("a", "127.0.0.1", 27016, "H2M"),
        host_ip: "5.5.5.5".to_string(),
        webfront_url: "http://5.5.5.5".to_string(),
    }
}

#[test]
fn resolution_outcomes() {
    let same = apply_resolution(cand(), Resolution::Unchanged).unwrap();
    assert_eq!(same.ip, "127.0.0.1");
    let moved = apply_resolution(cand(), Resolution::Modified("5.5.5.5".to_string())).unwrap();
    assert_eq!(moved.ip, "5.5.5.5");
    assert_eq!(moved.port, 27016);
    assert_eq!(moved.hostname, "a");
    assert!(apply_resolution(cand(), Resolution::Failed).is_none());
}
