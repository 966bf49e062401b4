use h2m_cache::cache::Cache;
use h2m_cache::record::{ServerCache, ServerInfo};
use h2m_cache::time::Timestamp;

fn rec(hostname: &str, ip: &str, port: u16, region: &str) -> ServerCache {
    ServerCache {
        hostname: hostname.to_string(),
        ip: ip.to_string(),
        port,
        region: region.to_string(),
    }
}

fn info(hostname: &str, ip: &str, port: u16, game: &str) -> ServerInfo {
    ServerInfo {
        hostname: hostname.to_string(),
        ip: ip.to_string(),
        port,
        game: game.to_string(),
    }
}

fn at(secs: u64) -> Timestamp {
    Timestamp { secs, nanos: 0 }
}

fn lookup(c: &Cache, host: &str) -> Option<String> {
    c.lookup(&host.to_string())
}

fn region(c: &Cache, ip: &str) -> Option<String> {
    c.region_of(&ip.to_string())
}

#[test]
fn record_id_joins_ip_and_port() {
    assert_eq!(rec("a", "1.2.3.4", 27016, "US").get_id(), "1.2.3.4:27016");
    assert_eq!(rec("a", "10.0.0.1", 0, "US").get_id(), "10.0.0.1:0");
    assert_eq!(rec("a", "10.0.0.1", 65535, "US").get_id(), "10.0.0.1:65535");
    assert_eq!(info("b", "5.6.7.8", 9, "H2M").get_id(), "5.6.7.8:9");
}

#[test]
fn record_from_server_info() {
    let s = info("Host", "1.1.1.1", 2000, "H2M");
    let r = ServerCache::from(&s, "DE".to_string());
    assert_eq!(r.hostname, "Host");
    assert_eq!(r.ip, "1.1.1.1");
    assert_eq!(r.port, 2000);
    assert_eq!(r.region, "DE");
    let c = ServerCache::consume(s, "FR".to_string());
    assert_eq!(c.hostname, "Host");
    assert_eq!(c.region, "FR");
}

#[test]
fn from_indexes_every_unique_record() {
    let records = vec![
        rec("alpha", "1.1.1.1", 1, "US"),
        rec("beta", "2.2.2.2", 2, "EU"),
        rec("gamma", "3.3.3.3", 3, "AS"),
    ];
    let c = Cache::from(records, at(100));
    assert_eq!(c.len(), 3);
    assert_eq!(c.host_count(), 3);
    assert_eq!(lookup(&c, "alpha").as_deref(), Some("1.1.1.1:1"));
    assert_eq!(lookup(&c, "beta").as_deref(), Some("2.2.2.2:2"));
    assert_eq!(lookup(&c, "gamma").as_deref(), Some("3.3.3.3:3"));
    assert_eq!(region(&c, "2.2.2.2").as_deref(), Some("EU"));
    assert_eq!(lookup(&c, "delta"), None);
    assert_eq!(region(&c, "9.9.9.9"), None);
    assert_eq!(c.created(), at(100));
}

#[test]
fn from_empty_records() {
    let c = Cache::from(Vec::new(), at(0));
    assert_eq!(c.len(), 0);
    assert_eq!(c.host_count(), 0);
    assert_eq!(lookup(&c, ""), None);
}

#[test]
fn duplicate_hostname_last_record_wins() {
    let records = vec![
        rec("same", "1.1.1.1", 1, "US"),
        rec("other", "2.2.2.2", 2, "EU"),
        rec("same", "3.3.3.3", 3, "AS"),
    ];
    let c = Cache::from(records, at(5));
    assert_eq!(c.len(), 3);
    assert_eq!(c.host_count(), 2);
    assert_eq!(lookup(&c, "same").as_deref(), Some("3.3.3.3:3"));
    assert_eq!(lookup(&c, "other").as_deref(), Some("2.2.2.2:2"));
}

#[test]
fn duplicate_ip_last_region_wins() {
    let records = vec![rec("a", "1.1.1.1", 1, "US"), rec("b", "1.1.1.1", 2, "CA")];
    let c = Cache::from(records, at(5));
    assert_eq!(region(&c, "1.1.1.1").as_deref(), Some("CA"));
}

#[test]
fn update_with_server_info_adds_one_record() {
    let mut c = Cache::from(vec![rec("alpha", "1.1.1.1", 1, "US")], at(10));
    c.update_cache_with(&info("beta", "2.2.2.2", 2, "H2M"), "EU".to_string());
    assert_eq!(c.len(), 2);
    assert_eq!(c.host_count(), 2);
    assert_eq!(lookup(&c, "beta").as_deref(), Some("2.2.2.2:2"));
    assert_eq!(region(&c, "2.2.2.2").as_deref(), Some("EU"));
    assert_eq!(lookup(&c, "alpha").as_deref(), Some("1.1.1.1:1"));
    assert_eq!(region(&c, "1.1.1.1").as_deref(), Some("US"));
    let last = c.record_at(1);
    assert_eq!(last.hostname, "beta");
    assert_eq!(last.region, "EU");
    assert_eq!(c.created(), at(10));
}

#[test]
fn update_with_record_adds_one_record() {
    let mut c = Cache::from(vec![rec("alpha", "1.1.1.1", 1, "US")], at(10));
    c.update_cache_with_consume(rec("alpha", "4.4.4.4", 4, "BR"));
    assert_eq!(c.len(), 2);
    assert_eq!(c.host_count(), 1);
    assert_eq!(lookup(&c, "alpha").as_deref(), Some("4.4.4.4:4"));
    assert_eq!(region(&c, "4.4.4.4").as_deref(), Some("BR"));
    assert_eq!(region(&c, "1.1.1.1").as_deref(), Some("US"));
}

#[test]
fn records_vec_keeps_order() {
    let c = Cache::from(vec![rec("a", "1", 1, "X"), rec("b", "2", 2, "Y")], at(1));
    let v = c.records_vec();
    assert_eq!(v.len(), 2);
    assert_eq!(v[0].hostname, "a");
    assert_eq!(v[1].hostname, "b");
}
