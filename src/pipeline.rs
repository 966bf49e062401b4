use vstd::prelude::*;
use vstd::string::StringExecFns;
use crate::cache::views;
use crate::record::{record_of, InfoView, RecordView, ServerCache, ServerInfo};

verus! {

/// One entry of the directory service: a host, its address and web
/// endpoint, and the servers it advertises.
pub struct HostEntry {
    pub ip_address: String,
    pub webfront_url: String,
    pub servers: Vec<ServerInfo>,
}

pub struct HostView {
    pub ip: Seq<char>,
    pub webfront: Seq<char>,
    pub servers: Seq<InfoView>,
}

pub open spec fn info_views(v: Seq<ServerInfo>) -> Seq<InfoView> {
    v.map_values(|s: ServerInfo| s@)
}

impl View for HostEntry {
    type V = HostView;

    open spec fn view(&self) -> HostView {
        HostView { ip: self.ip_address@, webfront: self.webfront_url@, servers: info_views(self.servers@) }
    }
}

pub open spec fn host_views(v: Seq<HostEntry>) -> Seq<HostView> {
    v.map_values(|h: HostEntry| h@)
}

/// A server of the target game, with the host that advertised it: what
/// address resolution needs.
pub struct Candidate {
    pub server: ServerInfo,
    pub host_ip: String,
    pub webfront_url: String,
}

pub struct CandidateView {
    pub server: InfoView,
    pub host_ip: Seq<char>,
    pub webfront: Seq<char>,
}

impl View for Candidate {
    type V = CandidateView;

    open spec fn view(&self) -> CandidateView {
        CandidateView { server: self.server@, host_ip: self.host_ip@, webfront: self.webfront_url@ }
    }
}

pub open spec fn candidate_views(v: Seq<Candidate>) -> Seq<CandidateView> {
    v.map_values(|c: Candidate| c@)
}

/// The servers of one host that run `game`, in order, each with the host's
/// address and web endpoint.
pub open spec fn host_candidates(ip: Seq<char>, webfront: Seq<char>, servers: Seq<InfoView>, game: Seq<char>) -> Seq<CandidateView>
    decreases servers.len(),
{
    if servers.len() == 0 {
        Seq::empty()
    } else {
        let rest = host_candidates(ip, webfront, servers.drop_last(), game);
        if servers.last().game == game {
            rest.push(CandidateView { server: servers.last(), host_ip: ip, webfront })
        } else {
            rest
        }
    }
}

/// The candidates of all hosts, host after host.
pub open spec fn candidates_of(hosts: Seq<HostView>, game: Seq<char>) -> Seq<CandidateView>
    decreases hosts.len(),
{
    if hosts.len() == 0 {
        Seq::empty()
    } else {
        let h = hosts.last();
        candidates_of(hosts.drop_last(), game) + host_candidates(h.ip, h.webfront, h.servers, game)
    }
}

/// Picks, from the directory's answer, every advertised server whose game
/// is `game_id`; the others are dropped before any resolution or lookup.
pub fn select_candidates(hosts: &Vec<HostEntry>, game_id: &str) -> (r: Vec<Candidate>)
    ensures
        candidate_views(r@) == candidates_of(host_views(hosts@), game_id@),
{
    let ghost hv = host_views(hosts@);
    let game = String::from_str(game_id);
    let mut out: Vec<Candidate> = Vec::new();
    let mut i: usize = 0;
    while i < hosts.len()
        invariant
            0 <= i <= hosts.len(),
            hv == host_views(hosts@),
            game@ == game_id@,
            candidate_views(out@) == candidates_of(hv.take(i as int), game@),
        decreases hosts.len() - i,
    {
        let host = &hosts[i];
        let ghost h = host@;
        let ghost base = candidate_views(out@);
        let mut j: usize = 0;
        while j < host.servers.len()
            invariant
                0 <= j <= host.servers.len(),
                h == host@,
                candidate_views(out@) == base + host_candidates(h.ip, h.webfront, h.servers.take(j as int), game@),
            decreases host.servers.len() - j,
        {
            let server = &host.servers[j];
            proof {
                assert(h.servers.take(j + 1).drop_last() =~= h.servers.take(j as int));
                assert(h.servers.take(j + 1).last() == server@);
            }
            if server.game == game {
                let ghost prev = out@;
                let c = Candidate {
                    server: server.duplicate(),
                    host_ip: host.ip_address.clone(),
                    webfront_url: host.webfront_url.clone(),
                };
                out.push(c);
                proof {
                    assert(candidate_views(out@) =~= candidate_views(prev).push(c@));
                    assert(candidate_views(out@) =~= base + host_candidates(h.ip, h.webfront, h.servers.take(j + 1), game@));
                }
            }
            j = j + 1;
        }
        proof {
            assert(h.servers.take(j as int) =~= h.servers);
            assert(hv.take(i + 1).drop_last() =~= hv.take(i as int));
            assert(hv.take(i + 1).last() == h);
        }
        i = i + 1;
    }
    proof {
        assert(hv.take(i as int) =~= hv);
    }
    out
}

/// The outcome of resolving a server's display address.
pub enum Resolution {
    /// The advertised address stands.
    Unchanged,
    /// The host's address replaces it.
    Modified(String),
    /// It could not be resolved: the server is skipped.
    Failed,
}

/// The server with its address resolved, or none when resolution failed.
pub open spec fn resolved(s: InfoView, r: Resolution) -> Option<InfoView> {
    match r {
        Resolution::Unchanged => Some(s),
        Resolution::Modified(ip) => Some(InfoView { ip: ip@, ..s }),
        Resolution::Failed => None,
    }
}

/// Applies the outcome of address resolution to a candidate's server.
pub fn apply_resolution(candidate: Candidate, resolution: Resolution) -> (r: Option<ServerInfo>)
    ensures
        match r {
            Some(s) => resolved(candidate.server@, resolution) == Some(s@),
            None => resolved(candidate.server@, resolution) == None::<InfoView>,
        },
{
    let mut server = candidate.server;
    match resolution {
        Resolution::Unchanged => Some(server),
        Resolution::Modified(ip) => {
            server.ip = ip;
            Some(server)
        },
        Resolution::Failed => None,
    }
}

pub open spec fn region_views(v: Seq<Option<String>>) -> Seq<Option<Seq<char>>> {
    v.map_values(|o: Option<String>| match o {
        Some(s) => Some(s@),
        None => None,
    })
}

/// The records of the servers whose lookup found a region, in order.
pub open spec fn located(servers: Seq<InfoView>, regions: Seq<Option<Seq<char>>>) -> Seq<RecordView>
    decreases servers.len(),
{
    if servers.len() == 0 || regions.len() != servers.len() {
        Seq::empty()
    } else {
        let rest = located(servers.drop_last(), regions.drop_last());
        match regions.last() {
            Some(region) => rest.push(record_of(servers.last(), region)),
            None => rest,
        }
    }
}

/// The number of lookups that found a region.
pub open spec fn count_found(regions: Seq<Option<Seq<char>>>) -> nat
    decreases regions.len(),
{
    if regions.len() == 0 {
        0
    } else {
        count_found(regions.drop_last()) + if regions.last() is Some { 1nat } else { 0nat }
    }
}

/// Joins the geolocation outcomes with their servers: `regions[i]` is the
/// region found for `servers[i]`, or `None` when its lookup failed. Failed
/// servers are dropped; the others become records.
pub fn gather_records(servers: Vec<ServerInfo>, regions: Vec<Option<String>>) -> (r: Vec<ServerCache>)
    requires
        servers.len() == regions.len(),
    ensures
        views(r@) == located(info_views(servers@), region_views(regions@)),
{
    let ghost sv = info_views(servers@);
    let ghost rv = region_views(regions@);
    let mut out: Vec<ServerCache> = Vec::new();
    let mut i: usize = 0;
    while i < servers.len()
        invariant
            0 <= i <= servers.len(),
            servers.len() == regions.len(),
            sv == info_views(servers@),
            rv == region_views(regions@),
            views(out@) == located(sv.take(i as int), rv.take(i as int)),
        decreases servers.len() - i,
    {
        proof {
            assert(sv.take(i + 1).drop_last() =~= sv.take(i as int));
            assert(rv.take(i + 1).drop_last() =~= rv.take(i as int));
            assert(sv.take(i + 1).last() == servers@[i as int]@);
            assert(rv.take(i + 1).last() == rv[i as int]);
        }
        match &regions[i] {
            Some(region) => {
                let ghost prev = out@;
                let rec = ServerCache::from(&servers[i], region.clone());
                out.push(rec);
                proof {
                    assert(views(out@) =~= views(prev).push(rec@));
                }
            },
            None => {},
        }
        i = i + 1;
    }
    proof {
        assert(sv.take(i as int) =~= sv);
        assert(rv.take(i as int) =~= rv);
    }
    out
}

/// No server of another game is ever a candidate, whatever the directory
/// holds.
pub proof fn lemma_candidates_match_game(hosts: Seq<HostView>, game: Seq<char>)
    ensures
        forall|k: int| 0 <= k < candidates_of(hosts, game).len() ==> #[trigger] candidates_of(hosts, game)[k].server.game == game,
    decreases hosts.len(),
{
    if hosts.len() > 0 {
        let h = hosts.last();
        let a = candidates_of(hosts.drop_last(), game);
        let b = host_candidates(h.ip, h.webfront, h.servers, game);
        lemma_candidates_match_game(hosts.drop_last(), game);
        lemma_host_candidates_match_game(h.ip, h.webfront, h.servers, game);
        assert forall|k: int| 0 <= k < candidates_of(hosts, game).len() implies #[trigger] candidates_of(hosts, game)[k].server.game == game by {
            if k < a.len() {
                assert(candidates_of(hosts, game)[k] == a[k]);
            } else {
                assert(candidates_of(hosts, game)[k] == b[k - a.len()]);
            }
        };
    }
}

proof fn lemma_host_candidates_match_game(ip: Seq<char>, webfront: Seq<char>, servers: Seq<InfoView>, game: Seq<char>)
    ensures
        forall|k: int| 0 <= k < host_candidates(ip, webfront, servers, game).len()
            ==> #[trigger] host_candidates(ip, webfront, servers, game)[k].server.game == game,
    decreases servers.len(),
{
    if servers.len() > 0 {
        let rest = host_candidates(ip, webfront, servers.drop_last(), game);
        lemma_host_candidates_match_game(ip, webfront, servers.drop_last(), game);
        assert forall|k: int| 0 <= k < host_candidates(ip, webfront, servers, game).len()
            implies #[trigger] host_candidates(ip, webfront, servers, game)[k].server.game == game by {
            if k < rest.len() {
                assert(host_candidates(ip, webfront, servers, game)[k] == rest[k]);
            }
        };
    }
}

/// `rec` is the record of some server whose lookup found a region.
pub open spec fn found_record(servers: Seq<InfoView>, regions: Seq<Option<Seq<char>>>, rec: RecordView) -> bool {
    exists|i: int| 0 <= i < servers.len() && #[trigger] regions[i] is Some && rec == record_of(servers[i], regions[i]->Some_0)
}

/// Collecting lookup outcomes gives exactly one record per lookup that
/// found a region, and every record comes from such a lookup: a server
/// whose lookup failed is never in the result, and no error is raised.
pub proof fn lemma_gathered_successes(servers: Seq<InfoView>, regions: Seq<Option<Seq<char>>>)
    requires
        servers.len() == regions.len(),
    ensures
        located(servers, regions).len() == count_found(regions),
        forall|k: int| 0 <= k < located(servers, regions).len() ==> found_record(servers, regions, #[trigger] located(servers, regions)[k]),
    decreases servers.len(),
{
    if servers.len() > 0 {
        let si = servers.drop_last();
        let ri = regions.drop_last();
        lemma_gathered_successes(si, ri);
        let l = located(servers, regions);
        assert forall|k: int| 0 <= k < located(servers, regions).len() implies found_record(servers, regions, #[trigger] located(servers, regions)[k]) by {
            if k < located(si, ri).len() {
                assert(l[k] == located(si, ri)[k]);
                assert(found_record(si, ri, located(si, ri)[k]));
                let i = choose|i: int| 0 <= i < si.len() && #[trigger] ri[i] is Some
                    && located(si, ri)[k] == record_of(si[i], ri[i]->Some_0);
                assert(regions[i] == ri[i]);
                assert(servers[i] == si[i]);
            } else {
                let n = servers.len() - 1;
                assert(regions[n] is Some);
                assert(l[k] == record_of(servers[n], regions[n]->Some_0));
            }
        };
    } else {
        assert(located(servers, regions) =~= Seq::<RecordView>::empty());
    }
}

} // verus!
