use vstd::prelude::*;
use crate::index::StrMap;
use crate::record::{id_of, record_of, RecordView, ServerCache, ServerInfo};
use crate::time::Timestamp;

verus! {

/// Hostname to identity key, built over `rs` in order: a later record wins.
pub open spec fn host_map(rs: Seq<RecordView>) -> Map<Seq<char>, Seq<char>>
    decreases rs.len(),
{
    if rs.len() == 0 {
        Map::empty()
    } else {
        host_map(rs.drop_last()).insert(rs.last().hostname, rs.last().id())
    }
}

/// Address to region, built over `rs` in order: a later record wins.
pub open spec fn region_map(rs: Seq<RecordView>) -> Map<Seq<char>, Seq<char>>
    decreases rs.len(),
{
    if rs.len() == 0 {
        Map::empty()
    } else {
        region_map(rs.drop_last()).insert(rs.last().ip, rs.last().region)
    }
}

/// The hostname index holds a hostname exactly when some record carries it.
pub proof fn lemma_host_map_domain(rs: Seq<RecordView>)
    ensures
        host_map(rs).dom().finite(),
        forall|k: Seq<char>| #[trigger] host_map(rs).contains_key(k) <==> exists|i: int| 0 <= i < rs.len() && rs[i].hostname == k,
    decreases rs.len(),
{
    if rs.len() > 0 {
        let init = rs.drop_last();
        lemma_host_map_domain(init);
        assert forall|k: Seq<char>| #[trigger] host_map(rs).contains_key(k) <==> exists|i: int| 0 <= i < rs.len() && rs[i].hostname == k by {
            if host_map(init).contains_key(k) {
                let j = choose|j: int| 0 <= j < init.len() && init[j].hostname == k;
                assert(rs[j].hostname == k);
            }
            if exists|i: int| 0 <= i < rs.len() && rs[i].hostname == k {
                let j = choose|j: int| 0 <= j < rs.len() && rs[j].hostname == k;
                if j < rs.len() - 1 {
                    assert(init[j].hostname == k);
                }
            }
        };
    } else {
        assert(host_map(rs).dom() =~= Set::empty());
    }
}

/// Whatever the order, the hostname index gives each hostname the identity
/// key of the last record that carries it.
pub proof fn lemma_last_record_wins(rs: Seq<RecordView>, i: int)
    requires
        0 <= i < rs.len(),
        forall|j: int| i < j < rs.len() ==> #[trigger] rs[j].hostname != rs[i].hostname,
    ensures
        host_map(rs).contains_key(rs[i].hostname),
        host_map(rs)[rs[i].hostname] == rs[i].id(),
    decreases rs.len(),
{
    if i < rs.len() - 1 {
        let init = rs.drop_last();
        assert(rs.last().hostname != rs[i].hostname);
        assert forall|j: int| i < j < init.len() implies #[trigger] init[j].hostname != init[i].hostname by {
            assert(rs[j].hostname != rs[i].hostname);
        };
        lemma_last_record_wins(init, i);
    }
}

/// Over records with distinct identity keys and distinct hostnames, the
/// hostname index has exactly one entry per record, and looking up a
/// record's hostname gives its identity key `"{ip}:{port}"`.
pub proof fn lemma_index_covers_records(rs: Seq<RecordView>)
    requires
        forall|i: int, j: int| 0 <= i < j < rs.len() ==> #[trigger] rs[i].id() != #[trigger] rs[j].id(),
        forall|i: int, j: int| 0 <= i < j < rs.len() ==> #[trigger] rs[i].hostname != #[trigger] rs[j].hostname,
    ensures
        host_map(rs).len() == rs.len(),
        forall|i: int| 0 <= i < rs.len() ==> #[trigger] host_map(rs).contains_key(rs[i].hostname)
            && host_map(rs)[rs[i].hostname] == rs[i].id(),
    decreases rs.len(),
{
    assert forall|i: int| 0 <= i < rs.len() implies #[trigger] host_map(rs).contains_key(rs[i].hostname)
        && host_map(rs)[rs[i].hostname] == rs[i].id() by {
        assert forall|j: int| i < j < rs.len() implies #[trigger] rs[j].hostname != rs[i].hostname by {
            assert(rs[i].hostname != rs[j].hostname);
        };
        lemma_last_record_wins(rs, i);
    };
    if rs.len() > 0 {
        let init = rs.drop_last();
        assert forall|i: int, j: int| 0 <= i < j < init.len() implies #[trigger] init[i].hostname != #[trigger] init[j].hostname by {
            assert(rs[i].hostname != rs[j].hostname);
        };
        assert forall|i: int, j: int| 0 <= i < j < init.len() implies #[trigger] init[i].id() != #[trigger] init[j].id() by {
            assert(rs[i].id() != rs[j].id());
        };
        lemma_index_covers_records(init);
        lemma_host_map_domain(init);
        if host_map(init).contains_key(rs.last().hostname) {
            let j = choose|j: int| 0 <= j < init.len() && init[j].hostname == rs.last().hostname;
            assert(rs[j].hostname != rs[rs.len() - 1].hostname);
        }
        assert(host_map(rs).dom() == host_map(init).dom().insert(rs.last().hostname));
    } else {
        assert(host_map(rs).dom() =~= Set::empty());
    }
}

/// The views of a sequence of records.
pub open spec fn views(v: Seq<ServerCache>) -> Seq<RecordView> {
    v.map_values(|r: ServerCache| r@)
}

/// The in-memory cache: the records in insertion order and two lookup
/// indexes derived from them.
pub struct Cache {
    host_to_connect: StrMap,
    ip_to_region: StrMap,
    servers: Vec<ServerCache>,
    created: Timestamp,
}

impl Cache {
    /// The records, in insertion order.
    pub closed spec fn records(&self) -> Seq<RecordView> {
        views(self.servers@)
    }

    /// The hostname index.
    pub closed spec fn hosts(&self) -> Map<Seq<char>, Seq<char>> {
        self.host_to_connect@
    }

    /// The region index.
    pub closed spec fn regions(&self) -> Map<Seq<char>, Seq<char>> {
        self.ip_to_region@
    }

    pub closed spec fn created_at(&self) -> Timestamp {
        self.created
    }

    /// Both indexes agree with the records.
    pub open spec fn wf(&self) -> bool {
        &&& self.inner_wf()
        &&& self.hosts() == host_map(self.records())
        &&& self.regions() == region_map(self.records())
    }

    pub closed spec fn inner_wf(&self) -> bool {
        self.host_to_connect.wf() && self.ip_to_region.wf()
    }

    /// Builds a cache over `servers`, indexing each record in order.
    pub fn from(servers: Vec<ServerCache>, created: Timestamp) -> (r: Cache)
        ensures
            r.wf(),
            r.records() == views(servers@),
            r.created_at() == created,
    {
        let mut host_to_connect = StrMap::new();
        let mut ip_to_region = StrMap::new();
        let ghost rs = views(servers@);
        let mut i: usize = 0;
        while i < servers.len()
            invariant
                0 <= i <= servers.len(),
                rs == views(servers@),
                host_to_connect.wf(),
                ip_to_region.wf(),
                host_to_connect@ == host_map(rs.take(i as int)),
                ip_to_region@ == region_map(rs.take(i as int)),
            decreases servers.len() - i,
        {
            let server = &servers[i];
            host_to_connect.insert(server.hostname.clone(), server.get_id());
            ip_to_region.insert(server.ip.clone(), server.region.clone());
            proof {
                assert(rs.take(i + 1).drop_last() =~= rs.take(i as int));
                assert(rs.take(i + 1).last() == server@);
            }
            i = i + 1;
        }
        proof {
            assert(rs.take(i as int) =~= rs);
        }
        Cache { host_to_connect, ip_to_region, servers, created }
    }

    /// Adds the record of a live server located in `region`, and indexes it.
    pub fn update_cache_with(&mut self, server: &ServerInfo, region: String)
        requires
            old(self).wf(),
        ensures
            final(self).wf(),
            final(self).records() == old(self).records().push(record_of(server@, region@)),
            final(self).hosts() == old(self).hosts().insert(server.hostname@, id_of(server.ip@, server.port)),
            final(self).regions() == old(self).regions().insert(server.ip@, region@),
            final(self).created_at() == old(self).created_at(),
    {
        self.host_to_connect.insert(server.hostname.clone(), server.get_id());
        self.ip_to_region.insert(server.ip.clone(), region.clone());
        self.servers.push(ServerCache::from(server, region));
        proof {
            assert(self.records().drop_last() =~= old(self).records());
        }
    }

    /// Adds an already built record, and indexes it.
    pub fn update_cache_with_consume(&mut self, server: ServerCache)
        requires
            old(self).wf(),
        ensures
            final(self).wf(),
            final(self).records() == old(self).records().push(server@),
            final(self).hosts() == old(self).hosts().insert(server@.hostname, server@.id()),
            final(self).regions() == old(self).regions().insert(server@.ip, server@.region),
            final(self).created_at() == old(self).created_at(),
    {
        self.host_to_connect.insert(server.hostname.clone(), server.get_id());
        self.ip_to_region.insert(server.ip.clone(), server.region.clone());
        self.servers.push(server);
        proof {
            assert(self.records().drop_last() =~= old(self).records());
        }
    }

    /// The identity key of the server last recorded under `hostname`.
    pub fn lookup(&self, hostname: &String) -> (r: Option<String>)
        requires
            self.wf(),
        ensures
            match r {
                Some(id) => self.hosts().contains_key(hostname@) && self.hosts()[hostname@] == id@,
                None => !self.hosts().contains_key(hostname@),
            },
    {
        match self.host_to_connect.get(hostname) {
            Some(id) => Some(id.clone()),
            None => None,
        }
    }

    /// The region last recorded for the address `ip`.
    pub fn region_of(&self, ip: &String) -> (r: Option<String>)
        requires
            self.wf(),
        ensures
            match r {
                Some(region) => self.regions().contains_key(ip@) && self.regions()[ip@] == region@,
                None => !self.regions().contains_key(ip@),
            },
    {
        match self.ip_to_region.get(ip) {
            Some(region) => Some(region.clone()),
            None => None,
        }
    }

    /// The number of hostnames in the hostname index.
    pub fn host_count(&self) -> (r: usize)
        requires
            self.wf(),
        ensures
            r == self.hosts().len(),
    {
        self.host_to_connect.len()
    }

    /// The number of records.
    pub fn len(&self) -> (r: usize)
        ensures
            r == self.records().len(),
    {
        self.servers.len()
    }

    /// A copy of the record at `i`.
    pub fn record_at(&self, i: usize) -> (r: ServerCache)
        requires
            i < self.records().len(),
        ensures
            r@ == self.records()[i as int],
    {
        self.servers[i].duplicate()
    }

    /// When the record set was created.
    pub fn created(&self) -> (r: Timestamp)
        ensures
            r == self.created_at(),
    {
        self.created
    }

    /// Copies of all records, in insertion order.
    pub fn records_vec(&self) -> (r: Vec<ServerCache>)
        ensures
            views(r@) == self.records(),
    {
        let mut out: Vec<ServerCache> = Vec::new();
        let mut i: usize = 0;
        while i < self.servers.len()
            invariant
                0 <= i <= self.servers.len(),
                views(out@) == self.records().take(i as int),
            decreases self.servers.len() - i,
        {
            let ghost prev = out@;
            let d = self.servers[i].duplicate();
            out.push(d);
            proof {
                assert(views(out@) =~= views(prev).push(d@));
                assert(self.records()[i as int] == self.servers@[i as int]@);
                assert(views(out@) =~= self.records().take(i + 1));
            }
            i = i + 1;
        }
        proof {
            assert(self.records().take(i as int) =~= self.records());
        }
        out
    }
}

} // verus!
