//! The broker registry: which brokers a name service knows, to which cluster
//! each belongs, and when each was last heard of.

use vstd::prelude::*;
use std::collections::HashMap;
use vstd::std_specs::hash::group_hash_axioms;
use crate::namesrv::table::{Table, TableKey};
use crate::text::owned;

verus! {

broadcast use group_hash_axioms;

/// One broker: its cluster, its name, and the addresses of its instances by
/// broker id.
#[derive(Debug, PartialEq)]
pub struct BrokerData {
    cluster_name: String,
    broker_name: String,
    broker_addrs: HashMap<i64, String>,
    zone_name: Option<String>,
}

/// What a `BrokerData` holds.
pub struct BrokerDataView {
    pub cluster_name: Seq<char>,
    pub broker_name: Seq<char>,
    pub broker_addrs: Map<i64, Seq<char>>,
    pub zone_name: Option<Seq<char>>,
}

/// What an optional text holds.
pub open spec fn text_view(text: Option<String>) -> Option<Seq<char>> {
    match text {
        Some(text) => Some(text@),
        None => None,
    }
}

impl View for BrokerData {
    type V = BrokerDataView;

    closed spec fn view(&self) -> BrokerDataView {
        BrokerDataView {
            cluster_name: self.cluster_name@,
            broker_name: self.broker_name@,
            broker_addrs: self.broker_addrs@.map_values(|addr: String| addr@),
            zone_name: text_view(self.zone_name),
        }
    }
}

impl BrokerData {
    /// A broker with one instance: `broker_id` at `broker_addr`.
    pub fn new(
        cluster_name: String,
        broker_name: String,
        broker_addr: String,
        broker_id: i64,
        zone_name: Option<String>,
    ) -> (data: Self)
        ensures
            data@ == (BrokerDataView {
                cluster_name: cluster_name@,
                broker_name: broker_name@,
                broker_addrs: map![broker_id => broker_addr@],
                zone_name: text_view(zone_name),
            }),
    {
        let mut broker_addrs: HashMap<i64, String> = HashMap::new();
        broker_addrs.insert(broker_id, broker_addr);
        let data = BrokerData { cluster_name, broker_name, broker_addrs, zone_name };
        assert(data@.broker_addrs =~= map![broker_id => broker_addr@]);
        data
    }

    /// The cluster of the broker.
    pub fn cluster_name(&self) -> (name: &str)
        ensures
            name@ == self@.cluster_name,
    {
        self.cluster_name.as_str()
    }

    /// The name of the broker.
    pub fn broker_name(&self) -> (name: &str)
        ensures
            name@ == self@.broker_name,
    {
        self.broker_name.as_str()
    }

    /// The address of the instance with the given id, if there is one.
    pub fn addr_of(&self, broker_id: i64) -> (addr: Option<&str>)
        ensures
            match addr {
                Some(addr) => self@.broker_addrs.contains_key(broker_id)
                    && self@.broker_addrs[broker_id] == addr@,
                None => !self@.broker_addrs.contains_key(broker_id),
            },
    {
        match self.broker_addrs.get(&broker_id) {
            Some(addr) => Some(addr.as_str()),
            None => None,
        }
    }
}

/// When a broker was last heard of, and how long it may stay silent.
#[derive(Clone, Copy, Debug, PartialEq, Eq, Structural)]
pub struct BrokerLiveInfo {
    pub last_update_timestamp: i64,
    pub heartbeat_timeout_mills: i64,
}

/// `chrono::DateTime::<Utc>::from` of `SystemTime::now()`, then
/// `timestamp_millis`: the milliseconds between the Unix epoch and this
/// machine's clock, below zero where the clock stands before 1970. Nothing is
/// claimed of the value.
#[verifier::external_body]
fn now_millis() -> i64 {
    chrono::DateTime::<chrono::Utc>::from(std::time::SystemTime::now()).timestamp_millis()
}

impl BrokerLiveInfo {
    /// A broker that was heard of at `last_update_timestamp`.
    pub fn at(last_update_timestamp: i64, heartbeat_timeout_mills: i64) -> (info: Self)
        ensures
            info == (BrokerLiveInfo { last_update_timestamp, heartbeat_timeout_mills }),
    {
        BrokerLiveInfo { last_update_timestamp, heartbeat_timeout_mills }
    }

    /// A broker that was heard of just now, by this machine's clock.
    pub fn new(heartbeat_timeout_mills: i64) -> (info: Self)
        ensures
            info.heartbeat_timeout_mills == heartbeat_timeout_mills,
    {
        BrokerLiveInfo::at(now_millis(), heartbeat_timeout_mills)
    }
}

/// The key under which a live broker is kept: its cluster and its address.
#[derive(Debug, PartialEq, Eq, Hash)]
pub struct BrokerAddrInfo {
    cluster_name: String,
    broker_addr: String,
}

impl View for BrokerAddrInfo {
    type V = (Seq<char>, Seq<char>);

    closed spec fn view(&self) -> (Seq<char>, Seq<char>) {
        (self.cluster_name@, self.broker_addr@)
    }
}

impl BrokerAddrInfo {
    /// The key of the broker at `broker_addr` in `cluster_name`.
    pub fn new(cluster_name: String, broker_addr: String) -> (key: Self)
        ensures
            key@ == (cluster_name@, broker_addr@),
    {
        BrokerAddrInfo { cluster_name, broker_addr }
    }
}

impl TableKey for BrokerAddrInfo {
    fn same_key(&self, other: &Self) -> (same: bool) {
        self.cluster_name == other.cluster_name && self.broker_addr == other.broker_addr
    }
}

/// What a name service knows about brokers.
#[derive(Debug)]
pub struct BrokerInfo {
    /// By broker name.
    broker_addr_table: Table<String, BrokerData>,
    /// By cluster name: the names of the brokers of the cluster.
    cluster_addr_table: Table<String, Table<String, ()>>,
    /// By cluster and broker.
    broker_live_table: Table<BrokerAddrInfo, BrokerLiveInfo>,
}

impl Default for BrokerInfo {
    /// A registry that knows no broker.
    fn default() -> (registry: Self)
        ensures
            registry.wf(),
            registry.broker_count() == 0,
    {
        BrokerInfo::new()
    }
}

impl BrokerInfo {
    /// No table holds a key twice. `new` makes such a registry and every
    /// method keeps it so.
    pub closed spec fn wf(&self) -> bool {
        &&& self.broker_addr_table.wf()
        &&& self.cluster_addr_table.wf()
        &&& self.broker_live_table.wf()
        &&& forall|cluster: Seq<char>| #[trigger]
            self.cluster_addr_table.has(cluster) ==> self.cluster_addr_table.at(cluster).wf()
    }

    /// The brokers, by name.
    pub closed spec fn brokers(&self) -> Map<Seq<char>, BrokerData> {
        self.broker_addr_table.map()
    }

    /// What is known of each broker, by name.
    pub open spec fn broker_views(&self) -> Map<Seq<char>, BrokerDataView> {
        self.brokers().map_values(|data: BrokerData| data@)
    }

    /// The number of brokers.
    pub closed spec fn broker_count(&self) -> nat {
        self.broker_addr_table.count()
    }

    /// The names of the brokers of `cluster`: none for a cluster that is not
    /// known.
    pub closed spec fn members(&self, cluster: Seq<char>) -> Set<Seq<char>> {
        if self.cluster_addr_table.has(cluster) {
            self.cluster_addr_table.at(cluster).map().dom()
        } else {
            Set::empty()
        }
    }

    /// The live brokers, by cluster and broker.
    pub closed spec fn live(&self) -> Map<(Seq<char>, Seq<char>), BrokerLiveInfo> {
        self.broker_live_table.map()
    }

    /// A registry that knows no broker.
    pub fn new() -> (registry: Self)
        ensures
            registry.wf(),
            registry.broker_count() == 0,
            registry.brokers() == Map::<Seq<char>, BrokerData>::empty(),
            registry.live() == Map::<(Seq<char>, Seq<char>), BrokerLiveInfo>::empty(),
            forall|cluster: Seq<char>| registry.members(cluster) == Set::<Seq<char>>::empty(),
    {
        let registry = BrokerInfo {
            broker_addr_table: Table::new(),
            cluster_addr_table: Table::new(),
            broker_live_table: Table::new(),
        };
        assert forall|cluster: Seq<char>| !registry.cluster_addr_table.has(cluster) by {
            assert(!registry.cluster_addr_table.map().dom().contains(cluster));
        }
        registry
    }

    /// The number of brokers.
    pub fn len(&self) -> (count: usize)
        ensures
            count == self.broker_count(),
    {
        self.broker_addr_table.len()
    }

    /// What is known of the broker with the given name.
    pub fn broker(&self, broker_name: &str) -> (data: Option<&BrokerData>)
        requires
            self.wf(),
        ensures
            match data {
                Some(data) => self.broker_views().contains_key(broker_name@)
                    && self.broker_views()[broker_name@] == data@,
                None => !self.broker_views().contains_key(broker_name@),
            },
    {
        let key = owned(broker_name);
        let data = self.broker_addr_table.get(&key);
        proof {
            assert(self.broker_addr_table.map().dom().contains(broker_name@)
                == self.broker_addr_table.has(broker_name@));
        }
        data
    }

    /// Whether `broker_name` is among the brokers of `cluster_name`.
    pub fn is_member(&self, cluster_name: &str, broker_name: &str) -> (member: bool)
        requires
            self.wf(),
        ensures
            member == self.members(cluster_name@).contains(broker_name@),
    {
        let cluster = owned(cluster_name);
        match self.cluster_addr_table.get(&cluster) {
            None => false,
            Some(names) => {
                let broker = owned(broker_name);
                let found = names.get(&broker);
                proof {
                    assert(names.map().dom().contains(broker_name@) == names.has(broker_name@));
                }
                found.is_some()
            },
        }
    }

    /// When the given broker of the given cluster was last heard of, if it
    /// ever was.
    pub fn live_info(&self, cluster_name: &str, broker_name: &str) -> (info: Option<BrokerLiveInfo>)
        requires
            self.wf(),
        ensures
            match info {
                Some(info) => self.live().contains_key((cluster_name@, broker_name@))
                    && self.live()[(cluster_name@, broker_name@)] == info,
                None => !self.live().contains_key((cluster_name@, broker_name@)),
            },
    {
        let key = BrokerAddrInfo::new(owned(cluster_name), owned(broker_name));
        let found = self.broker_live_table.get(&key);
        proof {
            assert(self.broker_live_table.map().dom().contains(key@)
                == self.broker_live_table.has(key@));
        }
        match found {
            Some(info) => Some(*info),
            None => None,
        }
    }

    /// Records that the broker `broker_name` of `cluster_name` was heard of
    /// just now, by this machine's clock. See `store_broker_info_at`.
    pub fn store_broker_info(
        &mut self,
        cluster_name: String,
        broker_name: String,
        broker_addr: String,
        broker_id: i64,
        zone_name: Option<String>,
        heartbeat_timeout_mills: i64,
    )
        requires
            old(self).wf(),
        ensures
            final(self).wf(),
            exists|now: i64|
                stored(
                    *old(self),
                    *final(self),
                    cluster_name@,
                    broker_name@,
                    broker_addr@,
                    broker_id,
                    text_view(zone_name),
                    heartbeat_timeout_mills,
                    now,
                ),
    {
        let now = now_millis();
        self.store_broker_info_at(
            cluster_name,
            broker_name,
            broker_addr,
            broker_id,
            zone_name,
            heartbeat_timeout_mills,
            now,
        );
    }

    /// Records that the broker `broker_name` of `cluster_name` was heard of at
    /// `now`.
    ///
    /// The broker's entry is replaced by one with the single instance
    /// `broker_id` at `broker_addr`; the broker's name joins the members of
    /// its cluster; and the broker counts as live since `now`, under the key
    /// of its cluster and its name.
    pub fn store_broker_info_at(
        &mut self,
        cluster_name: String,
        broker_name: String,
        broker_addr: String,
        broker_id: i64,
        zone_name: Option<String>,
        heartbeat_timeout_mills: i64,
        now: i64,
    )
        requires
            old(self).wf(),
        ensures
            final(self).wf(),
            stored(
                *old(self),
                *final(self),
                cluster_name@,
                broker_name@,
                broker_addr@,
                broker_id,
                text_view(zone_name),
                heartbeat_timeout_mills,
                now,
            ),
    {
        let broker_data = BrokerData::new(
            cluster_name.clone(),
            broker_name.clone(),
            broker_addr,
            broker_id,
            zone_name,
        );
        self.broker_addr_table.insert(broker_name.clone(), broker_data);
        let mut names = match self.cluster_addr_table.take(&cluster_name) {
            Some(names) => names,
            None => Table::new(),
        };
        names.insert(broker_name.clone(), ());
        let ghost without = self.cluster_addr_table;
        self.cluster_addr_table.insert(cluster_name.clone(), names);
        let key = BrokerAddrInfo::new(cluster_name, broker_name);
        self.broker_live_table.insert(key, BrokerLiveInfo::at(now, heartbeat_timeout_mills));
        proof {
            assert(self.broker_views() =~= old(self).broker_views().insert(
                broker_name@,
                broker_data@,
            ));
            assert forall|cluster: Seq<char>| #[trigger]
                self.cluster_addr_table.has(cluster) implies self.cluster_addr_table.at(
                cluster,
            ).wf() by {
                assert(self.cluster_addr_table.map().dom().contains(cluster));
                if cluster != cluster_name@ {
                    assert(without.map().dom().contains(cluster));
                    assert(old(self).cluster_addr_table.map().dom().contains(cluster));
                    assert(self.cluster_addr_table.map()[cluster] == old(
                        self,
                    ).cluster_addr_table.map()[cluster]);
                }
            }
            assert forall|cluster: Seq<char>| #[trigger]
                self.members(cluster) == (if cluster == cluster_name@ {
                    old(self).members(cluster).insert(broker_name@)
                } else {
                    old(self).members(cluster)
                }) by {
                assert(self.cluster_addr_table.map().dom().contains(cluster)
                    == self.cluster_addr_table.has(cluster));
                assert(without.map().dom().contains(cluster) == without.has(cluster));
                assert(old(self).cluster_addr_table.map().dom().contains(cluster) == old(
                    self,
                ).cluster_addr_table.has(cluster));
                if cluster == cluster_name@ {
                    assert(self.members(cluster) =~= old(self).members(cluster).insert(
                        broker_name@,
                    ));
                } else {
                    if self.cluster_addr_table.has(cluster) {
                        assert(self.cluster_addr_table.map()[cluster] == old(
                            self,
                        ).cluster_addr_table.map()[cluster]);
                    }
                }
            }
        }
    }
}

/// How `after` follows from `before` once a broker was recorded (see
/// `BrokerInfo::store_broker_info_at`).
pub open spec fn stored(
    before: BrokerInfo,
    after: BrokerInfo,
    cluster_name: Seq<char>,
    broker_name: Seq<char>,
    broker_addr: Seq<char>,
    broker_id: i64,
    zone_name: Option<Seq<char>>,
    heartbeat_timeout_mills: i64,
    now: i64,
) -> bool {
    &&& after.broker_views() == before.broker_views().insert(
        broker_name,
        (BrokerDataView {
            cluster_name,
            broker_name,
            broker_addrs: map![broker_id => broker_addr],
            zone_name,
        }),
    )
    &&& after.broker_count() == before.broker_count() + (if before.brokers().dom().contains(
        broker_name,
    ) {
        0nat
    } else {
        1nat
    })
    &&& forall|cluster: Seq<char>| #[trigger]
        after.members(cluster) == (if cluster == cluster_name {
            before.members(cluster).insert(broker_name)
        } else {
            before.members(cluster)
        })
    &&& after.live() == before.live().insert(
        (cluster_name, broker_name),
        (BrokerLiveInfo {
            last_update_timestamp: now,
            heartbeat_timeout_mills,
        }),
    )
}

} // verus!
