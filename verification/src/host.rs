//! Hosts that the responder answers for, and the table that holds them.

use vstd::prelude::*;
use crate::address::{
    ipv4_from_text, mac_from_text, parse_ipv4, parse_mac, Ipv4Address, MacAddress,
    MacLiteralError,
};

verus! {

/// A host that is answered for: a protocol address and the hardware address
/// that is announced for it.
#[derive(Clone, Copy, Debug, PartialEq, Eq, Structural)]
pub struct Host {
    pub ip_address: Ipv4Address,
    pub mac_address: MacAddress,
}

/// A configured value that is no address literal. It holds the offending text.
#[derive(Debug, PartialEq, Eq)]
pub enum ConfigError {
    /// The protocol address is no IPv4 literal.
    InvalidIpAddress { raw: String },
    /// The hardware address is no MAC literal.
    InvalidMacAddress { raw: String, reason: MacLiteralError },
}

/// A `ConfigError` with its text as a sequence of characters.
pub enum ConfigErrorView {
    InvalidIpAddress { raw: Seq<char> },
    InvalidMacAddress { raw: Seq<char>, reason: MacLiteralError },
}

impl View for ConfigError {
    type V = ConfigErrorView;

    open spec fn view(&self) -> ConfigErrorView {
        match self {
            ConfigError::InvalidIpAddress { raw } => ConfigErrorView::InvalidIpAddress {
                raw: raw@,
            },
            ConfigError::InvalidMacAddress { raw, reason } => ConfigErrorView::InvalidMacAddress {
                raw: raw@,
                reason: *reason,
            },
        }
    }
}

/// The host that a pair of literals configures. The protocol address is
/// looked at first: where both literals are invalid, the error names it.
pub open spec fn host_from_text(ip: Seq<char>, mac: Seq<char>) -> Result<Host, ConfigErrorView> {
    match ipv4_from_text(ip) {
        None => Err(ConfigErrorView::InvalidIpAddress { raw: ip }),
        Some(ip_address) => match mac_from_text(mac) {
            Err(reason) => Err(ConfigErrorView::InvalidMacAddress { raw: mac, reason }),
            Ok(mac_address) => Ok(Host { ip_address, mac_address }),
        },
    }
}

/// Makes a host from the two literals of a configuration entry.
pub fn new_host(ip_address: &str, mac_address: &str) -> (r: Result<Host, ConfigError>)
    ensures
        match r {
            Ok(host) => host_from_text(ip_address@, mac_address@) == Ok::<Host, ConfigErrorView>(
                host,
            ),
            Err(e) => host_from_text(ip_address@, mac_address@) == Err::<Host, ConfigErrorView>(
                e@,
            ),
        },
{
    let ip = match parse_ipv4(ip_address) {
        Some(ip) => ip,
        None => {
            return Err(ConfigError::InvalidIpAddress { raw: ip_address.to_owned() });
        },
    };
    let mac = match parse_mac(mac_address) {
        Ok(mac) => mac,
        Err(reason) => {
            return Err(ConfigError::InvalidMacAddress { raw: mac_address.to_owned(), reason });
        },
    };
    Ok(Host { ip_address: ip, mac_address: mac })
}

/// `i` is the first position in `hosts` whose protocol address is `target`.
pub open spec fn is_first_match(hosts: Seq<Host>, target: Ipv4Address, i: int) -> bool {
    &&& 0 <= i < hosts.len()
    &&& hosts[i].ip_address == target
    &&& forall|j: int| 0 <= j < i ==> hosts[j].ip_address != target
}

/// The first host in `hosts` whose protocol address is `target`, if there is one.
pub open spec fn lookup(hosts: Seq<Host>, target: Ipv4Address) -> Option<Host> {
    if exists|i: int| is_first_match(hosts, target, i) {
        Some(hosts[choose|i: int| is_first_match(hosts, target, i)])
    } else {
        None
    }
}

/// Finds the host that answers for `target_ip`. Where several hosts have
/// that address, the one that comes first is returned.
pub fn find_host_by_ip(hosts: &[Host], target_ip: Ipv4Address) -> (found: Option<&Host>)
    ensures
        match found {
            Some(host) => lookup(hosts@, target_ip) == Some(*host),
            None => lookup(hosts@, target_ip) is None,
        },
        found is None <==> forall|i: int| 0 <= i < hosts@.len() ==> hosts@[i].ip_address != target_ip,
        found matches Some(host) ==> exists|i: int|
            is_first_match(hosts@, target_ip, i) && *host == hosts@[i],
{
    let mut i: usize = 0;
    while i < hosts.len()
        invariant
            i <= hosts@.len(),
            forall|j: int| 0 <= j < i ==> hosts@[j].ip_address != target_ip,
        decreases hosts@.len() - i,
    {
        if hosts[i].ip_address == target_ip {
            assert(is_first_match(hosts@, target_ip, i as int));
            return Some(&hosts[i]);
        }
        i += 1;
    }
    None
}

/// The hosts that are answered for, in the order of their configuration.
/// The table is built once and never changed.
#[derive(Debug)]
pub struct HostTable {
    hosts: Vec<Host>,
}

impl View for HostTable {
    type V = Seq<Host>;

    closed spec fn view(&self) -> Seq<Host> {
        self.hosts@
    }
}

/// Entry `i` is the first one that configures no host.
pub open spec fn is_first_invalid(entries: Seq<(Seq<char>, Seq<char>)>, i: int) -> bool {
    &&& 0 <= i < entries.len()
    &&& host_from_text(entries[i].0, entries[i].1) is Err
    &&& forall|j: int| 0 <= j < i ==> host_from_text(entries[j].0, entries[j].1) is Ok
}

/// The table that a sequence of literal pairs configures: the host of each
/// entry, in order; or, where an entry is invalid, the error of the first
/// such entry.
pub open spec fn table_from_text(entries: Seq<(Seq<char>, Seq<char>)>) -> Result<
    Seq<Host>,
    ConfigErrorView,
> {
    if exists|i: int| is_first_invalid(entries, i) {
        let i = choose|i: int| is_first_invalid(entries, i);
        Err(host_from_text(entries[i].0, entries[i].1)->Err_0)
    } else {
        Ok(Seq::new(entries.len(), |i: int| host_from_text(entries[i].0, entries[i].1)->Ok_0))
    }
}

impl HostTable {
    /// A table of the given hosts, in their order.
    pub fn new(hosts: Vec<Host>) -> (table: HostTable)
        ensures
            table@ == hosts@,
    {
        HostTable { hosts }
    }

    /// Builds the table from configuration entries, each a protocol-address
    /// literal and a hardware-address literal. The first invalid entry ends
    /// the build with its error: no table is made of the valid rest.
    pub fn build(entries: &[(String, String)]) -> (r: Result<HostTable, ConfigError>)
        ensures
            match r {
                Ok(table) => table_from_text(entries.deep_view()) == Ok::<
                    Seq<Host>,
                    ConfigErrorView,
                >(table@),
                Err(e) => table_from_text(entries.deep_view()) == Err::<
                    Seq<Host>,
                    ConfigErrorView,
                >(e@),
            },
    {
        let ghost texts = entries.deep_view();
        let mut hosts: Vec<Host> = Vec::new();
        let mut i: usize = 0;
        while i < entries.len()
            invariant
                i <= entries@.len(),
                texts == entries.deep_view(),
                hosts@.len() == i,
                forall|j: int|
                    0 <= j < i ==> host_from_text((#[trigger] texts[j]).0, texts[j].1) == Ok::<
                        Host,
                        ConfigErrorView,
                    >(hosts@[j]),
            decreases entries@.len() - i,
        {
            let entry = &entries[i];
            assert(texts[i as int] == (entry.0@, entry.1@));
            match new_host(entry.0.as_str(), entry.1.as_str()) {
                Ok(host) => {
                    hosts.push(host);
                },
                Err(e) => {
                    assert(is_first_invalid(texts, i as int));
                    return Err(e);
                },
            }
            i += 1;
        }
        assert(hosts@ =~= Seq::new(
            texts.len(),
            |i: int| host_from_text(texts[i].0, texts[i].1)->Ok_0,
        ));
        Ok(HostTable { hosts })
    }

    /// The hosts of the table, in order.
    pub fn hosts(&self) -> (hosts: &[Host])
        ensures
            hosts@ == self@,
    {
        self.hosts.as_slice()
    }

    /// The number of hosts in the table.
    pub fn len(&self) -> (n: usize)
        ensures
            n == self@.len(),
    {
        self.hosts.len()
    }

    /// Finds the host that answers for `protocol_address`. Where several
    /// hosts have that address, the one that was configured first is returned.
    pub fn find(&self, protocol_address: Ipv4Address) -> (found: Option<&Host>)
        ensures
            match found {
                Some(host) => lookup(self@, protocol_address) == Some(*host),
                None => lookup(self@, protocol_address) is None,
            },
            found is None <==> forall|i: int|
                0 <= i < self@.len() ==> self@[i].ip_address != protocol_address,
            found matches Some(host) ==> exists|i: int|
                is_first_match(self@, protocol_address, i) && *host == self@[i],
    {
        find_host_by_ip(self.hosts.as_slice(), protocol_address)
    }
}

/// A protocol address that some host has is the address of a first such host.
proof fn lemma_first_match_exists(hosts: Seq<Host>, target: Ipv4Address, k: int)
    requires
        0 <= k < hosts.len(),
        hosts[k].ip_address == target,
    ensures
        exists|i: int| is_first_match(hosts, target, i),
    decreases k,
{
    if exists|j: int| 0 <= j < k && hosts[j].ip_address == target {
        let j = choose|j: int| 0 <= j < k && hosts[j].ip_address == target;
        lemma_first_match_exists(hosts, target, j);
    } else {
        assert(is_first_match(hosts, target, k));
    }
}

/// Looking up an address finds nothing exactly when no host has it.
pub proof fn lemma_lookup_absent(hosts: Seq<Host>, target: Ipv4Address)
    ensures
        lookup(hosts, target) is None <==> forall|i: int|
            0 <= i < hosts.len() ==> hosts[i].ip_address != target,
{
    if exists|k: int| 0 <= k < hosts.len() && hosts[k].ip_address == target {
        let k = choose|k: int| 0 <= k < hosts.len() && hosts[k].ip_address == target;
        lemma_first_match_exists(hosts, target, k);
    }
}

/// Among hosts with the same protocol address, the one that comes first is
/// the one found.
pub proof fn lemma_lookup_first(hosts: Seq<Host>, target: Ipv4Address, i: int)
    requires
        is_first_match(hosts, target, i),
    ensures
        lookup(hosts, target) == Some(hosts[i]),
{
    let k = choose|k: int| is_first_match(hosts, target, k);
    assert(k == i);
}

/// A table is built exactly when every entry is valid, and then holds the
/// host of each entry at the entry's position.
pub proof fn lemma_table_from_valid_entries(entries: Seq<(Seq<char>, Seq<char>)>)
    ensures
        table_from_text(entries) is Ok <==> forall|i: int|
            0 <= i < entries.len() ==> host_from_text(
                (#[trigger] entries[i]).0,
                entries[i].1,
            ) is Ok,
        table_from_text(entries) matches Ok(table) ==> table.len() == entries.len() && forall|
            i: int,
        |
            0 <= i < entries.len() ==> host_from_text(
                (#[trigger] entries[i]).0,
                entries[i].1,
            ) == Ok::<Host, ConfigErrorView>(table[i]),
{
    if exists|k: int|
        0 <= k < entries.len() && host_from_text(entries[k].0, entries[k].1) is Err {
        let k = choose|k: int|
            0 <= k < entries.len() && host_from_text(entries[k].0, entries[k].1) is Err;
        lemma_first_invalid_exists(entries, k);
    }
}

/// A table built from valid literals resolves what was configured: looking
/// up the protocol address of an entry finds the hardware address of that
/// entry, unless an earlier entry configures the same protocol address.
pub proof fn lemma_build_then_find(entries: Seq<(Seq<char>, Seq<char>)>, i: int)
    requires
        forall|j: int|
            0 <= j < entries.len() ==> host_from_text(
                (#[trigger] entries[j]).0,
                entries[j].1,
            ) is Ok,
        0 <= i < entries.len(),
        forall|j: int|
            0 <= j < i ==> ipv4_from_text((#[trigger] entries[j]).0) != ipv4_from_text(
                entries[i].0,
            ),
    ensures
        table_from_text(entries) is Ok,
        ipv4_from_text(entries[i].0) is Some,
        mac_from_text(entries[i].1) is Ok,
        lookup(table_from_text(entries)->Ok_0, ipv4_from_text(entries[i].0)->Some_0) == Some(
            Host {
                ip_address: ipv4_from_text(entries[i].0)->Some_0,
                mac_address: mac_from_text(entries[i].1)->Ok_0,
            },
        ),
{
    lemma_table_from_valid_entries(entries);
    let table = table_from_text(entries)->Ok_0;
    let target = ipv4_from_text(entries[i].0)->Some_0;
    assert(host_from_text(entries[i].0, entries[i].1) == Ok::<Host, ConfigErrorView>(table[i]));
    assert forall|j: int| 0 <= j < i implies table[j].ip_address != target by {
        assert(host_from_text(entries[j].0, entries[j].1) == Ok::<Host, ConfigErrorView>(table[j]));
    }
    lemma_lookup_first(table, target, i);
}

/// Where an entry is invalid, some entry is the first invalid one.
proof fn lemma_first_invalid_exists(entries: Seq<(Seq<char>, Seq<char>)>, k: int)
    requires
        0 <= k < entries.len(),
        host_from_text(entries[k].0, entries[k].1) is Err,
    ensures
        exists|i: int| is_first_invalid(entries, i),
    decreases k,
{
    if exists|j: int| 0 <= j < k && host_from_text(entries[j].0, entries[j].1) is Err {
        let j = choose|j: int| 0 <= j < k && host_from_text(entries[j].0, entries[j].1) is Err;
        lemma_first_invalid_exists(entries, j);
    } else {
        assert(is_first_invalid(entries, k));
    }
}

} // verus!
