//! The decisions of the peer-to-peer sync engine: what it does with each
//! network event and each command of the platform shell. The network layer
//! carries out the actions that these decisions return.

use vstd::prelude::*;
use crate::types::{PeerInfo, PeerInfoView, strings_view, copy_strings, FileChunk, FileChunkView, FileRequest, FileRequestView, PairingMessage, PairingMessageView, SyncCommand, SyncCommandView, SyncEvent, SyncEventView, SyncMessage, SyncMessageView, PAIRING_TOPIC, TOPIC_NAME};
use crate::crypto::{format_six_digits, six_digits};
use crate::error::{ErrorCode, code_value};
use crate::text::{copy_string, chars_of, concat, find_chars, find_from, last_index_of, rfind_char, string_of_range, trim, trim_chars};

verus! {

broadcast use vstd::seq_lib::group_seq_properties;

/// The canonical text of a peer id, when the text parses as one
/// (`PeerId::from_str`, then `to_string`).
pub uninterp spec fn peer_id_text(s: Seq<char>) -> Option<Seq<char>>;

/// Whether the text parses as a multiaddress (`Multiaddr::from_str`).
pub uninterp spec fn multiaddr_parses(s: Seq<char>) -> bool;

/// `libp2p::PeerId` parsing: the canonical text is [`peer_id_text`] of the argument.
#[verifier::external_body]
fn parse_peer_id(s: &str) -> (r: Option<String>)
    ensures
        match r {
            Some(c) => peer_id_text(s@) == Some(c@),
            None => peer_id_text(s@) is None,
        },
{
    s.parse::<libp2p::PeerId>().ok().map(|p| p.to_string())
}

/// `libp2p::Multiaddr` parsing: succeeds exactly when [`multiaddr_parses`] holds.
#[verifier::external_body]
fn is_valid_multiaddr(s: &str) -> (r: bool)
    ensures
        r == multiaddr_parses(s@),
{
    s.parse::<libp2p::Multiaddr>().is_ok()
}

fn chars_range(cs: &[char], a: usize, b: usize) -> (v: Vec<char>)
    requires
        a <= b <= cs@.len(),
    ensures
        v@ == cs@.subrange(a as int, b as int),
{
    let mut v: Vec<char> = Vec::new();
    let mut i: usize = a;
    while i < b
        invariant
            a <= i <= b <= cs@.len(),
            v@ == cs@.subrange(a as int, i as int),
        decreases b - i,
    {
        v.push(cs[i]);
        i = i + 1;
        assert(v@ =~= cs@.subrange(a as int, i as int));
    }
    v
}

/// The multiaddress of a `host:port` or `[host]:port` text: `[v6]:port`
/// gives `/ip6/v6/tcp/port`, `host:port` (split at the last colon) gives
/// `/ip4/host/tcp/port`, and any other text is kept as it is; surrounding
/// whitespace is dropped first.
pub open spec fn host_port_multiaddr(input: Seq<char>) -> Seq<char> {
    let t = trim(input);
    let rest = t.drop_first();
    if t.len() > 0 && t[0] == '[' && find_from(rest, "]:"@, 0) is Some {
        let e = find_from(rest, "]:"@, 0)->0;
        "/ip6/"@ + rest.take(e) + "/tcp/"@ + rest.skip(e + 2)
    } else {
        match last_index_of(t, ':') {
            Some(c) => "/ip4/"@ + t.take(c) + "/tcp/"@ + t.skip(c + 1),
            None => t,
        }
    }
}

fn three_part(prefix: &str, a: &[char], a0: usize, a1: usize, middle: &str, b: &[char], b0: usize, b1: usize) -> (s: String)
    requires
        a0 <= a1 <= a@.len(),
        b0 <= b1 <= b@.len(),
    ensures
        s@ == prefix@ + a@.subrange(a0 as int, a1 as int) + middle@ + b@.subrange(b0 as int, b1 as int),
{
    let p1 = string_of_range(a, a0, a1);
    let p2 = string_of_range(b, b0, b1);
    let s = concat(prefix, p1.as_str());
    let s = concat(s.as_str(), middle);
    concat(s.as_str(), p2.as_str())
}

/// Turn a `host:port` text into a multiaddress (see [`host_port_multiaddr`]).
pub fn parse_host_port_to_multiaddr(input: &str) -> (addr: String)
    ensures
        addr@ == host_port_multiaddr(input@),
{
    let ic = chars_of(input);
    let t = trim_chars(ic.as_slice());
    if t.len() > 0 && t[0] == '[' {
        let rest = chars_range(t.as_slice(), 1, t.len());
        assert(rest@ =~= t@.drop_first());
        let needle = chars_of("]:");
        proof { reveal_strlit("]:"); }
        assert(needle@.len() == 2);
        match find_chars(rest.as_slice(), needle.as_slice()) {
            Some(e) => {
                let addr = three_part("/ip6/", rest.as_slice(), 0, e, "/tcp/", rest.as_slice(), e + 2, rest.len());
                assert(rest@.subrange(0, e as int) =~= rest@.take(e as int));
                assert(rest@.subrange(e + 2, rest@.len() as int) =~= rest@.skip(e + 2));
                return addr;
            },
            None => {},
        }
    }
    match rfind_char(t.as_slice(), ':') {
        Some(c) => {
            let addr = three_part("/ip4/", t.as_slice(), 0, c, "/tcp/", t.as_slice(), c + 1, t.len());
            assert(t@.subrange(0, c as int) =~= t@.take(c as int));
            assert(t@.subrange(c + 1, t@.len() as int) =~= t@.skip(c + 1));
            addr
        },
        None => crate::text::string_from_chars(t.as_slice()),
    }
}

/// The transport part of a multiaddress text: what precedes the first `/p2p/`.
pub open spec fn transport_part(addr: Seq<char>) -> Seq<char> {
    match find_from(addr, "/p2p/"@, 0) {
        Some(p) => addr.take(p),
        None => addr,
    }
}

/// Whether `addr` is one of our own listen addresses, ignoring a `/p2p/..`
/// suffix.
pub fn is_own_addr(addr: &str, local_addrs: &[String]) -> (r: bool)
    ensures
        r == crate::types::strings_view(local_addrs@).contains(transport_part(addr@)),
{
    let ac = chars_of(addr);
    let needle = chars_of("/p2p/");
    let tp: Vec<char> = match find_chars(ac.as_slice(), needle.as_slice()) {
        Some(p) => chars_range(ac.as_slice(), 0, p),
        None => ac,
    };
    assert(tp@ == transport_part(addr@)) by {
        if let Some(p) = find_from(addr@, "/p2p/"@, 0) {
            assert(addr@.subrange(0, p) =~= addr@.take(p));
        }
    }
    let ghost lv = crate::types::strings_view(local_addrs@);
    let mut i: usize = 0;
    while i < local_addrs.len()
        invariant
            lv == crate::types::strings_view(local_addrs@),
            tp@ == transport_part(addr@),
            i <= local_addrs@.len(),
            forall|j: int| 0 <= j < i ==> lv[j] != tp@,
        decreases local_addrs@.len() - i,
    {
        let lc = chars_of(local_addrs[i].as_str());
        if crate::text::chars_equal(lc.as_slice(), tp.as_slice()) {
            assert(lv[i as int] == tp@);
            assert(lv.contains(tp@));
            return true;
        }
        i = i + 1;
    }
    false
}

/// The last `/`-separated segment of `s` (`s.split('/').last()`).
pub open spec fn last_segment(s: Seq<char>) -> Seq<char> {
    match last_index_of(s, '/') {
        Some(i) => s.skip(i + 1),
        None => s,
    }
}

/// The device name that a peer announces: the last `/`-separated segment of
/// its agent version.
pub fn agent_device_name(agent_version: &str) -> (name: String)
    ensures
        name@ == last_segment(agent_version@),
{
    let c = chars_of(agent_version);
    let n = c.len();
    match rfind_char(c.as_slice(), '/') {
        Some(i) => {
            let s = string_of_range(c.as_slice(), i + 1, n);
            assert(c@.subrange(i + 1, c@.len() as int) =~= c@.skip(i + 1));
            s
        },
        None => crate::text::string_from_chars(c.as_slice()),
    }
}


/// The peers of a list of peer records, each under its id; a later record of
/// an id replaces an earlier one.
pub open spec fn peer_map(s: Seq<PeerInfoView>) -> Map<Seq<char>, PeerInfoView>
    decreases s.len(),
{
    if s.len() == 0 {
        Map::empty()
    } else {
        peer_map(s.drop_last()).insert(s.last().peer_id, s.last())
    }
}

pub open spec fn peers_view(s: Seq<PeerInfo>) -> Seq<PeerInfoView> {
    s.map_values(|p: PeerInfo| p@)
}

/// No two records share an id.
pub open spec fn unique_ids(s: Seq<PeerInfoView>) -> bool {
    forall|i: int, j: int| 0 <= i < j < s.len() ==> s[i].peer_id != s[j].peer_id
}

/// No string occurs twice.
pub open spec fn unique_strings(s: Seq<Seq<char>>) -> bool {
    forall|i: int, j: int| 0 <= i < j < s.len() ==> s[i] != s[j]
}

proof fn lemma_peer_map_index(s: Seq<PeerInfoView>, i: int)
    requires
        unique_ids(s),
        0 <= i < s.len(),
    ensures
        peer_map(s).contains_key(s[i].peer_id),
        peer_map(s)[s[i].peer_id] == s[i],
    decreases s.len(),
{
    if i < s.len() - 1 {
        lemma_peer_map_index(s.drop_last(), i);
    }
}

proof fn lemma_peer_map_keys(s: Seq<PeerInfoView>, k: Seq<char>)
    ensures
        peer_map(s).contains_key(k) <==> exists|i: int| 0 <= i < s.len() && s[i].peer_id == k,
        forall|k2: Seq<char>| #[trigger] peer_map(s).contains_key(k2) ==> peer_map(s)[k2].peer_id == k2,
    decreases s.len(),
{
    if s.len() > 0 {
        lemma_peer_map_keys(s.drop_last(), k);
        if peer_map(s.drop_last()).contains_key(k) {
            let i = choose|i: int| 0 <= i < s.len() - 1 && s.drop_last()[i].peer_id == k;
            assert(s[i].peer_id == k);
        }
        if exists|i: int| 0 <= i < s.len() && s[i].peer_id == k {
            let i = choose|i: int| 0 <= i < s.len() && s[i].peer_id == k;
            if i < s.len() - 1 {
                assert(s.drop_last()[i].peer_id == k);
            }
        }
        assert forall|k2: Seq<char>| #[trigger] peer_map(s).contains_key(k2) implies peer_map(s)[k2].peer_id == k2 by {
            lemma_peer_map_keys(s.drop_last(), k2);
        }
    }
}

proof fn lemma_peer_map_update(s: Seq<PeerInfoView>, j: int, v: PeerInfoView)
    requires
        unique_ids(s),
        0 <= j < s.len(),
        v.peer_id == s[j].peer_id,
    ensures
        peer_map(s.update(j, v)) == peer_map(s).insert(v.peer_id, v),
        unique_ids(s.update(j, v)),
    decreases s.len(),
{
    let u = s.update(j, v);
    if j == s.len() - 1 {
        assert(u.drop_last() =~= s.drop_last());
        assert(peer_map(u) =~= peer_map(s).insert(v.peer_id, v));
    } else {
        lemma_peer_map_update(s.drop_last(), j, v);
        assert(u.drop_last() =~= s.drop_last().update(j, v));
        assert(s.last().peer_id != v.peer_id);
        assert(peer_map(u) =~= peer_map(s).insert(v.peer_id, v));
    }
}

proof fn lemma_peer_map_remove(s: Seq<PeerInfoView>, j: int)
    requires
        unique_ids(s),
        0 <= j < s.len(),
    ensures
        peer_map(s.remove(j)) == peer_map(s).remove(s[j].peer_id),
        unique_ids(s.remove(j)),
    decreases s.len(),
{
    let r = s.remove(j);
    let k = s[j].peer_id;
    if j == s.len() - 1 {
        assert(r =~= s.drop_last());
        lemma_peer_map_keys(s.drop_last(), k);
        assert(!peer_map(s.drop_last()).contains_key(k));
        assert(peer_map(r) =~= peer_map(s).remove(k));
    } else {
        lemma_peer_map_remove(s.drop_last(), j);
        assert(r.drop_last() =~= s.drop_last().remove(j));
        assert(r.last() == s.last());
        assert(s.last().peer_id != k);
        assert(peer_map(r) =~= peer_map(s).remove(k));
    }
}

/// What the sync engine keeps track of between events.
#[derive(Clone, Debug)]
pub struct NetworkState {
    discovered_peers: Vec<PeerInfo>,
    paired_peers: Vec<String>,
    seen_pairing_sessions: Vec<String>,
    local_addrs: Vec<String>,
    local_peer_id: String,
    device_name: String,
    device_id: String,
    listen_port: u16,
}

/// Mathematical value of a [`NetworkState`].
pub struct NetView {
    /// The peers found on the network, by id.
    pub discovered: Map<Seq<char>, PeerInfoView>,
    /// The peers whose sync messages are accepted.
    pub paired: Set<Seq<char>>,
    /// The pairing sessions already shown to the user.
    pub seen: Set<Seq<char>>,
    /// Our own listen addresses.
    pub local_addrs: Set<Seq<char>>,
    pub local_peer_id: Seq<char>,
    pub device_name: Seq<char>,
    pub device_id: Seq<char>,
    pub listen_port: u16,
}

impl View for NetworkState {
    type V = NetView;

    closed spec fn view(&self) -> NetView {
        NetView {
            discovered: peer_map(peers_view(self.discovered_peers@)),
            paired: strings_view(self.paired_peers@).to_set(),
            seen: strings_view(self.seen_pairing_sessions@).to_set(),
            local_addrs: strings_view(self.local_addrs@).to_set(),
            local_peer_id: self.local_peer_id@,
            device_name: self.device_name@,
            device_id: self.device_id@,
            listen_port: self.listen_port,
        }
    }
}

/// Add a string to a duplicate-free list, unless it is there already.
fn set_insert(v: &mut Vec<String>, x: String)
    requires
        unique_strings(strings_view(old(v)@)),
    ensures
        unique_strings(strings_view(final(v)@)),
        strings_view(final(v)@).to_set() == strings_view(old(v)@).to_set().insert(x@),
{
    let ghost before = strings_view(v@);
    let mut i: usize = 0;
    while i < v.len()
        invariant
            before == strings_view(v@),
            unique_strings(before),
            i <= v@.len(),
            forall|j: int| 0 <= j < i ==> before[j] != x@,
        decreases v@.len() - i,
    {
        if v[i] == x {
            assert(before[i as int] == x@);
            assert(before.to_set() =~= before.to_set().insert(x@));
            return;
        }
        i = i + 1;
    }
    v.push(x);
    assert(strings_view(v@) =~= before.push(x@));
    assert(strings_view(v@).to_set() =~= before.to_set().insert(x@));
}

/// Remove a string from a duplicate-free list.
fn set_remove(v: &mut Vec<String>, x: &String)
    requires
        unique_strings(strings_view(old(v)@)),
    ensures
        unique_strings(strings_view(final(v)@)),
        strings_view(final(v)@).to_set() == strings_view(old(v)@).to_set().remove(x@),
{
    let ghost before = strings_view(v@);
    let mut i: usize = 0;
    while i < v.len()
        invariant
            before == strings_view(v@),
            before == strings_view(old(v)@),
            unique_strings(before),
            i <= v@.len(),
            forall|j: int| 0 <= j < i ==> before[j] != x@,
        decreases v@.len() - i,
    {
        if v[i] == *x {
            let ghost idx = i as int;
            assert(before[idx] == x@);
            v.remove(i);
            assert(strings_view(v@) =~= before.remove(idx));
            let ghost after = strings_view(v@);
            assert forall|y: Seq<char>| after.contains(y) implies before.contains(y) && y != x@ by {
                let k = choose|k: int| 0 <= k < after.len() && after[k] == y;
                assert(before[idx] == x@);
                if k < idx {
                    assert(before[k] == y);
                    assert(before[k] != before[idx]);
                } else {
                    assert(before[k + 1] == y);
                    assert(before[idx] != before[k + 1]);
                }
            }
            assert forall|y: Seq<char>| before.contains(y) && y != x@ implies after.contains(y) by {
                let k = choose|k: int| 0 <= k < before.len() && before[k] == y;
                if k < idx {
                    assert(after[k] == y);
                } else {
                    assert(k != idx);
                    assert(after[k - 1] == y);
                }
            }
            assert forall|a: int, b: int| 0 <= a < b < after.len() implies after[a] != after[b] by {
                let a2 = if a < idx { a } else { a + 1 };
                let b2 = if b < idx { b } else { b + 1 };
                assert(after[a] == before[a2]);
                assert(after[b] == before[b2]);
            }
            assert(strings_view(v@).to_set() =~= before.to_set().remove(x@));
            return;
        }
        i = i + 1;
    }
    assert(!before.contains(x@));
    assert(before.to_set() =~= before.to_set().remove(x@));
}

/// Whether a duplicate-free list holds a string.
fn set_contains(v: &Vec<String>, x: &String) -> (r: bool)
    ensures
        r == strings_view(v@).to_set().contains(x@),
{
    let ghost sv = strings_view(v@);
    let mut i: usize = 0;
    while i < v.len()
        invariant
            sv == strings_view(v@),
            i <= v@.len(),
            forall|j: int| 0 <= j < i ==> sv[j] != x@,
        decreases v@.len() - i,
    {
        if v[i] == *x {
            assert(sv[i as int] == x@);
            return true;
        }
        i = i + 1;
    }
    false
}

impl NetworkState {
    /// The state is well formed: no peer, pairing, session or address is
    /// recorded twice.
    pub closed spec fn wf(&self) -> bool {
        &&& unique_ids(peers_view(self.discovered_peers@))
        &&& unique_strings(strings_view(self.paired_peers@))
        &&& unique_strings(strings_view(self.seen_pairing_sessions@))
        &&& unique_strings(strings_view(self.local_addrs@))
    }

    /// A fresh state for the given identity: nothing discovered, paired or seen.
    pub fn new(local_peer_id: String, device_name: String, device_id: String, listen_port: u16) -> (s: NetworkState)
        ensures
            s.wf(),
            s@ == (NetView {
                discovered: Map::empty(),
                paired: Set::empty(),
                seen: Set::empty(),
                local_addrs: Set::empty(),
                local_peer_id: local_peer_id@,
                device_name: device_name@,
                device_id: device_id@,
                listen_port,
            }),
    {
        let s = NetworkState {
            discovered_peers: Vec::new(),
            paired_peers: Vec::new(),
            seen_pairing_sessions: Vec::new(),
            local_addrs: Vec::new(),
            local_peer_id,
            device_name,
            device_id,
            listen_port,
        };
        assert(strings_view(s.paired_peers@).to_set() =~= Set::<Seq<char>>::empty());
        assert(strings_view(s.seen_pairing_sessions@).to_set() =~= Set::<Seq<char>>::empty());
        assert(strings_view(s.local_addrs@).to_set() =~= Set::<Seq<char>>::empty());
        assert(peer_map(peers_view(s.discovered_peers@)) =~= Map::<Seq<char>, PeerInfoView>::empty());
        s
    }

    /// The port to listen on.
    pub fn listen_port(&self) -> (p: u16)
        ensures
            p == self@.listen_port,
    {
        self.listen_port
    }

    fn find_peer(&self, id: &String) -> (r: Option<usize>)
        requires
            self.wf(),
        ensures
            match r {
                Some(i) => i < self.discovered_peers@.len() && self.discovered_peers@[i as int].peer_id@ == id@
                    && self@.discovered.contains_key(id@) && self@.discovered[id@] == self.discovered_peers@[i as int]@,
                None => !self@.discovered.contains_key(id@),
            },
    {
        let ghost pv = peers_view(self.discovered_peers@);
        let mut i: usize = 0;
        while i < self.discovered_peers.len()
            invariant
                pv == peers_view(self.discovered_peers@),
                unique_ids(pv),
                i <= self.discovered_peers@.len(),
                forall|j: int| 0 <= j < i ==> pv[j].peer_id != id@,
            decreases self.discovered_peers@.len() - i,
        {
            if self.discovered_peers[i].peer_id == *id {
                proof { lemma_peer_map_index(pv, i as int); }
                return Some(i);
            }
            i = i + 1;
        }
        proof {
            lemma_peer_map_keys(pv, id@);
            if peer_map(pv).contains_key(id@) {
                let j = choose|j: int| 0 <= j < pv.len() && pv[j].peer_id == id@;
                assert(pv[j].peer_id != id@);
            }
        }
        None
    }

    /// Record a peer under its id, replacing an earlier record of it.
    fn upsert_peer(&mut self, info: PeerInfo)
        requires
            old(self).wf(),
        ensures
            final(self).wf(),
            final(self)@ == (NetView { discovered: old(self)@.discovered.insert(info@.peer_id, info@), ..old(self)@ }),
    {
        let ghost pv = peers_view(self.discovered_peers@);
        match self.find_peer(&info.peer_id) {
            Some(i) => {
                proof { lemma_peer_map_update(pv, i as int, info@); }
                let ghost iv = info@;
                self.discovered_peers.set(i, info);
                assert(peers_view(self.discovered_peers@) =~= pv.update(i as int, iv));
                assert(self@.discovered == old(self)@.discovered.insert(iv.peer_id, iv));
            },
            None => {
                let ghost iv = info@;
                self.discovered_peers.push(info);
                assert(peers_view(self.discovered_peers@) =~= pv.push(iv));
                assert(pv.push(iv).drop_last() =~= pv);
                proof {
                    lemma_peer_map_keys(pv, iv.peer_id);
                    assert forall|a: int, b: int| 0 <= a < b < pv.push(iv).len() implies pv.push(iv)[a].peer_id != pv.push(iv)[b].peer_id by {
                        if b == pv.len() {
                            assert(pv[a].peer_id != iv.peer_id);
                        }
                    }
                }
                assert(self@.discovered == old(self)@.discovered.insert(iv.peer_id, iv));
            },
        }
    }

    /// Drop the record of a peer, returning it.
    fn remove_peer(&mut self, id: &String) -> (r: Option<PeerInfo>)
        requires
            old(self).wf(),
        ensures
            final(self).wf(),
            final(self)@ == (NetView { discovered: old(self)@.discovered.remove(id@), ..old(self)@ }),
            match r {
                Some(info) => old(self)@.discovered.contains_key(id@) && info@ == old(self)@.discovered[id@],
                None => !old(self)@.discovered.contains_key(id@),
            },
    {
        let ghost pv = peers_view(self.discovered_peers@);
        match self.find_peer(id) {
            Some(i) => {
                proof { lemma_peer_map_remove(pv, i as int); }
                let info = self.discovered_peers.remove(i);
                assert(peers_view(self.discovered_peers@) =~= pv.remove(i as int));
                Some(info)
            },
            None => {
                assert(peer_map(pv) =~= peer_map(pv).remove(id@));
                None
            },
        }
    }
}


/// What the network layer reports, as plain values (peer ids and addresses
/// in their canonical text).
#[allow(inconsistent_fields)]
#[derive(Clone, Debug)]
pub enum NetworkEvent {
    /// Local discovery found peers at addresses.
    MdnsDiscovered { peers: Vec<(String, String)> },
    /// Local discovery lost peers.
    MdnsExpired { peers: Vec<String> },
    /// A peer identified itself.
    Identified { peer_id: String, agent_version: String, observed_addr: String, listen_addrs: Vec<String> },
    ConnectionEstablished { peer_id: String },
    ConnectionClosed { peer_id: String },
    /// A gossip message on `topic` from `source`, with what its payload
    /// parses to as a pairing message and as a sync message.
    GossipMessage { topic: String, source: String, pairing: Option<PairingMessage>, sync: Option<SyncMessage> },
    NewListenAddr { address: String },
    /// Dialing failed; `error` describes why.
    OutgoingConnectionError { error: String },
    /// A peer asks for a file.
    FileRequested { peer_id: String, request: FileRequest },
    /// A chunk of a file that we asked for arrived.
    FileChunkArrived { request_id: String, chunk: FileChunk },
    /// A file request that we sent failed.
    FileTransferFailed { request_id: String },
}

/// Mathematical value of a [`NetworkEvent`].
#[allow(inconsistent_fields)]
pub enum NetworkEventView {
    MdnsDiscovered { peers: Seq<(Seq<char>, Seq<char>)> },
    MdnsExpired { peers: Seq<Seq<char>> },
    Identified { peer_id: Seq<char>, agent_version: Seq<char>, observed_addr: Seq<char>, listen_addrs: Seq<Seq<char>> },
    ConnectionEstablished { peer_id: Seq<char> },
    ConnectionClosed { peer_id: Seq<char> },
    GossipMessage { topic: Seq<char>, source: Seq<char>, pairing: Option<PairingMessageView>, sync: Option<SyncMessageView> },
    NewListenAddr { address: Seq<char> },
    OutgoingConnectionError { error: Seq<char> },
    FileRequested { peer_id: Seq<char>, request: FileRequestView },
    FileChunkArrived { request_id: Seq<char>, chunk: FileChunkView },
    FileTransferFailed { request_id: Seq<char> },
}

pub open spec fn pairs_view(s: Seq<(String, String)>) -> Seq<(Seq<char>, Seq<char>)> {
    s.map_values(|p: (String, String)| (p.0@, p.1@))
}

pub open spec fn opt_pairing_view(m: Option<PairingMessage>) -> Option<PairingMessageView> {
    match m {
        Some(x) => Some(x@),
        None => None,
    }
}

pub open spec fn opt_sync_view(m: Option<SyncMessage>) -> Option<SyncMessageView> {
    match m {
        Some(x) => Some(x@),
        None => None,
    }
}

impl View for NetworkEvent {
    type V = NetworkEventView;

    open spec fn view(&self) -> NetworkEventView {
        match self {
            NetworkEvent::MdnsDiscovered { peers } => NetworkEventView::MdnsDiscovered { peers: pairs_view(peers@) },
            NetworkEvent::MdnsExpired { peers } => NetworkEventView::MdnsExpired { peers: strings_view(peers@) },
            NetworkEvent::Identified { peer_id, agent_version, observed_addr, listen_addrs } => NetworkEventView::Identified {
                peer_id: peer_id@,
                agent_version: agent_version@,
                observed_addr: observed_addr@,
                listen_addrs: strings_view(listen_addrs@),
            },
            NetworkEvent::ConnectionEstablished { peer_id } => NetworkEventView::ConnectionEstablished { peer_id: peer_id@ },
            NetworkEvent::ConnectionClosed { peer_id } => NetworkEventView::ConnectionClosed { peer_id: peer_id@ },
            NetworkEvent::GossipMessage { topic, source, pairing, sync } => NetworkEventView::GossipMessage {
                topic: topic@,
                source: source@,
                pairing: opt_pairing_view(*pairing),
                sync: opt_sync_view(*sync),
            },
            NetworkEvent::NewListenAddr { address } => NetworkEventView::NewListenAddr { address: address@ },
            NetworkEvent::OutgoingConnectionError { error } => NetworkEventView::OutgoingConnectionError { error: error@ },
            NetworkEvent::FileRequested { peer_id, request } => NetworkEventView::FileRequested { peer_id: peer_id@, request: request@ },
            NetworkEvent::FileChunkArrived { request_id, chunk } => NetworkEventView::FileChunkArrived { request_id: request_id@, chunk: chunk@ },
            NetworkEvent::FileTransferFailed { request_id } => NetworkEventView::FileTransferFailed { request_id: request_id@ },
        }
    }
}

/// What the network layer has to do.
#[derive(Clone, Debug)]
pub enum NetworkAction {
    /// Report an event to the platform shell.
    Emit(SyncEvent),
    /// Dial a peer by id.
    Dial { peer_id: String },
    /// Dial a multiaddress.
    DialAddress { address: String },
    /// Publish a message to the pairing topic.
    PublishPairing(PairingMessage),
    /// Publish a message to the sync topic.
    PublishSync(SyncMessage),
    /// Answer a peer's file request with the file.
    ServeFile { peer_id: String, request: FileRequest },
    /// Ask a peer for a file.
    RequestFile { peer_id: String, request: FileRequest },
    /// Stop the engine.
    Stop,
}

/// Mathematical value of a [`NetworkAction`].
pub enum NetworkActionView {
    Emit(SyncEventView),
    Dial { peer_id: Seq<char> },
    DialAddress { address: Seq<char> },
    PublishPairing(PairingMessageView),
    PublishSync(SyncMessageView),
    ServeFile { peer_id: Seq<char>, request: FileRequestView },
    RequestFile { peer_id: Seq<char>, request: FileRequestView },
    Stop,
}

impl View for NetworkAction {
    type V = NetworkActionView;

    open spec fn view(&self) -> NetworkActionView {
        match self {
            NetworkAction::Emit(e) => NetworkActionView::Emit(e@),
            NetworkAction::Dial { peer_id } => NetworkActionView::Dial { peer_id: peer_id@ },
            NetworkAction::DialAddress { address } => NetworkActionView::DialAddress { address: address@ },
            NetworkAction::PublishPairing(m) => NetworkActionView::PublishPairing(m@),
            NetworkAction::PublishSync(m) => NetworkActionView::PublishSync(m@),
            NetworkAction::ServeFile { peer_id, request } => NetworkActionView::ServeFile { peer_id: peer_id@, request: request@ },
            NetworkAction::RequestFile { peer_id, request } => NetworkActionView::RequestFile { peer_id: peer_id@, request: request@ },
            NetworkAction::Stop => NetworkActionView::Stop,
        }
    }
}

pub open spec fn actions_view(s: Seq<NetworkAction>) -> Seq<NetworkActionView> {
    s.map_values(|a: NetworkAction| a@)
}

/// A found peer is recorded (with no name yet, unconnected) and dialed,
/// unless it is ourselves, or a peer not yet known at one of our own
/// addresses.
pub open spec fn mdns_found_step(st: NetView, peer: Seq<char>, addr: Seq<char>) -> (NetView, Seq<NetworkActionView>) {
    if peer == st.local_peer_id || (!st.discovered.contains_key(peer) && st.local_addrs.contains(transport_part(addr))) {
        (st, Seq::empty())
    } else {
        (
            NetView {
                discovered: st.discovered.insert(peer, PeerInfoView { peer_id: peer, display_name: Seq::empty(), addresses: seq![addr], is_connected: false }),
                ..st
            },
            seq![NetworkActionView::Dial { peer_id: peer }],
        )
    }
}

pub open spec fn mdns_found(st: NetView, peers: Seq<(Seq<char>, Seq<char>)>) -> (NetView, Seq<NetworkActionView>)
    decreases peers.len(),
{
    if peers.len() == 0 {
        (st, Seq::empty())
    } else {
        let (s1, a1) = mdns_found(st, peers.drop_last());
        let (s2, a2) = mdns_found_step(s1, peers.last().0, peers.last().1);
        (s2, a1 + a2)
    }
}

/// A lost peer is forgotten and reported lost, when it was known.
pub open spec fn mdns_lost_step(st: NetView, peer: Seq<char>) -> (NetView, Seq<NetworkActionView>) {
    if st.discovered.contains_key(peer) {
        (
            NetView { discovered: st.discovered.remove(peer), ..st },
            seq![NetworkActionView::Emit(SyncEventView::PeerLost { peer_id: st.discovered[peer].peer_id })],
        )
    } else {
        (st, Seq::empty())
    }
}

pub open spec fn mdns_lost(st: NetView, peers: Seq<Seq<char>>) -> (NetView, Seq<NetworkActionView>)
    decreases peers.len(),
{
    if peers.len() == 0 {
        (st, Seq::empty())
    } else {
        let (s1, a1) = mdns_lost(st, peers.drop_last());
        let (s2, a2) = mdns_lost_step(s1, peers.last());
        (s2, a1 + a2)
    }
}

/// An identified peer gets the name from its agent version and its listen
/// addresses (else the observed address), and is reported.
pub open spec fn identified_step(
    st: NetView,
    peer: Seq<char>,
    agent: Seq<char>,
    observed: Seq<char>,
    listen: Seq<Seq<char>>,
) -> (NetView, Seq<NetworkActionView>) {
    if peer == st.local_peer_id {
        (st, Seq::empty())
    } else {
        let name = last_segment(agent);
        let info = if st.discovered.contains_key(peer) {
            let old = st.discovered[peer];
            PeerInfoView {
                display_name: name,
                addresses: if listen.len() > 0 {
                    listen
                } else if observed.len() > 0 {
                    seq![observed]
                } else {
                    old.addresses
                },
                ..old
            }
        } else {
            PeerInfoView {
                peer_id: peer,
                display_name: name,
                addresses: if listen.len() > 0 { listen } else { seq![observed] },
                is_connected: true,
            }
        };
        (
            NetView { discovered: st.discovered.insert(peer, info), ..st },
            seq![NetworkActionView::Emit(SyncEventView::PeerDiscovered { peer: info })],
        )
    }
}

/// A known peer's connection flag follows the connection; it is reported
/// when its name is known.
pub open spec fn connection_step(st: NetView, peer: Seq<char>, connected: bool) -> (NetView, Seq<NetworkActionView>) {
    if st.discovered.contains_key(peer) {
        let info = PeerInfoView { is_connected: connected, ..st.discovered[peer] };
        (
            NetView { discovered: st.discovered.insert(peer, info), ..st },
            if info.display_name.len() > 0 {
                seq![NetworkActionView::Emit(SyncEventView::PeerDiscovered { peer: info })]
            } else {
                Seq::empty()
            },
        )
    } else {
        (st, Seq::empty())
    }
}

/// What a sync message from a paired peer is reported as.
pub open spec fn sync_message_actions(m: SyncMessageView) -> Seq<NetworkActionView> {
    match m {
        SyncMessageView::ItemAdded { item_json } => seq![NetworkActionView::Emit(SyncEventView::ItemReceived { item_json })],
        SyncMessageView::ItemDeleted { id, .. } => seq![NetworkActionView::Emit(SyncEventView::ItemDeleted { item_id: id })],
        SyncMessageView::ItemUpdated { item_json } => seq![NetworkActionView::Emit(SyncEventView::ItemUpdated { item_json })],
        SyncMessageView::Heartbeat { .. } => Seq::empty(),
    }
}

/// A pairing message from `peer`: a request of an unseen session is shown
/// once, with a PIN made of `random`; an acceptance pairs the peer; a
/// rejection is reported.
pub open spec fn pairing_step(st: NetView, peer: Seq<char>, m: PairingMessageView, random: u32) -> (NetView, Seq<NetworkActionView>) {
    match m {
        PairingMessageView::Request { session_id, device_name, .. } => if st.seen.contains(session_id) {
            (st, Seq::empty())
        } else {
            (
                NetView { seen: st.seen.insert(session_id), ..st },
                seq![NetworkActionView::Emit(SyncEventView::PairingRequest { peer_id: peer, display_name: device_name, pin: six_digits(random as int) })],
            )
        },
        PairingMessageView::Accept { .. } => (
            NetView { paired: st.paired.insert(peer), ..st },
            seq![NetworkActionView::Emit(SyncEventView::PairingComplete { peer_id: peer, success: true })],
        ),
        PairingMessageView::Reject { .. } => (st, seq![NetworkActionView::Emit(SyncEventView::PairingComplete { peer_id: peer, success: false })]),
        _ => (st, Seq::empty()),
    }
}

/// The text of a connection failure.
pub open spec fn connection_failed_message(error: Seq<char>) -> Seq<char> {
    "Connection failed: "@ + error
}

/// The next state and the actions for a network event. Sync messages count
/// only when they come from a paired peer.
pub open spec fn event_step(st: NetView, ev: NetworkEventView, random: u32) -> (NetView, Seq<NetworkActionView>) {
    match ev {
        NetworkEventView::MdnsDiscovered { peers } => mdns_found(st, peers),
        NetworkEventView::MdnsExpired { peers } => mdns_lost(st, peers),
        NetworkEventView::Identified { peer_id, agent_version, observed_addr, listen_addrs } =>
            identified_step(st, peer_id, agent_version, observed_addr, listen_addrs),
        NetworkEventView::ConnectionEstablished { peer_id } => connection_step(st, peer_id, true),
        NetworkEventView::ConnectionClosed { peer_id } => connection_step(st, peer_id, false),
        NetworkEventView::GossipMessage { topic, source, pairing, sync } => if topic == PAIRING_TOPIC@ {
            match pairing {
                Some(m) => pairing_step(st, source, m, random),
                None => (st, Seq::empty()),
            }
        } else if topic == TOPIC_NAME@ && st.paired.contains(source) {
            match sync {
                Some(m) => (st, sync_message_actions(m)),
                None => (st, Seq::empty()),
            }
        } else {
            (st, Seq::empty())
        },
        NetworkEventView::NewListenAddr { address } => (
            NetView { local_addrs: st.local_addrs.insert(address), ..st },
            seq![NetworkActionView::Emit(SyncEventView::Listening { address })],
        ),
        NetworkEventView::OutgoingConnectionError { error } => (
            st,
            seq![NetworkActionView::Emit(SyncEventView::Error { code: code_value(ErrorCode::Network), message: connection_failed_message(error) })],
        ),
        NetworkEventView::FileRequested { peer_id, request } => (st, seq![NetworkActionView::ServeFile { peer_id, request }]),
        NetworkEventView::FileChunkArrived { request_id, chunk } => (
            st,
            seq![NetworkActionView::Emit(SyncEventView::FileChunkReceived {
                request_id,
                file_name: chunk.file_name,
                file_size: chunk.file_size,
                chunk_index: chunk.chunk_index,
                total_chunks: chunk.total_chunks,
                data: chunk.data,
            })],
        ),
        NetworkEventView::FileTransferFailed { request_id } => (
            st,
            seq![NetworkActionView::Emit(SyncEventView::FileDownloadComplete { request_id, file_path: Seq::empty(), success: false })],
        ),
    }
}


fn append_actions(acts: &mut Vec<NetworkAction>, more: Vec<NetworkAction>)
    ensures
        actions_view(final(acts)@) == actions_view(old(acts)@) + actions_view(more@),
{
    let mut more = more;
    let ghost m = more@;
    acts.append(&mut more);
    assert(actions_view(acts@) =~= actions_view(old(acts)@) + actions_view(m));
}

fn one_action(a: NetworkAction) -> (v: Vec<NetworkAction>)
    ensures
        actions_view(v@) == seq![a@],
{
    let ghost av = a@;
    let v = vec![a];
    assert(actions_view(v@) =~= seq![av]);
    v
}

fn no_actions() -> (v: Vec<NetworkAction>)
    ensures
        actions_view(v@) == Seq::<NetworkActionView>::empty(),
{
    let v: Vec<NetworkAction> = Vec::new();
    assert(actions_view(v@) =~= Seq::<NetworkActionView>::empty());
    v
}

fn one_string(s: String) -> (v: Vec<String>)
    ensures
        strings_view(v@) == seq![s@],
{
    let ghost sv = s@;
    let v = vec![s];
    assert(strings_view(v@) =~= seq![sv]);
    v
}

impl NetworkState {
    fn mdns_found_one(&mut self, peer: &String, addr: &String) -> (acts: Vec<NetworkAction>)
        requires
            old(self).wf(),
        ensures
            final(self).wf(),
            (final(self)@, actions_view(acts@)) == mdns_found_step(old(self)@, peer@, addr@),
    {
        if *peer == self.local_peer_id {
            return no_actions();
        }
        let known = self.find_peer(peer).is_some();
        if !known && is_own_addr(addr.as_str(), self.local_addrs.as_slice()) {
            return no_actions();
        }
        let info = PeerInfo {
            peer_id: copy_string(peer),
            display_name: String::new(),
            addresses: one_string(copy_string(addr)),
            is_connected: false,
        };
        self.upsert_peer(info);
        one_action(NetworkAction::Dial { peer_id: copy_string(peer) })
    }

    fn on_mdns_discovered(&mut self, peers: &Vec<(String, String)>) -> (acts: Vec<NetworkAction>)
        requires
            old(self).wf(),
        ensures
            final(self).wf(),
            (final(self)@, actions_view(acts@)) == mdns_found(old(self)@, pairs_view(peers@)),
    {
        let ghost st0 = self@;
        let ghost pv = pairs_view(peers@);
        let mut acts = no_actions();
        let mut i: usize = 0;
        assert(pv.take(0) =~= Seq::<(Seq<char>, Seq<char>)>::empty());
        while i < peers.len()
            invariant
                self.wf(),
                pv == pairs_view(peers@),
                i <= peers@.len(),
                (self@, actions_view(acts@)) == mdns_found(st0, pv.take(i as int)),
            decreases peers@.len() - i,
        {
            proof {
                assert(pv.take(i + 1).drop_last() =~= pv.take(i as int));
                assert(pv.take(i + 1).last() == (peers@[i as int].0@, peers@[i as int].1@));
            }
            let more = self.mdns_found_one(&peers[i].0, &peers[i].1);
            append_actions(&mut acts, more);
            i = i + 1;
        }
        assert(pv.take(peers@.len() as int) =~= pv);
        acts
    }

    fn mdns_lost_one(&mut self, peer: &String) -> (acts: Vec<NetworkAction>)
        requires
            old(self).wf(),
        ensures
            final(self).wf(),
            (final(self)@, actions_view(acts@)) == mdns_lost_step(old(self)@, peer@),
    {
        let ghost st = self@;
        match self.remove_peer(peer) {
            Some(info) => {
                let ghost pid = info.peer_id@;
                assert(pid == st.discovered[peer@].peer_id);
                let acts = one_action(NetworkAction::Emit(SyncEvent::PeerLost { peer_id: info.peer_id }));
                assert(actions_view(acts@) == seq![NetworkActionView::Emit(SyncEventView::PeerLost { peer_id: pid })]);
                acts
            },
            None => {
                assert(st.discovered.remove(peer@) =~= st.discovered);
                no_actions()
            },
        }
    }

    fn on_mdns_expired(&mut self, peers: &Vec<String>) -> (acts: Vec<NetworkAction>)
        requires
            old(self).wf(),
        ensures
            final(self).wf(),
            (final(self)@, actions_view(acts@)) == mdns_lost(old(self)@, strings_view(peers@)),
    {
        let ghost st0 = self@;
        let ghost pv = strings_view(peers@);
        let mut acts = no_actions();
        let mut i: usize = 0;
        assert(pv.take(0) =~= Seq::<Seq<char>>::empty());
        while i < peers.len()
            invariant
                self.wf(),
                pv == strings_view(peers@),
                i <= peers@.len(),
                (self@, actions_view(acts@)) == mdns_lost(st0, pv.take(i as int)),
            decreases peers@.len() - i,
        {
            proof {
                assert(pv.take(i + 1).drop_last() =~= pv.take(i as int));
                assert(pv.take(i + 1).last() == peers@[i as int]@);
            }
            let more = self.mdns_lost_one(&peers[i]);
            append_actions(&mut acts, more);
            i = i + 1;
        }
        assert(pv.take(peers@.len() as int) =~= pv);
        acts
    }

    fn on_identified(&mut self, peer_id: String, agent_version: String, observed_addr: String, listen_addrs: Vec<String>) -> (acts: Vec<NetworkAction>)
        requires
            old(self).wf(),
        ensures
            final(self).wf(),
            (final(self)@, actions_view(acts@)) == identified_step(old(self)@, peer_id@, agent_version@, observed_addr@, strings_view(listen_addrs@)),
    {
        if peer_id == self.local_peer_id {
            return no_actions();
        }
        let name = agent_device_name(agent_version.as_str());
        let info = match self.find_peer(&peer_id) {
            Some(i) => {
                let mut info = self.discovered_peers[i].duplicate();
                info.display_name = name;
                if listen_addrs.len() > 0 {
                    info.addresses = listen_addrs;
                } else if !observed_addr.as_str().is_empty() {
                    info.addresses = one_string(observed_addr);
                }
                info
            },
            None => {
                let addresses = if listen_addrs.len() > 0 { listen_addrs } else { one_string(observed_addr) };
                PeerInfo { peer_id: copy_string(&peer_id), display_name: name, addresses, is_connected: true }
            },
        };
        let reported = info.duplicate();
        self.upsert_peer(info);
        one_action(NetworkAction::Emit(SyncEvent::PeerDiscovered { peer: reported }))
    }

    fn on_connection(&mut self, peer_id: &String, connected: bool) -> (acts: Vec<NetworkAction>)
        requires
            old(self).wf(),
        ensures
            final(self).wf(),
            (final(self)@, actions_view(acts@)) == connection_step(old(self)@, peer_id@, connected),
    {
        match self.find_peer(peer_id) {
            Some(i) => {
                let mut info = self.discovered_peers[i].duplicate();
                info.is_connected = connected;
                let named = !info.display_name.as_str().is_empty();
                let reported = info.duplicate();
                self.upsert_peer(info);
                if named {
                    one_action(NetworkAction::Emit(SyncEvent::PeerDiscovered { peer: reported }))
                } else {
                    no_actions()
                }
            },
            None => no_actions(),
        }
    }

    /// Handle a pairing message from `peer` (see [`pairing_step`]).
    pub fn handle_pairing_message(&mut self, peer: String, msg: PairingMessage, random: u32) -> (acts: Vec<NetworkAction>)
        requires
            old(self).wf(),
        ensures
            final(self).wf(),
            (final(self)@, actions_view(acts@)) == pairing_step(old(self)@, peer@, msg@, random),
    {
        match msg {
            PairingMessage::Request { session_id, device_name, .. } => {
                if set_contains(&self.seen_pairing_sessions, &session_id) {
                    no_actions()
                } else {
                    set_insert(&mut self.seen_pairing_sessions, session_id);
                    let pin = format_six_digits(random);
                    one_action(NetworkAction::Emit(SyncEvent::PairingRequest { peer_id: peer, display_name: device_name, pin }))
                }
            },
            PairingMessage::Accept { .. } => {
                set_insert(&mut self.paired_peers, copy_string(&peer));
                one_action(NetworkAction::Emit(SyncEvent::PairingComplete { peer_id: peer, success: true }))
            },
            PairingMessage::Reject { .. } => {
                one_action(NetworkAction::Emit(SyncEvent::PairingComplete { peer_id: peer, success: false }))
            },
            _ => no_actions(),
        }
    }

    /// What a sync message from a paired peer is reported as.
    pub fn handle_sync_message(msg: SyncMessage) -> (acts: Vec<NetworkAction>)
        ensures
            actions_view(acts@) == sync_message_actions(msg@),
    {
        match msg {
            SyncMessage::ItemAdded { item_json } => one_action(NetworkAction::Emit(SyncEvent::ItemReceived { item_json })),
            SyncMessage::ItemDeleted { id, .. } => one_action(NetworkAction::Emit(SyncEvent::ItemDeleted { item_id: id })),
            SyncMessage::ItemUpdated { item_json } => one_action(NetworkAction::Emit(SyncEvent::ItemUpdated { item_json })),
            SyncMessage::Heartbeat { .. } => no_actions(),
        }
    }

    /// Handle a network event: update what is known of peers, pairings and
    /// our addresses, and return what the network layer must do (see
    /// [`event_step`]). `random` is a fresh random number, from which the PIN
    /// of a new pairing request is made.
    pub fn handle_event(&mut self, event: NetworkEvent, random: u32) -> (acts: Vec<NetworkAction>)
        requires
            old(self).wf(),
        ensures
            final(self).wf(),
            (final(self)@, actions_view(acts@)) == event_step(old(self)@, event@, random),
    {
        match event {
            NetworkEvent::MdnsDiscovered { peers } => self.on_mdns_discovered(&peers),
            NetworkEvent::MdnsExpired { peers } => self.on_mdns_expired(&peers),
            NetworkEvent::Identified { peer_id, agent_version, observed_addr, listen_addrs } =>
                self.on_identified(peer_id, agent_version, observed_addr, listen_addrs),
            NetworkEvent::ConnectionEstablished { peer_id } => self.on_connection(&peer_id, true),
            NetworkEvent::ConnectionClosed { peer_id } => self.on_connection(&peer_id, false),
            NetworkEvent::GossipMessage { topic, source, pairing, sync } => {
                if crate::text::str_equal(topic.as_str(), PAIRING_TOPIC) {
                    match pairing {
                        Some(m) => self.handle_pairing_message(source, m, random),
                        None => no_actions(),
                    }
                } else if crate::text::str_equal(topic.as_str(), TOPIC_NAME) && set_contains(&self.paired_peers, &source) {
                    match sync {
                        Some(m) => Self::handle_sync_message(m),
                        None => no_actions(),
                    }
                } else {
                    no_actions()
                }
            },
            NetworkEvent::NewListenAddr { address } => {
                set_insert(&mut self.local_addrs, copy_string(&address));
                one_action(NetworkAction::Emit(SyncEvent::Listening { address }))
            },
            NetworkEvent::OutgoingConnectionError { error } => {
                let message = concat("Connection failed: ", error.as_str());
                one_action(NetworkAction::Emit(SyncEvent::Error { code: ErrorCode::Network.value(), message }))
            },
            NetworkEvent::FileRequested { peer_id, request } => one_action(NetworkAction::ServeFile { peer_id, request }),
            NetworkEvent::FileChunkArrived { request_id, chunk } => one_action(
                NetworkAction::Emit(SyncEvent::FileChunkReceived {
                    request_id,
                    file_name: chunk.file_name,
                    file_size: chunk.file_size,
                    chunk_index: chunk.chunk_index,
                    total_chunks: chunk.total_chunks,
                    data: chunk.data,
                }),
            ),
            NetworkEvent::FileTransferFailed { request_id } => one_action(
                NetworkAction::Emit(SyncEvent::FileDownloadComplete { request_id, file_path: String::new(), success: false }),
            ),
        }
    }
}


/// The multiaddress that `AddPeerAddress` dials: a text starting with `/` as
/// it is, any other as [`host_port_multiaddr`] reads it.
pub open spec fn address_to_dial(a: Seq<char>) -> Seq<char> {
    if a.len() > 0 && a[0] == '/' {
        a
    } else {
        host_port_multiaddr(a)
    }
}

/// The text of a rejected address.
pub open spec fn invalid_address_message(a: Seq<char>) -> Seq<char> {
    "Invalid address: "@ + a
}

/// The next state and the actions for a command of the platform shell.
/// Commands that name a peer do nothing when the name is no peer id.
/// Requesting a pairing pairs the peer at once, under the fresh `session_id`;
/// a deletion is stamped with the time `now`.
pub open spec fn command_step(st: NetView, cmd: SyncCommandView, session_id: Seq<char>, now: Seq<char>) -> (NetView, Seq<NetworkActionView>) {
    match cmd {
        SyncCommandView::BroadcastItem { item_json } => (st, seq![NetworkActionView::PublishSync(SyncMessageView::ItemAdded { item_json })]),
        SyncCommandView::BroadcastDeletion { item_id } => (st, seq![NetworkActionView::PublishSync(SyncMessageView::ItemDeleted { id: item_id, timestamp: now })]),
        SyncCommandView::BroadcastUpdate { item_json } => (st, seq![NetworkActionView::PublishSync(SyncMessageView::ItemUpdated { item_json })]),
        SyncCommandView::StartDiscovery => (st, Seq::empty()),
        SyncCommandView::StopDiscovery => (st, Seq::empty()),
        SyncCommandView::RequestPairing { peer_id } => match peer_id_text(peer_id) {
            Some(p) => (
                NetView { paired: st.paired.insert(p), seen: st.seen.insert(session_id), ..st },
                seq![
                    NetworkActionView::PublishPairing(PairingMessageView::Request {
                        session_id,
                        device_name: st.device_name,
                        device_id: st.device_id,
                        public_key: Seq::empty(),
                    }),
                    NetworkActionView::Emit(SyncEventView::PairingComplete { peer_id: p, success: true }),
                ],
            ),
            None => (st, Seq::empty()),
        },
        SyncCommandView::AcceptPairing { peer_id, .. } => match peer_id_text(peer_id) {
            Some(p) => (
                NetView { paired: st.paired.insert(p), ..st },
                seq![
                    NetworkActionView::PublishPairing(PairingMessageView::Accept { session_id: Seq::empty() }),
                    NetworkActionView::Emit(SyncEventView::PairingComplete { peer_id: p, success: true }),
                ],
            ),
            None => (st, Seq::empty()),
        },
        SyncCommandView::RejectPairing { peer_id } => match peer_id_text(peer_id) {
            Some(p) => (st, seq![NetworkActionView::PublishPairing(PairingMessageView::Reject { session_id: Seq::empty() })]),
            None => (st, Seq::empty()),
        },
        SyncCommandView::AddPeerAddress { address } => if multiaddr_parses(address_to_dial(address)) {
            (st, seq![NetworkActionView::DialAddress { address: address_to_dial(address) }])
        } else {
            (st, seq![NetworkActionView::Emit(SyncEventView::Error { code: code_value(ErrorCode::InvalidArg), message: invalid_address_message(address) })])
        },
        SyncCommandView::Unpair { peer_id } => match peer_id_text(peer_id) {
            Some(p) => (NetView { paired: st.paired.remove(p), ..st }, Seq::empty()),
            None => (st, Seq::empty()),
        },
        SyncCommandView::SendFileChunk { peer_id, request_id, file_path, offset } => match peer_id_text(peer_id) {
            Some(p) => (st, seq![NetworkActionView::RequestFile { peer_id: p, request: FileRequestView { request_id, file_path, offset } }]),
            None => (st, Seq::empty()),
        },
        SyncCommandView::Shutdown => (st, seq![NetworkActionView::Stop]),
    }
}

/// The canonical ids of those texts that are peer ids.
pub open spec fn parsed_peers(ids: Seq<Seq<char>>) -> Set<Seq<char>>
    decreases ids.len(),
{
    if ids.len() == 0 {
        Set::empty()
    } else {
        match peer_id_text(ids.last()) {
            Some(p) => parsed_peers(ids.drop_last()).insert(p),
            None => parsed_peers(ids.drop_last()),
        }
    }
}

fn two_actions(a: NetworkAction, b: NetworkAction) -> (v: Vec<NetworkAction>)
    ensures
        actions_view(v@) == seq![a@, b@],
{
    let ghost av = a@;
    let ghost bv = b@;
    let v = vec![a, b];
    assert(actions_view(v@) =~= seq![av, bv]);
    v
}

impl NetworkState {
    /// Restore the paired peers saved from an earlier run: each text that is
    /// a peer id is paired (so that its sync messages are accepted again).
    pub fn set_initial_paired_peers(&mut self, peer_ids: Vec<String>)
        requires
            old(self).wf(),
        ensures
            final(self).wf(),
            final(self)@ == (NetView { paired: old(self)@.paired.union(parsed_peers(strings_view(peer_ids@))), ..old(self)@ }),
    {
        let ghost st0 = self@;
        let ghost iv = strings_view(peer_ids@);
        let mut i: usize = 0;
        assert(iv.take(0) =~= Seq::<Seq<char>>::empty());
        assert(st0.paired.union(parsed_peers(iv.take(0))) =~= st0.paired);
        while i < peer_ids.len()
            invariant
                self.wf(),
                iv == strings_view(peer_ids@),
                i <= peer_ids@.len(),
                self@ == (NetView { paired: st0.paired.union(parsed_peers(iv.take(i as int))), ..st0 }),
            decreases peer_ids@.len() - i,
        {
            proof {
                assert(iv.take(i + 1).drop_last() =~= iv.take(i as int));
                assert(iv.take(i + 1).last() == peer_ids@[i as int]@);
            }
            match parse_peer_id(peer_ids[i].as_str()) {
                Some(p) => {
                    let ghost pv = p@;
                    set_insert(&mut self.paired_peers, p);
                    assert(st0.paired.union(parsed_peers(iv.take(i + 1))) =~= st0.paired.union(parsed_peers(iv.take(i as int))).insert(pv));
                },
                None => {},
            }
            i = i + 1;
        }
        assert(iv.take(peer_ids@.len() as int) =~= iv);
    }

    /// Handle a command of the platform shell (see [`command_step`]);
    /// `session_id` is a fresh session id and `now` the current time as
    /// RFC 3339 text.
    pub fn handle_command(&mut self, command: SyncCommand, session_id: String, now: String) -> (acts: Vec<NetworkAction>)
        requires
            old(self).wf(),
        ensures
            final(self).wf(),
            (final(self)@, actions_view(acts@)) == command_step(old(self)@, command@, session_id@, now@),
    {
        match command {
            SyncCommand::BroadcastItem { item_json } => one_action(NetworkAction::PublishSync(SyncMessage::ItemAdded { item_json })),
            SyncCommand::BroadcastDeletion { item_id } => one_action(NetworkAction::PublishSync(SyncMessage::ItemDeleted { id: item_id, timestamp: now })),
            SyncCommand::BroadcastUpdate { item_json } => one_action(NetworkAction::PublishSync(SyncMessage::ItemUpdated { item_json })),
            SyncCommand::StartDiscovery => no_actions(),
            SyncCommand::StopDiscovery => no_actions(),
            SyncCommand::RequestPairing { peer_id } => match parse_peer_id(peer_id.as_str()) {
                Some(p) => {
                    let request = PairingMessage::Request {
                        session_id: copy_string(&session_id),
                        device_name: copy_string(&self.device_name),
                        device_id: copy_string(&self.device_id),
                        public_key: Vec::new(),
                    };
                    set_insert(&mut self.paired_peers, copy_string(&p));
                    set_insert(&mut self.seen_pairing_sessions, session_id);
                    two_actions(NetworkAction::PublishPairing(request), NetworkAction::Emit(SyncEvent::PairingComplete { peer_id: p, success: true }))
                },
                None => no_actions(),
            },
            SyncCommand::AcceptPairing { peer_id, .. } => match parse_peer_id(peer_id.as_str()) {
                Some(p) => {
                    set_insert(&mut self.paired_peers, copy_string(&p));
                    two_actions(
                        NetworkAction::PublishPairing(PairingMessage::Accept { session_id: String::new() }),
                        NetworkAction::Emit(SyncEvent::PairingComplete { peer_id: p, success: true }),
                    )
                },
                None => no_actions(),
            },
            SyncCommand::RejectPairing { peer_id } => match parse_peer_id(peer_id.as_str()) {
                Some(_) => one_action(NetworkAction::PublishPairing(PairingMessage::Reject { session_id: String::new() })),
                None => no_actions(),
            },
            SyncCommand::AddPeerAddress { address } => {
                let ac = chars_of(address.as_str());
                let multiaddr = if ac.len() > 0 && ac[0] == '/' {
                    copy_string(&address)
                } else {
                    parse_host_port_to_multiaddr(address.as_str())
                };
                if is_valid_multiaddr(multiaddr.as_str()) {
                    one_action(NetworkAction::DialAddress { address: multiaddr })
                } else {
                    let message = concat("Invalid address: ", address.as_str());
                    one_action(NetworkAction::Emit(SyncEvent::Error { code: ErrorCode::InvalidArg.value(), message }))
                }
            },
            SyncCommand::Unpair { peer_id } => match parse_peer_id(peer_id.as_str()) {
                Some(p) => {
                    set_remove(&mut self.paired_peers, &p);
                    no_actions()
                },
                None => no_actions(),
            },
            SyncCommand::SendFileChunk { peer_id, request_id, file_path, offset } => match parse_peer_id(peer_id.as_str()) {
                Some(p) => one_action(NetworkAction::RequestFile { peer_id: p, request: FileRequest { request_id, file_path, offset } }),
                None => no_actions(),
            },
            SyncCommand::Shutdown => one_action(NetworkAction::Stop),
        }
    }
}

/// The two gossip topics differ.
proof fn lemma_topics_differ()
    ensures
        TOPIC_NAME@ != PAIRING_TOPIC@,
{
    reveal_strlit("maccy-sync-v1");
    reveal_strlit("maccy-sync-pairing-v1");
    assert(TOPIC_NAME@.len() != PAIRING_TOPIC@.len());
}

/// Sync messages count only from paired peers: a message on the sync topic
/// from a peer that is not paired changes nothing and is not reported.
pub proof fn law_sync_only_from_paired(
    st: NetView,
    source: Seq<char>,
    pairing: Option<PairingMessageView>,
    sync: Option<SyncMessageView>,
    random: u32,
)
    requires
        !st.paired.contains(source),
    ensures
        event_step(st, NetworkEventView::GossipMessage { topic: TOPIC_NAME@, source, pairing, sync }, random)
            == (st, Seq::<NetworkActionView>::empty()),
{
    lemma_topics_differ();
}

/// A peer that accepted our pairing is heard: each sync message it sends
/// afterwards is reported.
pub proof fn law_accepting_peer_heard(
    st: NetView,
    peer: Seq<char>,
    session_id: Seq<char>,
    m: SyncMessageView,
    pairing: Option<PairingMessageView>,
    random: u32,
    later: u32,
)
    ensures
        ({
            let st1 = pairing_step(st, peer, PairingMessageView::Accept { session_id }, random).0;
            event_step(st1, NetworkEventView::GossipMessage { topic: TOPIC_NAME@, source: peer, pairing, sync: Some(m) }, later)
                == (st1, sync_message_actions(m))
        }),
{
    lemma_topics_differ();
}

/// A peer whose pairing the platform accepted is heard: each sync message it
/// sends afterwards is reported.
pub proof fn law_accepted_peer_heard(
    st: NetView,
    pid: Seq<char>,
    pin: Seq<char>,
    session_id: Seq<char>,
    now: Seq<char>,
    m: SyncMessageView,
    pairing: Option<PairingMessageView>,
    later: u32,
)
    requires
        peer_id_text(pid) is Some,
    ensures
        ({
            let st1 = command_step(st, SyncCommandView::AcceptPairing { peer_id: pid, pin }, session_id, now).0;
            let peer = peer_id_text(pid)->0;
            event_step(st1, NetworkEventView::GossipMessage { topic: TOPIC_NAME@, source: peer, pairing, sync: Some(m) }, later)
                == (st1, sync_message_actions(m))
        }),
{
    lemma_topics_differ();
}

/// Unpairing stops sync: after the platform unpairs a peer, the sync
/// messages of that peer are ignored.
pub proof fn law_unpair_stops_sync(
    st: NetView,
    pid: Seq<char>,
    session_id: Seq<char>,
    now: Seq<char>,
    pairing: Option<PairingMessageView>,
    sync: Option<SyncMessageView>,
    random: u32,
)
    requires
        peer_id_text(pid) is Some,
    ensures
        ({
            let st1 = command_step(st, SyncCommandView::Unpair { peer_id: pid }, session_id, now).0;
            let peer = peer_id_text(pid)->0;
            event_step(st1, NetworkEventView::GossipMessage { topic: TOPIC_NAME@, source: peer, pairing, sync }, random)
                == (st1, Seq::<NetworkActionView>::empty())
        }),
{
    let st1 = command_step(st, SyncCommandView::Unpair { peer_id: pid }, session_id, now).0;
    law_sync_only_from_paired(st1, peer_id_text(pid)->0, pairing, sync, random);
}

/// A pairing request is shown once: the same request (same session) heard
/// again is ignored.
pub proof fn law_pairing_request_shown_once(
    st: NetView,
    source: Seq<char>,
    request: PairingMessageView,
    sync: Option<SyncMessageView>,
    random: u32,
    later: u32,
)
    requires
        request is Request,
    ensures
        ({
            let ev = NetworkEventView::GossipMessage { topic: PAIRING_TOPIC@, source, pairing: Some(request), sync };
            let st1 = event_step(st, ev, random).0;
            event_step(st1, ev, later) == (st1, Seq::<NetworkActionView>::empty())
        }),
{
}

/// What never changes: our own peer id, device name, device id and listen port.
pub open spec fn same_identity(a: NetView, b: NetView) -> bool {
    &&& a.local_peer_id == b.local_peer_id
    &&& a.device_name == b.device_name
    &&& a.device_id == b.device_id
    &&& a.listen_port == b.listen_port
}

/// Our own peer is not among the discovered peers.
pub open spec fn self_not_discovered(st: NetView) -> bool {
    !st.discovered.contains_key(st.local_peer_id)
}

proof fn lemma_mdns_found_keeps(st: NetView, peers: Seq<(Seq<char>, Seq<char>)>)
    requires
        self_not_discovered(st),
    ensures
        same_identity(st, mdns_found(st, peers).0),
        self_not_discovered(mdns_found(st, peers).0),
    decreases peers.len(),
{
    if peers.len() > 0 {
        lemma_mdns_found_keeps(st, peers.drop_last());
    }
}

proof fn lemma_mdns_lost_keeps(st: NetView, peers: Seq<Seq<char>>)
    requires
        self_not_discovered(st),
    ensures
        same_identity(st, mdns_lost(st, peers).0),
        self_not_discovered(mdns_lost(st, peers).0),
    decreases peers.len(),
{
    if peers.len() > 0 {
        lemma_mdns_lost_keeps(st, peers.drop_last());
    }
}

/// Every event and every command keeps our own identity, and we never list
/// ourselves among the discovered peers.
pub proof fn law_identity_kept(st: NetView, ev: NetworkEventView, random: u32, cmd: SyncCommandView, session_id: Seq<char>, now: Seq<char>)
    requires
        self_not_discovered(st),
    ensures
        same_identity(st, event_step(st, ev, random).0),
        self_not_discovered(event_step(st, ev, random).0),
        same_identity(st, command_step(st, cmd, session_id, now).0),
        command_step(st, cmd, session_id, now).0.discovered == st.discovered,
{
    match ev {
        NetworkEventView::MdnsDiscovered { peers } => lemma_mdns_found_keeps(st, peers),
        NetworkEventView::MdnsExpired { peers } => lemma_mdns_lost_keeps(st, peers),
        _ => {},
    }
}

proof fn lemma_last_index_of(s: Seq<char>, c: char)
    ensures
        match last_index_of(s, c) {
            Some(i) => 0 <= i < s.len() && s[i] == c && forall|j: int| i < j < s.len() ==> s[j] != c,
            None => forall|j: int| 0 <= j < s.len() ==> s[j] != c,
        },
    decreases s.len(),
{
    if s.len() > 0 && s.last() != c {
        lemma_last_index_of(s.drop_last(), c);
        match last_index_of(s.drop_last(), c) {
            Some(i) => {
                assert forall|j: int| i < j < s.len() implies s[j] != c by {
                    if j < s.len() - 1 {
                        assert(s[j] == s.drop_last()[j]);
                    }
                }
            },
            None => {
                assert forall|j: int| 0 <= j < s.len() implies s[j] != c by {
                    if j < s.len() - 1 {
                        assert(s[j] == s.drop_last()[j]);
                    }
                }
            },
        }
    }
}

/// `name` is the last `/`-separated segment of `agent`: it holds no `/`,
/// `agent` ends with it, and what precedes it (if anything) ends with `/`.
pub open spec fn is_last_segment(agent: Seq<char>, name: Seq<char>) -> bool {
    &&& forall|i: int| 0 <= i < name.len() ==> name[i] != '/'
    &&& name.len() <= agent.len()
    &&& agent.skip(agent.len() - name.len()) == name
    &&& name.len() < agent.len() ==> agent[agent.len() - name.len() - 1] == '/'
}

proof fn lemma_last_segment(agent: Seq<char>)
    ensures
        is_last_segment(agent, last_segment(agent)),
{
    lemma_last_index_of(agent, '/');
    let name = last_segment(agent);
    match last_index_of(agent, '/') {
        Some(i) => {
            assert(name =~= agent.skip(i + 1));
            assert(agent.skip(agent.len() - name.len()) =~= name);
            assert forall|k: int| 0 <= k < name.len() implies name[k] != '/' by {
                assert(name[k] == agent[i + 1 + k]);
            }
        },
        None => {
            assert(agent.skip(0) =~= agent);
        },
    }
}

/// An identified peer (other than ourselves) is recorded and reported under
/// the last `/`-segment of the agent version it announces, whether or not it
/// was known before; the reported peer is the recorded one, and a peer not
/// known before is recorded as connected, at its listen addresses (else at
/// the observed address). Our own identification changes nothing.
pub proof fn law_identified_names_peer(
    st: NetView,
    peer: Seq<char>,
    agent: Seq<char>,
    observed: Seq<char>,
    listen: Seq<Seq<char>>,
    random: u32,
)
    ensures
        ({
            let ev = NetworkEventView::Identified { peer_id: peer, agent_version: agent, observed_addr: observed, listen_addrs: listen };
            let (s1, acts) = event_step(st, ev, random);
            peer != st.local_peer_id ==> {
                &&& s1.discovered.contains_key(peer)
                &&& is_last_segment(agent, s1.discovered[peer].display_name)
                &&& acts.len() == 1
                &&& acts[0] == NetworkActionView::Emit(SyncEventView::PeerDiscovered { peer: s1.discovered[peer] })
                &&& !st.discovered.contains_key(peer) ==> {
                    &&& s1.discovered[peer].peer_id == peer
                    &&& s1.discovered[peer].is_connected
                    &&& s1.discovered[peer].addresses == if listen.len() > 0 { listen } else { seq![observed] }
                }
                &&& forall|q: Seq<char>| q != peer ==> (s1.discovered.contains_key(q) == st.discovered.contains_key(q)
                    && (st.discovered.contains_key(q) ==> s1.discovered[q] == st.discovered[q]))
            }
        }),
        peer == st.local_peer_id ==> event_step(st, NetworkEventView::Identified {
            peer_id: peer, agent_version: agent, observed_addr: observed, listen_addrs: listen,
        }, random) == (st, Seq::<NetworkActionView>::empty()),
{
    lemma_last_segment(agent);
}

/// A connection event sets a known peer's connection flag to the event's
/// kind (up for established, down for closed), whatever it was, and keeps the
/// rest of its record and every other peer; it is reported, with that flag,
/// when the peer's name is known. An unknown peer changes nothing.
pub proof fn law_connection_flag(st: NetView, peer: Seq<char>, connected: bool, random: u32)
    ensures
        ({
            let ev = if connected {
                NetworkEventView::ConnectionEstablished { peer_id: peer }
            } else {
                NetworkEventView::ConnectionClosed { peer_id: peer }
            };
            let (s1, acts) = event_step(st, ev, random);
            &&& st.discovered.contains_key(peer) ==> {
                &&& s1.discovered.contains_key(peer)
                &&& s1.discovered[peer].is_connected == connected
                &&& s1.discovered[peer].peer_id == st.discovered[peer].peer_id
                &&& s1.discovered[peer].display_name == st.discovered[peer].display_name
                &&& s1.discovered[peer].addresses == st.discovered[peer].addresses
                &&& s1.discovered.dom() == st.discovered.dom()
                &&& forall|q: Seq<char>| q != peer && st.discovered.contains_key(q) ==> s1.discovered[q] == st.discovered[q]
                &&& s1.paired == st.paired
                &&& (st.discovered[peer].display_name.len() > 0 ==> (acts.len() == 1
                    && (acts[0] matches NetworkActionView::Emit(SyncEventView::PeerDiscovered { peer: p })
                    && p.is_connected == connected && p == s1.discovered[peer])))
                &&& (st.discovered[peer].display_name.len() == 0 ==> acts.len() == 0)
            }
            &&& !st.discovered.contains_key(peer) ==> s1 == st && acts.len() == 0
        }),
{
    let info = PeerInfoView { is_connected: connected, ..st.discovered[peer] };
    if st.discovered.contains_key(peer) {
        assert(st.discovered.insert(peer, info).dom() =~= st.discovered.dom());
    }
}

/// Rejecting a pairing with a valid peer id publishes exactly one rejection
/// on the pairing topic and changes nothing else (the peer is not paired);
/// an invalid peer id does nothing.
pub proof fn law_reject_pairing(st: NetView, pid: Seq<char>, session_id: Seq<char>, now: Seq<char>)
    ensures
        ({
            let (s1, acts) = command_step(st, SyncCommandView::RejectPairing { peer_id: pid }, session_id, now);
            &&& s1 == st
            &&& peer_id_text(pid) is Some ==> (acts.len() == 1
                && (acts[0] matches NetworkActionView::PublishPairing(PairingMessageView::Reject { .. })))
            &&& peer_id_text(pid) is None ==> acts.len() == 0
        }),
{
}

} // verus!
