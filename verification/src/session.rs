//! What the daemon keeps for one connected client: a receive buffer per
//! port, bounded to the most recent entries, and the ports whose data the
//! client asked to have pushed.

use vstd::prelude::*;
use vstd::string::*;
use std::collections::VecDeque;
use crate::codec::{lossy_text, utf8_lossy};
use crate::json::{Json, JsonV};
use crate::protocol::{err_msg, ok_data, Response};
use crate::serial::RxEntry;
use crate::table::Table;

verus! {

/// The most entries a client's buffer for one port holds.
pub const MAX_BUFFER_ENTRIES: usize = 200;

/// The last `MAX_BUFFER_ENTRIES` entries of `s`, in order.
pub open spec fn keep_recent(s: Seq<RxEntry>) -> Seq<RxEntry> {
    if s.len() > MAX_BUFFER_ENTRIES {
        s.skip(s.len() - MAX_BUFFER_ENTRIES)
    } else {
        s
    }
}

/// The reply entry of one received chunk.
pub open spec fn entry_json(e: RxEntry) -> JsonV {
    JsonV::Object(seq![("timestamp"@, JsonV::Str(e.timestamp@)), ("data"@, JsonV::Str(utf8_lossy(e.data@)))])
}

/// The reply entries of a buffer, in order.
pub open spec fn entries_json(s: Seq<RxEntry>) -> JsonV {
    JsonV::Array(Seq::new(s.len(), |i: int| entry_json(s[i])))
}

/// The buffers after the entries `arrived` from `port` were taken in.
pub open spec fn after_drain(
    buffers: Map<Seq<char>, Seq<RxEntry>>,
    receivers: Set<Seq<char>>,
    port: Seq<char>,
    arrived: Seq<RxEntry>,
) -> Map<Seq<char>, Seq<RxEntry>> {
    if receivers.contains(port) {
        buffers.insert(
            port,
            keep_recent(
                (if buffers.contains_key(port) {
                    buffers[port]
                } else {
                    Seq::<RxEntry>::empty()
                }) + arrived,
            ),
        )
    } else {
        buffers
    }
}

/// The reply to reading a port for which the client keeps no buffer.
pub open spec fn no_buffer_msg(port: Seq<char>) -> Seq<char> {
    port + "의 수신 버퍼가 없습니다."@
}

/// The reply entry of one received chunk.
pub fn entry_object(e: &RxEntry) -> (r: Json)
    ensures
        r@ == entry_json(*e),
{
    let ts = Json::Str(e.timestamp.clone());
    let text = Json::Str(lossy_text(&e.data));
    let k1 = String::from_str("timestamp");
    let k2 = String::from_str("data");
    let mut fields: Vec<(String, Json)> = Vec::new();
    fields.push((k1, ts));
    fields.push((k2, text));
    let r = Json::Object(fields);
    assert(ts@ == JsonV::Str(e.timestamp@));
    assert(text@ == JsonV::Str(utf8_lossy(e.data@)));
    assert(r@->Object_0.len() == 2);
    assert(r@->Object_0[0] == ("timestamp"@, JsonV::Str(e.timestamp@)));
    assert(r@->Object_0[1] == ("data"@, JsonV::Str(utf8_lossy(e.data@))));
    assert(r@->Object_0 =~= entry_json(*e)->Object_0);
    r
}

/// Law: a buffer holds at most `MAX_BUFFER_ENTRIES` entries, all of them
/// the most recent ones in arrival order, the newest last.
pub proof fn law_buffer_is_recent_suffix(s: Seq<RxEntry>)
    ensures
        keep_recent(s).len() <= MAX_BUFFER_ENTRIES,
        keep_recent(s).len() == if s.len() > MAX_BUFFER_ENTRIES {
            MAX_BUFFER_ENTRIES as nat
        } else {
            s.len()
        },
        forall|i: int|
            0 <= i < keep_recent(s).len() ==> #[trigger] keep_recent(s)[i] == s[s.len() - keep_recent(
                s,
            ).len() + i],
        s.len() > 0 ==> keep_recent(s).last() == s.last(),
{
}

/// Law: taking in arrivals batch by batch gives the same buffer as taking
/// them in at once.
pub proof fn law_buffer_batches(a: Seq<RxEntry>, b: Seq<RxEntry>)
    ensures
        keep_recent(keep_recent(a) + b) == keep_recent(a + b),
{
    let m = MAX_BUFFER_ENTRIES as int;
    let ka = keep_recent(a);
    let x = ka + b;
    let y = a + b;
    if a.len() > m {
        assert(ka.len() == m);
        let kx = keep_recent(x);
        let ky = keep_recent(y);
        assert(ky.len() == m);
        assert(kx.len() == m);
        assert forall|i: int| 0 <= i < m implies #[trigger] kx[i] == ky[i] by {
            let j = x.len() - m + i;
            let k = y.len() - m + i;
            if j < ka.len() {
                assert(x[j] == ka[j]);
                assert(ka[j] == a[a.len() - m + j]);
                assert(k == a.len() - m + j);
            } else {
                assert(x[j] == b[j - ka.len()]);
                assert(k - a.len() == j - ka.len());
            }
        }
        assert(kx =~= ky);
    } else {
        assert(ka == a);
    }
}

/// Law: after a read that clears, the next read with nothing new is empty.
pub proof fn law_read_after_clear(
    buffers: Map<Seq<char>, Seq<RxEntry>>,
    receivers: Set<Seq<char>>,
    port: Seq<char>,
    arrived: Seq<RxEntry>,
)
    requires
        after_drain(buffers, receivers, port, arrived).contains_key(port),
    ensures
        ({
            let cleared = after_drain(buffers, receivers, port, arrived).insert(port, Seq::empty());
            let again = after_drain(cleared, receivers, port, Seq::empty());
            again.contains_key(port) && entries_json(again[port]) == JsonV::Array(Seq::empty())
        }),
{
    let cleared = after_drain(buffers, receivers, port, arrived).insert(port, Seq::empty());
    let again = after_drain(cleared, receivers, port, Seq::empty());
    assert(Seq::<RxEntry>::empty() + Seq::<RxEntry>::empty() =~= Seq::<RxEntry>::empty());
    assert(again[port] =~= Seq::<RxEntry>::empty());
    assert(entries_json(again[port])->Array_0 =~= Seq::<JsonV>::empty());
}

/// Law: a client receives a port's data from the moment it connects. For a
/// port open at connection time, the first read after the chunks `arrived`
/// gives back exactly those chunks (at most `MAX_BUFFER_ENTRIES` of them),
/// and nothing from before the connection.
pub proof fn law_read_after_connect(tapped: Set<Seq<char>>, port: Seq<char>, arrived: Seq<RxEntry>)
    requires
        tapped.contains(port),
        arrived.len() <= MAX_BUFFER_ENTRIES,
    ensures
        ({
            let fresh = Map::new(|k: Seq<char>| tapped.contains(k), |k: Seq<char>| Seq::<RxEntry>::empty());
            let drained = after_drain(fresh, tapped, port, arrived);
            drained.contains_key(port) && drained[port] == arrived
        }),
{
    let fresh = Map::new(|k: Seq<char>| tapped.contains(k), |k: Seq<char>| Seq::<RxEntry>::empty());
    assert(fresh.contains_key(port));
    assert(fresh[port] + arrived =~= arrived);
}

/// The state of one client's connection.
pub struct ClientSession {
    receivers: Table<()>,
    buffers: Table<VecDeque<RxEntry>>,
    rx_subscriptions: Table<()>,
}

impl ClientSession {
    /// Ports from which this client receives data.
    pub closed spec fn receiver_ports(&self) -> Set<Seq<char>> {
        self.receivers@.dom()
    }

    /// The client's receive buffer of each port.
    pub closed spec fn buffers(&self) -> Map<Seq<char>, Seq<RxEntry>> {
        self.buffers@.map_values(|d: VecDeque<RxEntry>| d@)
    }

    /// Ports whose data is pushed to this client as it arrives.
    pub closed spec fn rx_subscriptions(&self) -> Set<Seq<char>> {
        self.rx_subscriptions@.dom()
    }

    /// The session's invariant: no buffer holds more than
    /// `MAX_BUFFER_ENTRIES` entries.
    pub closed spec fn wf(&self) -> bool {
        &&& self.receivers.wf()
        &&& self.buffers.wf()
        &&& self.rx_subscriptions.wf()
        &&& forall|k: Seq<char>| #[trigger] self.buffers@.contains_key(k) ==> self.buffers@[k]@.len()
            <= MAX_BUFFER_ENTRIES
    }

    /// A session with no receivers, buffers or subscriptions.
    pub fn new() -> (s: ClientSession)
        ensures
            s.wf(),
            s.receiver_ports() == Set::<Seq<char>>::empty(),
            s.buffers() == Map::<Seq<char>, Seq<RxEntry>>::empty(),
            s.rx_subscriptions() == Set::<Seq<char>>::empty(),
    {
        let s = ClientSession { receivers: Table::new(), buffers: Table::new(), rx_subscriptions: Table::new() };
        assert(s.receiver_ports() =~= Set::<Seq<char>>::empty());
        assert(s.buffers() =~= Map::<Seq<char>, Seq<RxEntry>>::empty());
        assert(s.rx_subscriptions() =~= Set::<Seq<char>>::empty());
        s
    }

    /// The session of a client that has just connected: it receives data
    /// from each port in `tapped` (the ports open at that moment whose data
    /// the daemon could tap), from this moment on, with an empty buffer for
    /// each, and no pushed ports.
    pub fn at_connect(tapped: &Vec<String>) -> (s: ClientSession)
        ensures
            s.wf(),
            s.receiver_ports() == crate::text::views(tapped@).to_set(),
            s.buffers() == Map::new(
                |k: Seq<char>| crate::text::views(tapped@).contains(k),
                |k: Seq<char>| Seq::<RxEntry>::empty(),
            ),
            s.rx_subscriptions() == Set::<Seq<char>>::empty(),
    {
        let mut s = ClientSession::new();
        let mut i: usize = 0;
        while i < tapped.len()
            invariant
                i <= tapped@.len(),
                s.wf(),
                s.receiver_ports() == crate::text::views(tapped@).take(i as int).to_set(),
                s.buffers() == Map::new(
                    |k: Seq<char>| crate::text::views(tapped@).take(i as int).contains(k),
                    |k: Seq<char>| Seq::<RxEntry>::empty(),
                ),
                s.rx_subscriptions() == Set::<Seq<char>>::empty(),
            decreases tapped@.len() - i,
        {
            let ghost before = crate::text::views(tapped@).take(i as int);
            s.attach_receiver(tapped[i].as_str());
            let ghost after = crate::text::views(tapped@).take(i + 1);
            assert(after =~= before.push(tapped@[i as int]@));
            i = i + 1;
            assert(s.receiver_ports() =~= after.to_set()) by {
                assert forall|k: Seq<char>| s.receiver_ports().contains(k) <==> after.to_set().contains(k) by {
                    assert(after.contains(k) <==> (before.contains(k) || k == tapped@[i - 1]@)) by {
                        if after.contains(k) {
                            let j = choose|j: int| 0 <= j < after.len() && after[j] == k;
                            if j < before.len() {
                                assert(before[j] == k);
                            }
                        }
                        if before.contains(k) {
                            let j = choose|j: int| 0 <= j < before.len() && before[j] == k;
                            assert(after[j] == k);
                        }
                        if k == tapped@[i - 1]@ {
                            assert(after[before.len() as int] == k);
                        }
                    }
                }
            }
            assert(s.buffers() =~= Map::new(
                |k: Seq<char>| after.contains(k),
                |k: Seq<char>| Seq::<RxEntry>::empty(),
            )) by {
                assert forall|k: Seq<char>| after.contains(k) <==> (before.contains(k) || k == tapped@[i - 1]@) by {
                    if after.contains(k) {
                        let j = choose|j: int| 0 <= j < after.len() && after[j] == k;
                        if j < before.len() {
                            assert(before[j] == k);
                        }
                    }
                    if before.contains(k) {
                        let j = choose|j: int| 0 <= j < before.len() && before[j] == k;
                        assert(after[j] == k);
                    }
                    if k == tapped@[i - 1]@ {
                        assert(after[before.len() as int] == k);
                    }
                }
            }
        }
        assert(crate::text::views(tapped@).take(tapped@.len() as int) =~= crate::text::views(tapped@));
        s
    }

    /// What a session does after a `close_port` with reply `closed` and
    /// arguments `args`: when the port was closed, it forgets everything it
    /// kept for it and tells whether the streaming of its data must be
    /// stopped (it was pushed to this client); when the close failed, it
    /// changes nothing. Returns the port it forgot, if any, and whether to
    /// stop the streaming.
    pub fn after_close(&mut self, closed: &Response, args: &Json) -> (r: (Option<String>, bool))
        requires
            old(self).wf(),
        ensures
            final(self).wf(),
            match (closed@.ok, args@.str_at("port"@)) {
                (true, Some(p)) => {
                    &&& r.0 matches Some(q) && q@ == p
                    &&& r.1 == old(self).rx_subscriptions().contains(p)
                    &&& final(self).receiver_ports() == old(self).receiver_ports().remove(p)
                    &&& final(self).buffers() == old(self).buffers().remove(p)
                    &&& final(self).rx_subscriptions() == old(self).rx_subscriptions().remove(p)
                },
                _ => {
                    &&& r.0 is None
                    &&& !r.1
                    &&& final(self).receiver_ports() == old(self).receiver_ports()
                    &&& final(self).buffers() == old(self).buffers()
                    &&& final(self).rx_subscriptions() == old(self).rx_subscriptions()
                },
            },
    {
        if !closed.ok {
            return (None, false);
        }
        match args.str_at("port") {
            Some(p) => {
                let was = self.is_rx_subscribed(p.as_str());
                self.on_port_closed(p.as_str());
                (Some(p), was)
            },
            None => (None, false),
        }
    }

    /// Whether the client receives data from `port`.
    pub fn has_receiver(&self, port: &str) -> (r: bool)
        requires
            self.wf(),
        ensures
            r == self.receiver_ports().contains(port@),
    {
        self.receivers.contains_key(port)
    }

    /// Records that the client now receives data from `port`, with an empty
    /// buffer for it.
    pub fn attach_receiver(&mut self, port: &str)
        requires
            old(self).wf(),
        ensures
            final(self).wf(),
            final(self).receiver_ports() == old(self).receiver_ports().insert(port@),
            final(self).buffers() == old(self).buffers().insert(port@, Seq::<RxEntry>::empty()),
            final(self).rx_subscriptions() == old(self).rx_subscriptions(),
    {
        self.receivers.insert(String::from_str(port), ());
        self.buffers.insert(String::from_str(port), VecDeque::new());
        assert(self.receiver_ports() =~= old(self).receiver_ports().insert(port@));
        assert(self.buffers() =~= old(self).buffers().insert(port@, Seq::<RxEntry>::empty()));
    }

    /// Adds the entries that arrived from `port` to its buffer, oldest
    /// first, keeping only the most recent `MAX_BUFFER_ENTRIES`; a buffer
    /// that does not exist yet starts empty. Nothing changes for a port the
    /// client does not receive from.
    pub fn drain_receiver(&mut self, port: &str, arrived: Vec<RxEntry>)
        requires
            old(self).wf(),
        ensures
            final(self).wf(),
            final(self).receiver_ports() == old(self).receiver_ports(),
            final(self).rx_subscriptions() == old(self).rx_subscriptions(),
            final(self).buffers() == after_drain(
                old(self).buffers(),
                old(self).receiver_ports(),
                port@,
                arrived@,
            ),
    {
        if !self.receivers.contains_key(port) {
            return ;
        }
        let mut buffer = match self.buffers.remove(port) {
            Some(b) => b,
            None => VecDeque::new(),
        };
        let ghost start = buffer@;
        let mut arrived = arrived;
        let ghost all = arrived@;
        let mut i: usize = 0;
        let n = arrived.len();
        assert(arrived@ =~= all.subrange(0, n as int));
        assert(start.len() <= MAX_BUFFER_ENTRIES) by {
            if old(self).buffers@.contains_key(port@) {
                assert(old(self).buffers@[port@]@.len() <= MAX_BUFFER_ENTRIES);
            }
        }
        while i < n
            invariant
                n == all.len(),
                i <= n,
                arrived@ == all.subrange(i as int, n as int),
                start.len() <= MAX_BUFFER_ENTRIES,
                buffer@ == keep_recent(start + all.take(i as int)),
                buffer@.len() <= MAX_BUFFER_ENTRIES,
            decreases n - i,
        {
            let ghost pre = start + all.take(i as int);
            let e = arrived.remove(0);
            assert(e == all[i as int]);
            buffer.push_back(e);
            if buffer.len() > MAX_BUFFER_ENTRIES {
                buffer.pop_front();
            }
            i = i + 1;
            assert(start + all.take(i as int) =~= pre.push(e));
            assert(buffer@ =~= keep_recent(pre.push(e)));
            assert(arrived@ =~= all.subrange(i as int, n as int));
        }
        assert(all.take(n as int) =~= all);
        self.buffers.insert(String::from_str(port), buffer);
        assert(self.buffers() =~= old(self).buffers().insert(port@, keep_recent(start + all)));
    }

    /// Answers `read_port`: takes in the entries that arrived from `port`,
    /// then replies with the port's buffer, oldest entry first, each entry's
    /// bytes read as text; with `clear` the buffer is emptied afterwards.
    pub fn read_port(&mut self, port: &str, clear: bool, arrived: Vec<RxEntry>) -> (r: Response)
        requires
            old(self).wf(),
        ensures
            final(self).wf(),
            final(self).receiver_ports() == old(self).receiver_ports(),
            final(self).rx_subscriptions() == old(self).rx_subscriptions(),
            ({
                let drained = after_drain(
                    old(self).buffers(),
                    old(self).receiver_ports(),
                    port@,
                    arrived@,
                );
                if drained.contains_key(port@) {
                    &&& r@ == ok_data(entries_json(drained[port@]))
                    &&& final(self).buffers() == if clear {
                        drained.insert(port@, Seq::<RxEntry>::empty())
                    } else {
                        drained
                    }
                } else {
                    &&& r@ == err_msg(no_buffer_msg(port@))
                    &&& final(self).buffers() == drained
                }
            }),
    {
        self.drain_receiver(port, arrived);
        let ghost drained = self.buffers();
        match self.buffers.get(port) {
            None => {
                let mut msg = String::from_str(port);
                msg.append("의 수신 버퍼가 없습니다.");
                Response::error(msg.as_str())
            },
            Some(buffer) => {
                let mut items: Vec<Json> = Vec::new();
                let n = buffer.len();
                let mut i: usize = 0;
                while i < n
                    invariant
                        n == buffer@.len(),
                        i <= n,
                        items@.len() == i,
                        forall|j: int| 0 <= j < i ==> (#[trigger] items@[j])@ == entry_json(buffer@[j]),
                    decreases n - i,
                {
                    let item = entry_object(&buffer[i]);
                    items.push(item);
                    i = i + 1;
                }
                let ghost shown = buffer@;
                let data = Json::Array(items);
                assert(data@->Array_0 =~= entries_json(shown)->Array_0);
                if clear {
                    self.buffers.insert(String::from_str(port), VecDeque::new());
                    assert(self.buffers() =~= drained.insert(port@, Seq::<RxEntry>::empty()));
                }
                Response::success(data)
            },
        }
    }

    /// Whether data of `port` is pushed to this client.
    pub fn is_rx_subscribed(&self, port: &str) -> (r: bool)
        requires
            self.wf(),
        ensures
            r == self.rx_subscriptions().contains(port@),
    {
        self.rx_subscriptions.contains_key(port)
    }

    /// Adds `port` to the pushed ports; tells whether it was not there yet.
    pub fn add_rx_subscription(&mut self, port: &str) -> (added: bool)
        requires
            old(self).wf(),
        ensures
            final(self).wf(),
            added == !old(self).rx_subscriptions().contains(port@),
            final(self).rx_subscriptions() == old(self).rx_subscriptions().insert(port@),
            final(self).receiver_ports() == old(self).receiver_ports(),
            final(self).buffers() == old(self).buffers(),
    {
        let old_v = self.rx_subscriptions.insert(String::from_str(port), ());
        assert(self.rx_subscriptions() =~= old(self).rx_subscriptions().insert(port@));
        old_v.is_none()
    }

    /// Removes `port` from the pushed ports; tells whether it was there.
    pub fn remove_rx_subscription(&mut self, port: &str) -> (removed: bool)
        requires
            old(self).wf(),
        ensures
            final(self).wf(),
            removed == old(self).rx_subscriptions().contains(port@),
            final(self).rx_subscriptions() == old(self).rx_subscriptions().remove(port@),
            final(self).receiver_ports() == old(self).receiver_ports(),
            final(self).buffers() == old(self).buffers(),
    {
        let old_v = self.rx_subscriptions.remove(port);
        assert(self.rx_subscriptions() =~= old(self).rx_subscriptions().remove(port@));
        old_v.is_some()
    }

    /// Forgets everything the client kept for a port that was closed.
    pub fn on_port_closed(&mut self, port: &str)
        requires
            old(self).wf(),
        ensures
            final(self).wf(),
            final(self).receiver_ports() == old(self).receiver_ports().remove(port@),
            final(self).buffers() == old(self).buffers().remove(port@),
            final(self).rx_subscriptions() == old(self).rx_subscriptions().remove(port@),
    {
        self.receivers.remove(port);
        self.buffers.remove(port);
        self.rx_subscriptions.remove(port);
        assert(self.receiver_ports() =~= old(self).receiver_ports().remove(port@));
        assert(self.buffers() =~= old(self).buffers().remove(port@));
        assert(self.rx_subscriptions() =~= old(self).rx_subscriptions().remove(port@));
    }
}

} // verus!
