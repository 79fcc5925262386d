//! What a scanner and its caller say to each other, and how a scan goes on
//! from one event to the next.

use crate::directory::{owner, IfEntry};
use crate::netid::AmsNetId;
use crate::udp::{bc_reply, bc_request, identify_reply, udp_header, UDP_IDENTIFY};
use crate::util::{
    dump_text, lines_view, BECKHOFF_BC_UDP_PORT, BECKHOFF_UDP_PORT, FWDER_NETID,
};
use vstd::prelude::*;

verus! {

/// The address to which a scan of a whole network sends.
pub const BROADCAST: u32 = 0xffff_ffff;

/// The port that the scanner names as its own when it asks.
pub const SCAN_SOURCE_PORT: u16 = 10000;

/// How long the scanner waits for a datagram, in milliseconds.
pub const RECV_TIMEOUT_MS: u64 = 500;

/// A controller that a scan has found.
#[derive(Clone, Copy, Debug, PartialEq, Eq)]
pub struct Beckhoff {
    /// The local address of the interface that reaches the device.
    pub if_addr: u32,
    /// Whether the device is a bus coupler.
    pub is_bc: bool,
    /// The address of the device.
    pub bh_addr: u32,
    /// The identifier of the device.
    pub netid: AmsNetId,
}

/// A found controller as contracts speak of it.
pub struct Device {
    pub if_addr: u32,
    pub is_bc: bool,
    pub bh_addr: u32,
    pub netid: Seq<u8>,
}

impl View for Beckhoff {
    type V = Device;

    open spec fn view(&self) -> Device {
        Device {
            if_addr: self.if_addr,
            is_bc: self.is_bc,
            bh_addr: self.bh_addr,
            netid: self.netid.0@,
        }
    }
}

/// The devices of a list.
pub open spec fn devices(list: Seq<Beckhoff>) -> Seq<Device> {
    Seq::new(list.len(), |i: int| list[i]@)
}

/// What one answer told of a device.
#[derive(Debug, PartialEq, Eq)]
pub struct Found {
    pub device: Beckhoff,
    /// The name that the device gave.
    pub name: Vec<u8>,
    /// The TwinCAT version of an embedded PC: major, minor, build.
    pub version: Option<(u8, u8, u16)>,
}

/// `Found` as contracts speak of it.
pub struct Sighting {
    pub device: Device,
    pub name: Seq<u8>,
    pub version: Option<(u8, u8, u16)>,
}

impl View for Found {
    type V = Sighting;

    open spec fn view(&self) -> Sighting {
        Sighting { device: self.device@, name: self.name@, version: self.version }
    }
}

/// What a datagram turned out to be.
#[derive(Debug, PartialEq, Eq)]
pub enum Handled {
    /// Not an answer to either request.
    Ignored,
    /// The answer of a device.
    Found(Found),
    /// The answer of a device at this address, which no interface's
    /// network holds.
    Stray(u32),
}

/// `Handled` as contracts speak of it.
pub enum Verdict {
    Ignored,
    Found(Sighting),
    Stray(u32),
}

impl View for Handled {
    type V = Verdict;

    open spec fn view(&self) -> Verdict {
        match self {
            Handled::Ignored => Verdict::Ignored,
            Handled::Found(f) => Verdict::Found(f@),
            Handled::Stray(addr) => Verdict::Stray(*addr),
        }
    }
}

/// Identifier, kind, name and version that the datagram `data` from port
/// `port` gives. One from the bus couplers' port is read as a bus coupler's
/// answer and as nothing else; one from any other port as the answer to
/// "identify".
pub open spec fn decoded(port: u16, data: Seq<u8>) -> Option<
    (Seq<u8>, bool, Seq<u8>, Option<(u8, u8, u16)>),
> {
    if port == BECKHOFF_BC_UDP_PORT {
        match bc_reply(data) {
            None => None,
            Some((_, netid, name)) => Some((netid, true, name, None)),
        }
    } else {
        match identify_reply(data) {
            None => None,
            Some((netid, name, version)) => Some((netid, false, name, Some(version))),
        }
    }
}

/// What the datagram `data` from `addr` and `port` is to a scanner with the
/// interfaces `dir`.
pub open spec fn verdict(dir: Seq<IfEntry>, addr: u32, port: u16, data: Seq<u8>) -> Verdict {
    match decoded(port, data) {
        None => Verdict::Ignored,
        Some((netid, is_bc, name, version)) => match owner(dir, addr) {
            None => Verdict::Stray(addr),
            Some(if_addr) => Verdict::Found(
                Sighting {
                    device: Device { if_addr, is_bc, bh_addr: addr, netid },
                    name,
                    version,
                },
            ),
        },
    }
}

/// One socket's work: where it is bound, where the requests go, and whether
/// the first datagram ends it.
#[derive(Clone, Copy, Debug, PartialEq, Eq)]
pub struct Probe {
    pub bind_addr: u32,
    pub send_addr: u32,
    pub single_reply: bool,
}

/// The probe that scans the network of the interface `entry`.
pub open spec fn broadcast_probe(entry: IfEntry) -> Probe {
    Probe { bind_addr: entry.addr, send_addr: BROADCAST, single_reply: false }
}

/// The request that embedded PCs answer.
pub open spec fn cx_request() -> Seq<u8> {
    udp_header(UDP_IDENTIFY, FWDER_NETID@, SCAN_SOURCE_PORT, 0)
}

/// What the socket is to do next, or has just been asked to do.
#[derive(Clone, Copy, Debug, PartialEq, Eq, Structural)]
pub enum Phase {
    /// Binding the socket of the current probe.
    Bind,
    /// Sending the request for bus couplers.
    SendBc,
    /// Sending the request for embedded PCs.
    SendCx,
    /// Waiting for a datagram.
    Receive,
    /// The scan is over.
    Finished,
}

/// A scan that is under way, as contracts speak of it.
pub struct Run {
    pub probes: Seq<Probe>,
    pub current: int,
    pub phase: Phase,
    pub found: Seq<Device>,
}

impl Run {
    /// A scan that is not over is at one of its probes.
    pub open spec fn wf(self) -> bool {
        self.phase != Phase::Finished ==> 0 <= self.current < self.probes.len()
    }
}

/// What the caller reports of the action that it was given.
#[derive(Debug, PartialEq, Eq)]
pub enum Event {
    /// The socket was bound, or the datagram was sent.
    Done,
    /// The socket could not be bound or set up, or the datagram not sent.
    Failed,
    /// A datagram arrived from this address and port.
    Reply { addr: u32, port: u16, data: Vec<u8> },
    /// No datagram arrived in time, or receiving failed.
    Silence,
}

/// `Event` as contracts speak of it.
pub enum Happened {
    Done,
    Failed,
    Reply { addr: u32, port: u16, data: Seq<u8> },
    Silence,
}

impl View for Event {
    type V = Happened;

    open spec fn view(&self) -> Happened {
        match self {
            Event::Done => Happened::Done,
            Event::Failed => Happened::Failed,
            Event::Reply { addr, port, data } => Happened::Reply {
                addr: *addr,
                port: *port,
                data: data@,
            },
            Event::Silence => Happened::Silence,
        }
    }
}

/// How a scan ended.
#[derive(Debug, PartialEq, Eq)]
pub enum ScanEnd {
    /// With these devices, in the order in which they answered.
    Devices(Vec<Beckhoff>),
    /// With a socket that failed. What was found is given up.
    Failed,
    /// With the answer of a device at this address, which no interface's
    /// network holds. The scanner's picture of the network is broken.
    Stray(u32),
}

/// `ScanEnd` as contracts speak of it.
pub enum Ending {
    Devices(Seq<Device>),
    Failed,
    Stray(u32),
}

impl View for ScanEnd {
    type V = Ending;

    open spec fn view(&self) -> Ending {
        match self {
            ScanEnd::Devices(list) => Ending::Devices(devices(list@)),
            ScanEnd::Failed => Ending::Failed,
            ScanEnd::Stray(addr) => Ending::Stray(*addr),
        }
    }
}

/// What the caller is to do with the socket.
#[derive(Debug, PartialEq, Eq)]
pub enum Action {
    /// Open a UDP socket bound to `addr` and any port, allow it to send
    /// broadcasts, and let it wait no longer than `timeout_ms` for a
    /// datagram. Report `Done` or `Failed`.
    Bind { addr: u32, timeout_ms: u64 },
    /// Send `data` to `addr` and `port`. Report `Done` or `Failed`.
    Send { data: Vec<u8>, addr: u32, port: u16 },
    /// Wait for a datagram. Report `Reply` or `Silence`.
    Receive,
    /// Nothing more: the scan has ended.
    Finish(ScanEnd),
}

/// `Action` as contracts speak of it.
pub enum Order {
    Bind { addr: u32, timeout_ms: u64 },
    Send { data: Seq<u8>, addr: u32, port: u16 },
    Receive,
    Finish(Ending),
}

impl View for Action {
    type V = Order;

    open spec fn view(&self) -> Order {
        match self {
            Action::Bind { addr, timeout_ms } => Order::Bind { addr: *addr, timeout_ms: *timeout_ms },
            Action::Send { data, addr, port } => Order::Send {
                data: data@,
                addr: *addr,
                port: *port,
            },
            Action::Receive => Order::Receive,
            Action::Finish(end) => Order::Finish(end@),
        }
    }
}

/// The scanner's answer to an event.
#[derive(Debug, PartialEq, Eq)]
pub struct Step {
    /// The dump of the datagram that was sent or has arrived, where the
    /// scanner dumps: its lines are to be printed, and an empty line after
    /// them, before anything else is done.
    pub dump: Option<Vec<String>>,
    /// The device that the datagram told of.
    pub found: Option<Found>,
    /// What to do next.
    pub action: Action,
}

/// `Step` as contracts speak of it.
pub struct Answer {
    pub dump: Option<Seq<Seq<char>>>,
    pub found: Option<Sighting>,
    pub action: Order,
}

impl View for Step {
    type V = Answer;

    open spec fn view(&self) -> Answer {
        Answer {
            dump: match self.dump {
                None => None,
                Some(lines) => Some(lines_view(lines@)),
            },
            found: match self.found {
                None => None,
                Some(f) => Some(f@),
            },
            action: self.action@,
        }
    }
}

/// The dump of the datagram `data`, where the scanner dumps.
pub open spec fn shown(dumps: bool, data: Seq<u8>) -> Option<Seq<Seq<char>>> {
    if dumps {
        Some(dump_text(data))
    } else {
        None
    }
}

/// The order to bind the socket of `probe`.
pub open spec fn bind_order(probe: Probe) -> Order {
    Order::Bind { addr: probe.bind_addr, timeout_ms: RECV_TIMEOUT_MS }
}

/// How a scan with the probes `probes` starts: with the first probe's
/// socket, or at its end where there is no probe.
pub open spec fn begin(probes: Seq<Probe>) -> (Run, Answer) {
    if probes.len() == 0 {
        (
            Run { probes, current: 0, phase: Phase::Finished, found: Seq::empty() },
            Answer {
                dump: None,
                found: None,
                action: Order::Finish(Ending::Devices(Seq::empty())),
            },
        )
    } else {
        (
            Run { probes, current: 0, phase: Phase::Bind, found: Seq::empty() },
            Answer { dump: None, found: None, action: bind_order(probes[0]) },
        )
    }
}

/// How a scan goes on when the current probe is over and `found` is what was
/// found so far: with the next probe, or to its end with those devices.
pub open spec fn probe_over(run: Run, found: Seq<Device>) -> (Run, Order) {
    if run.current + 1 < run.probes.len() {
        (
            Run { probes: run.probes, current: run.current + 1, phase: Phase::Bind, found },
            bind_order(run.probes[run.current + 1]),
        )
    } else {
        (
            Run { probes: run.probes, current: run.current, phase: Phase::Finished, found },
            Order::Finish(Ending::Devices(found)),
        )
    }
}

/// How a scan goes on after a datagram that was no stray: the first datagram
/// ends a probe for a single reply, any other probe waits for more.
pub open spec fn reply_over(run: Run, found: Seq<Device>) -> (Run, Order) {
    if run.probes[run.current].single_reply {
        probe_over(run, found)
    } else {
        (
            Run { probes: run.probes, current: run.current, phase: Phase::Receive, found },
            Order::Receive,
        )
    }
}

/// The scan `run` at its end, with `end`.
pub open spec fn ended(run: Run, dump: Option<Seq<Seq<char>>>, end: Ending) -> (Run, Answer) {
    (
        Run { probes: run.probes, current: run.current, phase: Phase::Finished, found: run.found },
        Answer { dump, found: None, action: Order::Finish(end) },
    )
}

/// How the scan `run` of a scanner with the interfaces `dir` goes on after
/// `event`.
///
/// A bound socket sends the request for bus couplers to their port, then the
/// request for embedded PCs to the general port, then waits. A
/// datagram that is a device's answer adds the device; one from a device
/// that no interface reaches ends the scan as `Stray`. Silence ends the
/// probe. A socket that failed ends the scan as `Failed`, and so does an
/// event that does not answer the action that was given.
pub open spec fn next(dir: Seq<IfEntry>, dumps: bool, run: Run, event: Happened) -> (Run, Answer) {
    let probe = run.probes[run.current];
    match (run.phase, event) {
        (Phase::Bind, Happened::Done) => (
            Run {
                probes: run.probes,
                current: run.current,
                phase: Phase::SendBc,
                found: run.found,
            },
            Answer {
                dump: None,
                found: None,
                action: Order::Send {
                    data: bc_request(),
                    addr: probe.send_addr,
                    port: BECKHOFF_BC_UDP_PORT,
                },
            },
        ),
        (Phase::SendBc, Happened::Done) => (
            Run {
                probes: run.probes,
                current: run.current,
                phase: Phase::SendCx,
                found: run.found,
            },
            Answer {
                dump: shown(dumps, bc_request()),
                found: None,
                action: Order::Send {
                    data: cx_request(),
                    addr: probe.send_addr,
                    port: BECKHOFF_UDP_PORT,
                },
            },
        ),
        (Phase::SendCx, Happened::Done) => (
            Run {
                probes: run.probes,
                current: run.current,
                phase: Phase::Receive,
                found: run.found,
            },
            Answer { dump: shown(dumps, cx_request()), found: None, action: Order::Receive },
        ),
        (Phase::Receive, Happened::Reply { addr, port, data }) => match verdict(
            dir,
            addr,
            port,
            data,
        ) {
            Verdict::Stray(at) => ended(run, shown(dumps, data), Ending::Stray(at)),
            Verdict::Ignored => {
                let (after, action) = reply_over(run, run.found);
                (after, Answer { dump: shown(dumps, data), found: None, action })
            },
            Verdict::Found(sighting) => {
                let (after, action) = reply_over(run, run.found.push(sighting.device));
                (after, Answer { dump: shown(dumps, data), found: Some(sighting), action })
            },
        },
        (Phase::Receive, Happened::Silence) => {
            let (after, action) = probe_over(run, run.found);
            (after, Answer { dump: None, found: None, action })
        },
        _ => ended(run, None, Ending::Failed),
    }
}

/// Whether each of `found` is held by the network of the first interface of
/// `dir` that holds it, and carries that interface's address.
pub open spec fn all_owned(dir: Seq<IfEntry>, found: Seq<Device>) -> bool {
    forall|i: int|
        0 <= i < found.len() ==> owner(dir, (#[trigger] found[i]).bh_addr) == Some(
            found[i].if_addr,
        )
}

/// A scan never holds a device under an interface that does not reach it:
/// what holds of the devices before a step holds of them after it, of the
/// device that the step tells of, and of the devices that the scan ends
/// with.
pub proof fn lemma_next_keeps_owners(dir: Seq<IfEntry>, dumps: bool, run: Run, event: Happened)
    requires
        run.wf(),
        all_owned(dir, run.found),
    ensures
        all_owned(dir, next(dir, dumps, run, event).0.found),
        next(dir, dumps, run, event).1.found matches Some(sighting) ==> owner(
            dir,
            sighting.device.bh_addr,
        ) == Some(sighting.device.if_addr),
        next(dir, dumps, run, event).1.action matches Order::Finish(Ending::Devices(list))
            ==> all_owned(dir, list),
{
    let (after, answer) = next(dir, dumps, run, event);
    match (run.phase, event) {
        (Phase::Receive, Happened::Reply { addr, port, data }) => {
            match verdict(dir, addr, port, data) {
                Verdict::Found(sighting) => {
                    let found = run.found.push(sighting.device);
                    assert(owner(dir, addr) == Some(sighting.device.if_addr));
                    assert forall|i: int| 0 <= i < found.len() implies owner(
                        dir,
                        (#[trigger] found[i]).bh_addr,
                    ) == Some(found[i].if_addr) by {
                        if i < run.found.len() {
                            assert(found[i] == run.found[i]);
                        }
                    }
                },
                _ => {},
            }
        },
        _ => {},
    }
}

impl ScanEnd {
    /// What the scan gives its caller: the devices; none after a socket
    /// that failed; nothing at all after a stray answer.
    pub fn devices(self) -> (list: Option<Vec<Beckhoff>>)
        ensures
            match self@ {
                Ending::Devices(found) => list matches Some(l) && devices(l@) == found,
                Ending::Failed => list matches Some(l) && l@.len() == 0,
                Ending::Stray(_) => list is None,
            },
    {
        match self {
            ScanEnd::Devices(list) => Some(list),
            ScanEnd::Failed => Some(Vec::new()),
            ScanEnd::Stray(_) => None,
        }
    }
}

pub(crate) fn no_devices() -> (list: Vec<Beckhoff>)
    ensures
        devices(list@) == Seq::<Device>::empty(),
{
    let list: Vec<Beckhoff> = Vec::new();
    assert(devices(list@) =~= Seq::<Device>::empty());
    list
}

pub(crate) fn bind_action(probe: &Probe) -> (action: Action)
    ensures
        action@ == bind_order(*probe),
{
    Action::Bind { addr: probe.bind_addr, timeout_ms: RECV_TIMEOUT_MS }
}

} // verus!
