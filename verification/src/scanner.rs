//! Finding Beckhoff controllers on the local networks.
//!
//! The scanner decides and the caller moves the datagrams: `scan` and `step`
//! say what to do next with one UDP socket, the caller does it and reports
//! back what happened.

use crate::directory::{
    directory, distinct_names, enter, entries, has_name, lemma_directory_distinct,
    lemma_first_named_unique, lemma_owner_first, lemma_owner_none, owner, place_of, IfEntry,
};
pub use crate::directory::{IfAddr, Interface};
use crate::exchange::{
    begin, bind_action, broadcast_probe, devices, next, no_devices, probe_over, reply_over, shown,
    verdict, Phase, Run,
};
pub use crate::exchange::{
    Action, Beckhoff, Event, Found, Handled, Probe, ScanEnd, Step, BROADCAST, RECV_TIMEOUT_MS,
    SCAN_SOURCE_PORT,
};
use crate::netid::AmsNetId;
use crate::udp::{bc_scan_reply, bc_scan_request, identify_scan_reply, UdpMessage, UDP_IDENTIFY};
use crate::util::{
    hexdump, in_same_net, ipv4_addr, lines_view, same_net, BECKHOFF_BC_UDP_PORT,
    BECKHOFF_UDP_PORT, FWDER_NETID,
};
use vstd::prelude::*;

verus! {

/// Determines what to scan.
#[derive(Clone, Copy, Debug, PartialEq, Eq)]
pub enum Scan<'a> {
    /// Every interface, one after the other.
    Everything,
    /// The network of the interface with this name.
    Interface(&'a str),
    /// The device at this IPv4 address.
    Address(u32),
}

/// The probes that make up a scan of `what`: one to the address itself, bound
/// to no interface; one for the interface of the name; one for every
/// interface, in their order.
pub open spec fn probes_for(dir: Seq<IfEntry>, what: Scan) -> Seq<Probe> {
    match what {
        Scan::Address(addr) => seq![Probe { bind_addr: 0, send_addr: addr, single_reply: true }],
        Scan::Interface(name) => seq![broadcast_probe(dir[place_of(dir, name@)])],
        Scan::Everything => Seq::new(dir.len(), |i: int| broadcast_probe(dir[i])),
    }
}

/// Scans for Beckhoff controllers from the interfaces of this machine. No
/// two of its interfaces have the same name.
#[derive(Debug)]
pub struct Scanner {
    dump: bool,
    if_addrs: Vec<IfAddr>,
}

/// A scan that is under way.
#[derive(Debug)]
pub struct ScanRun {
    probes: Vec<Probe>,
    current: usize,
    phase: Phase,
    found: Vec<Beckhoff>,
}

impl View for ScanRun {
    type V = Run;

    closed spec fn view(&self) -> Run {
        Run {
            probes: self.probes@,
            current: self.current as int,
            phase: self.phase,
            found: devices(self.found@),
        }
    }
}

impl ScanRun {
    #[verifier::type_invariant]
    spec fn inv(&self) -> bool {
        self@.wf()
    }

    /// Whether the scan is over.
    pub fn finished(&self) -> (over: bool)
        ensures
            over == (self@.phase == Phase::Finished),
    {
        self.phase == Phase::Finished
    }
}

impl Scanner {
    #[verifier::type_invariant]
    spec fn inv(&self) -> bool {
        distinct_names(entries(self.if_addrs@))
    }

    /// Whether every datagram is dumped.
    pub closed spec fn dumps(&self) -> bool {
        self.dump
    }

    /// The interfaces that the scanner knows, in the order in which it goes
    /// through them.
    pub closed spec fn interfaces(&self) -> Seq<IfEntry> {
        entries(self.if_addrs@)
    }

    /// A scanner for the interfaces `found`. An interface without an IPv4
    /// address and netmask is passed over.
    pub fn new(dump: bool, found: &Vec<Interface>) -> (scanner: Scanner)
        ensures
            scanner.dumps() == dump,
            scanner.interfaces() == directory(found@),
            distinct_names(scanner.interfaces()),
    {
        let mut if_addrs: Vec<IfAddr> = Vec::new();
        let mut k: usize = 0;
        assert(found@.take(0) =~= Seq::<Interface>::empty());
        assert(entries(if_addrs@) =~= Seq::<IfEntry>::empty());
        while k < found.len()
            invariant
                k <= found@.len(),
                entries(if_addrs@) == directory(found@.take(k as int)),
            decreases found@.len() - k,
        {
            assert(found@.take(k + 1).drop_last() =~= found@.take(k as int));
            assert(found@.take(k + 1).last() == found@[k as int]);
            match ipv4_addr(found[k].addresses.as_slice()) {
                None => {},
                Some((addr, mask)) => {
                    enter(&mut if_addrs, &found[k].name, addr, mask);
                },
            }
            k = k + 1;
        }
        assert(found@.take(found@.len() as int) =~= found@);
        proof {
            lemma_directory_distinct(found@);
        }
        Scanner { dump, if_addrs }
    }

    /// Whether every datagram is to be dumped.
    pub fn dump(&self) -> (dump: bool)
        ensures
            dump == self.dumps(),
    {
        self.dump
    }

    /// The interfaces that the scanner knows, each name once.
    pub fn if_addrs(&self) -> (list: &Vec<IfAddr>)
        ensures
            entries(list@) == self.interfaces(),
            distinct_names(self.interfaces()),
    {
        proof {
            use_type_invariant(self);
        }
        &self.if_addrs
    }

    /// Whether the scanner knows an interface of this name.
    pub fn if_exists(&self, if_name: &str) -> (exists: bool)
        ensures
            exists == has_name(self.interfaces(), if_name@),
    {
        self.lookup(if_name).is_some()
    }

    /// Address and netmask of the interface of this name, of which there is
    /// at most one.
    pub fn lookup(&self, if_name: &str) -> (pair: Option<(u32, u32)>)
        ensures
            distinct_names(self.interfaces()),
            match pair {
                Some((addr, mask)) => has_name(self.interfaces(), if_name@) && ({
                    let e = self.interfaces()[place_of(self.interfaces(), if_name@)];
                    e.addr == addr && e.mask == mask
                }),
                None => !has_name(self.interfaces(), if_name@),
            },
    {
        proof {
            use_type_invariant(self);
        }
        let wanted = if_name.to_owned();
        let ghost dir = self.interfaces();
        let mut i: usize = 0;
        while i < self.if_addrs.len()
            invariant
                i <= self.if_addrs@.len(),
                dir == entries(self.if_addrs@),
                distinct_names(dir),
                wanted@ == if_name@,
                forall|j: int| 0 <= j < i ==> (#[trigger] dir[j]).name != if_name@,
            decreases self.if_addrs@.len() - i,
        {
            assert(dir[i as int] == self.if_addrs@[i as int]@);
            if self.if_addrs[i].name == wanted {
                proof {
                    lemma_first_named_unique(dir, if_name@, i as int);
                }
                return Some((self.if_addrs[i].addr, self.if_addrs[i].mask));
            }
            i = i + 1;
        }
        None
    }

    /// The local address of the first interface whose network holds
    /// `bh_addr`.
    pub fn find_if_addr(&self, bh_addr: u32) -> (if_addr: Option<u32>)
        ensures
            if_addr == owner(self.interfaces(), bh_addr),
    {
        let ghost dir = self.interfaces();
        let mut i: usize = 0;
        while i < self.if_addrs.len()
            invariant
                i <= self.if_addrs@.len(),
                dir == entries(self.if_addrs@),
                forall|j: int|
                    0 <= j < i ==> !same_net(bh_addr, (#[trigger] dir[j]).addr, dir[j].mask),
            decreases self.if_addrs@.len() - i,
        {
            assert(dir[i as int] == self.if_addrs@[i as int]@);
            let entry = &self.if_addrs[i];
            if in_same_net(bh_addr, entry.addr, entry.mask) {
                proof {
                    lemma_owner_first(dir, bh_addr, i as int);
                }
                return Some(entry.addr);
            }
            i = i + 1;
        }
        proof {
            lemma_owner_none(dir, bh_addr);
        }
        None
    }

    fn show(&self, data: &[u8]) -> (dump: Option<Vec<String>>)
        ensures
            match shown(self.dumps(), data@) {
                None => dump is None,
                Some(text) => dump matches Some(lines) && lines_view(lines@) == text,
            },
    {
        if self.dump {
            Some(hexdump(data))
        } else {
            None
        }
    }

    /// Tells what a datagram from `addr` and `port` is: the answer of a
    /// device that an interface reaches, of one that none reaches, or
    /// neither.
    pub fn handle_reply(&self, addr: u32, port: u16, data: &[u8]) -> (handled: Handled)
        ensures
            handled@ == verdict(self.interfaces(), addr, port, data@),
    {
        let decoded: Option<(AmsNetId, bool, Vec<u8>, Option<(u8, u8, u16)>)> = if port
            == BECKHOFF_BC_UDP_PORT {
            match bc_scan_reply(data) {
                None => None,
                Some(reply) => Some((reply.netid, true, reply.name, None)),
            }
        } else {
            match identify_scan_reply(data) {
                None => None,
                Some(reply) => Some((reply.netid, false, reply.name, Some(reply.version))),
            }
        };
        match decoded {
            None => Handled::Ignored,
            Some((netid, is_bc, name, version)) => match self.find_if_addr(addr) {
                None => Handled::Stray(addr),
                Some(if_addr) => Handled::Found(
                    Found {
                        device: Beckhoff { if_addr, is_bc, bh_addr: addr, netid },
                        name,
                        version,
                    },
                ),
            },
        }
    }

    fn probes(&self, what: &Scan) -> (probes: Vec<Probe>)
        requires
            what matches Scan::Interface(name) ==> has_name(self.interfaces(), name@),
        ensures
            probes@ == probes_for(self.interfaces(), *what),
    {
        let mut probes: Vec<Probe> = Vec::new();
        match what {
            Scan::Address(addr) => {
                probes.push(Probe { bind_addr: 0, send_addr: *addr, single_reply: true });
                assert(probes@ =~= probes_for(self.interfaces(), *what));
            },
            Scan::Interface(name) => {
                let bind_addr = match self.lookup(name) {
                    Some((addr, _)) => addr,
                    None => 0,
                };
                probes.push(Probe { bind_addr, send_addr: BROADCAST, single_reply: false });
                assert(probes@ =~= probes_for(self.interfaces(), *what));
            },
            Scan::Everything => {
                let mut i: usize = 0;
                while i < self.if_addrs.len()
                    invariant
                        i <= self.if_addrs@.len(),
                        probes@.len() == i,
                        forall|j: int|
                            0 <= j < i ==> probes@[j] == broadcast_probe(
                                #[trigger] self.interfaces()[j],
                            ),
                    decreases self.if_addrs@.len() - i,
                {
                    assert(self.interfaces()[i as int] == self.if_addrs@[i as int]@);
                    probes.push(
                        Probe {
                            bind_addr: self.if_addrs[i].addr,
                            send_addr: BROADCAST,
                            single_reply: false,
                        },
                    );
                    i = i + 1;
                }
                assert(probes@ =~= probes_for(self.interfaces(), *what));
            },
        }
        probes
    }

    /// Scan the locally reachable network for Beckhoffs.
    ///
    /// If given a `Scan::Interface`, only IPs on that interface are scanned.
    /// If given a `Scan::Address`, only that IP is scanned.
    ///
    /// Gives the scan at its start and the first thing to do. Every later
    /// `step` gives the next, until the action is `Finish`.
    pub fn scan(&self, what: Scan) -> (started: (ScanRun, Step))
        requires
            what matches Scan::Interface(name) ==> has_name(self.interfaces(), name@),
        ensures
            (started.0@, started.1@) == begin(probes_for(self.interfaces(), what)),
    {
        let probes = self.probes(&what);
        if probes.len() == 0 {
            let run = ScanRun { probes, current: 0, phase: Phase::Finished, found: no_devices() };
            let step = Step {
                dump: None,
                found: None,
                action: Action::Finish(ScanEnd::Devices(no_devices())),
            };
            (run, step)
        } else {
            let action = bind_action(&probes[0]);
            let run = ScanRun { probes, current: 0, phase: Phase::Bind, found: no_devices() };
            (run, Step { dump: None, found: None, action })
        }
    }

    /// Takes what happened to the last action and gives the scan after it
    /// and the next thing to do.
    pub fn step(&self, run: ScanRun, event: Event) -> (stepped: (ScanRun, Step))
        ensures
            (stepped.0@, stepped.1@) == next(self.interfaces(), self.dumps(), run@, event@),
    {
        proof {
            use_type_invariant(&run);
        }
        let ScanRun { probes, current, phase, found } = run;
        match (phase, event) {
            (Phase::Bind, Event::Done) => {
                let action = Action::Send {
                    data: bc_scan_request(),
                    addr: probes[current].send_addr,
                    port: BECKHOFF_BC_UDP_PORT,
                };
                (
                    ScanRun { probes, current, phase: Phase::SendBc, found },
                    Step { dump: None, found: None, action },
                )
            },
            (Phase::SendBc, Event::Done) => {
                let request = UdpMessage::new(
                    UDP_IDENTIFY,
                    &AmsNetId(FWDER_NETID),
                    SCAN_SOURCE_PORT,
                    0,
                );
                let dump = self.show(bc_scan_request().as_slice());
                let action = Action::Send {
                    data: request.0,
                    addr: probes[current].send_addr,
                    port: BECKHOFF_UDP_PORT,
                };
                (
                    ScanRun { probes, current, phase: Phase::SendCx, found },
                    Step { dump, found: None, action },
                )
            },
            (Phase::SendCx, Event::Done) => {
                let request = UdpMessage::new(
                    UDP_IDENTIFY,
                    &AmsNetId(FWDER_NETID),
                    SCAN_SOURCE_PORT,
                    0,
                );
                let dump = self.show(request.0.as_slice());
                (
                    ScanRun { probes, current, phase: Phase::Receive, found },
                    Step { dump, found: None, action: Action::Receive },
                )
            },
            (Phase::Receive, Event::Reply { addr, port, data }) => {
                let dump = self.show(data.as_slice());
                match self.handle_reply(addr, port, data.as_slice()) {
                    Handled::Stray(at) => (
                        ScanRun { probes, current, phase: Phase::Finished, found },
                        Step { dump, found: None, action: Action::Finish(ScanEnd::Stray(at)) },
                    ),
                    Handled::Ignored => {
                        let (after, action) = Self::reply_over(probes, current, found);
                        (after, Step { dump, found: None, action })
                    },
                    Handled::Found(sighting) => {
                        let mut found = found;
                        let ghost before = devices(found@);
                        found.push(sighting.device);
                        assert(devices(found@) =~= before.push(sighting.device@));
                        let (after, action) = Self::reply_over(probes, current, found);
                        (after, Step { dump, found: Some(sighting), action })
                    },
                }
            },
            (Phase::Receive, Event::Silence) => {
                let (after, action) = Self::probe_over(probes, current, found);
                (after, Step { dump: None, found: None, action })
            },
            _ => (
                ScanRun { probes, current, phase: Phase::Finished, found },
                Step { dump: None, found: None, action: Action::Finish(ScanEnd::Failed) },
            ),
        }
    }

    fn probe_over(probes: Vec<Probe>, current: usize, found: Vec<Beckhoff>) -> (over: (
        ScanRun,
        Action,
    ))
        requires
            current < probes@.len(),
        ensures
            (over.0@, over.1@) == probe_over(
                Run {
                    probes: probes@,
                    current: current as int,
                    phase: Phase::Receive,
                    found: devices(found@),
                },
                devices(found@),
            ),
    {
        let count = probes.len();
        if current + 1 < count {
            let action = bind_action(&probes[current + 1]);
            (ScanRun { probes, current: current + 1, phase: Phase::Bind, found }, action)
        } else {
            let list = found.clone();
            assert(devices(list@) =~= devices(found@));
            (
                ScanRun { probes, current, phase: Phase::Finished, found },
                Action::Finish(ScanEnd::Devices(list)),
            )
        }
    }

    fn reply_over(probes: Vec<Probe>, current: usize, found: Vec<Beckhoff>) -> (over: (
        ScanRun,
        Action,
    ))
        requires
            current < probes@.len(),
        ensures
            (over.0@, over.1@) == reply_over(
                Run {
                    probes: probes@,
                    current: current as int,
                    phase: Phase::Receive,
                    found: devices(found@),
                },
                devices(found@),
            ),
    {
        if probes[current].single_reply {
            Self::probe_over(probes, current, found)
        } else {
            (ScanRun { probes, current, phase: Phase::Receive, found }, Action::Receive)
        }
    }
}

} // verus!
