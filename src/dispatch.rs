use vstd::prelude::*;
use crate::error::{VmmError, EXIT_OK, EXIT_RUN_ERROR};

verus! {

/// Value returned for every byte of a read that no device claims.
pub const UNCLAIMED_BYTE: u8 = 0xff;

/// Why the vCPU last stopped, with what the guest asked for.
#[derive(Debug)]
pub enum ExitReason {
    Halt,
    /// The guest reads `len` bytes at a memory-mapped address.
    MmioRead { addr: u64, len: usize },
    /// The guest writes `data` at a memory-mapped address.
    MmioWrite { addr: u64, data: Vec<u8> },
    /// The guest reads `len` bytes from an I/O port.
    PortIn { port: u16, len: usize },
    /// The guest writes `data` to an I/O port.
    PortOut { port: u16, data: Vec<u8> },
    Shutdown,
    /// The hypervisor reported an unrecoverable condition.
    InternalError,
    /// Any exit that is not modeled above.
    Unhandled,
}

/// The kind of an exit, without its data.
#[derive(Debug, Clone, Copy, PartialEq, Eq, Structural)]
pub enum ExitKind {
    Halt,
    MmioRead,
    MmioWrite,
    PortIn,
    PortOut,
    Shutdown,
    InternalError,
    Unhandled,
}

/// How a run ended.
#[derive(Debug, Clone, Copy, PartialEq, Eq, Structural)]
pub enum Outcome {
    /// The guest executed a halt.
    Halted,
    /// The guest shut the machine down.
    ShutDown,
    /// The run failed; the error says why.
    Failed(VmmError),
    /// The monitor asked the run to stop between two exits.
    Cancelled,
}

/// The state of the run loop between two resumes.
#[derive(Debug, Clone, Copy, PartialEq, Eq, Structural)]
pub enum RunState {
    Running,
    Terminated(Outcome),
}

/// What the run loop does after an exit: hand the access to the device
/// that claims `addr` (a memory address, or a port number) and then resume;
/// resume the vCPU, first handing `fill` back to the guest as the data of
/// an unclaimed read (empty for any other exit); or stop for good.
#[derive(Debug)]
pub enum Action {
    Device { kind: ExitKind, addr: u64 },
    Resume { fill: Vec<u8> },
    Stop(Outcome),
}

/// The accesses that emulated devices claim: memory-mapped windows as
/// (base address, length), and port intervals as (first port, last port).
pub struct DeviceMap {
    pub mmio: Vec<(u64, u64)>,
    pub ports: Vec<(u16, u16)>,
}

/// Some window of `mmio` contains address `a`.
pub open spec fn mmio_claimed(mmio: Seq<(u64, u64)>, a: u64) -> bool {
    exists|i: int| 0 <= i < mmio.len() && #[trigger] mmio[i].0 <= a && a < mmio[i].0 + mmio[i].1
}

/// Some interval of `ports` contains port `p`.
pub open spec fn port_claimed(ports: Seq<(u16, u16)>, p: u16) -> bool {
    exists|i: int| 0 <= i < ports.len() && #[trigger] ports[i].0 <= p && p <= ports[i].1
}

/// A device claims the access of exit `e`.
pub open spec fn claimed(e: ExitReason, mmio: Seq<(u64, u64)>, ports: Seq<(u16, u16)>) -> bool {
    match e {
        ExitReason::MmioRead { addr, .. } => mmio_claimed(mmio, addr),
        ExitReason::MmioWrite { addr, .. } => mmio_claimed(mmio, addr),
        ExitReason::PortIn { port, .. } => port_claimed(ports, port),
        ExitReason::PortOut { port, .. } => port_claimed(ports, port),
        _ => false,
    }
}

/// The address of the access of exit `e`: the memory address, or the port
/// number.
pub open spec fn addr_of(e: ExitReason) -> u64 {
    match e {
        ExitReason::MmioRead { addr, .. } => addr,
        ExitReason::MmioWrite { addr, .. } => addr,
        ExitReason::PortIn { port, .. } => port as u64,
        ExitReason::PortOut { port, .. } => port as u64,
        _ => 0,
    }
}

pub open spec fn kind_of(e: ExitReason) -> ExitKind {
    match e {
        ExitReason::Halt => ExitKind::Halt,
        ExitReason::MmioRead { .. } => ExitKind::MmioRead,
        ExitReason::MmioWrite { .. } => ExitKind::MmioWrite,
        ExitReason::PortIn { .. } => ExitKind::PortIn,
        ExitReason::PortOut { .. } => ExitKind::PortOut,
        ExitReason::Shutdown => ExitKind::Shutdown,
        ExitReason::InternalError => ExitKind::InternalError,
        ExitReason::Unhandled => ExitKind::Unhandled,
    }
}

/// Halt, shutdown and an internal error end the run; every other exit is
/// absorbed and the vCPU resumes.
pub open spec fn terminates(k: ExitKind) -> bool {
    k == ExitKind::Halt || k == ExitKind::Shutdown || k == ExitKind::InternalError
}

/// How a run ends on a terminating exit.
pub open spec fn outcome_of(k: ExitKind) -> Outcome {
    match k {
        ExitKind::Halt => Outcome::Halted,
        ExitKind::Shutdown => Outcome::ShutDown,
        _ => Outcome::Failed(VmmError::VcpuRunError),
    }
}

/// The data handed back for an exit: all-ones for each byte of an
/// unclaimed read, nothing otherwise.
pub open spec fn fill_of(e: ExitReason) -> Seq<u8> {
    match e {
        ExitReason::MmioRead { len, .. } => Seq::new(len as nat, |i: int| UNCLAIMED_BYTE),
        ExitReason::PortIn { len, .. } => Seq::new(len as nat, |i: int| UNCLAIMED_BYTE),
        _ => Seq::empty(),
    }
}

/// The state after handling exit `k` while running.
pub open spec fn next_state(k: ExitKind) -> RunState {
    if terminates(k) {
        RunState::Terminated(outcome_of(k))
    } else {
        RunState::Running
    }
}

/// The action taken on exit `e` while running, with the given claims.
pub open spec fn action_matches(a: Action, e: ExitReason, mmio: Seq<(u64, u64)>, ports: Seq<(u16, u16)>) -> bool {
    if claimed(e, mmio, ports) {
        a == Action::Device { kind: kind_of(e), addr: addr_of(e) }
    } else if terminates(kind_of(e)) {
        a == Action::Stop(outcome_of(kind_of(e)))
    } else {
        a matches Action::Resume { fill } && fill@ == fill_of(e)
    }
}

/// The exit status of a finished run: zero after a halt, a shutdown or a
/// requested stop, the run-error status otherwise.
pub open spec fn outcome_code(o: Outcome) -> i32 {
    match o {
        Outcome::Halted | Outcome::ShutDown | Outcome::Cancelled => EXIT_OK,
        Outcome::Failed(e) => crate::error::exit_code_spec(e),
    }
}

impl Outcome {
    /// The process exit status for this outcome.
    pub fn exit_code(&self) -> (r: i32)
        ensures
            r == outcome_code(*self),
            (r == EXIT_OK) <==> !(*self is Failed),
    {
        match self {
            Outcome::Halted | Outcome::ShutDown | Outcome::Cancelled => EXIT_OK,
            Outcome::Failed(e) => e.exit_code(),
        }
    }
}

impl ExitReason {
    /// The kind of this exit.
    pub fn kind(&self) -> (r: ExitKind)
        ensures
            r == kind_of(*self),
    {
        match self {
            ExitReason::Halt => ExitKind::Halt,
            ExitReason::MmioRead { .. } => ExitKind::MmioRead,
            ExitReason::MmioWrite { .. } => ExitKind::MmioWrite,
            ExitReason::PortIn { .. } => ExitKind::PortIn,
            ExitReason::PortOut { .. } => ExitKind::PortOut,
            ExitReason::Shutdown => ExitKind::Shutdown,
            ExitReason::InternalError => ExitKind::InternalError,
            ExitReason::Unhandled => ExitKind::Unhandled,
        }
    }
}

/// The data of a read that no device claims: `len` bytes of all-ones.
pub fn unclaimed_read(len: usize) -> (r: Vec<u8>)
    ensures
        r@ == Seq::new(len as nat, |i: int| UNCLAIMED_BYTE),
{
    let mut v: Vec<u8> = Vec::new();
    let mut i: usize = 0;
    while i < len
        invariant
            0 <= i <= len,
            v@ == Seq::new(i as nat, |k: int| UNCLAIMED_BYTE),
        decreases len - i,
    {
        v.push(UNCLAIMED_BYTE);
        i = i + 1;
        assert(v@ =~= Seq::new(i as nat, |k: int| UNCLAIMED_BYTE));
    }
    v
}

/// The exit-dispatch state machine of one vCPU: its state and the kinds of
/// the exits it has handled, in order.
pub struct ExitDispatcher {
    state: RunState,
    handled: Vec<ExitKind>,
    devices: DeviceMap,
    forwarded: Vec<(ExitKind, u64)>,
}

/// Whether a window of `mmio` contains address `a`.
fn mmio_claims(mmio: &Vec<(u64, u64)>, a: u64) -> (r: bool)
    ensures
        r == mmio_claimed(mmio@, a),
{
    let mut i: usize = 0;
    while i < mmio.len()
        invariant
            0 <= i <= mmio@.len(),
            forall|k: int| 0 <= k < i ==> !(#[trigger] mmio@[k].0 <= a && a < mmio@[k].0 + mmio@[k].1),
        decreases mmio@.len() - i,
    {
        let (b, l) = mmio[i];
        if b <= a && ((a - b) as u128) < l as u128 {
            return true;
        }
        i = i + 1;
    }
    false
}

/// Whether an interval of `ports` contains port `p`.
fn port_claims(ports: &Vec<(u16, u16)>, p: u16) -> (r: bool)
    ensures
        r == port_claimed(ports@, p),
{
    let mut i: usize = 0;
    while i < ports.len()
        invariant
            0 <= i <= ports@.len(),
            forall|k: int| 0 <= k < i ==> !(#[trigger] ports@[k].0 <= p && p <= ports@[k].1),
        decreases ports@.len() - i,
    {
        let (f, l) = ports[i];
        if f <= p && p <= l {
            return true;
        }
        i = i + 1;
    }
    false
}

impl ExitDispatcher {
    /// The memory windows that devices claim.
    pub closed spec fn mmio_spec(&self) -> Seq<(u64, u64)> {
        self.devices.mmio@
    }

    /// The port intervals that devices claim.
    pub closed spec fn ports_spec(&self) -> Seq<(u16, u16)> {
        self.devices.ports@
    }

    /// The accesses handed to devices so far, oldest first: the kind of the
    /// exit and its address or port.
    pub closed spec fn forwarded_spec(&self) -> Seq<(ExitKind, u64)> {
        self.forwarded@
    }

    /// A dispatcher for a freshly initialized vCPU whose accesses the
    /// devices of `devices` may claim.
    pub fn with_devices(devices: DeviceMap) -> (r: ExitDispatcher)
        ensures
            r.state_spec() == RunState::Running,
            r.log() == Seq::<ExitKind>::empty(),
            r.forwarded_spec() == Seq::<(ExitKind, u64)>::empty(),
            r.mmio_spec() == devices.mmio@,
            r.ports_spec() == devices.ports@,
    {
        ExitDispatcher { state: RunState::Running, handled: Vec::new(), devices, forwarded: Vec::new() }
    }

    /// The accesses handed to devices so far, oldest first.
    pub fn forwarded(&self) -> (r: &Vec<(ExitKind, u64)>)
        ensures
            r@ == self.forwarded_spec(),
    {
        &self.forwarded
    }

    /// Stops the run at an exit boundary: a running dispatcher ends with
    /// `Cancelled`; one that has already ended is left as it was.
    pub fn cancel(&mut self)
        ensures
            final(self).state_spec() == (if old(self).state_spec() == RunState::Running {
                RunState::Terminated(Outcome::Cancelled)
            } else {
                old(self).state_spec()
            }),
            final(self).log() == old(self).log(),
            final(self).forwarded_spec() == old(self).forwarded_spec(),
            final(self).mmio_spec() == old(self).mmio_spec(),
            final(self).ports_spec() == old(self).ports_spec(),
    {
        if self.state == RunState::Running {
            self.state = RunState::Terminated(Outcome::Cancelled);
        }
    }

    /// Whether a device claims the access of `exit`.
    pub fn claims(&self, exit: &ExitReason) -> (r: bool)
        ensures
            r == claimed(*exit, self.mmio_spec(), self.ports_spec()),
    {
        match exit {
            ExitReason::MmioRead { addr, .. } => mmio_claims(&self.devices.mmio, *addr),
            ExitReason::MmioWrite { addr, .. } => mmio_claims(&self.devices.mmio, *addr),
            ExitReason::PortIn { port, .. } => port_claims(&self.devices.ports, *port),
            ExitReason::PortOut { port, .. } => port_claims(&self.devices.ports, *port),
            _ => false,
        }
    }

    pub closed spec fn state_spec(&self) -> RunState {
        self.state
    }

    /// Kinds of the exits handled so far, oldest first.
    pub closed spec fn log(&self) -> Seq<ExitKind> {
        self.handled@
    }

    /// A dispatcher for a vCPU that has just been initialized, with no
    /// devices: every access is unclaimed.
    pub fn new() -> (r: ExitDispatcher)
        ensures
            r.state_spec() == RunState::Running,
            r.log() == Seq::<ExitKind>::empty(),
            r.forwarded_spec() == Seq::<(ExitKind, u64)>::empty(),
            r.mmio_spec() == Seq::<(u64, u64)>::empty(),
            r.ports_spec() == Seq::<(u16, u16)>::empty(),
    {
        ExitDispatcher::with_devices(DeviceMap { mmio: Vec::new(), ports: Vec::new() })
    }

    /// The current state.
    pub fn state(&self) -> (r: RunState)
        ensures
            r == self.state_spec(),
    {
        self.state
    }

    /// The kinds of the exits handled so far, oldest first.
    pub fn handled(&self) -> (r: &Vec<ExitKind>)
        ensures
            r@ == self.log(),
    {
        &self.handled
    }

    /// Number of handled exits of kind `k`.
    pub fn count(&self, k: ExitKind) -> (r: usize)
        ensures
            r == self.log().filter(|x: ExitKind| x == k).len(),
    {
        let mut c: usize = 0;
        let mut i: usize = 0;
        let n = self.handled.len();
        while i < n
            invariant
                n == self.log().len(),
                0 <= i <= n,
                c == self.log().subrange(0, i as int).filter(|x: ExitKind| x == k).len(),
                c <= i,
            decreases n - i,
        {
            proof {
                let s = self.log().subrange(0, i + 1);
                assert(s.drop_last() =~= self.log().subrange(0, i as int));
                reveal(Seq::filter);
            }
            if self.handled[i] == k {
                c = c + 1;
            }
            i = i + 1;
        }
        assert(self.log().subrange(0, n as int) =~= self.log());
        c
    }

    /// Handles one exit while running: records it, moves to the next state
    /// and says what the run loop must do. An access that a device claims is
    /// handed to it, and recorded as forwarded.
    pub fn dispatch(&mut self, exit: &ExitReason) -> (r: Action)
        requires
            old(self).state_spec() == RunState::Running,
        ensures
            final(self).log() == old(self).log().push(kind_of(*exit)),
            final(self).state_spec() == next_state(kind_of(*exit)),
            action_matches(r, *exit, old(self).mmio_spec(), old(self).ports_spec()),
            final(self).forwarded_spec() == (if claimed(*exit, old(self).mmio_spec(), old(self).ports_spec()) {
                old(self).forwarded_spec().push((kind_of(*exit), addr_of(*exit)))
            } else {
                old(self).forwarded_spec()
            }),
            final(self).mmio_spec() == old(self).mmio_spec(),
            final(self).ports_spec() == old(self).ports_spec(),
    {
        let k = exit.kind();
        self.handled.push(k);
        if self.claims(exit) {
            let addr: u64 = match exit {
                ExitReason::MmioRead { addr, .. } => *addr,
                ExitReason::MmioWrite { addr, .. } => *addr,
                ExitReason::PortIn { port, .. } => *port as u64,
                ExitReason::PortOut { port, .. } => *port as u64,
                _ => 0,
            };
            self.forwarded.push((k, addr));
            return Action::Device { kind: k, addr };
        }
        match exit {
            ExitReason::Halt => {
                self.state = RunState::Terminated(Outcome::Halted);
                Action::Stop(Outcome::Halted)
            },
            ExitReason::Shutdown => {
                self.state = RunState::Terminated(Outcome::ShutDown);
                Action::Stop(Outcome::ShutDown)
            },
            ExitReason::InternalError => {
                let o = Outcome::Failed(VmmError::VcpuRunError);
                self.state = RunState::Terminated(o);
                Action::Stop(o)
            },
            ExitReason::MmioRead { len, .. } => Action::Resume { fill: unclaimed_read(*len) },
            ExitReason::PortIn { len, .. } => Action::Resume { fill: unclaimed_read(*len) },
            ExitReason::MmioWrite { .. } | ExitReason::PortOut { .. } | ExitReason::Unhandled => {
                Action::Resume { fill: Vec::new() }
            },
        }
    }
}

/// Kinds of a sequence of exits.
pub open spec fn kinds(s: Seq<ExitReason>) -> Seq<ExitKind> {
    s.map_values(|e: ExitReason| kind_of(e))
}

/// The accesses among the exits `s` that devices claim, in order: the kind
/// of each and its address or port.
pub open spec fn forwards(s: Seq<ExitReason>, mmio: Seq<(u64, u64)>, ports: Seq<(u16, u16)>) -> Seq<(ExitKind, u64)>
    decreases s.len(),
{
    if s.len() == 0 {
        Seq::empty()
    } else if claimed(s.last(), mmio, ports) {
        forwards(s.drop_last(), mmio, ports).push((kind_of(s.last()), addr_of(s.last())))
    } else {
        forwards(s.drop_last(), mmio, ports)
    }
}

/// The state after the last of `n` consumed exits of `s`.
pub open spec fn state_after(s: Seq<ExitReason>, n: int) -> RunState {
    if n > 0 && terminates(kind_of(s[n - 1])) {
        RunState::Terminated(outcome_of(kind_of(s[n - 1])))
    } else {
        RunState::Running
    }
}

impl ExitDispatcher {
    /// Drives the run loop over the exits that successive resumes return,
    /// in order, and stops at the first exit that ends the run: no exit
    /// after it is consumed. Returns how many exits were consumed.
    pub fn run(&mut self, exits: &Vec<ExitReason>) -> (r: usize)
        requires
            old(self).state_spec() == RunState::Running,
        ensures
            r <= exits@.len(),
            forall|k: int| 0 <= k < r - 1 ==> !terminates(#[trigger] kind_of(exits@[k])),
            r < exits@.len() ==> r > 0 && terminates(kind_of(exits@[r - 1])),
            final(self).log() == old(self).log() + kinds(exits@.subrange(0, r as int)),
            final(self).state_spec() == state_after(exits@, r as int),
            final(self).forwarded_spec() == old(self).forwarded_spec()
                + forwards(exits@.subrange(0, r as int), old(self).mmio_spec(), old(self).ports_spec()),
    {
        let n = exits.len();
        let mut i: usize = 0;
        while i < n
            invariant
                n == exits@.len(),
                0 <= i <= n,
                forall|k: int| 0 <= k < i ==> !terminates(#[trigger] kind_of(exits@[k])),
                self.log() == old(self).log() + kinds(exits@.subrange(0, i as int)),
                self.state_spec() == RunState::Running,
                self.mmio_spec() == old(self).mmio_spec(),
                self.ports_spec() == old(self).ports_spec(),
                self.forwarded_spec() == old(self).forwarded_spec()
                    + forwards(exits@.subrange(0, i as int), old(self).mmio_spec(), old(self).ports_spec()),
            decreases n - i,
        {
            assert(exits@.subrange(0, i + 1).drop_last() =~= exits@.subrange(0, i as int));
            assert(exits@.subrange(0, i + 1).last() == exits@[i as int]);
            let action = self.dispatch(&exits[i]);
            assert(self.forwarded_spec() =~= old(self).forwarded_spec()
                + forwards(exits@.subrange(0, i + 1), old(self).mmio_spec(), old(self).ports_spec()));
            assert(kinds(exits@.subrange(0, i + 1)) =~= kinds(exits@.subrange(0, i as int)).push(kind_of(exits@[i as int])));
            assert(self.log() =~= old(self).log() + kinds(exits@.subrange(0, i + 1)));
            i = i + 1;
            match action {
                Action::Stop(_) => {
                    return i;
                },
                Action::Resume { .. } | Action::Device { .. } => {},
            }
        }
        i
    }
}

} // verus!
