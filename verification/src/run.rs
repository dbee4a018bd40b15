//! Running a vCPU: it is bound to the physical CPU, run until an exit that cannot
//! be served here, and unbound again.
//!
//! The vCPU, the emulated devices and the page tables are the host's. A
//! [`VCpuRun`] says what to do next and takes the outcome.
use vstd::prelude::*;

verus! {

/// How wide a memory access is.
#[derive(Debug, Clone, Copy, PartialEq, Eq, Structural)]
pub enum AccessWidth {
    Byte,
    Word,
    Dword,
    Qword,
}

impl AccessWidth {
    /// The width in bytes.
    pub open spec fn bytes(self) -> usize {
        match self {
            AccessWidth::Byte => 1,
            AccessWidth::Word => 2,
            AccessWidth::Dword => 4,
            AccessWidth::Qword => 8,
        }
    }

    /// The width in bytes.
    pub fn size(&self) -> (r: usize)
        ensures
            r == self.bytes(),
            self is Byte ==> r == 1,
            self is Word ==> r == 2,
            self is Dword ==> r == 4,
            self is Qword ==> r == 8,
    {
        match self {
            AccessWidth::Byte => 1,
            AccessWidth::Word => 2,
            AccessWidth::Dword => 4,
            AccessWidth::Qword => 8,
        }
    }
}

/// Why a vCPU stopped running, as far as it matters here.
#[allow(inconsistent_fields)]
#[derive(Debug, Clone, Copy, PartialEq, Eq)]
pub enum ExitKind {
    /// The guest reads device memory into the register `reg`.
    MmioRead { addr: usize, width: AccessWidth, reg: usize },
    /// The guest writes device memory.
    MmioWrite { addr: usize, width: AccessWidth, data: u64 },
    /// The guest reads an I/O port.
    IoRead,
    /// The guest writes an I/O port.
    IoWrite,
    /// The guest touched memory that is not mapped for it in this way.
    NestedPageFault { addr: usize, access_flags: usize },
    /// Anything else.
    Other,
}

/// What the host is to do next. `R` is a full exit reason, `X` an error of the
/// host.
#[allow(inconsistent_fields)]
#[derive(Debug, PartialEq, Eq)]
pub enum RunAction<R, X> {
    /// Bind the vCPU to the physical CPU.
    Bind,
    /// Run the vCPU until it exits.
    Run,
    /// Read device memory; `width` is in bytes.
    ReadMmio { addr: usize, width: usize },
    /// Set a register of the vCPU.
    SetGpr { reg: usize, val: usize },
    /// Write device memory; `width` is in bytes.
    WriteMmio { addr: usize, width: usize, data: u64 },
    /// Try to resolve a page fault.
    HandlePageFault { addr: usize, access_flags: usize },
    /// Unbind the vCPU from the physical CPU.
    Unbind,
    /// The run is over, with this outcome.
    Return(Result<R, X>),
}

/// What came of an action.
pub enum RunEvent<R, X> {
    /// It is done.
    Done,
    /// The vCPU exited.
    Exited(ExitKind, R),
    /// Device memory was read.
    Value(usize),
    /// Whether the page fault could be resolved.
    Resolved(bool),
    /// It failed.
    Failed(X),
}

/// The action that is under way.
pub enum VCpuRun<R> {
    Binding,
    Running,
    /// Reading device memory for the register `reg`.
    ReadingMmio { reg: usize },
    SettingGpr,
    WritingMmio,
    /// Resolving the page fault that the vCPU exited for with `reason`.
    ResolvingFault { reason: R },
    /// Unbinding the vCPU, to return `reason`.
    Unbinding { reason: R },
    Over,
}

/// How a run goes on after an exit.
pub open spec fn after_exit<R, X>(kind: ExitKind, reason: R) -> (VCpuRun<R>, RunAction<R, X>) {
    match kind {
        ExitKind::MmioRead { addr, width, reg } => (
            VCpuRun::ReadingMmio { reg },
            RunAction::ReadMmio { addr, width: width.bytes() },
        ),
        ExitKind::MmioWrite { addr, width, data } => (
            VCpuRun::WritingMmio,
            RunAction::WriteMmio { addr, width: width.bytes(), data },
        ),
        ExitKind::IoRead | ExitKind::IoWrite => (VCpuRun::Running, RunAction::Run),
        ExitKind::NestedPageFault { addr, access_flags } => (
            VCpuRun::ResolvingFault { reason },
            RunAction::HandlePageFault { addr, access_flags },
        ),
        ExitKind::Other => (VCpuRun::Unbinding { reason }, RunAction::Unbind),
    }
}

impl<R> VCpuRun<R> {
    /// `event` is an outcome of the action that is under way.
    pub open spec fn expects<X>(self, event: RunEvent<R, X>) -> bool {
        match self {
            VCpuRun::Binding | VCpuRun::Unbinding { .. } => event is Done || event is Failed,
            VCpuRun::Running => event is Exited || event is Failed,
            VCpuRun::ReadingMmio { .. } => event is Value || event is Failed,
            VCpuRun::SettingGpr | VCpuRun::WritingMmio => event is Done,
            VCpuRun::ResolvingFault { .. } => event is Resolved,
            VCpuRun::Over => false,
        }
    }

    /// How the run goes on after `event`. Where an action fails, the run ends with
    /// its error; the vCPU is then left as it is.
    pub open spec fn after<X>(self, event: RunEvent<R, X>) -> (VCpuRun<R>, RunAction<R, X>) {
        match (self, event) {
            (_, RunEvent::Failed(x)) => (VCpuRun::Over, RunAction::Return(Err(x))),
            (VCpuRun::Running, RunEvent::Exited(kind, reason)) => after_exit(kind, reason),
            (VCpuRun::ReadingMmio { reg }, RunEvent::Value(val)) => (
                VCpuRun::SettingGpr,
                RunAction::SetGpr { reg, val },
            ),
            (VCpuRun::ResolvingFault { reason }, RunEvent::Resolved(false)) => (
                VCpuRun::Unbinding { reason },
                RunAction::Unbind,
            ),
            (VCpuRun::Unbinding { reason }, _) => (VCpuRun::Over, RunAction::Return(Ok(reason))),
            (_, _) => (VCpuRun::Running, RunAction::Run),
        }
    }

    /// Takes the outcome of the action that is under way; gives the next action.
    pub fn next<X>(self, event: RunEvent<R, X>) -> (r: (VCpuRun<R>, RunAction<R, X>))
        requires
            self.expects(event),
        ensures
            r == self.after(event),
            event matches RunEvent::Failed(x) ==> r.1 == RunAction::<R, X>::Return(Err(x)),
            event matches RunEvent::Exited(ExitKind::MmioRead { addr, width, .. }, _) ==> (
            r.1 matches RunAction::ReadMmio { addr: a, width: w } && a == addr && (width is Byte
                ==> w == 1) && (width is Word ==> w == 2) && (width is Dword ==> w == 4) && (
            width is Qword ==> w == 8)),
            event matches RunEvent::Exited(ExitKind::MmioWrite { addr, width, data }, _) ==> (
            r.1 matches RunAction::WriteMmio { addr: a, width: w, data: d } && a == addr && d
                == data && (width is Byte ==> w == 1) && (width is Word ==> w == 2) && (
            width is Dword ==> w == 4) && (width is Qword ==> w == 8)),
    {
        match (self, event) {
            (_, RunEvent::Failed(x)) => (VCpuRun::Over, RunAction::Return(Err(x))),
            (VCpuRun::Running, RunEvent::Exited(kind, reason)) => match kind {
                ExitKind::MmioRead { addr, width, reg } => (
                    VCpuRun::ReadingMmio { reg },
                    RunAction::ReadMmio { addr, width: width.size() },
                ),
                ExitKind::MmioWrite { addr, width, data } => (
                    VCpuRun::WritingMmio,
                    RunAction::WriteMmio { addr, width: width.size(), data },
                ),
                ExitKind::IoRead | ExitKind::IoWrite => (VCpuRun::Running, RunAction::Run),
                ExitKind::NestedPageFault { addr, access_flags } => (
                    VCpuRun::ResolvingFault { reason },
                    RunAction::HandlePageFault { addr, access_flags },
                ),
                ExitKind::Other => (VCpuRun::Unbinding { reason }, RunAction::Unbind),
            },
            (VCpuRun::ReadingMmio { reg }, RunEvent::Value(val)) => (
                VCpuRun::SettingGpr,
                RunAction::SetGpr { reg, val },
            ),
            (VCpuRun::ResolvingFault { reason }, RunEvent::Resolved(false)) => (
                VCpuRun::Unbinding { reason },
                RunAction::Unbind,
            ),
            (VCpuRun::Unbinding { reason }, _) => (VCpuRun::Over, RunAction::Return(Ok(reason))),
            (_, _) => (VCpuRun::Running, RunAction::Run),
        }
    }
}

/// Where a run is after `events`, and the action it then asks for.
pub open spec fn after_all<R, X>(events: Seq<RunEvent<R, X>>) -> (VCpuRun<R>, RunAction<R, X>)
    decreases events.len(),
{
    if events.len() == 0 {
        (VCpuRun::Binding, RunAction::Bind)
    } else {
        after_all(events.drop_last()).0.after(events.last())
    }
}

/// Every event is an outcome of the action that the events before it led to.
pub open spec fn is_run<R, X>(events: Seq<RunEvent<R, X>>) -> bool
    decreases events.len(),
{
    events.len() > 0 ==> is_run(events.drop_last()) && after_all(events.drop_last()).0.expects(
        events.last(),
    )
}

/// A run that returns an exit reason has just unbound the vCPU, and the reason is
/// that of the vCPU's last exit: one that is not served here, or a page fault that
/// could not be resolved.
pub proof fn law_returned_reason_was_not_served<R, X>(events: Seq<RunEvent<R, X>>, reason: R)
    requires
        is_run(events),
        after_all(events).1 == RunAction::<R, X>::Return(Ok(reason)),
    ensures
        ({
            let n = events.len() as int;
            &&& n >= 2
            &&& events[n - 1] is Done
            &&& after_all(events.take(n - 1)).1 is Unbind
            &&& {
                ||| events[n - 2] == RunEvent::<R, X>::Exited(ExitKind::Other, reason)
                ||| {
                    &&& n >= 3
                    &&& events[n - 2] == RunEvent::<R, X>::Resolved(false)
                    &&& events[n - 3] matches RunEvent::Exited(kind, r)
                    &&& kind is NestedPageFault
                    &&& r == reason
                }
            }
        }),
{
    let n = events.len() as int;
    let e1 = events.drop_last();
    assert(events.take(n - 1) =~= e1);
    assert(after_all(e1).0 == VCpuRun::Unbinding { reason });
    let e2 = e1.drop_last();
    assert(e1.last() == events[n - 2]);
    if !(events[n - 2] is Exited) {
        assert(after_all(e2).0 == VCpuRun::ResolvingFault { reason });
        assert(e2.last() == events[n - 3]);
    }
}

/// The value that a device gives for a read goes to the register that the exit
/// named, and then the vCPU runs on. The device is asked for as many bytes as the guest
/// reads, at the address that it reads.
pub proof fn law_mmio_read_reaches_its_register<R, X>(
    addr: usize,
    width: AccessWidth,
    reg: usize,
    reason: R,
    val: usize,
)
    ensures
        ({
            let exit = ExitKind::MmioRead { addr, width, reg };
            let s1 = VCpuRun::<R>::Running.after::<X>(RunEvent::Exited(exit, reason));
            let s2 = s1.0.after::<X>(RunEvent::Value(val));
            let s3 = s2.0.after::<X>(RunEvent::Done);
            &&& s1.1 matches RunAction::ReadMmio { addr: a, width: w }
            &&& a == addr
            &&& width is Byte ==> w == 1
            &&& width is Word ==> w == 2
            &&& width is Dword ==> w == 4
            &&& width is Qword ==> w == 8
            &&& w == width.bytes()
            &&& s2.1 == RunAction::<R, X>::SetGpr { reg, val }
            &&& s3 == (VCpuRun::<R>::Running, RunAction::<R, X>::Run)
        }),
{
}

/// What the guest writes to a device reaches it: as many bytes as the guest writes, the
/// value that it writes, at the address that it writes to; and then the vCPU runs on.
pub proof fn law_mmio_write_reaches_its_device<R, X>(
    addr: usize,
    width: AccessWidth,
    data: u64,
    reason: R,
)
    ensures
        ({
            let exit = ExitKind::MmioWrite { addr, width, data };
            let s1 = VCpuRun::<R>::Running.after::<X>(RunEvent::Exited(exit, reason));
            let s2 = s1.0.after::<X>(RunEvent::Done);
            &&& s1.1 matches RunAction::WriteMmio { addr: a, width: w, data: d }
            &&& a == addr
            &&& d == data
            &&& width is Byte ==> w == 1
            &&& width is Word ==> w == 2
            &&& width is Dword ==> w == 4
            &&& width is Qword ==> w == 8
            &&& s2 == (VCpuRun::<R>::Running, RunAction::<R, X>::Run)
        }),
{
}

/// An access to an I/O port is passed over: the vCPU runs on at once.
pub proof fn law_port_accesses_are_passed_over<R, X>(kind: ExitKind, reason: R)
    requires
        kind is IoRead || kind is IoWrite,
    ensures
        VCpuRun::<R>::Running.after::<X>(RunEvent::Exited(kind, reason)) == (
            VCpuRun::<R>::Running,
            RunAction::<R, X>::Run,
        ),
{
}

/// A page fault is handed on as the guest caused it. If it could be resolved the vCPU
/// runs on; else the vCPU is unbound and the exit is returned.
pub proof fn law_page_fault_is_resolved_or_returned<R, X>(
    addr: usize,
    access_flags: usize,
    reason: R,
)
    ensures
        ({
            let exit = ExitKind::NestedPageFault { addr, access_flags };
            let s1 = VCpuRun::<R>::Running.after::<X>(RunEvent::Exited(exit, reason));
            let good = s1.0.after::<X>(RunEvent::Resolved(true));
            let bad = s1.0.after::<X>(RunEvent::Resolved(false));
            &&& s1.1 == RunAction::<R, X>::HandlePageFault { addr, access_flags }
            &&& good == (VCpuRun::<R>::Running, RunAction::<R, X>::Run)
            &&& bad.1 == RunAction::<R, X>::Unbind
            &&& bad.0.after::<X>(RunEvent::Done).1 == RunAction::<R, X>::Return(Ok(reason))
        }),
{
}

/// An exit that is not served here is returned as it is, once the vCPU is unbound.
pub proof fn law_other_exits_are_returned<R, X>(reason: R)
    ensures
        ({
            let s1 = VCpuRun::<R>::Running.after::<X>(RunEvent::Exited(ExitKind::Other, reason));
            &&& s1.1 == RunAction::<R, X>::Unbind
            &&& s1.0.after::<X>(RunEvent::Done) == (
                VCpuRun::<R>::Over,
                RunAction::<R, X>::Return(Ok(reason)),
            )
        }),
{
}

/// A run starts by binding the vCPU, and lets it run once it is bound.
pub proof fn law_run_starts_with_binding<R, X>()
    ensures
        after_all::<R, X>(Seq::empty()).1 == RunAction::<R, X>::Bind,
        after_all::<R, X>(Seq::empty()).0.after::<X>(RunEvent::Done) == (
            VCpuRun::<R>::Running,
            RunAction::<R, X>::Run,
        ),
{
}

/// An error of the host ends a run wherever it is, and is returned as it is.
pub proof fn law_errors_end_a_run<R, X>(run: VCpuRun<R>, error: X)
    ensures
        run.after::<X>(RunEvent::Failed(error)) == (
            VCpuRun::<R>::Over,
            RunAction::<R, X>::Return(Err(error)),
        ),
{
}

/// A run binds the vCPU once, at its start; once it has unbound it, it only
/// returns; and once it has returned, it is over.
pub proof fn law_bound_once<R, X>(events: Seq<RunEvent<R, X>>)
    requires
        is_run(events),
    ensures
        after_all(events).1 is Bind <==> events.len() == 0,
        after_all(events).1 is Unbind <==> after_all(events).0 is Unbinding,
        after_all(events).1 is Return <==> after_all(events).0 is Over,
        events.len() > 0 && after_all(events.drop_last()).1 is Unbind ==> after_all(
            events,
        ).1 is Return,
    decreases events.len(),
{
    if events.len() > 0 {
        law_bound_once(events.drop_last());
    }
}

} // verus!
