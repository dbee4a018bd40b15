//! The debug server of a VM.
//!
//! The debugger's protocol and its connection are the host's; what stands here is
//! when the server reads from the connection, and what it keeps of its state.
pub mod arch;

use vstd::prelude::*;

use self::arch::riscv::SavedInst;
use self::arch::ArchTarget;

verus! {

/// The state of the debug protocol, each with what the protocol's implementation
/// keeps in it.
#[derive(Debug, PartialEq, Eq)]
pub enum GdbMachine<I, R, C, D> {
    /// Waits for data from the debugger.
    Idle(I),
    /// The guest runs.
    Running(R),
    /// The debugger asked to interrupt the guest.
    CtrlCInterrupt(C),
    /// The debugger has gone.
    Disconnected(D),
}

/// What the server is to do next.
#[derive(Debug, PartialEq, Eq)]
pub enum ServerAction<I, R, T> {
    /// Read a byte from the connection, and hand it to the protocol.
    Read(I, T),
    /// Tell the debugger that the guest has made a step.
    ReportStop(R, T),
    /// Nothing, for now.
    Pause,
}

/// The part of a VM that its debug server works on. `T` is the debug target.
pub struct AxVMInnerMut<I, R, C, D, T> {
    pub gdb_target: Option<T>,
    pub gdb_state: Option<GdbMachine<I, R, C, D>>,
    /// The instruction that the current breakpoint stands in place of.
    pub saved_inst: Option<SavedInst>,
}

impl<I, R, C, D, T> AxVMInnerMut<I, R, C, D, T> {
    /// State and target are there together, or neither is.
    pub open spec fn wf(self) -> bool {
        self.gdb_state is Some <==> self.gdb_target is Some
    }

    /// Neither state nor target.
    pub open spec fn vacated(self) -> Self {
        AxVMInnerMut { gdb_state: None, gdb_target: None, ..self }
    }

    /// What is kept here, and what to do next, when the protocol is in `machine`:
    /// while it is idle, both go along with the read; else both are kept.
    pub open spec fn driven(self, machine: GdbMachine<I, R, C, D>, target: T) -> (
        Self,
        ServerAction<I, R, T>,
    ) {
        match machine {
            GdbMachine::Idle(idle) => (self, ServerAction::Read(idle, target)),
            _ => (
                AxVMInnerMut { gdb_state: Some(machine), gdb_target: Some(target), ..self },
                ServerAction::Pause,
            ),
        }
    }

    /// No server, and no saved instruction.
    pub fn new() -> (r: Self)
        ensures
            r.wf(),
            r.gdb_state is None,
            r.gdb_target is None,
            r.saved_inst is None,
    {
        AxVMInnerMut { gdb_target: None, gdb_state: None, saved_inst: None }
    }

    /// Takes the outcome of starting the protocol for `target`. One that could not
    /// be started leaves everything as it was.
    pub fn gdbserver_init(&mut self, started: Option<GdbMachine<I, R, C, D>>, target: T)
        ensures
            *final(self) == (match started {
                Some(machine) => AxVMInnerMut {
                    gdb_state: Some(machine),
                    gdb_target: Some(target),
                    ..*old(self)
                },
                None => *old(self),
            }),
            old(self).wf() ==> final(self).wf(),
            final(self).saved_inst == old(self).saved_inst,
    {
        if let Some(machine) = started {
            self.gdb_state = Some(machine);
            self.gdb_target = Some(target);
        }
    }

    /// Lets the server work until the guest is to run. Without a server there is
    /// nothing to do.
    pub fn gdbserver_loop(&mut self) -> (action: ServerAction<I, R, T>)
        requires
            old(self).gdb_state is Some ==> old(self).gdb_target is Some,
        ensures
            old(self).wf() ==> final(self).wf(),
            (*final(self), action) == (match (old(self).gdb_state, old(self).gdb_target) {
                (Some(machine), Some(target)) => old(self).vacated().driven(machine, target),
                _ => (*old(self), ServerAction::Pause),
            }),
            final(self).saved_inst == old(self).saved_inst,
            match old(self).gdb_state {
                Some(GdbMachine::Idle(idle)) => action == ServerAction::<I, R, T>::Read(
                    idle,
                    old(self).gdb_target->0,
                ) && final(self).gdb_state is None && final(self).gdb_target is None,
                _ => action is Pause && final(self).gdb_state == old(self).gdb_state && final(self).gdb_target == old(self).gdb_target,
            },
    {
        match self.gdb_state.take() {
            Some(machine) => {
                let target = self.gdb_target.take().unwrap();
                self.drive(machine, target)
            },
            None => ServerAction::Pause,
        }
    }

    /// Goes on after a read or a report, with the state that it brought the
    /// protocol to. Where it failed, the server is gone, and its target with it.
    pub fn gdbserver_resume(
        &mut self,
        outcome: Option<GdbMachine<I, R, C, D>>,
        target: T,
    ) -> (action: ServerAction<I, R, T>)
        ensures
            old(self).wf() ==> final(self).wf(),
            (*final(self), action) == (match outcome {
                Some(machine) => old(self).driven(machine, target),
                None => (*old(self), ServerAction::Pause),
            }),
            final(self).saved_inst == old(self).saved_inst,
            match outcome {
                Some(GdbMachine::Idle(idle)) => action == ServerAction::<I, R, T>::Read(
                    idle,
                    target,
                ),
                Some(machine) => action is Pause && final(self).gdb_state == Some(machine)
                    && final(self).gdb_target == Some(target),
                None => action is Pause && final(self).gdb_state == old(self).gdb_state && final(self).gdb_target == old(self).gdb_target,
            },
    {
        match outcome {
            Some(machine) => self.drive(machine, target),
            None => ServerAction::Pause,
        }
    }

    /// Lets the server know that the guest has made a step: if the protocol thinks
    /// that the guest runs, the stop is reported; else the server just works on.
    pub fn gdbserver_report(&mut self) -> (action: ServerAction<I, R, T>)
        ensures
            final(self).wf(),
            (*final(self), action) == (match (old(self).gdb_state, old(self).gdb_target) {
                (Some(GdbMachine::Running(running)), Some(target)) => (
                    old(self).vacated(),
                    ServerAction::ReportStop(running, target),
                ),
                (Some(machine), Some(target)) => old(self).vacated().driven(machine, target),
                _ => (old(self).vacated(), ServerAction::Pause),
            }),
            final(self).saved_inst == old(self).saved_inst,
            match (old(self).gdb_state, old(self).gdb_target) {
                (Some(GdbMachine::Running(running)), Some(target)) => action
                    == ServerAction::<I, R, T>::ReportStop(running, target) && final(self).gdb_state is None && final(self).gdb_target is None,
                (Some(GdbMachine::Idle(idle)), Some(target)) => action
                    == ServerAction::<I, R, T>::Read(idle, target) && final(self).gdb_state is None && final(self).gdb_target is None,
                (Some(machine), Some(target)) => action is Pause && final(self).gdb_state == Some(
                    machine,
                ) && final(self).gdb_target == Some(target),
                _ => action is Pause && final(self).gdb_state is None && final(self).gdb_target is None,
            },
    {
        let state = self.gdb_state.take();
        let target = self.gdb_target.take();
        match (state, target) {
            (Some(GdbMachine::Running(running)), Some(target)) => ServerAction::ReportStop(
                running,
                target,
            ),
            (Some(machine), Some(target)) => self.drive(machine, target),
            _ => ServerAction::Pause,
        }
    }

    fn drive(&mut self, machine: GdbMachine<I, R, C, D>, target: T) -> (action: ServerAction<
        I,
        R,
        T,
    >)
        ensures
            (*final(self), action) == old(self).driven(machine, target),
    {
        match machine {
            GdbMachine::Idle(idle) => ServerAction::Read(idle, target),
            machine => {
                self.gdb_state = Some(machine);
                self.gdb_target = Some(target);
                ServerAction::Pause
            },
        }
    }
}

/// The server does not get lost: state and target go along with the read that is
/// asked for, or both are kept for the next call.
pub proof fn law_server_is_kept<I, R, C, D, T>(
    inner: AxVMInnerMut<I, R, C, D, T>,
    machine: GdbMachine<I, R, C, D>,
    target: T,
)
    ensures
        ({
            let (kept, action) = inner.driven(machine, target);
            match action {
                ServerAction::Read(idle, t) => machine == GdbMachine::<I, R, C, D>::Idle(idle) && t
                    == target,
                ServerAction::ReportStop(_, _) => false,
                ServerAction::Pause => kept.gdb_state == Some(machine) && kept.gdb_target == Some(
                    target,
                ),
            }
        }),
{
}

/// The server reads exactly while the protocol waits for data, and then nothing is kept
/// that was not there before; in every other state it pauses. The saved instruction is
/// left alone.
pub proof fn law_server_reads_while_idle<I, R, C, D, T>(
    inner: AxVMInnerMut<I, R, C, D, T>,
    machine: GdbMachine<I, R, C, D>,
    target: T,
)
    ensures
        inner.driven(machine, target).1 is Read <==> machine is Idle,
        inner.driven(machine, target).1 is Pause <==> !(machine is Idle),
        machine is Idle ==> inner.driven(machine, target).0 == inner,
        inner.driven(machine, target).0.saved_inst == inner.saved_inst,
{
}

/// A vacated server has neither state nor target; the saved instruction is left alone.
pub proof fn law_vacated_has_no_server<I, R, C, D, T>(inner: AxVMInnerMut<I, R, C, D, T>)
    ensures
        inner.vacated().gdb_state is None,
        inner.vacated().gdb_target is None,
        inner.vacated().saved_inst == inner.saved_inst,
        inner.vacated().wf(),
        inner.wf() <==> (inner.gdb_state is Some <==> inner.gdb_target is Some),
{
}

/// What the debugger works on: a VM, seen through its architecture.
pub struct GdbTarget<M, A> {
    pub vm: M,
    pub target: A,
}

impl<M, A: ArchTarget> GdbTarget<M, A> {
    pub fn new(vm: M, target: A) -> (r: Self)
        ensures
            r == (GdbTarget { vm, target }),
    {
        GdbTarget { vm, target }
    }

    /// Software breakpoints may be set implicitly.
    pub fn guard_rail_implicit_sw_breakpoints(&self) -> (r: bool)
        ensures
            r,
    {
        true
    }

    /// Copies the registers of the vCPU to the register file; never fails.
    pub fn read_registers(&self, vcpu: &Option<A::VCpu>, regs: &mut A::Registers) -> (r: Result<
        (),
        u8,
    >)
        ensures
            r is Ok,
            match *vcpu {
                Some(v) => A::mirrors(v, *final(regs)),
                None => *final(regs) == *old(regs),
            },
    {
        self.target.read_registers(vcpu, regs);
        Ok(())
    }

    /// Copies the register file to the registers of the vCPU; never fails.
    pub fn write_registers(&self, vcpu: &mut Option<A::VCpu>, regs: &A::Registers) -> (r: Result<
        (),
        u8,
    >)
        ensures
            r is Ok,
            match *old(vcpu) {
                Some(_) => *final(vcpu) matches Some(v) && A::mirrors(v, *regs),
                None => *final(vcpu) is None,
            },
    {
        self.target.write_registers(vcpu, regs);
        Ok(())
    }

    /// Hands the bytes that a read of guest memory gave to the debugger: all of
    /// `data` is filled, and its length returned. A read that failed is error 1.
    pub fn read_addrs(&self, bytes: &Option<Vec<u8>>, data: &mut [u8]) -> (r: Result<usize, u8>)
        requires
            bytes matches Some(b) ==> b@.len() == old(data)@.len(),
        ensures
            match *bytes {
                Some(b) => r == Ok::<usize, u8>(b@.len() as usize) && final(data)@ == b@,
                None => r == Err::<usize, u8>(1) && final(data)@ == old(data)@,
            },
    {
        match bytes {
            Some(b) => {
                crate::memory::fill(data, b.as_slice(), 0);
                assert(b@.subrange(0, b@.len() as int) =~= b@);
                Ok(b.len())
            },
            None => Err(1),
        }
    }

    /// What the debugger is told of a write to guest memory; one that failed is
    /// error 1.
    pub fn write_addrs(&self, written: Option<()>) -> (r: Result<(), u8>)
        ensures
            r == (match written {
                Some(_) => Ok::<(), u8>(()),
                None => Err(1),
            }),
    {
        match written {
            Some(_) => Ok(()),
            None => Err(1),
        }
    }
}

} // verus!
