use axvm::gdb::arch::riscv::{RiscvRegisters, RiscvTarget};
use axvm::gdb::arch::VCpuRegisters;
use axvm::gdb::{AxVMInnerMut, GdbMachine, GdbTarget, ServerAction};
use axvm::paging::PagingHandlerEpt;

type Inner = AxVMInnerMut<u8, u16, (), i32, &'static str>;

#[test]
fn a_new_vm_has_no_server() {
    let mut inner = Inner::new();
    assert!(inner.gdb_state.is_none());
    assert!(inner.gdb_target.is_none());
    assert!(inner.saved_inst.is_none());
    assert_eq!(inner.gdbserver_loop(), ServerAction::Pause);
    assert_eq!(inner.gdbserver_report(), ServerAction::Pause);
}

#[test]
fn a_server_that_cannot_start_changes_nothing() {
    let mut inner = Inner::new();
    inner.gdbserver_init(Some(GdbMachine::Running(5)), "old");
    inner.gdbserver_init(None, "new");
    assert_eq!(inner.gdb_state, Some(GdbMachine::Running(5)));
    assert_eq!(inner.gdb_target, Some("old"));
}

#[test]
fn an_idle_server_reads() {
    let mut inner = Inner::new();
    inner.gdbserver_init(Some(GdbMachine::Idle(1)), "t");
    assert_eq!(inner.gdbserver_loop(), ServerAction::Read(1, "t"));
    assert!(inner.gdb_state.is_none());
    assert_eq!(
        inner.gdbserver_resume(Some(GdbMachine::Idle(2)), "t"),
        ServerAction::Read(2, "t")
    );
    assert_eq!(
        inner.gdbserver_resume(Some(GdbMachine::Running(3)), "t"),
        ServerAction::Pause
    );
    assert_eq!(inner.gdb_state, Some(GdbMachine::Running(3)));
    assert_eq!(inner.gdb_target, Some("t"));
}

#[test]
fn interrupts_and_disconnects_pause_the_server() {
    for machine in [GdbMachine::CtrlCInterrupt(()), GdbMachine::Disconnected(4)] {
        let mut inner = Inner::new();
        inner.gdbserver_init(Some(machine), "t");
        assert_eq!(inner.gdbserver_loop(), ServerAction::Pause);
        assert!(inner.gdb_state.is_some());
        assert_eq!(inner.gdb_target, Some("t"));
    }
}

#[test]
fn a_broken_connection_ends_the_server() {
    let mut inner = Inner::new();
    inner.gdbserver_init(Some(GdbMachine::Idle(1)), "t");
    assert_eq!(inner.gdbserver_loop(), ServerAction::Read(1, "t"));
    assert_eq!(inner.gdbserver_resume(None, "t"), ServerAction::Pause);
    assert!(inner.gdb_state.is_none());
    assert!(inner.gdb_target.is_none());
}

#[test]
fn a_step_is_reported_while_the_guest_runs() {
    let mut inner = Inner::new();
    inner.gdbserver_init(Some(GdbMachine::Running(8)), "t");
    assert_eq!(inner.gdbserver_report(), ServerAction::ReportStop(8, "t"));
    assert!(inner.gdb_state.is_none());
    assert!(inner.gdb_target.is_none());
    assert_eq!(
        inner.gdbserver_resume(Some(GdbMachine::Idle(9)), "t"),
        ServerAction::Read(9, "t")
    );
}

#[test]
fn a_report_lets_an_idle_server_read() {
    let mut inner = Inner::new();
    inner.gdbserver_init(Some(GdbMachine::Idle(6)), "t");
    assert_eq!(inner.gdbserver_report(), ServerAction::Read(6, "t"));
    inner.gdbserver_init(Some(GdbMachine::Disconnected(-1)), "t");
    assert_eq!(inner.gdbserver_report(), ServerAction::Pause);
    assert_eq!(inner.gdb_state, Some(GdbMachine::Disconnected(-1)));
}

#[test]
fn the_debugger_reads_and_writes_memory() {
    let target = GdbTarget::new((), RiscvTarget::new());
    let mut data = [0u8; 3];
    assert_eq!(target.read_addrs(&Some(vec![1, 2, 3]), &mut data), Ok(3));
    assert_eq!(data, [1, 2, 3]);
    assert_eq!(target.read_addrs(&None, &mut data), Err(1));
    assert_eq!(data, [1, 2, 3]);
    assert_eq!(target.write_addrs(Some(())), Ok(()));
    assert_eq!(target.write_addrs(None), Err(1));
    assert!(target.guard_rail_implicit_sw_breakpoints());
}

#[test]
fn the_debugger_reads_and_writes_registers() {
    let target = GdbTarget::new((), RiscvTarget::new());
    let held = VCpuRegisters { gprs: [3; 32], pc: 4 };
    let mut regs = RiscvRegisters { x: [0; 32], pc: 0 };
    assert_eq!(target.read_registers(&Some(held), &mut regs), Ok(()));
    assert_eq!(regs, RiscvRegisters { x: [3; 32], pc: 4 });
    let mut vcpu = Some(VCpuRegisters { gprs: [0; 32], pc: 0 });
    assert_eq!(target.write_registers(&mut vcpu, &regs), Ok(()));
    assert_eq!(vcpu, Some(held));
}

#[test]
fn page_tables_are_reached_through_the_callback() {
    let mut handler = PagingHandlerEpt::new();
    assert!(handler.0.is_none());
    let base = 0x100usize;
    handler.set_callback(|paddr: usize| paddr + base);
    assert_eq!(handler.phys_to_virt(0x20), 0x120);
    assert_eq!(handler.alloc_frame(), None);
    handler.dealloc_frame(0x20);
}
