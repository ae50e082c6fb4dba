use ghostos::e1000::{Error, REGISTER_SPACE_SIZE};
use ghostos::e1000_init::{start, InitAction, InitEvent, InitPhase, InitSession};
use ghostos::io::PortOp;
use ghostos::mmio::{MmioOp, MmioRegion};
use ghostos::pci::{ConfigSpace, FunctionAddress};

const REGS: u64 = 0xFFFF_8000_FEB8_0000;

fn config(command: u32) -> ConfigSpace {
    let mut dwords = vec![0u32; 64];
    dwords[1] = command;
    dwords[4] = 0xFEB8_0000;
    dwords[5] = 0xC001;
    ConfigSpace::new(dwords)
}

fn registers() -> MmioRegion {
    MmioRegion::new(0xFFFF_8000_0000_0000, 0xFEB8_0000, REGISTER_SPACE_SIZE)
}

/// Drives a bring-up: the command register reads back `command_after`, the
/// control register reads `ctrl_after_reset` after the reset.
fn run(command_after: u32, ctrl_after_reset: u32, ring: bool) -> (Vec<InitAction>, Vec<PortOp>, Vec<MmioOp>) {
    let function = FunctionAddress::new(0, 3, 0);
    let (mut session, mut action): (InitSession, InitAction) = start(function);
    let mut actions = vec![action];
    let mut all_ports = Vec::new();
    let mut all_mmio = Vec::new();
    let mut config_reads = 0;
    let mut ctrl_reads = 0;
    loop {
        let event = match action {
            InitAction::ReadConfig => {
                config_reads += 1;
                InitEvent::Config(config(if config_reads == 1 { 0x0000_0400 } else { command_after }))
            }
            InitAction::WritePorts | InitAction::AccessRegisters | InitAction::Sleep(_) => InitEvent::Completed,
            InitAction::MapRegisters(_) => {
                if ring {
                    InitEvent::Mapped { registers: registers(), ring: 0x1234_5000 }
                } else {
                    InitEvent::RingUnavailable
                }
            }
            InitAction::ReadRegister(MmioOp::ReadU32 { address }) => {
                let value = match address - REGS {
                    0x0 => {
                        ctrl_reads += 1;
                        if ctrl_reads == 1 { 0x40 } else { ctrl_after_reset }
                    }
                    0x5400 => 0x1200_5452,
                    0x5404 => 0x8000_5634,
                    _ => 0,
                };
                InitEvent::Value(value)
            }
            InitAction::ReadRegister(_) => panic!("unexpected read"),
            InitAction::Succeeded { .. } | InitAction::Failed(_) => break,
        };
        let (next, ports, mmio) = session.step(event);
        all_ports.extend(ports);
        all_mmio.extend(mmio);
        action = next;
        actions.push(action);
    }
    assert_eq!(session.phase, InitPhase::Finished);
    (actions, all_ports, all_mmio)
}

#[test]
fn bring_up_follows_the_controller_sequence() {
    let (actions, ports, mmio) = run(0x0407, 0x40, true);
    assert_eq!(
        actions,
        vec![
            InitAction::ReadConfig,
            InitAction::WritePorts,
            InitAction::ReadConfig,
            InitAction::MapRegisters(ghostos::pci::MemoryBar {
                address: 0xFEB8_0000,
                width: ghostos::pci::MemoryBarWidth::Bits32,
                prefetchable: false
            }),
            InitAction::AccessRegisters,
            InitAction::Sleep(10),
            InitAction::ReadRegister(MmioOp::ReadU32 { address: REGS }),
            InitAction::WritePorts,
            InitAction::Sleep(5),
            InitAction::ReadRegister(MmioOp::ReadU32 { address: REGS }),
            InitAction::AccessRegisters,
            InitAction::ReadRegister(MmioOp::ReadU32 { address: REGS + 0x5400 }),
            InitAction::ReadRegister(MmioOp::ReadU32 { address: REGS + 0x5404 }),
            InitAction::AccessRegisters,
            InitAction::Succeeded { mac_high: 0x8000_5634, mac_low: 0x1200_5452 },
        ]
    );
    assert_eq!(
        ports,
        vec![
            PortOp::WriteU32 { port: 0xCF8, value: 0x8000_1804 },
            PortOp::WriteU16 { port: 0xCFC, value: 0x0407 },
            PortOp::WriteU32 { port: 0xC000, value: 0 },
            PortOp::WriteU32 { port: 0xC004, value: 0x0400_0040 },
        ]
    );
    assert_eq!(mmio.len(), 4 + 2 + 5);
    assert_eq!(mmio[0], MmioOp::WriteU32 { address: REGS + 0xd8, value: 0xffff_ffff });
    assert_eq!(mmio[5], MmioOp::ReadU32 { address: REGS + 0xc0 });
    assert_eq!(mmio[6], MmioOp::WriteU32 { address: REGS + 0x2800, value: 0x1234_5000 });
}

#[test]
fn bring_up_stops_at_the_first_failure() {
    assert_eq!(run(0x0406, 0, true).0.last(), Some(&InitAction::Failed(Error::IoSpaceEnableFailed)));
    assert_eq!(run(0x0403, 0, true).0.last(), Some(&InitAction::Failed(Error::BusMasterEnableFailed)));
    assert_eq!(run(0x0407, 0, false).0.last(), Some(&InitAction::Failed(Error::RxRingAllocationFailed)));
    let (actions, _, mmio) = run(0x0407, 0x0400_0000, true);
    assert_eq!(actions.last(), Some(&InitAction::Failed(Error::ResetFailed)));
    assert_eq!(mmio.len(), 4);
}

#[test]
fn missing_bars_fail_before_any_write() {
    let function = FunctionAddress::new(0, 3, 0);
    let (mut session, _) = start(function);
    let (action, ports, _) = session.step(InitEvent::Config(ConfigSpace::new(vec![0u32; 64])));
    assert_eq!(action, InitAction::Failed(Error::IoBarUnavailable));
    assert!(ports.is_empty());
}
