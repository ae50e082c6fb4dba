use ghostos::ata::{
    controllers, AtaDevice, AtaDeviceError, AtaError, Channel, ChannelId, Command,
    DeviceId, DeviceSignature, DiagnosticCode, Direction, ErrorRegister, IdentifyData, Lba28,
    Lba48, PollStep, Status, Transfer, WaitCondition, STATUS_POLL_LIMIT,
};
use ghostos::ata_session::{start, Action, Event, Operation, Session};
use ghostos::io::PortOp;
use ghostos::pci::{Class, FunctionAddress};

const SECTOR_WORDS: usize = 256;

/// A drive on the primary channel, answering the protocol the way the
/// ATA specification describes.
struct Drive {
    identify: [u16; 256],
    disk: Vec<[u16; SECTOR_WORDS]>,
    ports: [Vec<u8>; 8],
    busy_reads: u32,
    data_requests: u32,
    current: u64,
    writing: bool,
    identify_pending: bool,
    error: Option<u8>,
    status_override: Option<u8>,
}

impl Drive {
    fn new(sectors: usize) -> Self {
        let mut identify = [0u16; 256];
        identify[49] = 0x0200;
        identify[60] = sectors as u16;
        identify[61] = (sectors >> 16) as u16;
        Drive {
            identify,
            disk: vec![[0; SECTOR_WORDS]; sectors],
            ports: Default::default(),
            busy_reads: 0,
            data_requests: 0,
            current: 0,
            writing: false,
            identify_pending: false,
            error: None,
            status_override: None,
        }
    }

    fn status(&mut self) -> u8 {
        if let Some(s) = self.status_override {
            return s;
        }
        if self.busy_reads > 0 {
            self.busy_reads -= 1;
            return 0x80;
        }
        if self.error.is_some() {
            return 0x51;
        }
        if self.data_requests > 0 { 0x58 } else { 0x50 }
    }

    fn last(&self, port: usize, back: usize) -> u8 {
        let v = &self.ports[port];
        if v.len() > back { v[v.len() - 1 - back] } else { 0 }
    }

    fn apply(&mut self, op: PortOp) {
        match op {
            PortOp::WriteU8 { port, value } if (0x1F0..0x1F8).contains(&port) => {
                let reg = (port - 0x1F0) as usize;
                self.ports[reg].push(value);
                if reg == 7 {
                    self.command(value);
                }
            }
            PortOp::WriteU8 { port: 0x3F6, .. } => {}
            other => panic!("unexpected write {:?}", other),
        }
    }

    fn command(&mut self, code: u8) {
        self.busy_reads = 2;
        match code {
            0xEC => {
                self.identify_pending = true;
                self.data_requests = 1;
            }
            0x20 | 0x30 => {
                let lba = self.last(3, 0) as u64
                    | (self.last(4, 0) as u64) << 8
                    | (self.last(5, 0) as u64) << 16
                    | ((self.last(6, 0) & 0x0F) as u64) << 24;
                let count = self.last(2, 0) as u32;
                self.start(lba, if count == 0 { 256 } else { count }, code == 0x30);
            }
            0x24 | 0x34 => {
                let lba = self.last(3, 0) as u64
                    | (self.last(4, 0) as u64) << 8
                    | (self.last(5, 0) as u64) << 16
                    | (self.last(3, 1) as u64) << 24
                    | (self.last(4, 1) as u64) << 32
                    | (self.last(5, 1) as u64) << 40;
                let count = (self.last(2, 1) as u32) << 8 | self.last(2, 0) as u32;
                self.start(lba, if count == 0 { 65536 } else { count }, code == 0x34);
            }
            0xE7 | 0xEA => {}
            _ => self.error = Some(0x04),
        }
    }

    fn start(&mut self, lba: u64, count: u32, writing: bool) {
        if lba + count as u64 > self.disk.len() as u64 {
            self.error = Some(0x10);
            return;
        }
        self.current = lba;
        self.data_requests = count;
        self.writing = writing;
    }
}

/// Runs one operation against the drive; `buffer` holds the data that
/// moves, sector after sector.
fn run(drive: &mut Drive, operation: Operation, buffer: &mut [u16]) -> Result<(), AtaError> {
    let (channel, init) = Channel::compatibility(ChannelId::Primary);
    drive.apply(init);
    let (mut session, mut action, mut writes): (Session, Action, Vec<PortOp>) = start(&channel, operation);
    for _ in 0..100_000 {
        let event = match action {
            Action::ReadStatus => Event::Status(Status::from_raw(drive.status())),
            Action::Write(_) => {
                for op in writes {
                    drive.apply(op);
                }
                Event::Completed
            }
            Action::ReadError => Event::Error(ErrorRegister::from_raw(drive.error.unwrap_or(0))),
            Action::ReadSignature => Event::Signature(DeviceSignature::from_registers(0, 0)),
            Action::ReadDiagnostic => Event::Diagnostic(DiagnosticCode::from_raw(1)),
            Action::ReadIdentifyData => {
                buffer[..256].copy_from_slice(&drive.identify);
                drive.identify_pending = false;
                drive.data_requests = 0;
                Event::Completed
            }
            Action::MoveSector(i) => {
                let chunk = &mut buffer[i as usize * SECTOR_WORDS..(i as usize + 1) * SECTOR_WORDS];
                let sector = drive.current as usize;
                if drive.writing {
                    drive.disk[sector].copy_from_slice(chunk);
                } else {
                    chunk.copy_from_slice(&drive.disk[sector]);
                }
                drive.current += 1;
                drive.data_requests -= 1;
                Event::Completed
            }
            Action::Succeeded => return Ok(()),
            Action::Failed(e) => return Err(e),
        };
        let (next, next_writes) = session.step(&channel, event);
        action = next;
        writes = next_writes;
    }
    panic!("operation did not finish");
}

fn probe(drive: &mut Drive) -> Result<AtaDevice, AtaDeviceError> {
    let mut words = [0u16; 256];
    run(drive, Operation::Identify { device: DeviceId::Slave }, &mut words).map_err(AtaDeviceError::Ata)?;
    AtaDevice::from_identify(ChannelId::Primary, DeviceId::Slave, &IdentifyData(words))
}

fn read(drive: &mut Drive, device: &AtaDevice, lba: u64, buffer: &mut [u16]) -> Result<(), AtaDeviceError> {
    let transfer = device.read_sectors(Lba48::new(lba), buffer.len())?;
    let op = Operation::Transfer { device: device.device(), transfer, direction: Direction::Read };
    run(drive, op, buffer).map_err(AtaDeviceError::Ata)
}

fn write(drive: &mut Drive, device: &AtaDevice, lba: u64, buffer: &[u16]) -> Result<(), AtaDeviceError> {
    let transfer = device.write_sectors(Lba48::new(lba), buffer.len())?;
    let op = Operation::Transfer { device: device.device(), transfer, direction: Direction::Write };
    let mut data = buffer.to_vec();
    run(drive, op, &mut data).map_err(AtaDeviceError::Ata)
}

fn flush(drive: &mut Drive, device: &AtaDevice) -> Result<(), AtaDeviceError> {
    let op = Operation::Flush { device: device.device(), command: device.flush() };
    run(drive, op, &mut []).map_err(AtaDeviceError::Ata)
}

#[test]
fn detects_device() {
    let mut drive = Drive::new(1024);
    let device = probe(&mut drive).unwrap();
    assert_eq!(device.sector_size(), 512);
    assert_eq!(device.sector_count(), 1024);
    assert_eq!(device.channel(), ChannelId::Primary);
    assert_eq!(device.device(), DeviceId::Slave);
    assert_eq!(drive.ports[6][0], 0xB0);
    assert_eq!(drive.ports[7], vec![0xEC]);
}

#[test]
fn reads_zeroed_sector() {
    let mut drive = Drive::new(1024);
    let device = probe(&mut drive).expect("failed to detect test device");
    let mut buffer = [0xFFFFu16; 256];
    read(&mut drive, &device, 0, &mut buffer).expect("failed to read test sector");
    assert!(buffer.iter().all(|&word| word == 0));
}

#[test]
fn writes_and_reads_sector() {
    let mut drive = Drive::new(1024);
    let device = probe(&mut drive).expect("failed to detect test device");
    let write_buffer = [0xA55Au16; 256];
    write(&mut drive, &device, 1, &write_buffer).expect("failed to write test sector");
    flush(&mut drive, &device).expect("failed to flush test device");
    let mut read_buffer = [0u16; 256];
    read(&mut drive, &device, 1, &mut read_buffer).expect("failed to read test sector");
    assert_eq!(read_buffer, write_buffer);
    assert_eq!(drive.ports[7].last(), Some(&0x20));
}

#[test]
fn multi_sector_transfers_move_each_sector() {
    let mut drive = Drive::new(64);
    let device = probe(&mut drive).unwrap();
    let data: Vec<u16> = (0..3 * 256).map(|i| i as u16).collect();
    write(&mut drive, &device, 10, &data).unwrap();
    assert_eq!(drive.disk[11][0], 256);
    let mut back = vec![0u16; 3 * 256];
    read(&mut drive, &device, 10, &mut back).unwrap();
    assert_eq!(back, data);
}

#[test]
fn requests_past_the_end_are_refused() {
    let mut drive = Drive::new(16);
    let device = probe(&mut drive).unwrap();
    let mut buffer = [0u16; 512];
    assert_eq!(read(&mut drive, &device, 15, &mut buffer), Err(AtaDeviceError::LbaOutOfRange));
    assert_eq!(
        device.read_sectors(Lba48::new(0x1000_0000), 256),
        Err(AtaDeviceError::Lba48Unsupported)
    );
}

#[test]
fn command_errors_report_the_error_register() {
    let mut drive = Drive::new(16);
    let device = probe(&mut drive).unwrap();
    drive.disk.truncate(4);
    let mut buffer = [0u16; 256];
    assert_eq!(
        read(&mut drive, &device, 8, &mut buffer),
        Err(AtaDeviceError::Ata(AtaError::CommandFailed {
            status: Status::from_raw(0x51),
            error: ErrorRegister::from_raw(0x10),
        }))
    );
}

#[test]
fn missing_drives_are_reported() {
    let mut floating = Drive::new(16);
    floating.status_override = Some(0xFF);
    assert_eq!(probe(&mut floating).err(), Some(AtaDeviceError::Ata(AtaError::FloatingBus)));
    let mut absent = Drive::new(16);
    absent.status_override = Some(0x00);
    assert_eq!(probe(&mut absent).err(), Some(AtaDeviceError::Ata(AtaError::NoDevice)));
}

#[test]
fn a_drive_that_stays_busy_times_out() {
    let mut drive = Drive::new(16);
    drive.status_override = Some(0x80);
    let (channel, _) = Channel::compatibility(ChannelId::Primary);
    let (mut session, mut action, _) = start(&channel, Operation::Identify { device: DeviceId::Master });
    let mut reads = 0usize;
    while action == Action::ReadStatus {
        reads += 1;
        action = session.step(&channel, Event::Status(Status::from_raw(0x80))).0;
    }
    assert_eq!(reads, STATUS_POLL_LIMIT + 1);
    assert_eq!(action, Action::Failed(AtaError::PollLimitExceeded(Status::from_raw(0x80))));
}

#[test]
fn software_reset_sequence() {
    let (channel, init) = Channel::compatibility(ChannelId::Secondary);
    assert_eq!(init, PortOp::WriteU8 { port: 0x376, value: 2 });
    let (mut session, action, writes) = start(&channel, Operation::SoftwareReset);
    assert_eq!(writes, vec![PortOp::WriteU8 { port: 0x376, value: 2 }]);
    assert!(matches!(action, Action::Write(_)));
    let (_, w) = session.step(&channel, Event::Completed);
    assert_eq!(w, vec![PortOp::WriteU8 { port: 0x376, value: 6 }]);
    let (_, w) = session.step(&channel, Event::Completed);
    assert_eq!(w, vec![PortOp::WriteU8 { port: 0x376, value: 2 }]);
    assert_eq!(session.step(&channel, Event::Completed).0, Action::ReadStatus);
    assert_eq!(session.step(&channel, Event::Status(Status::from_raw(0x80))).0, Action::ReadStatus);
    assert_eq!(session.step(&channel, Event::Status(Status::from_raw(0x50))).0, Action::ReadDiagnostic);
    assert_eq!(
        session.step(&channel, Event::Diagnostic(DiagnosticCode::from_raw(0x02))).0,
        Action::Failed(AtaError::DiagnosticFailed(DiagnosticCode::from_raw(0x02)))
    );
}

#[test]
fn non_ata_signatures_are_refused() {
    let (channel, _) = Channel::compatibility(ChannelId::Primary);
    let mut session = Session { operation: Operation::Identify { device: DeviceId::Master }, phase: ghostos::ata_session::Phase::NotBusyPoll, polls: 0 };
    assert_eq!(session.step(&channel, Event::Status(Status::from_raw(0x50))).0, Action::ReadSignature);
    let sig = DeviceSignature::from_registers(0x14, 0xEB);
    assert_eq!(session.step(&channel, Event::Signature(sig)).0, Action::Failed(AtaError::NotAtaDevice(sig)));
}

#[test]
fn status_polls() {
    let ready = Status::from_raw(0x50);
    assert_eq!(Channel::poll(WaitCondition::Idle, ready, 0), PollStep::Ready(ready));
    assert_eq!(Channel::poll(WaitCondition::Idle, Status::from_raw(0x58), 0), PollStep::Again);
    assert_eq!(Channel::poll(WaitCondition::NotBusy, Status::from_raw(0x58), 0), PollStep::Ready(Status::from_raw(0x58)));
    assert_eq!(Channel::poll(WaitCondition::DataRequest, Status::from_raw(0x51), 3), PollStep::ReadErrorRegister(Status::from_raw(0x51)));
    assert_eq!(Channel::poll(WaitCondition::DataRequest, Status::from_raw(0x70), 3), PollStep::Failed(AtaError::DeviceFault(Status::from_raw(0x70))));
    assert_eq!(Channel::poll(WaitCondition::DeviceSelectable, Status::from_raw(0xFF), 0), PollStep::Failed(AtaError::FloatingBus));
    assert_eq!(Channel::poll(WaitCondition::ResetComplete, Status::from_raw(0x00), 0), PollStep::Ready(Status::from_raw(0x00)));
    assert_eq!(Channel::poll(WaitCondition::Idle, ready, STATUS_POLL_LIMIT), PollStep::Failed(AtaError::PollLimitExceeded(ready)));
}

#[test]
fn status_and_error_bits() {
    let s = Status::from_raw(0xD9);
    assert!(s.device_busy() && s.device_ready() && s.data_requested() && s.has_error());
    assert!(!s.has_device_fault() && !s.is_zero() && !s.is_floating_bus());
    let e = ErrorRegister::from_raw(0x85);
    assert!(e.address_mark_not_found() && e.command_aborted() && e.interface_crc_error());
    assert!(!e.track_zero_not_found() && !e.id_not_found());
    assert_eq!(Channel::validate_command_status(Status::from_raw(0x51), e), Err(AtaError::CommandFailed { status: Status::from_raw(0x51), error: e }));
    assert_eq!(Channel::validate_command_status(Status::from_raw(0x50), e), Ok(()));
}

#[test]
fn addresses_and_transfers() {
    assert!(Lba28::new(0x0FFF_FFFF).is_range_addressable(1));
    assert!(!Lba28::new(0x0FFF_FFFF).is_range_addressable(2));
    assert!(!Lba28::new(0).is_range_addressable(0));
    assert_eq!(Lba48::new(0x0FFF_FFFF).as_lba28(), Some(Lba28::new(0x0FFF_FFFF)));
    assert_eq!(Lba48::new(0x1000_0000).as_lba28(), None);
    assert!(Lba48::new(10).is_range_addressable_on_device(6, 16));
    assert!(!Lba48::new(10).is_range_addressable_on_device(7, 16));
    let (channel, _) = Channel::compatibility(ChannelId::Primary);
    assert_eq!(
        channel.start_transfer(DeviceId::Master, Transfer::Lba28 { lba: Lba28::new(0x0123_4567), sector_count: 256 }, Direction::Read),
        vec![
            PortOp::WriteU8 { port: 0x1F3, value: 0x67 },
            PortOp::WriteU8 { port: 0x1F4, value: 0x45 },
            PortOp::WriteU8 { port: 0x1F5, value: 0x23 },
            PortOp::WriteU8 { port: 0x1F6, value: 0xE1 },
            PortOp::WriteU8 { port: 0x1F2, value: 0 },
            PortOp::WriteU8 { port: 0x1F7, value: 0x20 },
        ]
    );
    assert_eq!(
        channel.start_transfer(DeviceId::Slave, Transfer::Lba48 { lba: Lba48::new(0x1234_5678_9ABC), sector_count: 0x0102 }, Direction::Write),
        vec![
            PortOp::WriteU8 { port: 0x1F6, value: 0xF0 },
            PortOp::WriteU8 { port: 0x1F2, value: 0x01 },
            PortOp::WriteU8 { port: 0x1F3, value: 0x56 },
            PortOp::WriteU8 { port: 0x1F4, value: 0x34 },
            PortOp::WriteU8 { port: 0x1F5, value: 0x12 },
            PortOp::WriteU8 { port: 0x1F2, value: 0x02 },
            PortOp::WriteU8 { port: 0x1F3, value: 0xBC },
            PortOp::WriteU8 { port: 0x1F4, value: 0x9A },
            PortOp::WriteU8 { port: 0x1F5, value: 0x78 },
            PortOp::WriteU8 { port: 0x1F7, value: 0x34 },
        ]
    );
}

#[test]
fn identify_data_decoding() {
    let mut words = [0u16; 256];
    assert_eq!(
        AtaDevice::from_identify(ChannelId::Primary, DeviceId::Master, &IdentifyData(words)).err(),
        Some(AtaDeviceError::LbaUnsupported)
    );
    words[49] = 0x0200;
    assert_eq!(
        AtaDevice::from_identify(ChannelId::Primary, DeviceId::Master, &IdentifyData(words)).err(),
        Some(AtaDeviceError::InvalidSectorCount(0))
    );
    words[83] = 0x4400;
    words[100] = 0x0000;
    words[102] = 0x0001;
    words[106] = 0x5000;
    words[117] = 0x0800;
    let data = IdentifyData(words);
    assert!(data.supports_lba48());
    assert_eq!(data.logical_sector_size(), 4096);
    assert_eq!(data.logical_sector_count(), Some(0x1_0000_0000));
    let device = AtaDevice::from_identify(ChannelId::Primary, DeviceId::Master, &data).unwrap();
    assert_eq!(device.flush(), Command::FlushCacheExt);
    assert_eq!(
        device.read_sectors(Lba48::new(0x1000_0000), 2048),
        Ok(Transfer::Lba48 { lba: Lba48::new(0x1000_0000), sector_count: 1 })
    );
    words[117] = 0;
    assert_eq!(
        AtaDevice::from_identify(ChannelId::Primary, DeviceId::Master, &IdentifyData(words)).err(),
        Some(AtaDeviceError::InvalidSectorSize(0))
    );
}

#[test]
fn finds_ide_controllers() {
    let a = FunctionAddress::new(0, 1, 1);
    let b = FunctionAddress::new(0, 2, 0);
    let list = vec![(a, Class::new(1, 1, 0x80)), (b, Class::new(2, 0, 0))];
    assert_eq!(controllers(&list), vec![a]);
}
