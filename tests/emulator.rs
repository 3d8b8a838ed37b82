use riscv_rs::cpu::{run, Event, Fault, Stop, CPU};
use riscv_rs::decode::Insn;
use riscv_rs::load::{build_address_map, load, Error, ObjectFormat, Segment, PT_LOAD};
use riscv_rs::memory::{AddressMap, Memory};

fn word_bytes(words: &[u32]) -> Vec<u8> {
    let mut out = Vec::new();
    for w in words {
        out.extend_from_slice(&w.to_le_bytes());
    }
    out
}

fn cpu_at(base: u64, words: &[u32]) -> CPU {
    let bytes = word_bytes(words);
    let mut map = AddressMap::new();
    assert!(map.insert(base, base + bytes.len() as u64, 0));
    CPU::new(Memory::new(map, bytes), base as u32)
}

fn load_segment(p_type: u32, vaddr: u64, memsz: u64, offset: u64) -> Segment {
    Segment { p_type, vaddr, memsz, offset }
}

#[test]
fn decode_fields() {
    let insn = Insn(0x008002ef);
    assert_eq!(insn.get_opcode(), 0x6f);
    assert_eq!(insn.get_rd(), 5);
    assert_eq!(insn.get_j_imm(), 8);
    assert_eq!(Insn(0x000000ef).get_rd(), 1);
    assert_eq!(Insn(0x00000f93).get_rd(), 31);
}

#[test]
fn decode_negative_offset() {
    assert_eq!(Insn(0xffdff0ef).get_j_imm(), 0xffff_fffc);
    assert_eq!(Insn(0xffdff0ef).get_rd(), 1);
}

#[test]
fn decode_largest_offsets() {
    // imm[20] = 0, all other immediate bits set: 0x000f_fffe.
    assert_eq!(Insn(0x7fff_f06f).get_j_imm(), 0x000f_fffe);
    // only imm[20] set: -2^20.
    assert_eq!(Insn(0x8000_006f).get_j_imm(), 0xfff0_0000);
    // only imm[11] set.
    assert_eq!(Insn(0x0010_006f).get_j_imm(), 0x0000_0800);
    // only imm[19:12] set.
    assert_eq!(Insn(0x000f_f06f).get_j_imm(), 0x000f_f000);
}

#[test]
fn jump_offsets_are_even() {
    let mut w: u32 = 0x1234_5678;
    for _ in 0..1000 {
        assert_eq!(Insn(w).get_j_imm() & 1, 0);
        w = w.wrapping_mul(1_664_525).wrapping_add(1_013_904_223);
    }
    assert_eq!(Insn(0xffff_ffff).get_j_imm() & 1, 0);
}

#[test]
fn read_u32_little_endian() {
    let mut map = AddressMap::new();
    assert!(map.insert(0x2000, 0x2004, 0));
    let mem = Memory::new(map, vec![0x78, 0x56, 0x34, 0x12]);
    assert_eq!(mem.read_u32(0x2000), Some(0x1234_5678));
}

#[test]
fn read_u32_through_backing_offset() {
    let mut map = AddressMap::new();
    assert!(map.insert(0x4000, 0x4008, 2));
    let mem = Memory::new(map, vec![0, 0, 1, 2, 3, 4, 5, 6, 7, 8]);
    assert_eq!(mem.read_u32(0x4000), Some(0x0403_0201));
    assert_eq!(mem.read_u32(0x4004), Some(0x0807_0605));
    // past the end of the backing store
    assert_eq!(mem.read_u32(0x4005), None);
}

#[test]
fn read_u32_out_of_bounds() {
    let mut map = AddressMap::new();
    assert!(map.insert(0x1000, 0x1002, 0));
    assert!(map.insert(0x1002, 0x1004, 2));
    let mem = Memory::new(map, vec![1, 2, 3, 4]);
    // no segment at all
    assert_eq!(mem.read_u32(0x0), None);
    assert_eq!(mem.read_u32(u64::MAX), None);
    // four bytes that cross from one segment into the next
    assert_eq!(mem.read_u32(0x1000), None);
    // four bytes that run past the last segment
    assert_eq!(mem.read_u32(0x1002), None);
}

#[test]
fn address_map_rejects_empty_and_overlapping() {
    let mut map = AddressMap::new();
    assert!(!map.insert(0x10, 0x10, 0));
    assert!(map.insert(0x10, 0x20, 0));
    assert!(!map.insert(0x18, 0x30, 0));
    assert!(!map.insert(0x0, 0x11, 0));
    assert!(map.insert(0x20, 0x30, 0x10));
    assert_eq!(map.lookup(0x0f), None);
    assert_eq!(map.lookup(0x10), Some((0x10, 0)));
    assert_eq!(map.lookup(0x1f), Some((0x10, 0)));
    assert_eq!(map.lookup(0x20), Some((0x20, 0x10)));
    assert_eq!(map.lookup(0x30), None);
}

#[test]
fn unrecognized_opcode_falls_through() {
    let mut cpu = cpu_at(0x1000, &[0x0000_0013]);
    let r = cpu.exec();
    assert_eq!(r, Ok(Event::InvalidOpcode { opcode: 0x13, pc: 0x1000, insn: 0x0000_0013 }));
    assert_eq!(cpu.pc(), 0x1004);
    for i in 0..32 {
        assert_eq!(cpu.reg(i), 0);
    }
    assert!(!cpu.halted());
}

#[test]
fn jump_and_link_forward() {
    let mut cpu = cpu_at(0x1000, &[0x008002ef]);
    assert_eq!(cpu.exec(), Ok(Event::Jump { rd: 5, offset: 8 }));
    assert_eq!(cpu.reg(5), 0x1004);
    assert_eq!(cpu.pc(), 0x1008);
}

#[test]
fn jump_and_link_to_x0_keeps_zero() {
    let mut cpu = cpu_at(0x1000, &[0x0080006f]);
    assert_eq!(cpu.reg(0), 0);
    assert_eq!(cpu.exec(), Ok(Event::Jump { rd: 0, offset: 8 }));
    assert_eq!(cpu.reg(0), 0);
    assert_eq!(cpu.pc(), 0x1008);
}

#[test]
fn jump_and_link_backward() {
    let mut cpu = cpu_at(0x1000, &[0x0000_0013, 0xffdff0ef]);
    assert!(cpu.exec().is_ok());
    assert_eq!(cpu.pc(), 0x1004);
    assert_eq!(cpu.exec(), Ok(Event::Jump { rd: 1, offset: 0xffff_fffc }));
    assert_eq!(cpu.pc(), 0x1000);
    assert_eq!(cpu.reg(1), 0x1008);
}

#[test]
fn fetch_out_of_bounds_halts() {
    let mut cpu = cpu_at(0x1000, &[0x0000_0013]);
    assert!(cpu.exec().is_ok());
    assert_eq!(cpu.exec(), Err(Fault::FetchOutOfBounds { pc: 0x1004 }));
    assert!(cpu.halted());
    assert_eq!(cpu.pc(), 0x1004);
}

#[test]
fn self_jump_is_stable() {
    let mut image = vec![0u8; 16];
    image[..4].copy_from_slice(&0x0000_00efu32.to_le_bytes());
    let format = ObjectFormat::Elf { segments: vec![load_segment(PT_LOAD, 0x1000, 0x10, 0)], entry: 0x1000 };
    let mut cpu = match load(image, format) {
        Ok(cpu) => cpu,
        Err(e) => panic!("load failed: {:?}", e),
    };
    assert_eq!(cpu.pc(), 0x1000);
    for _ in 0..10 {
        assert_eq!(run(&mut cpu, 100), Stop::Paused);
        assert_eq!(cpu.pc(), 0x1000);
        assert_eq!(cpu.reg(1), 0x1004);
        assert!(!cpu.halted());
    }
}

#[test]
fn run_stops_on_invalid_opcode_and_fault() {
    let mut cpu = cpu_at(0x1000, &[0x0040006f, 0x0000_0013]);
    assert_eq!(run(&mut cpu, 10), Stop::InvalidOpcode { opcode: 0x13, pc: 0x1004, insn: 0x13 });
    assert_eq!(cpu.pc(), 0x1008);
    assert_eq!(run(&mut cpu, 10), Stop::Fault(Fault::FetchOutOfBounds { pc: 0x1008 }));
    assert!(cpu.halted());
    assert_eq!(run(&mut cpu, 10), Stop::Paused);
}

#[test]
fn run_with_no_steps_changes_nothing() {
    let mut cpu = cpu_at(0x1000, &[0x0000_0013]);
    assert_eq!(run(&mut cpu, 0), Stop::Paused);
    assert_eq!(cpu.pc(), 0x1000);
}

#[test]
fn load_skips_headers_that_are_not_loadable() {
    let segments = vec![
        load_segment(6, 0x1000, 0x40, 0),
        load_segment(PT_LOAD, 0x1000, 0x8, 4),
        load_segment(PT_LOAD, 0x3000, 0, 0),
    ];
    let map = match build_address_map(&segments) {
        Ok(map) => map,
        Err(e) => panic!("unexpected error: {:?}", e),
    };
    assert_eq!(map.lookup(0x1000), Some((0x1000, 4)));
    assert_eq!(map.lookup(0x1008), None);
    assert_eq!(map.lookup(0x3000), None);
}

#[test]
fn load_rejects_overlapping_segments() {
    let segments = vec![load_segment(PT_LOAD, 0x1000, 0x10, 0), load_segment(PT_LOAD, 0x1008, 0x10, 0)];
    let r = load(vec![0; 32], ObjectFormat::Elf { segments, entry: 0x1000 });
    assert!(matches!(r, Err(Error::ProgramParseError(_))));
}

#[test]
fn load_rejects_segment_past_address_space() {
    let segments = vec![load_segment(PT_LOAD, u64::MAX - 4, 0x10, 0)];
    assert!(matches!(build_address_map(&segments), Err(Error::ProgramParseError(_))));
}

#[test]
fn load_truncates_entry_point() {
    let segments = vec![load_segment(PT_LOAD, 0x1000, 0x10, 0)];
    let cpu = match load(vec![0; 16], ObjectFormat::Elf { segments, entry: 0x1_0000_1000 }) {
        Ok(cpu) => cpu,
        Err(e) => panic!("unexpected error: {:?}", e),
    };
    assert_eq!(cpu.pc(), 0x1000);
}

#[test]
fn load_rejects_other_formats() {
    let names = [
        (ObjectFormat::Pe, "PE"),
        (ObjectFormat::Te, "TE"),
        (ObjectFormat::Coff, "COFF"),
        (ObjectFormat::Mach, "Mach-O"),
        (ObjectFormat::Archive, "Unix a.out"),
        (ObjectFormat::Unknown(0xcafe), "unknown magic: 0xcafe"),
    ];
    for (format, name) in names {
        match load(Vec::new(), format) {
            Err(Error::ObjectFormatNotSupported(s)) => assert_eq!(s, name),
            _ => panic!("expected an unsupported format"),
        }
    }
}
