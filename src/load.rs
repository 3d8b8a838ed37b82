use crate::cpu::CPU;
use crate::memory::{covers_any, no_segments, with_segment, AddressMap, Memory};
use vstd::prelude::*;

verus! {

/// The program header type of a loadable segment.
pub const PT_LOAD: u32 = 1;

/// Why an image could not be loaded.
#[derive(Debug)]
pub enum Error {
    ObjectFormatNotSupported(String),
    ProgramLoadError(String),
    ProgramParseError(String),
}

/// A program header of an executable image.
#[derive(Debug, Clone, Copy, PartialEq, Eq, Structural)]
pub struct Segment {
    pub p_type: u32,
    pub vaddr: u64,
    pub memsz: u64,
    pub offset: u64,
}

/// What an object parser found in an image.
pub enum ObjectFormat {
    Elf { segments: Vec<Segment>, entry: u64 },
    Pe,
    Te,
    Coff,
    Mach,
    Archive,
    Unknown(u64),
}

/// The text of the error for an image of unknown magic number.
pub uninterp spec fn unknown_magic_text(magic: u64) -> Seq<char>;

/// Relies on std's `format!` with `{:#x}`: the message names the magic
/// number in hexadecimal.
#[verifier::external_body]
fn unknown_magic_message(magic: u64) -> (r: String)
    ensures
        r@ == unknown_magic_text(magic),
{
    format!("unknown magic: {:#x}", magic)
}

/// Whether a program header adds addresses: it is loadable and not empty.
pub open spec fn occupies(s: Segment) -> bool {
    s.p_type == PT_LOAD && s.memsz > 0
}

/// The address map of the first `n` program headers of `segs`, or `None` where
/// one of them ends past the address space or overlaps an earlier one.
pub open spec fn map_of(segs: Seq<Segment>, n: nat) -> Option<Map<u64, (u64, u64)>>
    decreases n,
{
    if n == 0 {
        Some(no_segments())
    } else {
        match map_of(segs, (n - 1) as nat) {
            None => None,
            Some(m) => {
                let s = segs[n - 1];
                if !occupies(s) {
                    Some(m)
                } else if s.vaddr + s.memsz > u64::MAX {
                    None
                } else if covers_any(m, s.vaddr, (s.vaddr + s.memsz) as u64) {
                    None
                } else {
                    Some(with_segment(m, s.vaddr, (s.vaddr + s.memsz) as u64, s.offset))
                }
            },
        }
    }
}

/// The address map of the loadable program headers: each covers
/// `[vaddr, vaddr + memsz)` and is backed from `offset` on.
pub fn build_address_map(segments: &Vec<Segment>) -> (r: Result<AddressMap, Error>)
    ensures
        match r {
            Ok(map) => map.wf() && map_of(segments@, segments@.len()) == Some(map@),
            Err(e) => map_of(segments@, segments@.len()) is None && e is ProgramParseError,
        },
{
    let mut map = AddressMap::new();
    let mut i: usize = 0;
    while i < segments.len()
        invariant
            i <= segments@.len(),
            map.wf(),
            map_of(segments@, i as nat) == Some(map@),
        decreases segments@.len() - i,
    {
        let s = segments[i];
        if s.p_type == PT_LOAD && s.memsz > 0 {
            if s.vaddr > u64::MAX - s.memsz {
                proof {
                    lemma_map_of_fails(segments@, (i + 1) as nat);
                }
                return Err(Error::ProgramParseError("segment ends past the address space".to_owned()));
            }
            if !map.insert(s.vaddr, s.vaddr + s.memsz, s.offset) {
                proof {
                    lemma_map_of_fails(segments@, (i + 1) as nat);
                }
                return Err(Error::ProgramParseError("segments overlap".to_owned()));
            }
        }
        i = i + 1;
    }
    Ok(map)
}

/// Once a prefix has no map, no longer prefix has one.
proof fn lemma_map_of_fails(segs: Seq<Segment>, n: nat)
    requires
        n <= segs.len(),
        map_of(segs, n) is None,
    ensures
        map_of(segs, segs.len()) is None,
    decreases segs.len() - n,
{
    if n < segs.len() {
        lemma_map_of_fails(segs, n + 1);
    }
}

/// A CPU ready to run an image: its memory holds the loadable segments over
/// `image`, and execution starts at the entry point, cut to 32 bits. Images
/// other than ELF are not supported.
pub fn load(image: Vec<u8>, format: ObjectFormat) -> (r: Result<CPU, Error>)
    ensures
        match format {
            ObjectFormat::Elf { segments, entry } => match r {
                Ok(cpu) => {
                    &&& map_of(segments@, segments@.len()) == Some(cpu.memory().segments())
                    &&& cpu.wf()
                    &&& cpu.memory().backing() == image@
                    &&& cpu.state().regs == Seq::new(32, |i: int| 0u32)
                    &&& cpu.state().pc == entry as u32
                    &&& !cpu.state().halted
                },
                Err(e) => map_of(segments@, segments@.len()) is None && e is ProgramParseError,
            },
            ObjectFormat::Pe => r matches Err(Error::ObjectFormatNotSupported(s)) && s@ == "PE"@,
            ObjectFormat::Te => r matches Err(Error::ObjectFormatNotSupported(s)) && s@ == "TE"@,
            ObjectFormat::Coff => r matches Err(Error::ObjectFormatNotSupported(s)) && s@ == "COFF"@,
            ObjectFormat::Mach => r matches Err(Error::ObjectFormatNotSupported(s)) && s@ == "Mach-O"@,
            ObjectFormat::Archive => r matches Err(Error::ObjectFormatNotSupported(s)) && s@
                == "Unix a.out"@,
            ObjectFormat::Unknown(magic) => r matches Err(Error::ObjectFormatNotSupported(s)) && s@
                == unknown_magic_text(magic),
        },
{
    match format {
        ObjectFormat::Elf { segments, entry } => {
            let mapping = build_address_map(&segments)?;
            let mem = Memory::new(mapping, image);
            Ok(CPU::new(mem, entry as u32))
        },
        ObjectFormat::Pe => Err(Error::ObjectFormatNotSupported("PE".to_owned())),
        ObjectFormat::Te => Err(Error::ObjectFormatNotSupported("TE".to_owned())),
        ObjectFormat::Coff => Err(Error::ObjectFormatNotSupported("COFF".to_owned())),
        ObjectFormat::Mach => Err(Error::ObjectFormatNotSupported("Mach-O".to_owned())),
        ObjectFormat::Archive => Err(Error::ObjectFormatNotSupported("Unix a.out".to_owned())),
        ObjectFormat::Unknown(magic) => Err(Error::ObjectFormatNotSupported(unknown_magic_message(magic))),
    }
}

} // verus!
