//! ELF classification and in-place rewriting of the `PT_INTERP` string.

use vstd::prelude::*;
use vstd::string::StringSliceAdditionalSpecFns;
use crate::text::same_str;

verus! {

/// Program header type of the segment that names the dynamic linker.
pub const PT_INTERP: u32 = 3;

/// Size of the ELF header of a 64-bit file, and of one of its section headers.
pub const ELF64_HEADER_LEN: usize = 64;

/// A program header, as far as the patcher reads it.
#[derive(Clone, Copy, Debug)]
pub struct ProgramHeader {
    /// Segment type.
    pub p_type: u32,
    /// Offset of the segment in the file.
    pub p_offset: u64,
    /// Size of the segment in the file.
    pub p_filesz: u64,
}

/// What the launcher reads of a parsed ELF file.
#[derive(Debug)]
pub struct ElfLayout {
    /// The program headers, in file order.
    pub program_headers: Vec<ProgramHeader>,
    /// The name of each section, in file order; `None` where the section's name
    /// offset lies outside the section name table.
    pub section_names: Vec<Option<String>>,
}

/// Mathematical content of an `ElfLayout`.
pub struct ElfLayoutModel {
    pub program_headers: Seq<ProgramHeader>,
    pub section_names: Seq<Option<Seq<char>>>,
}

impl View for ElfLayout {
    type V = ElfLayoutModel;

    open spec fn view(&self) -> ElfLayoutModel {
        ElfLayoutModel {
            program_headers: self.program_headers@,
            section_names: self.section_names.deep_view(),
        }
    }
}

/// Why an interpreter could not be written into an ELF image.
#[derive(Clone, Copy, Debug, PartialEq, Eq, Structural)]
pub enum PatchError {
    /// The bytes are no ELF file that the parser accepts.
    Malformed,
    /// No program header has type `PT_INTERP`.
    MissingInterp,
    /// The `PT_INTERP` segment does not lie inside the file.
    OutOfRange,
    /// The segment does not end in a NUL byte.
    NotTerminated,
    /// The new interpreter and its NUL do not fit into the segment.
    TooSmall,
}

/// The error type of `goblin`, carried from the parser to the caller unread.
#[verifier::external_type_specification]
#[verifier::external_body]
pub struct ExGoblinError(goblin::error::Error);

/// What `goblin` makes of `bytes`: the layout of the file, or `None` where the
/// parser reports an error.
///
/// Two functions of `goblin` stand behind this name: `goblin::elf::Elf::parse`
/// gives the headers, and `Strtab::get_at` of the section header string table
/// that it parsed gives each section's name. One wrapper, `parse_elf`, makes
/// both calls and is the only place where the name is applied.
pub uninterp spec fn parsed_elf(bytes: Seq<u8>) -> Option<ElfLayoutModel>;

/// `goblin::elf::Elf::parse`, with the program headers and the section names
/// copied out of what it returns. The section names are looked up in the section
/// header string table with `Strtab::get_at`. Parsing reads the bytes and nothing
/// else, so the same bytes give the same layout.
#[verifier::external_body]
fn parse_elf(bytes: &[u8]) -> (r: Result<ElfLayout, goblin::error::Error>)
    ensures
        match r {
            Ok(layout) => parsed_elf(bytes@) == Some(layout@),
            Err(_) => parsed_elf(bytes@) is None,
        },
{
    let elf = goblin::elf::Elf::parse(bytes)?;
    let program_headers = elf.program_headers.iter().map(
        |h| ProgramHeader { p_type: h.p_type, p_offset: h.p_offset, p_filesz: h.p_filesz },
    ).collect();
    let section_names = elf.section_headers.iter().map(
        |s| elf.shdr_strtab.get_at(s.sh_name).map(|n| n.to_string()),
    ).collect();
    Ok(ElfLayout { program_headers, section_names })
}

/// Whether `head` starts with the ELF magic.
pub open spec fn has_elf_magic(head: Seq<u8>) -> bool {
    head.len() >= 4 && head[0] == 0x7f && head[1] == 0x45 && head[2] == 0x4c && head[3] == 0x46
}

/// Whether `head`, the start of a file, is that of a 32-bit ELF file: the magic
/// followed by class byte 1.
pub open spec fn is_elf32_head(head: Seq<u8>) -> bool {
    has_elf_magic(head) && head.len() >= 5 && head[4] == 1
}

/// The number that `width` bytes from `at` on spell, least significant first.
pub open spec fn le_value(bytes: Seq<u8>, at: int, width: nat) -> nat
    decreases width,
{
    if width == 0 {
        0
    } else {
        bytes[at] as nat + 256 * le_value(bytes, at + 1, (width - 1) as nat)
    }
}

/// Where the section header table of a 64-bit ELF file ends: `e_shoff`, at byte
/// 40 of the header, plus 64 bytes for each of the `e_shnum` sections counted at
/// byte 60.
pub open spec fn section_table_end(header: Seq<u8>) -> nat {
    le_value(header, 40, 8) + 64 * le_value(header, 60, 2)
}

/// Whether some section of the layout is called `name`.
pub open spec fn names_section(layout: ElfLayoutModel, name: Seq<char>) -> bool {
    layout.section_names.contains(Some(name))
}

/// Position of the first header of type `PT_INTERP`, or the number of headers
/// where there is none.
pub open spec fn interp_position(headers: Seq<ProgramHeader>) -> int
    decreases headers.len(),
{
    if headers.len() == 0 {
        0
    } else if headers[0].p_type == PT_INTERP {
        0
    } else {
        1 + interp_position(headers.drop_first())
    }
}

/// `bytes` with the `size` bytes from `start` on replaced by `interp` and then
/// zeros.
pub open spec fn patched(bytes: Seq<u8>, start: int, size: int, interp: Seq<u8>) -> Seq<u8> {
    Seq::new(
        bytes.len(),
        |i: int|
            if start <= i < start + interp.len() {
                interp[i - start]
            } else if start + interp.len() <= i < start + size {
                0u8
            } else {
                bytes[i]
            },
    )
}

/// What writing `interp` into the first `PT_INTERP` segment of `bytes` gives.
///
/// The segment must lie inside the file and end in a NUL byte, and `interp` must
/// leave room for that NUL: it must be shorter than the segment.
pub open spec fn patch_outcome(
    bytes: Seq<u8>,
    headers: Seq<ProgramHeader>,
    interp: Seq<u8>,
) -> Result<Seq<u8>, PatchError> {
    let k = interp_position(headers);
    if k >= headers.len() {
        Err(PatchError::MissingInterp)
    } else if headers[k].p_offset + headers[k].p_filesz > bytes.len() {
        Err(PatchError::OutOfRange)
    } else if headers[k].p_filesz == 0 || bytes[headers[k].p_offset + headers[k].p_filesz - 1]
        != 0 {
        Err(PatchError::NotTerminated)
    } else if interp.len() > headers[k].p_filesz - 1 {
        Err(PatchError::TooSmall)
    } else {
        Ok(patched(bytes, headers[k].p_offset as int, headers[k].p_filesz as int, interp))
    }
}

/// Whether the executable result `r` is the outcome `expected`.
pub open spec fn is_outcome(
    r: Result<Vec<u8>, PatchError>,
    expected: Result<Seq<u8>, PatchError>,
) -> bool {
    match expected {
        Ok(bytes) => r matches Ok(out) && out@ == bytes,
        Err(e) => r matches Err(got) && got == e,
    }
}

/// Whether the first `PT_INTERP` segment of the headers lies in `bytes` and ends
/// in a NUL byte.
pub open spec fn has_sound_interp(bytes: Seq<u8>, headers: Seq<ProgramHeader>) -> bool {
    let k = interp_position(headers);
    &&& k < headers.len()
    &&& headers[k].p_offset + headers[k].p_filesz <= bytes.len()
    &&& headers[k].p_filesz > 0
    &&& bytes[headers[k].p_offset + headers[k].p_filesz - 1] == 0
}

/// The little-endian value of eight bytes is below 2^64.
proof fn lemma_le_value_bounds(bytes: Seq<u8>, at: int, width: nat)
    requires
        width <= 8,
    ensures
        width == 0 ==> le_value(bytes, at, width) == 0,
        width == 1 ==> le_value(bytes, at, width) < 0x100,
        width == 2 ==> le_value(bytes, at, width) < 0x1_0000,
        width == 3 ==> le_value(bytes, at, width) < 0x100_0000,
        width == 4 ==> le_value(bytes, at, width) < 0x1_0000_0000,
        width == 5 ==> le_value(bytes, at, width) < 0x100_0000_0000,
        width == 6 ==> le_value(bytes, at, width) < 0x1_0000_0000_0000,
        width == 7 ==> le_value(bytes, at, width) < 0x100_0000_0000_0000,
        width == 8 ==> le_value(bytes, at, width) < 0x1_0000_0000_0000_0000,
    decreases width,
{
    if width > 0 {
        lemma_le_value_bounds(bytes, at + 1, (width - 1) as nat);
    }
}

/// What `interp_position` returns is the first `PT_INTERP` header.
pub proof fn lemma_interp_position(headers: Seq<ProgramHeader>)
    ensures
        0 <= interp_position(headers) <= headers.len(),
        interp_position(headers) < headers.len() ==> headers[interp_position(headers)].p_type
            == PT_INTERP,
        forall|j: int| 0 <= j < interp_position(headers) ==> headers[j].p_type != PT_INTERP,
    decreases headers.len(),
{
    if headers.len() > 0 && headers[0].p_type != PT_INTERP {
        let t = headers.drop_first();
        lemma_interp_position(t);
        assert forall|j: int| 0 <= j < interp_position(headers) implies headers[j].p_type
            != PT_INTERP by {
            if j > 0 {
                assert(headers[j] == t[j - 1]);
            }
        }
    }
}

/// The size rule of patching.
///
/// An interpreter that is not shorter than the segment is refused, whatever
/// else holds, and nothing is produced. With a segment that lies in the file and
/// ends in NUL, a shorter interpreter is accepted. Whatever is accepted is written
/// at the segment's start, the rest of the segment is zero, and every other byte
/// of the file is kept.
pub proof fn lemma_patch_size_rule(bytes: Seq<u8>, headers: Seq<ProgramHeader>, interp: Seq<u8>)
    ensures
        interp_position(headers) < headers.len() && interp.len() >= headers[interp_position(
            headers,
        )].p_filesz ==> patch_outcome(bytes, headers, interp) is Err,
        has_sound_interp(bytes, headers) ==> (patch_outcome(bytes, headers, interp) is Ok
            <==> interp.len() < headers[interp_position(headers)].p_filesz),
        patch_outcome(bytes, headers, interp) matches Ok(out) ==> ({
            let start = headers[interp_position(headers)].p_offset as int;
            let size = headers[interp_position(headers)].p_filesz as int;
            &&& has_sound_interp(bytes, headers)
            &&& interp.len() < size
            &&& out.len() == bytes.len()
            &&& out.subrange(start, start + interp.len()) == interp
            &&& forall|i: int| start + interp.len() <= i < start + size ==> out[i] == 0
            &&& forall|i: int|
                0 <= i < start || start + size <= i < bytes.len() ==> out[i] == bytes[i]
        }),
{
    lemma_interp_position(headers);
    let start = headers[interp_position(headers)].p_offset as int;
    let size = headers[interp_position(headers)].p_filesz as int;
    if patch_outcome(bytes, headers, interp) is Ok {
        let out = patched(bytes, start, size, interp);
        assert(out.subrange(start, start + interp.len()) =~= interp);
    }
}

/// Classifies a file by its first five bytes. `None` where the file is shorter.
pub fn is_elf32(head: &[u8]) -> (r: Option<bool>)
    ensures
        r == if head.len() < 5 {
            None
        } else {
            Some(is_elf32_head(head@))
        },
{
    if head.len() < 5 {
        return None;
    }
    if head[0] != 0x7f || head[1] != 0x45 || head[2] != 0x4c || head[3] != 0x46 {
        return Some(false);
    }
    Some(head[4] == 1)
}

/// Reads `width` bytes from `at` on as a little-endian number.
fn read_le(bytes: &[u8], at: usize, width: usize) -> (r: u64)
    requires
        width <= 8,
        at + width <= bytes.len(),
    ensures
        r == le_value(bytes@, at as int, width as nat),
{
    let mut r: u64 = 0;
    let mut k: usize = width;
    while k > 0
        invariant
            k <= width <= 8,
            at + width <= bytes.len(),
            r == le_value(bytes@, at + k, (width - k) as nat),
        decreases k,
    {
        proof {
            lemma_le_value_bounds(bytes@, at + k, (width - k) as nat);
            lemma_le_value_bounds(bytes@, at + k - 1, (width - k + 1) as nat);
        }
        k -= 1;
        r = r * 256 + bytes[at + k] as u64;
    }
    r
}

/// How much of a 64-bit ELF file the launcher reads: up to the end of the
/// section header table, as the first 64 bytes of the file give it. `None` where
/// `head` is shorter than an ELF header or the end does not fit 64 bits.
pub fn elf_extent(head: &[u8]) -> (r: Option<u64>)
    ensures
        r == if head.len() >= 64 && section_table_end(head@) <= u64::MAX {
            Some(section_table_end(head@) as u64)
        } else {
            None
        },
{
    if head.len() < ELF64_HEADER_LEN {
        return None;
    }
    let table_offset = read_le(head, 40, 8);
    let section_count = read_le(head, 60, 2);
    proof {
        lemma_le_value_bounds(head@, 60, 2);
    }
    let table_len: u64 = section_count * 64;
    table_offset.checked_add(table_len)
}

/// The leading part of a 64-bit ELF file that holds its header and section header
/// table, or the whole of a 32-bit one. `None` where the file is shorter than
/// that, or the table's end does not fit the address space.
pub fn get_elf(file: &[u8], is_elf32: bool) -> (r: Option<Vec<u8>>)
    ensures
        r.deep_view() == if is_elf32 {
            Some(file@)
        } else if file.len() >= 64 && section_table_end(file@) <= file.len() {
            Some(file@.take(section_table_end(file@) as int))
        } else {
            None
        },
{
    if is_elf32 {
        let out = vstd::slice::slice_to_vec(file);
        assert(out.deep_view() =~= file@);
        return Some(out);
    }
    if file.len() < ELF64_HEADER_LEN {
        return None;
    }
    let table_offset = read_le(file, 40, 8);
    let section_count = read_le(file, 60, 2);
    proof {
        lemma_le_value_bounds(file@, 60, 2);
    }
    let table_len: u64 = section_count * 64;
    let len: u64 = file.len() as u64;
    if table_offset > len || table_len > len - table_offset {
        return None;
    }
    let end: usize = (table_offset + table_len) as usize;
    let out = vstd::slice::slice_to_vec(vstd::slice::slice_subrange(file, 0, end));
    assert(out.deep_view() =~= file@.take(end as int));
    Some(out)
}

/// Whether some section of `layout` is called `section_name`.
pub fn has_section(layout: &ElfLayout, section_name: &str) -> (r: bool)
    ensures
        r == names_section(layout@, section_name@),
{
    let mut i: usize = 0;
    while i < layout.section_names.len()
        invariant
            i <= layout.section_names.len(),
            forall|j: int| 0 <= j < i ==> layout@.section_names[j] != Some(section_name@),
        decreases layout.section_names.len() - i,
    {
        assert(layout@.section_names[i as int] == layout.section_names@[i as int].deep_view());
        match &layout.section_names[i] {
            Some(name) => {
                if same_str(name.as_str(), section_name) {
                    return true;
                }
            },
            None => {},
        }
        i += 1;
    }
    false
}

/// Whether `elf_bytes` parse as an ELF file with a section called `section_name`.
/// Bytes that do not parse have no sections.
pub fn is_elf_section(elf_bytes: &[u8], section_name: &str) -> (r: bool)
    ensures
        r == (parsed_elf(elf_bytes@) matches Some(layout) && names_section(layout, section_name@)),
{
    match parse_elf(elf_bytes) {
        Ok(layout) => has_section(&layout, section_name),
        Err(_) => false,
    }
}

/// Whether `elf_bytes` are those of a program that carries its own payload: an
/// ELF file with a section called `pydata`.
pub fn is_packed(elf_bytes: &[u8]) -> (r: bool)
    ensures
        r == (parsed_elf(elf_bytes@) matches Some(layout) && names_section(layout, "pydata"@)),
{
    is_elf_section(elf_bytes, "pydata")
}

/// The first header of type `PT_INTERP`.
fn find_interp(headers: &[ProgramHeader]) -> (r: Option<usize>)
    ensures
        match r {
            Some(k) => k == interp_position(headers@) && k < headers.len(),
            None => interp_position(headers@) >= headers.len(),
        },
{
    let mut i: usize = 0;
    assert(headers@.subrange(0, headers.len() as int) =~= headers@);
    while i < headers.len()
        invariant
            i <= headers.len(),
            interp_position(headers@) == i + interp_position(
                headers@.subrange(i as int, headers.len() as int),
            ),
        decreases headers.len() - i,
    {
        let ghost rest = headers@.subrange(i as int, headers.len() as int);
        assert(rest[0] == headers@[i as int]);
        if headers[i].p_type == PT_INTERP {
            return Some(i);
        }
        assert(rest.drop_first() =~= headers@.subrange(i + 1, headers.len() as int));
        i += 1;
    }
    None
}

/// Writes `new_interp` into the first `PT_INTERP` segment of `elf_bytes`, given
/// the file's program headers. Nothing is returned but an error unless the whole
/// new segment is valid.
pub fn patch_interp(elf_bytes: Vec<u8>, headers: &[ProgramHeader], new_interp: &str) -> (r: Result<
    Vec<u8>,
    PatchError,
>)
    ensures
        is_outcome(r, patch_outcome(elf_bytes@, headers@, new_interp.spec_bytes())),
{
    let mut out = elf_bytes;
    let k = match find_interp(headers) {
        Some(k) => k,
        None => { return Err(PatchError::MissingInterp); },
    };
    let header = headers[k];
    let len: u64 = out.len() as u64;
    if header.p_offset > len || header.p_filesz > len - header.p_offset {
        return Err(PatchError::OutOfRange);
    }
    let start: usize = header.p_offset as usize;
    let size: usize = header.p_filesz as usize;
    if size == 0 || out[start + size - 1] != 0 {
        return Err(PatchError::NotTerminated);
    }
    let interp = new_interp.as_bytes();
    if interp.len() > size - 1 {
        return Err(PatchError::TooSmall);
    }
    let mut i: usize = 0;
    while i < size
        invariant
            i <= size,
            start + size <= out.len(),
            out.len() == elf_bytes.len(),
            interp.len() < size,
            forall|j: int|
                start <= j < start + i ==> out@[j] == patched(
                    elf_bytes@,
                    start as int,
                    size as int,
                    interp@,
                )[j],
            forall|j: int|
                0 <= j < start || start + i <= j < out.len() ==> out@[j] == elf_bytes@[j],
        decreases size - i,
    {
        let byte: u8 = if i < interp.len() {
            interp[i]
        } else {
            0
        };
        out.set(start + i, byte);
        i += 1;
    }
    assert(out@ =~= patched(elf_bytes@, start as int, size as int, interp@));
    Ok(out)
}

/// Parses `elf_bytes` and writes `new_interp` into its first `PT_INTERP` segment.
/// The bytes returned are the whole file to write back; on any error there is
/// nothing to write.
pub fn set_interp(elf_bytes: Vec<u8>, new_interp: &str) -> (r: Result<Vec<u8>, PatchError>)
    ensures
        is_outcome(
            r,
            match parsed_elf(elf_bytes@) {
                Some(layout) => patch_outcome(
                    elf_bytes@,
                    layout.program_headers,
                    new_interp.spec_bytes(),
                ),
                None => Err(PatchError::Malformed),
            },
        ),
{
    match parse_elf(elf_bytes.as_slice()) {
        Ok(layout) => patch_interp(elf_bytes, layout.program_headers.as_slice(), new_interp),
        Err(_) => Err(PatchError::Malformed),
    }
}

} // verus!
