//! Bytecode loader, relocator and execution engine.
//!
//! A program arrives either as raw instructions (a multiple of eight bytes)
//! or as a 64-bit little-endian object file. The loader parses section
//! headers, materialises the maps the object declares, patches map-handle
//! relocations into load-immediate-64 instructions, merges referenced code
//! sections for intra-object calls, and hands back the final instruction
//! stream. On any failure after maps were materialised, every map created
//! by that load is destroyed again: no partial programs.

use vstd::prelude::*;

use crate::bytes::{copy_bytes, le_bytes_to_nat, read_le};
use crate::maps::{self, MapDef, MapStore, MapType};

verus! {

/// Error surface of the loader and runtime.
#[derive(Debug, Clone, PartialEq, Eq, Structural)]
pub enum Error {
    /// The bytecode is empty, misaligned, or has a bad patch site.
    InvalidProgram,
    /// The virtual machine rejected or aborted the program.
    ExecutionFailed,
    /// The program failed verification.
    VerificationFailed,
    /// No program lives at the id.
    NotFound,
    /// The object file is malformed.
    ElfParseError,
    /// A declared map could not be materialised.
    MapCreationFailed,
    /// A relocation could not be applied.
    RelocationFailed,
}

/// Whether a byte string starts with the object-file magic.
pub open spec fn spec_is_elf(data: Seq<u8>) -> bool {
    data.len() >= 4 && data[0] == 0x7f && data[1] == 0x45 && data[2] == 0x4c && data[3] == 0x46
}

/// Check for the object-file magic.
pub fn is_elf(data: &[u8]) -> (r: bool)
    ensures
        r == spec_is_elf(data@),
{
    data.len() >= 4 && data[0] == 0x7f && data[1] == 0x45 && data[2] == 0x4c && data[3] == 0x46
}

/// A map descriptor lifted out of the object's `maps` section.
pub struct ElfMapDef {
    /// Declaring symbol's name.
    pub name: Vec<u8>,
    /// Numeric map kind.
    pub map_type: u32,
    /// Key size in bytes.
    pub key_size: u32,
    /// Value size in bytes.
    pub value_size: u32,
    /// Capacity.
    pub max_entries: u32,
}

/// One relocation entry: a patch site and the symbol it refers to.
pub struct ElfReloc {
    /// Offset of the patch site in the program section.
    pub offset: u64,
    /// Index into the symbol table.
    pub symbol_idx: usize,
}

/// One symbol: name, section index and offset within the section.
pub struct ElfSymbol {
    /// Symbol name.
    pub name: Vec<u8>,
    /// Section the symbol points into.
    pub section_idx: usize,
    /// Offset within that section.
    pub value: usize,
}

/// One section header, already resolved to a name.
pub struct ElfSection {
    /// Section name.
    pub name: Vec<u8>,
    /// Section type.
    pub sh_type: u32,
    /// Byte offset of the section's contents.
    pub offset: usize,
    /// Byte size of the section's contents.
    pub size: usize,
    /// Linked section index.
    pub link: usize,
}

/// Patch a load-immediate-64 instruction at a relocation site with a map
/// handle: the low-half immediate takes the handle, the high half zero.
///
/// Fails with `RelocationFailed` when the site does not fit, and with
/// `InvalidProgram` when the opcode there is not load-immediate-64 (0x18);
/// either failure leaves the bytecode unchanged.
pub fn patch_map_fd(bytecode: &mut Vec<u8>, offset: usize, map_fd: u32) -> (r: Result<(), Error>)
    ensures
        offset + 16 > old(bytecode)@.len() ==> r == Err::<(), Error>(Error::RelocationFailed)
            && final(bytecode)@ == old(bytecode)@,
        offset + 16 <= old(bytecode)@.len() && old(bytecode)@[offset as int] != 0x18 ==> r
            == Err::<(), Error>(Error::InvalidProgram) && final(bytecode)@ == old(bytecode)@,
        offset + 16 <= old(bytecode)@.len() && old(bytecode)@[offset as int] == 0x18 ==> r
            == Ok::<(), Error>(()) && final(bytecode)@.len() == old(bytecode)@.len() && forall|
            j: int,
        |
            0 <= j < old(bytecode)@.len() ==> final(bytecode)@[j] == (if offset + 4 <= j < offset
                + 8 {
                crate::bytes::le_bytes_of(map_fd as nat, 4)[j - offset - 4]
            } else if offset + 12 <= j < offset + 16 {
                0u8
            } else {
                old(bytecode)@[j]
            }),
    {
    if offset > bytecode.len() || bytecode.len() - offset < 16 {
        return Err(Error::RelocationFailed);
    }
    if bytecode[offset] != 0x18 {
        return Err(Error::InvalidProgram);
    }
    proof {
        crate::bytes::lemma_le_roundtrip(map_fd as nat, 4);
    }
    let fd_bytes = fd_to_le(map_fd);
    let mut k: usize = 0;
    while k < 4
        invariant
            k <= 4,
            offset + 16 <= bytecode@.len(),
            bytecode@.len() == old(bytecode)@.len(),
            fd_bytes@ == crate::bytes::le_bytes_of(map_fd as nat, 4),
            fd_bytes@.len() == 4,
            forall|j: int|
                0 <= j < bytecode@.len() ==> bytecode@[j] == (if offset + 4 <= j < offset + 4 + k {
                    fd_bytes@[j - offset - 4]
                } else {
                    old(bytecode)@[j]
                }),
        decreases 4 - k,
    {
        bytecode.set(offset + 4 + k, fd_bytes[k]);
        k = k + 1;
    }
    let mut k2: usize = 0;
    while k2 < 4
        invariant
            k2 <= 4,
            offset + 16 <= bytecode@.len(),
            bytecode@.len() == old(bytecode)@.len(),
            fd_bytes@ == crate::bytes::le_bytes_of(map_fd as nat, 4),
            fd_bytes@.len() == 4,
            forall|j: int|
                0 <= j < bytecode@.len() ==> bytecode@[j] == (if offset + 4 <= j < offset + 8 {
                    fd_bytes@[j - offset - 4]
                } else if offset + 12 <= j < offset + 12 + k2 {
                    0u8
                } else {
                    old(bytecode)@[j]
                }),
        decreases 4 - k2,
    {
        bytecode.set(offset + 12 + k2, 0);
        k2 = k2 + 1;
    }
    Ok(())
}

/// The four little-endian bytes of a map handle.
fn fd_to_le(map_fd: u32) -> (r: Vec<u8>)
    ensures
        r@ == crate::bytes::le_bytes_of(map_fd as nat, 4),
        r@.len() == 4,
{
    proof {
        crate::bytes::lemma_le_roundtrip(map_fd as nat, 4);
    }
    let mut out: Vec<u8> = Vec::new();
    crate::bytes::push_le(&mut out, map_fd as u64, 4);
    out
}

/// Parse a REL-form relocation section: sixteen bytes per entry, an 8-byte
/// offset followed by 8 bytes of info whose upper half is the symbol index.
pub fn parse_relocation_section(rel_data: &[u8]) -> (r: Vec<ElfReloc>)
    ensures
        r@.len() == rel_data@.len() / 16,
        forall|i: int|
            0 <= i < r@.len() ==> {
                &&& (#[trigger] r@[i]).offset as nat == le_bytes_to_nat(
                    rel_data@.subrange(i * 16, i * 16 + 8),
                )
                &&& r@[i].symbol_idx as nat == le_bytes_to_nat(
                    rel_data@.subrange(i * 16 + 12, i * 16 + 16),
                )
            },
{
    let mut out: Vec<ElfReloc> = Vec::new();
    let n = rel_data.len() / 16;
    let mut i: usize = 0;
    while i < n
        invariant
            i <= n,
            n == rel_data@.len() / 16,
            out@.len() == i,
            forall|j: int|
                0 <= j < i ==> {
                    &&& (#[trigger] out@[j]).offset as nat == le_bytes_to_nat(
                        rel_data@.subrange(j * 16, j * 16 + 8),
                    )
                    &&& out@[j].symbol_idx as nat == le_bytes_to_nat(
                        rel_data@.subrange(j * 16 + 12, j * 16 + 16),
                    )
                },
        decreases n - i,
    {
        let r_offset = read_le(rel_data, i * 16, 8);
        // The symbol index is the upper 32 bits of the info word.
        let sym_idx = read_le(rel_data, i * 16 + 12, 4);
        out.push(ElfReloc { offset: r_offset, symbol_idx: sym_idx as usize });
        i = i + 1;
    }
    out
}

/// The NUL-terminated byte string at an offset: the maximal run of
/// non-zero bytes from there; out of range is empty.
pub open spec fn spec_cstr(data: Seq<u8>, start: int) -> Seq<u8>
    decreases data.len() - start,
{
    if start < 0 || start >= data.len() || data[start] == 0 {
        Seq::empty()
    } else {
        seq![data[start]] + spec_cstr(data, start + 1)
    }
}

/// Read the NUL-terminated byte string starting at `start`; out of range
/// yields an empty name.
fn read_cstr(data: &[u8], start: usize) -> (r: Vec<u8>)
    ensures
        r@ == spec_cstr(data@, start as int),
{
    let mut out: Vec<u8> = Vec::new();
    if start >= data.len() {
        return out;
    }
    let mut i: usize = start;
    while i < data.len() && data[i] != 0
        invariant
            start <= i <= data@.len(),
            out@.len() == i - start,
            spec_cstr(data@, start as int) == out@ + spec_cstr(data@, i as int),
        decreases data@.len() - i,
    {
        proof {
            lemma_cstr_step(data@, start as int, i as int, out@);
        }
        out.push(data[i]);
        i = i + 1;
    }
    proof {
        assert(spec_cstr(data@, i as int) =~= Seq::<u8>::empty());
        assert(out@ + Seq::<u8>::empty() =~= out@);
    }
    out
}

/// Unfolding one step of the maximal non-zero run.
proof fn lemma_cstr_step(data: Seq<u8>, start: int, i: int, pre: Seq<u8>)
    requires
        0 <= start <= i < data.len(),
        data[i] != 0,
        spec_cstr(data, start) == pre + spec_cstr(data, i),
    ensures
        spec_cstr(data, start) == pre.push(data[i]) + spec_cstr(data, i + 1),
{
    assert(spec_cstr(data, i) == seq![data[i]] + spec_cstr(data, i + 1));
    assert(pre + (seq![data[i]] + spec_cstr(data, i + 1)) =~= pre.push(data[i]) + spec_cstr(
        data,
        i + 1,
    ));
}

/// No slot that held a map before the call has changed.
pub open spec fn maps_untouched_outside(
    old_s: Seq<Option<maps::MapView>>,
    new_s: Seq<Option<maps::MapView>>,
) -> bool {
    &&& new_s.len() >= old_s.len()
    &&& forall|j: int| 0 <= j < old_s.len() && old_s[j] is Some ==> new_s[j] == old_s[j]
}

/// The registry looks exactly as before the call: a failed load left no
/// partial program behind.
pub open spec fn maps_rolled_back(
    old_s: Seq<Option<maps::MapView>>,
    new_s: Seq<Option<maps::MapView>>,
) -> bool {
    &&& new_s.len() >= old_s.len()
    &&& forall|j: int| 0 <= j < old_s.len() ==> new_s[j] == old_s[j]
    &&& forall|j: int| old_s.len() <= j < new_s.len() ==> new_s[j] is None
}

/// Every newly live map handle is one of the listed handles.
pub open spec fn new_maps_listed(
    old_s: Seq<Option<maps::MapView>>,
    new_s: Seq<Option<maps::MapView>>,
    fds: Seq<u32>,
) -> bool {
    forall|j: int|
        0 <= j < new_s.len() && (j >= old_s.len() || old_s[j] is None) && new_s[j] is Some
            ==> exists|k: int| 0 <= k < fds.len() && fds[k] == j
}

/// Destroy every map in a list of handles, restoring the registry.
fn destroy_all(maps: &mut MapStore, fds: &Vec<u32>)
    requires
        old(maps).wf(),
    ensures
        final(maps).wf(),
        final(maps)@.len() == old(maps)@.len(),
        forall|j: int|
            0 <= j < old(maps)@.len() ==> final(maps)@[j] == (if exists|k: int|
                0 <= k < fds@.len() && fds@[k] == j {
                None::<maps::MapView>
            } else {
                old(maps)@[j]
            }),
{
    let mut p: usize = 0;
    while p < fds.len()
        invariant
            p <= fds@.len(),
            maps.wf(),
            maps@.len() == old(maps)@.len(),
            forall|j: int|
                0 <= j < old(maps)@.len() ==> maps@[j] == (if exists|k: int|
                    0 <= k < p && fds@[k] == j {
                    None::<maps::MapView>
                } else {
                    old(maps)@[j]
                }),
        decreases fds@.len() - p,
    {
        let ghost pre = maps@;
        let fd = fds[p];
        let _ = maps.destroy(fd);
        p = p + 1;
        proof {
            assert(forall|j: int|
                0 <= j < old(maps)@.len() ==> maps@[j] == (if exists|k: int|
                    0 <= k < p && fds@[k] == j {
                    None::<maps::MapView>
                } else {
                    old(maps)@[j]
                }));
        }
    }
}

/// Translate a numeric map kind from the object file to a map type.
pub fn translate_map_kind(map_type: u32) -> (r: Option<MapType>)
    ensures
        map_type == 1 ==> r == Some(MapType::HashMap),
        map_type == 2 ==> r == Some(MapType::Array),
        map_type == 9 ==> r == Some(MapType::LruHash),
        map_type == 22 ==> r == Some(MapType::Queue),
        !(map_type == 1 || map_type == 2 || map_type == 9 || map_type == 22) ==> r is None,
{
    if map_type == 1 {
        Some(MapType::HashMap)
    } else if map_type == 2 {
        Some(MapType::Array)
    } else if map_type == 9 {
        Some(MapType::LruHash)
    } else if map_type == 22 {
        Some(MapType::Queue)
    } else {
        None
    }
}

/// Whether `name` starts with `prefix`.
fn starts_with(name: &[u8], prefix: &[u8]) -> (r: bool)
    ensures
        r == (name@.len() >= prefix@.len() && name@.subrange(0, prefix@.len() as int)
            == prefix@),
{
    if name.len() < prefix.len() {
        return false;
    }
    let mut i: usize = 0;
    while i < prefix.len()
        invariant
            i <= prefix@.len(),
            prefix@.len() <= name@.len(),
            forall|j: int| 0 <= j < i ==> name@[j] == prefix@[j],
        decreases prefix@.len() - i,
    {
        if name[i] != prefix[i] {
            proof {
                if name@.subrange(0, prefix@.len() as int) == prefix@ {
                    assert(name@.subrange(0, prefix@.len() as int)[i as int] == prefix@[
                        i as int
                    ]);
                }
            }
            return false;
        }
        i = i + 1;
    }
    proof {
        assert(name@.subrange(0, prefix@.len() as int) =~= prefix@);
    }
    true
}

/// The bytes of the `kprobe` section-name prefix.
pub open spec fn kprobe_prefix_bytes() -> Seq<u8> {
    seq![107u8, 112u8, 114u8, 111u8, 98u8, 101u8]
}

/// The bytes of the `kretprobe` section-name prefix.
pub open spec fn kretprobe_prefix_bytes() -> Seq<u8> {
    seq![107u8, 114u8, 101u8, 116u8, 112u8, 114u8, 111u8, 98u8, 101u8]
}

/// The bytes of the `tracepoint` section-name prefix.
pub open spec fn tracepoint_prefix_bytes() -> Seq<u8> {
    seq![116u8, 114u8, 97u8, 99u8, 101u8, 112u8, 111u8, 105u8, 110u8, 116u8]
}

/// The bytes of the `maps` section name.
pub open spec fn maps_name_bytes() -> Seq<u8> {
    seq![109u8, 97u8, 112u8, 115u8]
}

/// A name equals the prefix or continues it with a slash.
pub open spec fn spec_prefix_section(name: Seq<u8>, prefix: Seq<u8>) -> bool {
    &&& name.len() >= prefix.len()
    &&& name.subrange(0, prefix.len() as int) == prefix
    &&& (name.len() == prefix.len() || name[prefix.len() as int] == 47)
}

/// Whether a section name denotes a program section.
pub open spec fn spec_program_section(name: Seq<u8>) -> bool {
    ||| spec_prefix_section(name, kretprobe_prefix_bytes())
    ||| spec_prefix_section(name, kprobe_prefix_bytes())
    ||| spec_prefix_section(name, tracepoint_prefix_bytes())
}

/// The `kprobe` prefix bytes.
fn kprobe_prefix() -> (r: Vec<u8>)
    ensures
        r@ == kprobe_prefix_bytes(),
{
    let mut v: Vec<u8> = Vec::new();
    v.push(107);
    v.push(112);
    v.push(114);
    v.push(111);
    v.push(98);
    v.push(101);
    proof {
        assert(v@ =~= kprobe_prefix_bytes());
    }
    v
}

/// The `kretprobe` prefix bytes.
fn kretprobe_prefix() -> (r: Vec<u8>)
    ensures
        r@ == kretprobe_prefix_bytes(),
{
    let mut v: Vec<u8> = Vec::new();
    v.push(107);
    v.push(114);
    v.push(101);
    v.push(116);
    v.push(112);
    v.push(114);
    v.push(111);
    v.push(98);
    v.push(101);
    proof {
        assert(v@ =~= kretprobe_prefix_bytes());
    }
    v
}

/// The `tracepoint` prefix bytes.
fn tracepoint_prefix() -> (r: Vec<u8>)
    ensures
        r@ == tracepoint_prefix_bytes(),
{
    let mut v: Vec<u8> = Vec::new();
    v.push(116);
    v.push(114);
    v.push(97);
    v.push(99);
    v.push(101);
    v.push(112);
    v.push(111);
    v.push(105);
    v.push(110);
    v.push(116);
    proof {
        assert(v@ =~= tracepoint_prefix_bytes());
    }
    v
}

/// The `maps` section name bytes.
fn maps_section_name() -> (r: Vec<u8>)
    ensures
        r@ == maps_name_bytes(),
{
    let mut v: Vec<u8> = Vec::new();
    v.push(109);
    v.push(97);
    v.push(112);
    v.push(115);
    proof {
        assert(v@ =~= maps_name_bytes());
    }
    v
}

/// Whether a section name denotes a program section: `tracepoint`,
/// `kprobe` or `kretprobe`, exactly or followed by `/subname`.
fn is_program_section(name: &[u8]) -> (r: bool)
    ensures
        r == spec_program_section(name@),
{
    let kret = kretprobe_prefix();
    let kp = kprobe_prefix();
    let tp = tracepoint_prefix();
    is_prefix_section(name, kret.as_slice()) || is_prefix_section(name, kp.as_slice())
        || is_prefix_section(name, tp.as_slice())
}

/// `name` equals `prefix` or continues it with a slash.
fn is_prefix_section(name: &[u8], prefix: &[u8]) -> (r: bool)
    ensures
        r == spec_prefix_section(name@, prefix@),
{
    if !starts_with(name, prefix) {
        return false;
    }
    name.len() == prefix.len() || name[prefix.len()] == 47
}

/// Whether a program section matches a requested program name: the full
/// section name matches, or the part after the slash does.
fn section_matches_request(name: &[u8], requested: &[u8]) -> bool {
    if crate::bytes::bytes_eq(name, requested) {
        return true;
    }
    let mut i: usize = 0;
    while i < name.len()
        invariant
            i <= name@.len(),
        decreases name@.len() - i,
    {
        if name[i] == 47 {
            return crate::bytes::bytes_eq(&name[i + 1..name.len()], requested);
        }
        i = i + 1;
    }
    false
}

/// Whether a section is the REL-form relocation section of a program
/// section: its name is `.rel` followed by the program section's name.
fn is_rel_of(name: &[u8], code_name: &[u8]) -> bool {
    if code_name.len() > usize::MAX - 4 || name.len() != code_name.len() + 4 {
        return false;
    }
    if !starts_with(name, ".rel".as_bytes()) {
        return false;
    }
    crate::bytes::bytes_eq(&name[4..name.len()], code_name)
}

/// A little-endian field of the object's bytes, as an integer.
pub open spec fn spec_le(data: Seq<u8>, off: int, n: int) -> int {
    le_bytes_to_nat(data.subrange(off, off + n)) as int
}

/// The section-table file offset of the object header.
pub open spec fn spec_shoff(data: Seq<u8>) -> int {
    spec_le(data, 40, 8)
}

/// The section-header entry size of the object header.
pub open spec fn spec_shentsize(data: Seq<u8>) -> int {
    spec_le(data, 58, 2)
}

/// The section count of the object header.
pub open spec fn spec_shnum(data: Seq<u8>) -> int {
    spec_le(data, 60, 2)
}

/// The section-name string-table index of the object header.
pub open spec fn spec_shstrndx(data: Seq<u8>) -> int {
    spec_le(data, 62, 2)
}

/// Whether the object's section table is readable: the header fits, the
/// table exists, entries are full-sized, and the section-name string
/// table's own header lies inside the file.
pub open spec fn spec_sections_ok(data: Seq<u8>) -> bool {
    &&& data.len() >= 64
    &&& spec_shoff(data) != 0
    &&& spec_shnum(data) != 0
    &&& spec_shentsize(data) >= 64
    &&& spec_shoff(data) + spec_shstrndx(data) * spec_shentsize(data) + 64 <= data.len()
}

/// The file offset of the section-name string table.
pub open spec fn spec_shstr_base(data: Seq<u8>) -> int {
    spec_le(data, spec_shoff(data) + spec_shstrndx(data) * spec_shentsize(data) + 24, 8)
}

/// The file offset of section header `i`.
pub open spec fn spec_sec_base(data: Seq<u8>, i: int) -> int {
    spec_shoff(data) + i * spec_shentsize(data)
}

/// Whether section header `i` lies inside the file.
pub open spec fn spec_sec_in_file(data: Seq<u8>, i: int) -> bool {
    spec_sec_base(data, i) + 64 <= data.len()
}

/// The name of section `i`, resolved through the string table.
pub open spec fn spec_sec_name(data: Seq<u8>, i: int) -> Seq<u8> {
    let off = spec_shstr_base(data) + spec_le(data, spec_sec_base(data, i), 4);
    if off < data.len() {
        spec_cstr(data, off)
    } else {
        Seq::empty()
    }
}

/// The type word of section `i`.
pub open spec fn spec_sec_type(data: Seq<u8>, i: int) -> int {
    spec_le(data, spec_sec_base(data, i) + 4, 4)
}

/// The file offset of section `i`'s contents.
pub open spec fn spec_sec_offset(data: Seq<u8>, i: int) -> int {
    spec_le(data, spec_sec_base(data, i) + 24, 8)
}

/// The size of section `i`'s contents.
pub open spec fn spec_sec_size(data: Seq<u8>, i: int) -> int {
    spec_le(data, spec_sec_base(data, i) + 32, 8)
}

/// The link word of section `i`.
pub open spec fn spec_sec_link(data: Seq<u8>, i: int) -> int {
    spec_le(data, spec_sec_base(data, i) + 40, 4)
}

/// Whether section `i`'s contents lie inside the file.
pub open spec fn spec_sec_bounds_ok(data: Seq<u8>, i: int) -> bool {
    spec_sec_offset(data, i) + spec_sec_size(data, i) <= data.len()
}

/// The name a collected section carries: resolved through the string
/// table when its header lies in the file, else empty.
pub open spec fn spec_stored_name(data: Seq<u8>, i: int) -> Seq<u8> {
    if spec_sec_in_file(data, i) {
        spec_sec_name(data, i)
    } else {
        Seq::empty()
    }
}

/// Whether section `i` is a program section by name.
pub open spec fn spec_sec_is_code(data: Seq<u8>, i: int) -> bool {
    spec_program_section(spec_stored_name(data, i))
}

/// The first program section's index.
pub open spec fn spec_code_idx(data: Seq<u8>) -> int {
    choose|i: int|
        0 <= i < spec_shnum(data) && #[trigger] spec_sec_is_code(data, i) && (forall|j: int|
            0 <= j < i ==> !spec_sec_is_code(data, j))
}

/// A plain loadable object: an object file with a readable section table,
/// at least one program section whose contents lie inside the file, and
/// no `maps` section, so that its first program section's bytes pass
/// through the loader unchanged.
pub open spec fn spec_plain_object(data: Seq<u8>) -> bool {
    &&& spec_is_elf(data)
    &&& spec_sections_ok(data)
    &&& (exists|i: int| 0 <= i < spec_shnum(data) && #[trigger] spec_sec_is_code(data, i))
    &&& (forall|i: int|
        0 <= i < spec_shnum(data) ==> #[trigger] spec_stored_name(data, i)
            != maps_name_bytes())
    &&& spec_sec_in_file(data, spec_code_idx(data))
    &&& spec_sec_bounds_ok(data, spec_code_idx(data))
}

/// The instruction bytes of the first program section.
pub open spec fn spec_code_bytes(data: Seq<u8>) -> Seq<u8> {
    data.subrange(
        spec_sec_offset(data, spec_code_idx(data)),
        spec_sec_offset(data, spec_code_idx(data)) + spec_sec_size(data, spec_code_idx(data)),
    )
}

/// Collect every section header of the object, resolving names through the
/// section-name string table. A header that runs outside the file is
/// dropped.
fn collect_sections(data: &[u8]) -> (r: Option<Vec<ElfSection>>)
    ensures
        r is Some <==> spec_sections_ok(data@),
        r matches Some(v) ==> {
            &&& v@.len() == spec_shnum(data@)
            &&& v@.len() > 0
            &&& forall|i: int|
                0 <= i < v@.len() ==> {
                    &&& (#[trigger] v@[i]).sh_type as int == (if spec_sec_in_file(data@, i) {
                        spec_sec_type(data@, i)
                    } else {
                        0int
                    })
                    &&& v@[i].name@ == (if spec_sec_in_file(data@, i) {
                        spec_sec_name(data@, i)
                    } else {
                        Seq::<u8>::empty()
                    })
                    &&& v@[i].offset as int == (if spec_sec_in_file(data@, i)
                        && spec_sec_bounds_ok(data@, i) {
                        spec_sec_offset(data@, i)
                    } else {
                        0int
                    })
                    &&& v@[i].size as int == (if spec_sec_in_file(data@, i)
                        && spec_sec_bounds_ok(data@, i) {
                        spec_sec_size(data@, i)
                    } else {
                        0int
                    })
                    &&& v@[i].link as int == (if spec_sec_in_file(data@, i) {
                        spec_sec_link(data@, i)
                    } else {
                        0int
                    })
                }
        },
{
    let dlen = data.len();
    if dlen < 64 {
        return None;
    }
    let e_shoff = read_le(data, 40, 8);
    let e_shentsize = read_le(data, 58, 2);
    let e_shnum = read_le(data, 60, 2);
    let e_shstrndx = read_le(data, 62, 2);
    if e_shoff == 0 || e_shnum == 0 || e_shentsize < 64 {
        return None;
    }
    // Locate the section-name string table.
    proof {
        assert(e_shstrndx * e_shentsize <= 0xffff * 0xffff) by (nonlinear_arith)
            requires
                e_shstrndx <= 0xffff,
                e_shentsize <= 0xffff,
        ;
    }
    let str_rel = e_shstrndx * e_shentsize;
    if e_shoff > u64::MAX - str_rel - 64 {
        return None;
    }
    let strtab_hdr = e_shoff + str_rel;
    if strtab_hdr + 64 > dlen as u64 {
        return None;
    }
    let shstrtab_off = read_le(data, strtab_hdr as usize + 24, 8);
    let mut out: Vec<ElfSection> = Vec::new();
    let mut i: u64 = 0;
    while i < e_shnum
        invariant
            e_shnum <= 0xffff,
            e_shentsize <= 0xffff,
            e_shoff <= u64::MAX,
            i <= e_shnum,
            dlen == data@.len(),
            dlen <= usize::MAX,
            out@.len() == i,
            e_shnum as int == spec_shnum(data@),
            e_shentsize as int == spec_shentsize(data@),
            e_shoff as int == spec_shoff(data@),
            shstrtab_off as int == spec_shstr_base(data@),
            forall|j: int|
                0 <= j < out@.len() ==> {
                    &&& (#[trigger] out@[j]).sh_type as int == (if spec_sec_in_file(data@, j) {
                        spec_sec_type(data@, j)
                    } else {
                        0int
                    })
                    &&& out@[j].name@ == (if spec_sec_in_file(data@, j) {
                        spec_sec_name(data@, j)
                    } else {
                        Seq::<u8>::empty()
                    })
                    &&& out@[j].offset as int == (if spec_sec_in_file(data@, j)
                        && spec_sec_bounds_ok(data@, j) {
                        spec_sec_offset(data@, j)
                    } else {
                        0int
                    })
                    &&& out@[j].size as int == (if spec_sec_in_file(data@, j)
                        && spec_sec_bounds_ok(data@, j) {
                        spec_sec_size(data@, j)
                    } else {
                        0int
                    })
                    &&& out@[j].link as int == (if spec_sec_in_file(data@, j) {
                        spec_sec_link(data@, j)
                    } else {
                        0int
                    })
                },
        decreases e_shnum - i,
    {
        proof {
            assert(i * e_shentsize <= 0xffff * 0xffff) by (nonlinear_arith)
                requires
                    i <= 0xffff,
                    e_shentsize <= 0xffff,
            ;
        }
        let rel: u64 = i * e_shentsize;
        proof {
            assert(rel as int == i as int * e_shentsize as int) by (nonlinear_arith)
                requires
                    rel == i * e_shentsize,
                    i <= 0xffff,
                    e_shentsize <= 0xffff,
            ;
            assert(spec_sec_base(data@, i as int) == e_shoff as int + rel as int);
        }
        if e_shoff <= u64::MAX - rel - 64 && e_shoff + rel + 64 <= dlen as u64 {
            let base = (e_shoff + rel) as usize;
            let sh_name = read_le(data, base, 4);
            let sh_type = read_le(data, base + 4, 4);
            let sh_offset = read_le(data, base + 24, 8);
            let sh_size = read_le(data, base + 32, 8);
            let sh_link = read_le(data, base + 40, 4);
            let name = if shstrtab_off <= u64::MAX - sh_name && shstrtab_off + sh_name < dlen
                as u64 {
                read_cstr(data, (shstrtab_off + sh_name) as usize)
            } else {
                Vec::new()
            };
            if sh_offset <= u64::MAX - sh_size && sh_offset + sh_size <= dlen as u64 {
                out.push(
                    ElfSection {
                        name,
                        sh_type: sh_type as u32,
                        offset: sh_offset as usize,
                        size: sh_size as usize,
                        link: sh_link as usize,
                    },
                );
            } else {
                out.push(
                    ElfSection {
                        name,
                        sh_type: sh_type as u32,
                        offset: 0,
                        size: 0,
                        link: sh_link as usize,
                    },
                );
            }
        } else {
            out.push(
                ElfSection { name: Vec::new(), sh_type: 0, offset: 0, size: 0, link: 0 },
            );
        }
        i = i + 1;
    }
    Some(out)
}

/// Parse the symbol table: 24 bytes per symbol, name offset, section index
/// and value.
fn collect_symbols(data: &[u8], sym_off: usize, sym_size: usize, strtab_off: usize) -> (r: Vec<
    ElfSymbol,
>)
    ensures
        r@.len() <= sym_size as int / 24,
{
    let mut out: Vec<ElfSymbol> = Vec::new();
    let n = sym_size / 24;
    let mut i: usize = 0;
    while i < n
        invariant
            i <= n,
            n <= sym_size,
            n == sym_size as int / 24,
            out@.len() <= i,
        decreases n - i,
    {
        if i <= (usize::MAX - 24) / 24 && sym_off <= usize::MAX - (i * 24 + 24) && sym_off + i
            * 24 + 24 <= data.len() {
            let base = sym_off + i * 24;
            let st_name = read_le(data, base, 4);
            let st_shndx = read_le(data, base + 6, 2);
            let st_value = read_le(data, base + 8, 8);
            let name = if st_name <= (u64::MAX - strtab_off as u64) && ((strtab_off as u64
                + st_name) < data.len() as u64) {
                read_cstr(data, (strtab_off as u64 + st_name) as usize)
            } else {
                Vec::new()
            };
            if st_value <= usize::MAX as u64 {
                out.push(
                    ElfSymbol {
                        name,
                        section_idx: st_shndx as usize,
                        value: st_value as usize,
                    },
                );
            }
        }
        i = i + 1;
    }
    out
}

/// Whether a name belongs to a symbol of the maps section.
pub open spec fn names_a_map(symbols: Seq<ElfSymbol>, maps_section_idx: usize, name: Seq<
    u8,
>) -> bool {
    exists|k: int|
        0 <= k < symbols.len() && (#[trigger] symbols[k]).section_idx == maps_section_idx
            && symbols[k].name@ == name && name.len() > 0
}

/// Extract the map descriptors declared by symbols pointing into the
/// `maps` section: four little-endian words of kind, key size, value size
/// and capacity, in 28-byte records.
fn parse_maps_section(
    data: &[u8],
    maps_off: usize,
    maps_size: usize,
    symbols: &Vec<ElfSymbol>,
    maps_section_idx: usize,
) -> (r: Vec<ElfMapDef>)
    ensures
        r@.len() <= symbols@.len(),
        forall|j: int|
            0 <= j < r@.len() ==> names_a_map(
                symbols@,
                maps_section_idx,
                (#[trigger] r@[j]).name@,
            ),
{
    let mut out: Vec<ElfMapDef> = Vec::new();
    let mut i: usize = 0;
    while i < symbols.len()
        invariant
            i <= symbols@.len(),
            out@.len() <= i,
            forall|j: int|
                0 <= j < out@.len() ==> names_a_map(
                    symbols@,
                    maps_section_idx,
                    (#[trigger] out@[j]).name@,
                ),
        decreases symbols@.len() - i,
    {
        let ghost o0 = out@;
        let sec = symbols[i].section_idx;
        let val = symbols[i].value;
        if sec == maps_section_idx && symbols[i].name.len() > 0 && val <= maps_size && maps_size
            - val >= 28 && maps_off <= usize::MAX - maps_size && maps_off + maps_size
            <= data.len() {
            let base = maps_off + val;
            let map_type = read_le(data, base, 4) as u32;
            let key_size = read_le(data, base + 4, 4) as u32;
            let value_size = read_le(data, base + 8, 4) as u32;
            let max_entries = read_le(data, base + 12, 4) as u32;
            out.push(
                ElfMapDef {
                    name: copy_bytes(symbols[i].name.as_slice()),
                    map_type,
                    key_size,
                    value_size,
                    max_entries,
                },
            );
            proof {
                let o1 = out@;
                assert(symbols@[i as int].section_idx == maps_section_idx && symbols@[
                i as int].name@ == o1[o1.len() - 1].name@ && symbols@[i as int].name@.len()
                    > 0);
                assert(names_a_map(symbols@, maps_section_idx, o1[o1.len() - 1].name@));
                assert forall|j: int| 0 <= j < o1.len() implies names_a_map(
                    symbols@,
                    maps_section_idx,
                    (#[trigger] o1[j]).name@,
                ) by {
                    if j < o1.len() - 1 {
                        assert(o1[j] == o0[j]);
                        assert(names_a_map(symbols@, maps_section_idx, o0[j].name@));
                    }
                }
            }
        }
        i = i + 1;
    }
    out
}

/// The handles of a list of materialised maps.
pub open spec fn fd_list(pairs: Seq<(Vec<u8>, u32)>) -> Seq<u32> {
    pairs.map_values(|p: (Vec<u8>, u32)| p.1)
}

/// Parse an object file: locate the program section (honouring a requested
/// name), materialise the declared maps, patch map-handle relocations, and
/// merge referenced code sections for intra-object calls.
///
/// On failure, every map created by this load has been destroyed again.
fn parse_elf_with_maps(maps: &mut MapStore, data: &[u8], requested: Option<&[u8]>) -> (r: Result<
    (Vec<u8>, Vec<(Vec<u8>, u32)>),
    Error,
>)
    requires
        old(maps).wf(),
    ensures
        final(maps).wf(),
        r is Err ==> maps_rolled_back(old(maps)@, final(maps)@),
        r is Ok ==> {
            &&& maps_untouched_outside(old(maps)@, final(maps)@)
            &&& new_maps_listed(old(maps)@, final(maps)@, fd_list(r->Ok_0.1@))
            &&& forall|k: int|
                0 <= k < r->Ok_0.1@.len() ==> final(maps).live(#[trigger] r->Ok_0.1@[k].1)
            &&& forall|k: int|
                0 <= k < r->Ok_0.1@.len() ==> ((#[trigger] r->Ok_0.1@[k]).1 as int >= old(
                    maps,
                )@.len() || old(maps)@[r->Ok_0.1@[k].1 as int] is None)
        },
        requested is None && spec_plain_object(data@) ==> r is Ok && r->Ok_0.0@
            == spec_code_bytes(data@) && r->Ok_0.1@.len() == 0 && final(maps)@ == old(maps)@,
{
    let sections = match collect_sections(data) {
        Some(s) => s,
        None => {
            return Err(Error::ElfParseError);
        },
    };
    // Locate the program, maps, symbol-table and relocation sections.
    let mut code_idx: Option<usize> = None;
    let mut maps_idx: Option<usize> = None;
    let mut symtab_idx: Option<usize> = None;
    let mut i: usize = 0;
    while i < sections.len()
        invariant
            i <= sections@.len(),
            sections@.len() == spec_shnum(data@),
            code_idx matches Some(c) ==> c < sections@.len(),
            maps_idx matches Some(m) ==> m < sections@.len(),
            symtab_idx matches Some(t) ==> t < sections@.len(),
            requested is None ==> match code_idx {
                Some(c) => 0 <= c < i && spec_sec_is_code(data@, c as int) && (forall|j: int|
                    0 <= j < c ==> !spec_sec_is_code(data@, j)),
                None => forall|j: int| 0 <= j < i ==> !spec_sec_is_code(data@, j),
            },
            maps_idx is None ==> forall|j: int|
                0 <= j < i ==> spec_stored_name(data@, j) != maps_name_bytes(),
            maps_idx matches Some(m) ==> spec_stored_name(data@, m as int)
                == maps_name_bytes(),
            forall|j: int|
                0 <= j < sections@.len() ==> (#[trigger] sections@[j]).name@
                    == spec_stored_name(data@, j),
        decreases sections@.len() - i,
    {
        let name = sections[i].name.as_slice();
        if is_program_section(name) {
            let take = match requested {
                Some(req) => section_matches_request(name, req),
                None => code_idx.is_none(),
            };
            if take {
                code_idx = Some(i);
            }
        } else if crate::bytes::bytes_eq(name, maps_section_name().as_slice()) {
            maps_idx = Some(i);
        } else if sections[i].sh_type == 2 {
            symtab_idx = Some(i);
        }
        i = i + 1;
    }
    let code_i = match code_idx {
        Some(c) => c,
        None => {
            proof {
                if requested is None && spec_plain_object(data@) {
                    let w = choose|w: int|
                        0 <= w < spec_shnum(data@) && #[trigger] spec_sec_is_code(data@, w);
                    assert(false);
                }
            }
            return Err(Error::ElfParseError);
        },
    };
    proof {
        if requested is None && spec_plain_object(data@) {
            let c = code_i as int;
            assert(0 <= c < spec_shnum(data@) && spec_sec_is_code(data@, c) && (forall|j: int|
                0 <= j < c ==> !spec_sec_is_code(data@, j)));
            let cc = spec_code_idx(data@);
            assert(0 <= cc < spec_shnum(data@) && spec_sec_is_code(data@, cc) && (forall|
                j: int,
            |
                0 <= j < cc ==> !spec_sec_is_code(data@, j)));
            if cc < c {
                assert(!spec_sec_is_code(data@, cc));
                assert(false);
            }
            if c < cc {
                assert(!spec_sec_is_code(data@, c));
                assert(false);
            }
            assert(cc == c);
            assert(sections@[c].offset as int == spec_sec_offset(data@, c));
            assert(sections@[c].size as int == spec_sec_size(data@, c));
        }
    }
    let code_off = sections[code_i].offset;
    let code_size = sections[code_i].size;
    if code_off > data.len() || data.len() - code_off < code_size {
        proof {
            if requested is None && spec_plain_object(data@) {
                assert(false);
            }
        }
        return Err(Error::ElfParseError);
    }
    let mut bytecode: Vec<u8> = copy_bytes(&data[code_off..code_off + code_size]);
    // Without a maps section the instruction stream passes through as-is.
    let m_i = match maps_idx {
        Some(m) => m,
        None => {
            proof {
                if requested is None && spec_plain_object(data@) {
                    assert(bytecode@ =~= spec_code_bytes(data@));
                }
            }
            return Ok((bytecode, Vec::new()));
        },
    };
    proof {
        if requested is None && spec_plain_object(data@) {
            assert(spec_stored_name(data@, m_i as int) == maps_name_bytes());
            assert(false);
        }
    }
    let sym_i = match symtab_idx {
        Some(s) => s,
        None => {
            return Err(Error::ElfParseError);
        },
    };
    // The symbol names live in the section the symbol table links to.
    let sym_strtab_off = if sections[sym_i].link < sections.len() {
        sections[sections[sym_i].link].offset
    } else {
        0
    };
    let symbols = collect_symbols(
        data,
        sections[sym_i].offset,
        sections[sym_i].size,
        sym_strtab_off,
    );
    let map_defs = parse_maps_section(
        data,
        sections[m_i].offset,
        sections[m_i].size,
        &symbols,
        m_i,
    );
    if map_defs.len() == 0 {
        return Ok((bytecode, Vec::new()));
    }
    // Materialise every declared map, collecting (name, handle) pairs.
    let mut map_fds: Vec<(Vec<u8>, u32)> = Vec::new();
    let mut d: usize = 0;
    while d < map_defs.len()
        invariant
            d <= map_defs@.len(),
            maps.wf(),
            maps_untouched_outside(old(maps)@, maps@),
            new_maps_listed(old(maps)@, maps@, fd_list(map_fds@)),
            forall|k: int|
                0 <= k < map_fds@.len() ==> maps.live(#[trigger] map_fds@[k].1),
            forall|k: int|
                0 <= k < map_fds@.len() ==> ((#[trigger] map_fds@[k]).1 as int >= old(
                    maps,
                )@.len() || old(maps)@[map_fds@[k].1 as int] is None),
        decreases map_defs@.len() - d,
    {
        let kind = match translate_map_kind(map_defs[d].map_type) {
            Some(k) => k,
            None => {
                let fds = collect_fds(&map_fds);
                destroy_all(maps, &fds);
                proof {
                    assert(maps_rolled_back(old(maps)@, maps@));
                }
                return Err(Error::MapCreationFailed);
            },
        };
        let def = MapDef {
            map_type: kind,
            key_size: map_defs[d].key_size,
            value_size: map_defs[d].value_size,
            max_entries: map_defs[d].max_entries,
        };
        let ghost pre = maps@;
        match maps.create(&def) {
            Ok(fd) => {
                let ghost fl0 = fd_list(map_fds@);
                map_fds.push((copy_bytes(map_defs[d].name.as_slice()), fd));
                proof {
                    let fl = fd_list(map_fds@);
                    assert(fl.len() == fl0.len() + 1);
                    assert(forall|k: int| 0 <= k < fl0.len() ==> fl[k] == fl0[k]);
                    assert(fl[fl0.len() as int] == fd);
                    assert forall|j: int|
                        0 <= j < maps@.len() && (j >= old(maps)@.len() || old(maps)@[j] is None)
                            && maps@[j] is Some implies exists|k: int|
                        0 <= k < fl.len() && fl[k] == j by {
                        if j == fd as int {
                            assert(fl[fl0.len() as int] == j);
                        } else {
                            assert(pre[j] is Some);
                            let k0 = choose|k: int| 0 <= k < fl0.len() && fl0[k] == j;
                            assert(fl[k0] == j);
                        }
                    }
                    assert(new_maps_listed(old(maps)@, maps@, fd_list(map_fds@)));
                }
            },
            Err(_) => {
                let fds = collect_fds(&map_fds);
                destroy_all(maps, &fds);
                proof {
                    assert(maps_rolled_back(old(maps)@, maps@));
                }
                return Err(Error::MapCreationFailed);
            },
        }
        d = d + 1;
    }
    // Apply relocations of the program section, if any.
    let mut rel_idx: Option<usize> = None;
    let mut ri: usize = 0;
    while ri < sections.len()
        invariant
            rel_idx matches Some(x) ==> x < sections@.len(),
        decreases sections@.len() - ri,
    {
        if is_rel_of(sections[ri].name.as_slice(), sections[code_i].name.as_slice()) {
            rel_idx = Some(ri);
        }
        ri = ri + 1;
    }
    match rel_idx {
        Some(r_i) => {
            let rel_off = sections[r_i].offset;
            let rel_size = sections[r_i].size;
            if rel_off > data.len() || data.len() - rel_off < rel_size {
                let fds = collect_fds(&map_fds);
                destroy_all(maps, &fds);
                proof {
                    assert(maps_rolled_back(old(maps)@, maps@));
                }
                return Err(Error::ElfParseError);
            }
            let relocs = parse_relocation_section(&data[rel_off..rel_off + rel_size]);
            // Merged auxiliary code sections, by section index and insn base.
            let mut merged: Vec<(usize, usize)> = Vec::new();
            let mut q: usize = 0;
            while q < relocs.len()
                invariant
                    maps.wf(),
                    maps_untouched_outside(old(maps)@, maps@),
                    new_maps_listed(old(maps)@, maps@, fd_list(map_fds@)),
                    forall|k: int|
                        0 <= k < map_fds@.len() ==> maps.live(#[trigger] map_fds@[k].1),
            forall|k: int|
                0 <= k < map_fds@.len() ==> ((#[trigger] map_fds@[k]).1 as int >= old(
                    maps,
                )@.len() || old(maps)@[map_fds@[k].1 as int] is None),
                decreases relocs@.len() - q,
            {
                let sym_idx = relocs[q].symbol_idx;
                let offset64 = relocs[q].offset;
                let offset = if offset64 <= usize::MAX as u64 {
                    offset64 as usize
                } else {
                    usize::MAX
                };
                if sym_idx < symbols.len() && symbols[sym_idx].name.len() > 0 {
                    match find_map_fd(&map_fds, symbols[sym_idx].name.as_slice()) {
                        Some(fd) => {
                            match patch_map_fd(&mut bytecode, offset, fd) {
                                Ok(()) => {},
                                Err(e) => {
                                    let fds = collect_fds(&map_fds);
                                    destroy_all(maps, &fds);
                                    proof {
                                        assert(maps_rolled_back(old(maps)@, maps@));
                                    }
                                    return Err(e);
                                },
                            }
                        },
                        None => {
                            // An intra-object call: merge the referenced
                            // code section and rewrite the displacement.
                            let target_sec = symbols[sym_idx].section_idx;
                            if target_sec < sections.len() && target_sec != code_i && target_sec
                                != m_i && sections[target_sec].sh_type == 1
                                && sections[target_sec].size > 0 {
                                let base = match merge_section(
                                    &mut bytecode,
                                    data,
                                    sections[target_sec].offset,
                                    sections[target_sec].size,
                                    target_sec,
                                    &mut merged,
                                ) {
                                    Some(b) => b,
                                    None => {
                                        let fds = collect_fds(&map_fds);
                                        destroy_all(maps, &fds);
                                    proof {
                                        assert(maps_rolled_back(old(maps)@, maps@));
                                    }
                                        return Err(Error::RelocationFailed);
                                    },
                                };
                                match patch_call(
                                    &mut bytecode,
                                    offset,
                                    base,
                                    symbols[sym_idx].value,
                                ) {
                                    Ok(()) => {},
                                    Err(e) => {
                                        let fds = collect_fds(&map_fds);
                                        destroy_all(maps, &fds);
                                    proof {
                                        assert(maps_rolled_back(old(maps)@, maps@));
                                    }
                                        return Err(e);
                                    },
                                }
                            }
                        },
                    }
                }
                q = q + 1;
            }
        },
        None => {},
    }
    Ok((bytecode, map_fds))
}

/// The handles of the materialised maps, in order.
fn collect_fds(map_fds: &Vec<(Vec<u8>, u32)>) -> (r: Vec<u32>)
    ensures
        r@ == fd_list(map_fds@),
{
    let mut out: Vec<u32> = Vec::new();
    let mut i: usize = 0;
    while i < map_fds.len()
        invariant
            i <= map_fds@.len(),
            out@.len() == i,
            forall|j: int| 0 <= j < i ==> out@[j] == fd_list(map_fds@)[j],
        decreases map_fds@.len() - i,
    {
        out.push(map_fds[i].1);
        i = i + 1;
    }
    proof {
        assert(out@ =~= fd_list(map_fds@));
    }
    out
}

/// The handle materialised for a map name, if the name declares a map.
fn find_map_fd(map_fds: &Vec<(Vec<u8>, u32)>, name: &[u8]) -> (r: Option<u32>)
    ensures
        match r {
            Some(fd) => exists|k: int|
                0 <= k < map_fds@.len() && (#[trigger] map_fds@[k]).1 == fd,
            None => true,
        },
{
    let mut i: usize = 0;
    while i < map_fds.len()
        decreases map_fds@.len() - i,
    {
        if crate::bytes::bytes_eq(map_fds[i].0.as_slice(), name) {
            let fd = map_fds[i].1;
            proof {
                assert(map_fds@[i as int].1 == fd);
            }
            return Some(fd);
        }
        i = i + 1;
    }
    None
}

/// Merge an auxiliary code section at the end of the instruction stream,
/// once; returns the instruction index the section starts at.
fn merge_section(
    bytecode: &mut Vec<u8>,
    data: &[u8],
    sec_off: usize,
    sec_size: usize,
    sec_idx: usize,
    merged: &mut Vec<(usize, usize)>,
) -> (r: Option<usize>)
{
    let mut i: usize = 0;
    while i < merged.len()
        decreases merged@.len() - i,
    {
        if merged[i].0 == sec_idx {
            return Some(merged[i].1);
        }
        i = i + 1;
    }
    if sec_off > data.len() || data.len() - sec_off < sec_size {
        return None;
    }
    if bytecode.len() % 8 != 0 || sec_size % 8 != 0 {
        return None;
    }
    let base_insn = bytecode.len() / 8;
    let mut j: usize = 0;
    while j < sec_size
        invariant
            j <= sec_size,
            sec_off + sec_size <= data@.len(),
        decreases sec_size - j,
    {
        bytecode.push(data[sec_off + j]);
        j = j + 1;
    }
    merged.push((sec_idx, base_insn));
    Some(base_insn)
}

/// Rewrite an intra-object call's displacement to the post-merge offset of
/// its target. The patch site must hold a call instruction (0x85).
fn patch_call(bytecode: &mut Vec<u8>, offset: usize, base_insn: usize, sym_value: usize) -> (r:
    Result<(), Error>)
{
    if offset > bytecode.len() || bytecode.len() - offset < 8 {
        return Err(Error::RelocationFailed);
    }
    if bytecode[offset] != 0x85 {
        // Not a call site; leave the instruction as the compiler wrote it.
        return Ok(());
    }
    if sym_value % 8 != 0 {
        return Err(Error::RelocationFailed);
    }
    if base_insn > i32::MAX as usize || sym_value / 8 > i32::MAX as usize {
        return Err(Error::RelocationFailed);
    }
    let target_insn = base_insn + sym_value / 8;
    let cur_insn = offset / 8;
    if target_insn > i32::MAX as usize || cur_insn > i32::MAX as usize {
        return Err(Error::RelocationFailed);
    }
    let disp: i64 = target_insn as i64 - cur_insn as i64 - 1;
    if disp > i32::MAX as i64 || disp < i32::MIN as i64 {
        return Err(Error::RelocationFailed);
    }
    let imm: u32 = disp as i32 as u32;
    let mut out: Vec<u8> = Vec::new();
    crate::bytes::push_le(&mut out, imm as u64, 4);
    bytecode.set(offset + 4, out[0]);
    bytecode.set(offset + 5, out[1]);
    bytecode.set(offset + 6, out[2]);
    bytecode.set(offset + 7, out[3]);
    Ok(())
}


/// A loaded program: its final instruction stream and the maps it owns.
pub struct EbpfProgram {
    /// Post-merge, post-relocation instruction stream.
    pub bytecode: Vec<u8>,
    /// The (declaring symbol, map handle) pairs this program owns.
    pub map_fds: Vec<(Vec<u8>, u32)>,
}

/// Whether one instruction slot is safe to hand to the interpreter: a
/// jump-class instruction must be an exit, a helper call, or a forward
/// in-bounds jump, and the instructions whose arithmetic the interpreter
/// leaves unchecked are refused. The interpreter walks off the end of the
/// instruction array when the last slot falls through, jumps
/// program-locally through an unchecked displacement, loops without an
/// instruction-count guard, and can overflow under arithmetic checks in
/// the 64-bit negate and the legacy absolute and indirect loads, which
/// add an immediate or an arbitrary register to a raw pointer unchecked;
/// this predicate rules all of those out.
pub open spec fn spec_insn_safe(code: Seq<u8>, i: int) -> bool {
    let n = code.len() / 8;
    let op = code[8 * i];
    let cls = op & 0x07;
    if cls == 0x05 || cls == 0x06 {
        if op == 0x95 || op == 0x8d {
            // Exit; the unsupported tail call is refused with an error.
            true
        } else if op == 0x85 {
            // Only helper calls: a program-local call (source register
            // field 1) moves the instruction pointer unchecked.
            code[8 * i + 1] & 0xf0 == 0
        } else {
            // A jump: forward (the offset's sign byte clear) and landing
            // no further than the last instruction.
            &&& code[8 * i + 3] < 0x80
            &&& i + 1 + (code[8 * i + 2] + 256 * (code[8 * i + 3] as int)) <= n - 1
        }
    } else {
        // 64-bit negate, and the absolute and indirect loads.
        !(op == 0x87 || op == 0x20 || op == 0x28 || op == 0x30 || op == 0x38 || op == 0x40
            || op == 0x48 || op == 0x50 || op == 0x58)
    }
}

/// Whether an instruction stream can run on the interpreter without
/// panicking or diverging: non-empty, a whole number of instructions, no
/// more than 32767 of them — the interpreter computes jump targets through
/// a 16-bit signed intermediate, so a larger stream can wrap the
/// instruction pointer — the last instruction an exit, no
/// load-immediate-64 right before it (its data slot would swallow the
/// exit and execution would fall off the end), and every slot safe. Every
/// slot is screened, the data slots of load-immediate-64 instructions
/// included, since a verifier-accepted jump can land in one whose bytes
/// then execute as an instruction. rbpf's own verifier rejects the
/// malformed remainder (truncated loads, unknown opcodes) with an error,
/// never a panic.
pub open spec fn spec_prog_runnable(code: Seq<u8>) -> bool {
    &&& code.len() > 0
    &&& code.len() % 8 == 0
    &&& code.len() / 8 <= 32767
    &&& code[code.len() - 8] == 0x95
    &&& (code.len() >= 16 ==> code[code.len() - 16] != 0x18)
    &&& (forall|i: int| 0 <= i < code.len() / 8 ==> spec_insn_safe(code, i))
}

/// Check that an instruction stream is safe to hand to the interpreter.
pub fn prog_runnable(code: &[u8]) -> (r: bool)
    ensures
        r == spec_prog_runnable(code@),
{
    let len = code.len();
    if len == 0 || len % 8 != 0 {
        return false;
    }
    let n = len / 8;
    if n > 32767 {
        return false;
    }
    if code[len - 8] != 0x95 {
        return false;
    }
    if len >= 16 && code[len - 16] == 0x18 {
        return false;
    }
    let mut i: usize = 0;
    while i < n
        invariant
            0 <= i <= n,
            n == code@.len() / 8,
            code@.len() % 8 == 0,
            code@.len() == len,
            forall|j: int| 0 <= j < i ==> spec_insn_safe(code@, j),
        decreases n - i,
    {
        let op = code[8 * i];
        let cls = op & 0x07;
        if cls != 0x05 && cls != 0x06 {
            if op == 0x87 || op == 0x20 || op == 0x28 || op == 0x30 || op == 0x38 || op == 0x40
                || op == 0x48 || op == 0x50 || op == 0x58 {
                proof {
                    assert(!spec_insn_safe(code@, i as int));
                }
                return false;
            }
        }
        if cls == 0x05 || cls == 0x06 {
            if op == 0x95 || op == 0x8d {
            } else if op == 0x85 {
                if code[8 * i + 1] & 0xf0 != 0 {
                    proof {
                        assert(!spec_insn_safe(code@, i as int));
                    }
                    return false;
                }
            } else {
                let b2 = code[8 * i + 2] as usize;
                let b3 = code[8 * i + 3] as usize;
                if b3 >= 0x80 || i + 1 + (b2 + 256 * b3) > n - 1 {
                    proof {
                        assert(!spec_insn_safe(code@, i as int));
                    }
                    return false;
                }
            }
        }
        proof {
            assert(spec_insn_safe(code@, i as int));
        }
        i = i + 1;
    }
    true
}

/// Relies on rbpf 0.4.1: `EbpfVmNoData::new` runs rbpf's verifier over the
/// bytecode and `execute_program` runs its interpreter with no data
/// region. The interpreter panics if execution walks past the last
/// instruction — including when a load-immediate-64's data slot fakes the
/// final exit byte that its verifier checks only as a raw byte; computes
/// jump targets through a 16-bit signed intermediate, which a stream
/// longer than 32767 instructions can wrap; moves the instruction pointer
/// through a program-local call's unchecked displacement; loops forever
/// on a backward jump, having no instruction-count guard; executes a
/// load-immediate-64 data slot as an instruction when a jump lands in one
/// whose first byte is not zero; and negates or adds to a raw pointer
/// unchecked in the 64-bit negate and the legacy loads. The precondition
/// rules all those streams out; on what remains, every interpreter path
/// returns an error rather than panicking (division and modulo by zero
/// are guarded, shifts masked, unknown helpers, tail calls and
/// out-of-bounds memory refused with errors). rbpf's verifier refuses the
/// malformed remainder with an error. Nothing is promised of a successful
/// run's value.
#[verifier::external_body]
fn rbpf_execute_nodata(bytecode: &[u8]) -> (r: Result<u64, Error>)
    requires
        spec_prog_runnable(bytecode@),
    ensures
        r is Ok || r->Err_0 is ExecutionFailed || r->Err_0 is InvalidProgram,
{
    match rbpf::EbpfVmNoData::new(Some(bytecode)) {
        Ok(vm) => match vm.execute_program() {
            Ok(v) => Ok(v),
            Err(_) => Err(Error::ExecutionFailed),
        },
        Err(_) => Err(Error::InvalidProgram),
    }
}

/// Relies on rbpf 0.4.1: `EbpfVmRaw::new` (which runs rbpf's verifier) and
/// `execute_program`, its interpreter, with the context bytes as the
/// program's data region. The precondition rules out the instruction
/// streams on which the interpreter panics or never returns — overlong
/// streams, fall-through past the end, program-local calls, backward
/// jumps, the unchecked negate and legacy loads — as above. The context
/// may come back arbitrarily changed; nothing is promised of it or of a
/// successful run's value.
#[verifier::external_body]
fn rbpf_execute_raw(bytecode: &[u8], ctx: &mut Vec<u8>) -> (r: Result<u64, Error>)
    requires
        spec_prog_runnable(bytecode@),
    ensures
        r is Ok || r->Err_0 is ExecutionFailed || r->Err_0 is InvalidProgram,
{
    match rbpf::EbpfVmRaw::new(Some(bytecode)) {
        Ok(vm) => match vm.execute_program(ctx.as_mut_slice()) {
            Ok(v) => Ok(v),
            Err(_) => Err(Error::ExecutionFailed),
        },
        Err(_) => Err(Error::InvalidProgram),
    }
}

impl EbpfProgram {
    /// Load a program from raw instructions or an object file, optionally
    /// selecting a program section by name. Raw input passes through
    /// unchanged; the result must be non-empty and a multiple of eight
    /// bytes, else the load fails with `InvalidProgram` and any maps
    /// materialised on the way are destroyed again.
    pub fn new(maps: &mut MapStore, data: &[u8], name: Option<&str>) -> (r: Result<
        EbpfProgram,
        Error,
    >)
        requires
            old(maps).wf(),
        ensures
            final(maps).wf(),
            r is Err ==> maps_rolled_back(old(maps)@, final(maps)@) || final(maps)@ == old(
                maps,
            )@,
            r is Ok ==> {
                &&& maps_untouched_outside(old(maps)@, final(maps)@)
                &&& r->Ok_0.bytecode@.len() > 0
                &&& r->Ok_0.bytecode@.len() % 8 == 0
            },
            !spec_is_elf(data@) && data@.len() > 0 && data@.len() % 8 == 0 ==> r is Ok
                && r->Ok_0.bytecode@ == data@ && r->Ok_0.map_fds@.len() == 0 && final(maps)@
                == old(maps)@,
            !spec_is_elf(data@) && !(data@.len() > 0 && data@.len() % 8 == 0) ==> r == Err::<
                EbpfProgram,
                Error,
            >(Error::InvalidProgram) && final(maps)@ == old(maps)@,
            name is None && spec_plain_object(data@) && spec_code_bytes(data@).len() > 0
                && spec_code_bytes(data@).len() % 8 == 0 ==> r is Ok && r->Ok_0.bytecode@
                == spec_code_bytes(data@) && r->Ok_0.map_fds@.len() == 0 && final(maps)@
                == old(maps)@,
    {
        if !is_elf(data) {
            if data.len() == 0 || data.len() % 8 != 0 {
                return Err(Error::InvalidProgram);
            }
            return Ok(EbpfProgram { bytecode: copy_bytes(data), map_fds: Vec::new() });
        }
        let parsed = match name {
            Some(n) => parse_elf_with_maps(maps, data, Some(n.as_bytes())),
            None => parse_elf_with_maps(maps, data, None),
        };
        match parsed {
            Ok((bytecode, map_fds)) => {
                if bytecode.len() == 0 || bytecode.len() % 8 != 0 {
                    let fds = collect_fds(&map_fds);
                    destroy_all(maps, &fds);
                    proof {
                        assert(maps_rolled_back(old(maps)@, maps@));
                    }
                    return Err(Error::InvalidProgram);
                }
                Ok(EbpfProgram { bytecode, map_fds })
            },
            Err(e) => Err(e),
        }
    }

    /// The instruction stream.
    pub fn bytecode(&self) -> (r: &[u8])
        ensures
            r@ == self.bytecode@,
    {
        self.bytecode.as_slice()
    }

    /// The maps this program owns, as (symbol, handle) pairs.
    pub fn map_fds(&self) -> (r: &[(Vec<u8>, u32)])
        ensures
            r@ == self.map_fds@,
    {
        self.map_fds.as_slice()
    }

    /// An equal copy of this program handle.
    pub fn duplicate(&self) -> (r: EbpfProgram)
        ensures
            r.bytecode@ == self.bytecode@,
            r.map_fds@.len() == self.map_fds@.len(),
            forall|i: int|
                0 <= i < r.map_fds@.len() ==> (#[trigger] r.map_fds@[i]).0@
                    == self.map_fds@[i].0@ && r.map_fds@[i].1 == self.map_fds@[i].1,
    {
        let mut pairs: Vec<(Vec<u8>, u32)> = Vec::new();
        let mut i: usize = 0;
        while i < self.map_fds.len()
            invariant
                i <= self.map_fds@.len(),
                pairs@.len() == i,
                forall|j: int|
                    0 <= j < i ==> (#[trigger] pairs@[j]).0@ == self.map_fds@[j].0@
                        && pairs@[j].1 == self.map_fds@[j].1,
            decreases self.map_fds@.len() - i,
        {
            pairs.push((copy_bytes(self.map_fds[i].0.as_slice()), self.map_fds[i].1));
            i = i + 1;
        }
        EbpfProgram { bytecode: copy_bytes(self.bytecode.as_slice()), map_fds: pairs }
    }

    /// Execute the program with no data region; the virtual machine's
    /// 64-bit result register is handed back as-is. A stream that could
    /// walk past its last instruction or loop without bound is refused
    /// with `ExecutionFailed` before the interpreter sees it, since the
    /// interpreter carries no instruction-count guard. This deliberately
    /// refuses every backward jump and every program-local call — bounded
    /// loops and intra-object calls included — and the 64-bit negate and
    /// legacy load instructions, whose arithmetic the interpreter leaves
    /// unchecked.
    pub fn execute(&self) -> (r: Result<u64, Error>)
        ensures
            r is Ok || r == Err::<u64, Error>(Error::ExecutionFailed) || r == Err::<
                u64,
                Error,
            >(Error::InvalidProgram),
            !spec_prog_runnable(self.bytecode@) ==> r == Err::<u64, Error>(
                Error::ExecutionFailed,
            ),
    {
        if !prog_runnable(self.bytecode.as_slice()) {
            return Err(Error::ExecutionFailed);
        }
        rbpf_execute_nodata(self.bytecode.as_slice())
    }

    /// Execute the program with the context bytes as its data region; the
    /// same runnability screen applies.
    pub fn execute_with_context(&self, ctx: &mut Vec<u8>) -> (r: Result<u64, Error>)
        ensures
            r is Ok || r == Err::<u64, Error>(Error::ExecutionFailed) || r == Err::<
                u64,
                Error,
            >(Error::InvalidProgram),
            !spec_prog_runnable(self.bytecode@) ==> r == Err::<u64, Error>(
                Error::ExecutionFailed,
            ),
    {
        if !prog_runnable(self.bytecode.as_slice()) {
            return Err(Error::ExecutionFailed);
        }
        rbpf_execute_raw(self.bytecode.as_slice(), ctx)
    }
}

/// The program registry: a program's id is its slot index.
pub struct ProgramStore {
    /// Dense slots; an unloaded program leaves a reusable `None`.
    pub slots: Vec<Option<EbpfProgram>>,
}

impl ProgramStore {
    /// A live program sits at the id.
    pub open spec fn live(&self, id: u32) -> bool {
        id < self.slots@.len() && self.slots@[id as int] is Some
    }

    /// An empty registry.
    pub fn new() -> (r: ProgramStore)
        ensures
            r.slots@.len() == 0,
    {
        ProgramStore { slots: Vec::new() }
    }

    /// Load a program into the lowest free slot and return its id.
    pub fn load_program(&mut self, maps: &mut MapStore, data: &[u8], name: Option<&str>) -> (r:
        Result<u32, Error>)
        requires
            old(maps).wf(),
        ensures
            final(maps).wf(),
            match r {
                Ok(id) => {
                    &&& final(self).live(id)
                    &&& (forall|j: int| 0 <= j < id ==> old(self).slots@[j] is Some)
                    &&& (id as int) <= old(self).slots@.len()
                    &&& ((id as int) < old(self).slots@.len() ==> old(self).slots@[id as int]
                        is None && final(self).slots@.len() == old(self).slots@.len())
                    &&& ((id as int) == old(self).slots@.len() ==> final(self).slots@.len()
                        == old(self).slots@.len() + 1)
                    &&& (forall|j: int|
                        0 <= j < old(self).slots@.len() && j != id ==> final(self).slots@[j]
                            == old(self).slots@[j])
                    &&& (!spec_is_elf(data@) ==> final(self).slots@[id as int]->Some_0
                        .bytecode@ == data@)
                },
                Err(_) => final(self).slots@ == old(self).slots@,
            },
            !spec_is_elf(data@) && data@.len() > 0 && data@.len() % 8 == 0 && old(
                self,
            ).slots@.len() < u32::MAX as nat ==> r is Ok,
            name is None && spec_plain_object(data@) && spec_code_bytes(data@).len() > 0
                && spec_code_bytes(data@).len() % 8 == 0 && old(self).slots@.len() < u32::MAX
                as nat ==> r is Ok,
            r is Ok && name is None && spec_plain_object(data@) && spec_code_bytes(
                data@,
            ).len() > 0 && spec_code_bytes(data@).len() % 8 == 0 ==> final(self).slots@[
                r->Ok_0 as int
            ]->Some_0.bytecode@ == spec_code_bytes(data@),
    {
        let program = match EbpfProgram::new(maps, data, name) {
            Ok(p) => p,
            Err(e) => {
                return Err(e);
            },
        };
        let n = self.slots.len();
        let mut id: usize = 0;
        while id < n && id < u32::MAX as usize && self.slots[id].is_some()
            invariant
                id <= n,
                id <= u32::MAX as usize,
                n == self.slots@.len(),
                forall|j: int| 0 <= j < id ==> self.slots@[j] is Some,
            decreases n - id,
        {
            id = id + 1;
        }
        if id < n && id < u32::MAX as usize {
            self.slots.set(id, Some(program));
            Ok(id as u32)
        } else if n >= u32::MAX as usize {
            Err(Error::NotFound)
        } else {
            self.slots.push(Some(program));
            Ok(id as u32)
        }
    }

    /// A copy of the program at an id.
    pub fn get_program(&self, prog_id: u32) -> (r: Option<EbpfProgram>)
        ensures
            match r {
                Some(p) => self.live(prog_id) && p.bytecode@
                    == self.slots@[prog_id as int]->Some_0.bytecode@,
                None => !self.live(prog_id),
            },
    {
        if (prog_id as usize) >= self.slots.len() {
            return None;
        }
        match &self.slots[prog_id as usize] {
            Some(p) => Some(p.duplicate()),
            None => None,
        }
    }

    /// The (symbol, handle) pairs of the maps the program at an id owns.
    pub fn get_program_map_fds(&self, prog_id: u32) -> (r: Option<Vec<(Vec<u8>, u32)>>)
        ensures
            r is Some <==> self.live(prog_id),
    {
        if (prog_id as usize) >= self.slots.len() {
            return None;
        }
        match &self.slots[prog_id as usize] {
            Some(p) => Some(p.duplicate().map_fds),
            None => None,
        }
    }

    /// Unload the program at an id and destroy every map it declared; its
    /// slot becomes reusable.
    pub fn unload_program(&mut self, maps: &mut MapStore, prog_id: u32) -> (r: Result<(), Error>)
        requires
            old(maps).wf(),
        ensures
            final(maps).wf(),
            r == if old(self).live(prog_id) {
                Ok::<(), Error>(())
            } else {
                Err::<(), Error>(Error::NotFound)
            },
            old(self).live(prog_id) ==> final(self).slots@ == old(self).slots@.update(
                prog_id as int,
                None::<EbpfProgram>,
            ),
            old(self).live(prog_id) ==> {
                let fds0 = old(self).slots@[prog_id as int]->Some_0.map_fds@;
                &&& final(maps)@.len() == old(maps)@.len()
                &&& (forall|j: int|
                    0 <= j < old(maps)@.len() ==> final(maps)@[j] == (if exists|k: int|
                        0 <= k < fds0.len() && fds0[k].1 == j {
                        None::<crate::maps::MapView>
                    } else {
                        old(maps)@[j]
                    }))
            },
            !old(self).live(prog_id) ==> {
                &&& final(self).slots@ == old(self).slots@
                &&& final(maps)@ == old(maps)@
            },
    {
        if (prog_id as usize) >= self.slots.len() {
            return Err(Error::NotFound);
        }
        if self.slots[prog_id as usize].is_none() {
            return Err(Error::NotFound);
        }
        let fds = match &self.slots[prog_id as usize] {
            Some(p) => collect_fds(&p.map_fds),
            None => Vec::new(),
        };
        destroy_all(maps, &fds);
        proof {
            let fds0 = old(self).slots@[prog_id as int]->Some_0.map_fds@;
            assert(fds@ == fd_list(fds0));
            assert forall|j: int| #![trigger old(maps)@[j]] 0 <= j < old(maps)@.len() implies (
            exists|k: int|
                0 <= k < fds@.len() && #[trigger] fds@[k] == j) == (exists|k: int|
                0 <= k < fds0.len() && (#[trigger] fds0[k]).1 == j) by {
                if exists|k: int| 0 <= k < fds@.len() && fds@[k] == j {
                    let k = choose|k: int| 0 <= k < fds@.len() && fds@[k] == j;
                    assert(fds0[k].1 == j);
                }
                if exists|k: int| 0 <= k < fds0.len() && fds0[k].1 == j {
                    let k = choose|k: int| 0 <= k < fds0.len() && fds0[k].1 == j;
                    assert(fds@[k] == j);
                }
            }
        }
        self.slots.set(prog_id as usize, None);
        Ok(())
    }

    /// Run the program at an id, optionally with a context buffer as its
    /// data region; the virtual machine's result register comes back.
    /// `NotFound` comes exactly when no program lives at the id; for a
    /// loaded program the stored bytecode is what runs, and the outcome is
    /// success or one of the two execution errors.
    ///
    /// This path runs the program on a bare virtual machine: the helper
    /// surface closes over process-wide state that this library does not
    /// hold, so registering it is the embedder's part, and a program that
    /// calls a helper here gets `ExecutionFailed` from the interpreter's
    /// unknown-helper error.
    pub fn run_program(&self, prog_id: u32, ctx: Option<&mut Vec<u8>>) -> (r: Result<u64, Error>)
        ensures
            r == Err::<u64, Error>(Error::NotFound) <==> !self.live(prog_id),
            self.live(prog_id) ==> r is Ok || r == Err::<u64, Error>(Error::ExecutionFailed)
                || r == Err::<u64, Error>(Error::InvalidProgram),
            self.live(prog_id) && !spec_prog_runnable(
                self.slots@[prog_id as int]->Some_0.bytecode@,
            ) ==> r == Err::<u64, Error>(Error::ExecutionFailed),
    {
        if (prog_id as usize) >= self.slots.len() {
            return Err(Error::NotFound);
        }
        match &self.slots[prog_id as usize] {
            Some(p) => {
                match ctx {
                    Some(mem) => p.execute_with_context(mem),
                    None => p.execute(),
                }
            },
            None => Err(Error::NotFound),
        }
    }

    /// Number of loaded programs.
    pub fn program_count(&self) -> (r: usize)
        ensures
            r <= self.slots@.len(),
    {
        let mut n: usize = 0;
        let mut i: usize = 0;
        while i < self.slots.len()
            invariant
                i <= self.slots@.len(),
                n <= i,
            decreases self.slots@.len() - i,
        {
            if self.slots[i].is_some() {
                n = n + 1;
            }
            i = i + 1;
        }
        n
    }

    /// Ids and bytecode sizes of every loaded program, in id order.
    pub fn list_programs(&self) -> (r: Vec<ProgramInfo>)
        ensures
            r@.len() <= self.slots@.len(),
            forall|k: int|
                0 <= k < r@.len() ==> self.live(#[trigger] r@[k].id) && r@[k].size
                    == self.slots@[r@[k].id as int]->Some_0.bytecode@.len(),
    {
        let mut out: Vec<ProgramInfo> = Vec::new();
        let mut i: usize = 0;
        while i < self.slots.len()
            invariant
                i <= self.slots@.len(),
                i <= u32::MAX as usize || out@.len() <= self.slots@.len(),
                out@.len() <= i,
                forall|k: int|
                    0 <= k < out@.len() ==> self.live(#[trigger] out@[k].id) && out@[k].size
                        == self.slots@[out@[k].id as int]->Some_0.bytecode@.len(),
            decreases self.slots@.len() - i,
        {
            if i <= u32::MAX as usize {
                match &self.slots[i] {
                    Some(p) => {
                        out.push(ProgramInfo { id: i as u32, size: p.bytecode.len() });
                    },
                    None => {},
                }
            }
            i = i + 1;
        }
        out
    }
}

/// Information about one loaded program.
#[derive(Debug, Clone, Copy, PartialEq, Eq, Structural)]
pub struct ProgramInfo {
    /// Program id.
    pub id: u32,
    /// Bytecode size in bytes.
    pub size: usize,
}

/// Load and execute a program in one step, without the registry.
pub fn execute(maps: &mut MapStore, prog: &[u8]) -> (r: Result<u64, Error>)
    requires
        old(maps).wf(),
    ensures
        final(maps).wf(),
{
    let program = match EbpfProgram::new(maps, prog, None) {
        Ok(p) => p,
        Err(e) => {
            return Err(e);
        },
    };
    program.execute()
}

/// Load and execute a program with a memory context, without the registry.
pub fn execute_with_mem(maps: &mut MapStore, prog: &[u8], mem: &mut Vec<u8>) -> (r: Result<
    u64,
    Error,
>)
    requires
        old(maps).wf(),
    ensures
        final(maps).wf(),
{
    let program = match EbpfProgram::new(maps, prog, None) {
        Ok(p) => p,
        Err(e) => {
            return Err(e);
        },
    };
    program.execute_with_context(mem)
}

} // verus!
