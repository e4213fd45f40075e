//! Runtime tests: program loading, execution through the virtual machine,
//! and the registry lifecycle.

use axebpf::maps::MapStore;
use axebpf::runtime::{self, EbpfProgram, Error, ProgramStore};

/// mov r0, 42; exit.
const PROG_RETURN_42: &[u8] = &[
    0xb7, 0x00, 0x00, 0x00, 0x2a, 0x00, 0x00, 0x00, 0x95, 0x00, 0x00, 0x00, 0x00, 0x00, 0x00,
    0x00,
];

/// mov r0, 0; exit.
const PROG_RETURN_ZERO: &[u8] = &[
    0xb7, 0x00, 0x00, 0x00, 0x00, 0x00, 0x00, 0x00, 0x95, 0x00, 0x00, 0x00, 0x00, 0x00, 0x00,
    0x00,
];

/// mov r0, r1; exit.
const PROG_RETURN_R1: &[u8] = &[
    0xbf, 0x10, 0x00, 0x00, 0x00, 0x00, 0x00, 0x00, 0x95, 0x00, 0x00, 0x00, 0x00, 0x00, 0x00,
    0x00,
];

#[test]
fn test_program_new_valid() {
    let mut maps = MapStore::new();
    let program = EbpfProgram::new(&mut maps, PROG_RETURN_42, None);
    assert!(program.is_ok());
}

#[test]
fn test_program_new_empty() {
    let mut maps = MapStore::new();
    let program = EbpfProgram::new(&mut maps, &[], None);
    assert!(program.is_err());
}

#[test]
fn test_program_new_invalid_size() {
    let mut maps = MapStore::new();
    let program = EbpfProgram::new(&mut maps, &[0x00; 7], None);
    assert!(program.is_err());
}

#[test]
fn test_program_bytecode() {
    let mut maps = MapStore::new();
    let program = EbpfProgram::new(&mut maps, PROG_RETURN_42, None).unwrap();
    assert_eq!(program.bytecode(), PROG_RETURN_42);
}

#[test]
fn test_execute_return_42() {
    let mut maps = MapStore::new();
    let program = EbpfProgram::new(&mut maps, PROG_RETURN_42, None).unwrap();
    let result = program.execute().unwrap();
    assert_eq!(result, 42);
}

#[test]
fn test_execute_return_zero() {
    let mut maps = MapStore::new();
    let program = EbpfProgram::new(&mut maps, PROG_RETURN_ZERO, None).unwrap();
    let result = program.execute().unwrap();
    assert_eq!(result, 0);
}

#[test]
fn test_execute_with_context() {
    let mut maps = MapStore::new();
    let program = EbpfProgram::new(&mut maps, PROG_RETURN_R1, None).unwrap();
    let mut ctx = vec![0u8; 16];
    let result = program.execute_with_context(&mut ctx);
    assert!(result.is_ok());
}

#[test]
fn test_load_program() {
    let mut maps = MapStore::new();
    let mut progs = ProgramStore::new();
    let prog_id = progs.load_program(&mut maps, PROG_RETURN_42, None);
    assert!(prog_id.is_ok());
}

#[test]
fn test_get_program() {
    let mut maps = MapStore::new();
    let mut progs = ProgramStore::new();
    let prog_id = progs.load_program(&mut maps, PROG_RETURN_42, None).unwrap();
    let program = progs.get_program(prog_id);
    assert!(program.is_some());
}

#[test]
fn test_run_program() {
    let mut maps = MapStore::new();
    let mut progs = ProgramStore::new();
    let prog_id = progs.load_program(&mut maps, PROG_RETURN_42, None).unwrap();
    let result = progs.run_program(prog_id, None).unwrap();
    assert_eq!(result, 42);
}

#[test]
fn test_unload_program() {
    let mut maps = MapStore::new();
    let mut progs = ProgramStore::new();
    let prog_id = progs.load_program(&mut maps, PROG_RETURN_42, None).unwrap();
    assert!(progs.unload_program(&mut maps, prog_id).is_ok());
    assert!(progs.get_program(prog_id).is_none());
}

#[test]
fn test_run_unloaded_program() {
    let mut maps = MapStore::new();
    let mut progs = ProgramStore::new();
    let prog_id = progs.load_program(&mut maps, PROG_RETURN_42, None).unwrap();
    progs.unload_program(&mut maps, prog_id).unwrap();
    let result = progs.run_program(prog_id, None);
    assert!(result.is_err());
}

#[test]
fn program_load_and_run() {
    let mut maps = MapStore::new();
    let mut progs = ProgramStore::new();
    let raw: [u8; 16] = [
        0xb7, 0x00, 0x00, 0x00, 0x2a, 0x00, 0x00, 0x00, 0x95, 0x00, 0x00, 0x00, 0x00, 0x00,
        0x00, 0x00,
    ];
    let prog_id = progs.load_program(&mut maps, &raw, None).unwrap();
    assert_eq!(progs.run_program(prog_id, None).unwrap(), 42);
}

#[test]
fn execute_without_registry() {
    let mut maps = MapStore::new();
    assert_eq!(runtime::execute(&mut maps, PROG_RETURN_42).unwrap(), 42);
}

#[test]
fn program_ids_are_dense_and_reusable() {
    let mut maps = MapStore::new();
    let mut progs = ProgramStore::new();
    let a = progs.load_program(&mut maps, PROG_RETURN_42, None).unwrap();
    let b = progs.load_program(&mut maps, PROG_RETURN_ZERO, None).unwrap();
    assert_eq!(a, 0);
    assert_eq!(b, 1);
    progs.unload_program(&mut maps, a).unwrap();
    let c = progs.load_program(&mut maps, PROG_RETURN_R1, None).unwrap();
    assert_eq!(c, 0);
    assert_eq!(progs.program_count(), 2);
}

#[test]
fn non_elf_bytecode_passes_through() {
    let mut maps = MapStore::new();
    let program = EbpfProgram::new(&mut maps, PROG_RETURN_R1, None).unwrap();
    assert_eq!(program.bytecode(), PROG_RETURN_R1);
    assert!(program.map_fds().is_empty());
}

#[test]
fn truncated_elf_is_rejected() {
    let mut maps = MapStore::new();
    let bogus: [u8; 8] = [0x7f, 0x45, 0x4c, 0x46, 0x00, 0x00, 0x00, 0x00];
    let program = EbpfProgram::new(&mut maps, &bogus, None);
    assert!(program.is_err());
    assert_eq!(maps.count(), 0);
}

/// mov r0, 0; then a conditional jump back to the start as the last
/// instruction: rbpf's verifier accepts it, but an untaken jump would walk
/// off the end of the instruction array.
const PROG_FALLS_OFF_END: &[u8] = &[
    0xb7, 0x00, 0x00, 0x00, 0x00, 0x00, 0x00, 0x00, 0x15, 0x00, 0xfe, 0xff, 0x01, 0x00, 0x00,
    0x00,
];

/// An unconditional backward jump: it would spin forever, as the
/// interpreter has no instruction-count guard.
const PROG_SPINS: &[u8] = &[
    0xb7, 0x00, 0x00, 0x00, 0x00, 0x00, 0x00, 0x00, 0x05, 0x00, 0xfe, 0xff, 0x00, 0x00, 0x00,
    0x00, 0x95, 0x00, 0x00, 0x00, 0x00, 0x00, 0x00, 0x00,
];

#[test]
fn falling_off_the_end_is_refused_not_run() {
    let mut maps = MapStore::new();
    let mut progs = ProgramStore::new();
    let prog_id = progs.load_program(&mut maps, PROG_FALLS_OFF_END, None).unwrap();
    let result = progs.run_program(prog_id, None);
    assert_eq!(result, Err(runtime::Error::ExecutionFailed));
}

#[test]
fn unbounded_loops_are_refused_not_run() {
    let mut maps = MapStore::new();
    let program = EbpfProgram::new(&mut maps, PROG_SPINS, None).unwrap();
    assert_eq!(program.execute(), Err(runtime::Error::ExecutionFailed));
}

#[test]
fn forward_jumps_still_run() {
    // mov r0, 7; jump over the next instruction; mov r0, 1; exit.
    let prog: [u8; 32] = [
        0xb7, 0x00, 0x00, 0x00, 0x07, 0x00, 0x00, 0x00, 0x05, 0x00, 0x01, 0x00, 0x00, 0x00,
        0x00, 0x00, 0xb7, 0x00, 0x00, 0x00, 0x01, 0x00, 0x00, 0x00, 0x95, 0x00, 0x00, 0x00,
        0x00, 0x00, 0x00, 0x00,
    ];
    let mut maps = MapStore::new();
    let program = EbpfProgram::new(&mut maps, &prog, None).unwrap();
    assert_eq!(program.execute().unwrap(), 7);
}

#[test]
fn overlong_streams_are_refused_not_run() {
    // 32768 instructions: mov r0, 0 repeated, then exit. The interpreter
    // computes jump targets through a 16-bit signed intermediate, so
    // streams past 32767 instructions are refused outright.
    let mut prog: Vec<u8> = Vec::new();
    for _ in 0..32767 {
        prog.extend_from_slice(&[0xb7, 0x00, 0x00, 0x00, 0x00, 0x00, 0x00, 0x00]);
    }
    prog.extend_from_slice(&[0x95, 0x00, 0x00, 0x00, 0x00, 0x00, 0x00, 0x00]);
    assert_eq!(prog.len(), 32768 * 8);
    let mut maps = MapStore::new();
    let mut progs = ProgramStore::new();
    let id = progs.load_program(&mut maps, &prog, None).unwrap();
    assert_eq!(progs.run_program(id, None), Err(Error::ExecutionFailed));
}

#[test]
fn longest_accepted_stream_still_runs() {
    // Exactly 32767 instructions stays within the 16-bit instruction
    // pointer and runs to completion.
    let mut prog: Vec<u8> = Vec::new();
    prog.extend_from_slice(&[0xb7, 0x00, 0x00, 0x00, 0x2a, 0x00, 0x00, 0x00]);
    for _ in 0..32765 {
        prog.extend_from_slice(&[0x07, 0x00, 0x00, 0x00, 0x00, 0x00, 0x00, 0x00]);
    }
    prog.extend_from_slice(&[0x95, 0x00, 0x00, 0x00, 0x00, 0x00, 0x00, 0x00]);
    assert_eq!(prog.len(), 32767 * 8);
    let mut maps = MapStore::new();
    let mut progs = ProgramStore::new();
    let id = progs.load_program(&mut maps, &prog, None).unwrap();
    assert_eq!(progs.run_program(id, None), Ok(42));
}

#[test]
fn unchecked_negate_is_refused_not_run() {
    // mov r0, 1; neg64 r0; exit — the interpreter's 64-bit negate is
    // unchecked, so the screen refuses it before the interpreter runs.
    let prog: Vec<u8> = vec![
        0xb7, 0x00, 0x00, 0x00, 0x01, 0x00, 0x00, 0x00, // mov r0, 1
        0x87, 0x00, 0x00, 0x00, 0x00, 0x00, 0x00, 0x00, // neg64 r0
        0x95, 0x00, 0x00, 0x00, 0x00, 0x00, 0x00, 0x00, // exit
    ];
    let mut maps = MapStore::new();
    let mut progs = ProgramStore::new();
    let id = progs.load_program(&mut maps, &prog, None).unwrap();
    assert_eq!(progs.run_program(id, None), Err(Error::ExecutionFailed));
}

#[test]
fn indirect_loads_are_refused_not_run() {
    // ld_ind_w r0, [r1 + 0] adds an arbitrary register to a raw pointer
    // unchecked; the screen refuses it.
    let prog: Vec<u8> = vec![
        0x40, 0x00, 0x01, 0x00, 0x00, 0x00, 0x00, 0x00, // ld_ind_w
        0x95, 0x00, 0x00, 0x00, 0x00, 0x00, 0x00, 0x00, // exit
    ];
    let mut maps = MapStore::new();
    let mut progs = ProgramStore::new();
    let id = progs.load_program(&mut maps, &prog, None).unwrap();
    assert_eq!(progs.run_program(id, None), Err(Error::ExecutionFailed));
}

/// Build a minimal object file holding one `kprobe` program section with
/// the given instruction bytes and no maps section.
fn plain_object(code: &[u8]) -> Vec<u8> {
    fn put_le(data: &mut [u8], off: usize, n: usize, v: u64) {
        for k in 0..n {
            data[off + k] = ((v >> (8 * k)) & 0xff) as u8;
        }
    }
    let code_len = code.len();
    // layout: header 0..64, shstrtab 64..72, code 72..72+len, table after.
    let shoff = 72 + code_len;
    let mut data = vec![0u8; shoff + 2 * 64];
    data[0] = 0x7f;
    data[1] = b'E';
    data[2] = b'L';
    data[3] = b'F';
    put_le(&mut data, 40, 8, shoff as u64); // e_shoff
    put_le(&mut data, 58, 2, 64); // e_shentsize
    put_le(&mut data, 60, 2, 2); // e_shnum
    put_le(&mut data, 62, 2, 0); // e_shstrndx
    // string table: "\0kprobe\0"
    data[65..71].copy_from_slice(b"kprobe");
    data[72..72 + code_len].copy_from_slice(code);
    // section 0: the string table itself
    put_le(&mut data, shoff + 4, 4, 3); // sh_type STRTAB
    put_le(&mut data, shoff + 24, 8, 64); // sh_offset
    put_le(&mut data, shoff + 32, 8, 8); // sh_size
    // section 1: the kprobe program section
    let e1 = shoff + 64;
    put_le(&mut data, e1, 4, 1); // sh_name -> "kprobe"
    put_le(&mut data, e1 + 4, 4, 1); // sh_type PROGBITS
    put_le(&mut data, e1 + 24, 8, 72); // sh_offset
    put_le(&mut data, e1 + 32, 8, code_len as u64); // sh_size
    data
}

#[test]
fn plain_object_loads_its_program_section_unchanged() {
    let data = plain_object(PROG_RETURN_42);
    let mut maps = MapStore::new();
    let mut progs = ProgramStore::new();
    let id = progs.load_program(&mut maps, &data, None).unwrap();
    let prog = progs.get_program(id).unwrap();
    assert_eq!(prog.bytecode(), PROG_RETURN_42);
    assert_eq!(progs.run_program(id, None), Ok(42));
}

#[test]
fn load_immediate_faking_the_exit_is_refused_not_run() {
    // lddw's data slot carries the exit byte; rbpf's verifier checks only
    // the raw last byte and its interpreter would fall off the end.
    let prog: Vec<u8> = vec![
        0x18, 0x00, 0x00, 0x00, 0x07, 0x00, 0x00, 0x00, // lddw r0, (low)
        0x95, 0x00, 0x00, 0x00, 0x00, 0x00, 0x00, 0x00, // data slot faking exit
    ];
    let mut maps = MapStore::new();
    let mut progs = ProgramStore::new();
    let id = progs.load_program(&mut maps, &prog, None).unwrap();
    assert_eq!(progs.run_program(id, None), Err(Error::ExecutionFailed));
}

#[test]
fn jump_into_load_immediate_data_is_refused_not_run() {
    // A forward jump lands in an lddw data slot whose bytes decode as a
    // backward jump; the screen refuses the stream outright.
    let prog: Vec<u8> = vec![
        0x05, 0x00, 0x01, 0x00, 0x00, 0x00, 0x00, 0x00, // ja +1, into the data slot
        0x18, 0x00, 0x00, 0x00, 0x00, 0x00, 0x00, 0x00, // lddw r0, 0
        0x05, 0x00, 0xfe, 0xff, 0x00, 0x00, 0x00, 0x00, // data slot: ja -2
        0x95, 0x00, 0x00, 0x00, 0x00, 0x00, 0x00, 0x00, // exit
    ];
    let mut maps = MapStore::new();
    let mut progs = ProgramStore::new();
    let id = progs.load_program(&mut maps, &prog, None).unwrap();
    assert_eq!(progs.run_program(id, None), Err(Error::ExecutionFailed));
}

#[test]
fn well_formed_load_immediate_still_runs() {
    // lddw r0, 7; exit.
    let prog: Vec<u8> = vec![
        0x18, 0x00, 0x00, 0x00, 0x07, 0x00, 0x00, 0x00, // lddw r0, 7 (low)
        0x00, 0x00, 0x00, 0x00, 0x00, 0x00, 0x00, 0x00, // high word
        0x95, 0x00, 0x00, 0x00, 0x00, 0x00, 0x00, 0x00, // exit
    ];
    let mut maps = MapStore::new();
    let mut progs = ProgramStore::new();
    let id = progs.load_program(&mut maps, &prog, None).unwrap();
    assert_eq!(progs.run_program(id, None), Ok(7));
}
