//! Attachment registry tests: attach, detach and lookup behaviour.

use axebpf::attach::{AttachRegistry, Error};
use axebpf::maps::MapStore;
use axebpf::runtime::ProgramStore;

/// mov r0, 42; exit.
const PROG_RETURN_42: &[u8] = &[
    0xb7, 0x00, 0x00, 0x00, 0x2a, 0x00, 0x00, 0x00, 0x95, 0x00, 0x00, 0x00, 0x00, 0x00, 0x00,
    0x00,
];

/// mov r0, 0; exit.
const PROG_RETURN_ZERO: &[u8] = &[
    0xb7, 0x00, 0x00, 0x00, 0x00, 0x00, 0x00, 0x00, 0x95, 0x00, 0x00, 0x00, 0x00, 0x00, 0x00,
    0x00,
];

fn loaded_program(maps: &mut MapStore, progs: &mut ProgramStore, data: &[u8]) -> u32 {
    progs.load_program(maps, data, None).unwrap()
}

#[test]
fn test_attach_success() {
    let mut maps = MapStore::new();
    let mut progs = ProgramStore::new();
    let mut attachments = AttachRegistry::new();
    let prog_id = loaded_program(&mut maps, &mut progs, PROG_RETURN_42);

    let result = attachments.attach(&progs, "test:attach_success", prog_id, "prog");
    assert!(result.is_ok());
}

#[test]
fn test_attach_program_not_found() {
    let progs = ProgramStore::new();
    let mut attachments = AttachRegistry::new();
    let result = attachments.attach(&progs, "test:nonexistent_prog", 99999, "prog");
    assert!(matches!(result, Err(Error::ProgramNotFound(99999))));
}

#[test]
fn test_attach_already_attached() {
    let mut maps = MapStore::new();
    let mut progs = ProgramStore::new();
    let mut attachments = AttachRegistry::new();
    let prog_id = loaded_program(&mut maps, &mut progs, PROG_RETURN_42);

    attachments.attach(&progs, "test:already_attached", prog_id, "prog").unwrap();

    let prog_id2 = loaded_program(&mut maps, &mut progs, PROG_RETURN_ZERO);
    let result = attachments.attach(&progs, "test:already_attached", prog_id2, "prog2");
    assert!(matches!(result, Err(Error::AlreadyAttached(_))));
}

#[test]
fn test_detach_success() {
    let mut maps = MapStore::new();
    let mut progs = ProgramStore::new();
    let mut attachments = AttachRegistry::new();
    let prog_id = loaded_program(&mut maps, &mut progs, PROG_RETURN_42);

    attachments.attach(&progs, "test:detach_success", prog_id, "prog").unwrap();
    let result = attachments.detach("test:detach_success");

    assert!(result.is_ok());
    assert_eq!(result.unwrap().prog_id, prog_id);
}

#[test]
fn test_detach_not_attached() {
    let mut attachments = AttachRegistry::new();
    let result = attachments.detach("test:not_attached");
    assert!(matches!(result, Err(Error::NotAttached(_))));
}

#[test]
fn test_get_attached_exists() {
    let mut maps = MapStore::new();
    let mut progs = ProgramStore::new();
    let mut attachments = AttachRegistry::new();
    let prog_id = loaded_program(&mut maps, &mut progs, PROG_RETURN_42);

    attachments.attach(&progs, "test:get_attached_exists", prog_id, "prog").unwrap();
    let result = attachments.get_attached("test:get_attached_exists");
    assert_eq!(result.map(|info| info.prog_id), Some(prog_id));
}

#[test]
fn test_get_attached_not_exists() {
    let attachments = AttachRegistry::new();
    let result = attachments.get_attached("test:nonexistent");
    assert!(result.is_none());
}

#[test]
fn test_get_attached_after_detach() {
    let mut maps = MapStore::new();
    let mut progs = ProgramStore::new();
    let mut attachments = AttachRegistry::new();
    let prog_id = loaded_program(&mut maps, &mut progs, PROG_RETURN_42);

    attachments.attach(&progs, "test:get_after_detach", prog_id, "prog").unwrap();
    attachments.detach("test:get_after_detach").unwrap();

    assert!(attachments.get_attached("test:get_after_detach").is_none());
}

#[test]
fn attach_reports_already_attached_only_when_live() {
    let mut maps = MapStore::new();
    let mut progs = ProgramStore::new();
    let mut attachments = AttachRegistry::new();
    let prog_id = loaded_program(&mut maps, &mut progs, PROG_RETURN_42);

    assert!(attachments.attach(&progs, "tp:x", prog_id, "prog").is_ok());
    assert!(matches!(
        attachments.attach(&progs, "tp:x", prog_id, "prog"),
        Err(Error::AlreadyAttached(_))
    ));
    attachments.detach("tp:x").unwrap();
    assert!(attachments.attach(&progs, "tp:x", prog_id, "prog").is_ok());
}

#[test]
fn list_and_count_track_attachments() {
    let mut maps = MapStore::new();
    let mut progs = ProgramStore::new();
    let mut attachments = AttachRegistry::new();
    let prog_id = loaded_program(&mut maps, &mut progs, PROG_RETURN_42);

    assert_eq!(attachments.attachment_count(), 0);
    attachments.attach(&progs, "a:b", prog_id, "prog").unwrap();
    attachments.attach(&progs, "c:d", prog_id, "prog").unwrap();
    assert_eq!(attachments.attachment_count(), 2);
    let listed = attachments.list_attachments();
    assert_eq!(listed.len(), 2);
    assert_eq!(listed[0].0, "a:b");
    assert_eq!(listed[1].0, "c:d");
}

#[test]
fn verbose_flag_toggles() {
    let mut attachments = AttachRegistry::new();
    assert!(!attachments.is_verbose());
    attachments.set_verbose(true);
    assert!(attachments.is_verbose());
    attachments.set_verbose(false);
    assert!(!attachments.is_verbose());
}

#[test]
fn live_name_wins_over_dead_program_id() {
    let mut maps = MapStore::new();
    let mut progs = ProgramStore::new();
    let mut attachments = AttachRegistry::new();
    let prog_id = loaded_program(&mut maps, &mut progs, PROG_RETURN_42);

    attachments.attach(&progs, "tp:precedence", prog_id, "prog").unwrap();
    let result = attachments.attach(&progs, "tp:precedence", 99999, "ghost");
    assert!(matches!(result, Err(Error::AlreadyAttached(_))));
}
