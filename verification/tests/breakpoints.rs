use imo::breakpoint::{BreakPoint, BreakpointMutationResult, BreakpointTarget};
use imo::menu::{breakpoint_file_choice, breakpoint_files, resolve_user_index, FileChoice};
use imo::session::DebugSession;

fn target(file: &str, relative_address: u64) -> BreakpointTarget {
    BreakpointTarget { file: file.to_string(), relative_address }
}

fn session() -> DebugSession {
    let mut s = DebugSession::from_pid(3);
    s.base_address = 0x1000;
    s.line_index.insert(6, vec![target("/home/me/src/main.rs", 0x40), target("/home/me/src/lib.rs", 0x80)]);
    s.line_index.insert(7, vec![target("/home/me/src/main.rs", 0x48), target("/home/me/src/main.rs", 0x4c)]);
    s
}

#[test]
fn enabling_a_breakpoint_patches_one_byte_and_disabling_restores_it() {
    let mut bp = BreakPoint::new(0x1234);
    let word = 0x7766_5544_3322_1100_i64;
    let patched = bp.enable(word);
    assert_eq!(patched & 0xFF, 0xCC);
    assert_eq!(patched & !0xFF, word & !0xFF);
    assert_eq!(bp.disable(patched), Some(word));
    assert_eq!(bp.disable(patched), None);
}

#[test]
fn creating_a_breakpoint_arms_each_address_once() {
    let mut s = session();
    let (result, to_arm) = s.create_breakpoint(7, "/home/me/src/main.rs");
    match result {
        BreakpointMutationResult::Created { count, target } => {
            assert_eq!(count, 2);
            assert_eq!(target.relative_address, 0x48);
        }
        _ => panic!("created"),
    }
    assert_eq!(to_arm, vec![0x1048, 0x104c]);
    assert_eq!(s.current_index(), 1);
    // A second breakpoint on the same line shares the addresses.
    let (_, again) = s.create_breakpoint(7, "/home/me/src/main.rs");
    assert!(again.is_empty());
    assert_eq!(s.active_breakpoints.get(&0x1048).unwrap().ref_count, 2);
    // Deleting one keeps the memory patched for the other.
    let (deleted, gone) = s.delete_breakpoint(0);
    assert!(matches!(deleted, BreakpointMutationResult::Updated));
    assert!(gone.is_empty());
    let (_, gone) = s.delete_breakpoint(1);
    assert_eq!(gone.len(), 2);
    assert!(s.active_breakpoints.is_empty());
}

#[test]
fn disable_then_enable_restores_the_registry() {
    let mut s = session();
    let _ = s.create_breakpoint(6, "/home/me/src/main.rs");
    let before: Vec<(u64, usize)> = {
        let mut v: Vec<_> = s.active_breakpoints.iter().map(|(a, m)| (*a, m.ref_count)).collect();
        v.sort();
        v
    };
    let (r, _) = s.disable_breakpoint(0);
    assert!(matches!(r, BreakpointMutationResult::Updated));
    let (r, _) = s.disable_breakpoint(0);
    assert!(matches!(r, BreakpointMutationResult::AlreadyInState));
    let (r, to_arm) = s.enable_breakpoint(0);
    assert!(matches!(r, BreakpointMutationResult::Updated));
    assert_eq!(to_arm, vec![0x1040]);
    let after: Vec<(u64, usize)> = {
        let mut v: Vec<_> = s.active_breakpoints.iter().map(|(a, m)| (*a, m.ref_count)).collect();
        v.sort();
        v
    };
    assert_eq!(before, after);
}

#[test]
fn clearing_by_line_and_file() {
    let mut s = session();
    let _ = s.create_breakpoint(6, "/home/me/src/main.rs");
    let _ = s.create_breakpoint(7, "/home/me/src/main.rs");
    let (cleared, disarm) = s.clear_breakpoint(7, Some("lib.rs"));
    assert!(cleared.is_empty());
    assert!(disarm.is_empty());
    let (cleared, disarm) = s.clear_breakpoint(7, None);
    // Breakpoints are reported by their 1-based number.
    assert_eq!(cleared, vec![2]);
    assert_eq!(disarm.len(), 2);
}

#[test]
fn specific_targets_match_the_end_of_the_path() {
    let s = session();
    let t = s.get_specific_breakpoint_target("main.rs", 6);
    assert_eq!(t.len(), 1);
    assert_eq!(t[0].relative_address, 0x40);
    assert!(s.get_specific_breakpoint_target("ain.rs", 6).is_empty());
    assert!(s.get_breakpoint_target(99).is_none());
}

#[test]
fn candidate_files_leave_out_libraries_and_repeats() {
    let targets = vec![
        target("/rustc/abc/library/core/src/ops.rs", 1),
        target("/home/me/src/main.rs", 2),
        target("/home/me/.cargo/registry/x/rust/deps/y.rs", 3),
        target("/home/me/src/main.rs", 4),
        target("/home/me/src/lib.rs", 5),
    ];
    assert_eq!(breakpoint_files(&targets), vec!["/home/me/src/main.rs".to_string(), "/home/me/src/lib.rs".to_string()]);
}

#[test]
fn user_numbers_count_from_one() {
    assert_eq!(resolve_user_index(0, 3), None);
    assert_eq!(resolve_user_index(1, 3), Some(0));
    assert_eq!(resolve_user_index(3, 3), Some(2));
    assert_eq!(resolve_user_index(4, 3), None);
}

#[test]
fn patch_law_holds_on_a_word() {
    let word = -2i64;
    let mut bp = BreakPoint::new(0);
    let patched = bp.enable(word);
    assert_eq!(bp.disable(patched), Some(word));
}

#[test]
fn relative_address_of_an_absolute_one_is_itself() {
    let mut s = DebugSession::from_pid(4);
    s.base_address = 0x5555_0000;
    let absolute = s.get_absolute_address(0x1234);
    assert_eq!(absolute, 0x5555_1234);
    assert_eq!(s.get_relative_address(absolute), 0x1234);
}

#[test]
fn the_file_of_a_breakpoint_is_asked_for_only_when_ambiguous() {
    assert!(matches!(breakpoint_file_choice(&vec![]), FileChoice::NoFile));
    assert!(matches!(breakpoint_file_choice(&vec![target("/rustc/abc/library/core/src/ops.rs", 1)]), FileChoice::NoFile));
    match breakpoint_file_choice(&vec![target("/home/me/src/main.rs", 2), target("/home/me/src/main.rs", 3)]) {
        FileChoice::Only(f) => assert_eq!(f, "/home/me/src/main.rs"),
        _ => panic!("expected one file"),
    }
    match breakpoint_file_choice(&vec![target("/home/me/src/main.rs", 2), target("/home/me/src/lib.rs", 3)]) {
        FileChoice::Ask(fs) => assert_eq!(fs, vec!["/home/me/src/main.rs".to_string(), "/home/me/src/lib.rs".to_string()]),
        _ => panic!("expected a choice"),
    }
}
