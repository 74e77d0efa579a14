//! The environment editor, the stack work, and the whole policy, run on
//! model process states.

use nix_ld::arch::{entry_trampoline, StackSpace, TrampolineContext};
use nix_ld::args::{Args, StringArena};
use nix_ld::auxv::{AuxVec, AT_BASE, AT_ENTRY, AT_PAGESZ, AT_PHDR};
use nix_ld::run::{finish_handoff, prepare_env, scan_env, HandoffDecision};
use nix_ld::sys::Fatal;

const BASE: usize = 1 << 40;

/// Builds the model of an initial stack: the argv and environment
/// strings go into the arena, and the word image is laid out the way the
/// kernel does it.
fn build_state(argv: &[&[u8]], env: &[&[u8]], aux: &[(usize, usize)]) -> (Args, StringArena) {
    let mut arena = StringArena::new();
    let mut stack: Vec<usize> = Vec::new();
    stack.push(argv.len());
    for a in argv {
        let mut s = a.to_vec();
        s.push(0);
        let p = arena.new_slice_leak(s);
        stack.push(p);
    }
    stack.push(0);
    for e in env {
        let mut s = e.to_vec();
        s.push(0);
        let p = arena.new_slice_leak(s);
        stack.push(p);
    }
    stack.push(0);
    for (k, v) in aux {
        stack.push(*k);
        stack.push(*v);
    }
    stack.push(0);
    stack.push(0);
    let args = Args::new(stack, BASE, &arena).unwrap();
    (args, arena)
}

fn str_of(arena: &StringArena, p: usize) -> Vec<u8> {
    arena.get(p).clone()
}

#[test]
fn test_stack_space_bottom_is_aligned() {
    let s = StackSpace { base: 0x100007, size: 5 * 1024 * 1024 };
    let b = s.bottom();
    assert_eq!(b % 32, 0);
    assert!(b <= s.base + s.size);
    assert!(s.base + s.size - b < 32);
}

#[test]
fn test_args_new_counts() {
    let (args, _arena) = build_state(
        &[b"prog", b"arg1"],
        &[b"A=1", b"B=2", b"C=3"],
        &[(AT_PAGESZ, 4096), (AT_BASE, 0)],
    );
    assert_eq!(args.argc(), 2);
    assert_eq!(args.envc, 3);
    assert_eq!(args.auxv.count(), 2);
    assert!(args.auxv.at_pagesz.is_some());
    assert!(args.auxv.at_base.is_some());
    assert!(args.auxv.at_entry.is_none());
}

#[test]
fn test_args_new_rejects_bad_layout() {
    let arena = StringArena::new();
    // argc says two arguments but the image ends after one word.
    let stack = vec![2usize, 0];
    assert!(matches!(Args::new(stack, BASE, &arena), Err(Fatal::StackMismatch)));
    // An env slot pointing at nothing in the arena.
    let stack2 = vec![0usize, 0, 7, 0, 0, 0];
    assert!(matches!(Args::new(stack2, BASE, &arena), Err(Fatal::BadEnvString)));
}

#[test]
fn test_auxv_truncated_is_fatal() {
    let arena = StringArena::new();
    // No (0, 0) terminator after the aux pairs.
    let stack = vec![0usize, 0, 0, AT_PAGESZ, 4096];
    assert!(matches!(Args::new(stack, BASE, &arena), Err(Fatal::AuxvTruncated)));
}

#[test]
fn test_auxv_from_raw_finds_entries() {
    let stack = vec![AT_PHDR, 0x40, AT_PAGESZ, 4096, 0, 0];
    let av = AuxVec::from_raw(&stack, 0).unwrap();
    assert_eq!(av.auxvc, 2);
    let phdr = av.at_phdr.unwrap();
    assert_eq!(phdr.value(&stack), 0x40);
    assert!(av.at_entry.is_none());
}

#[test]
fn test_env_iteration_yields_handles_once() {
    let (mut args, arena) = build_state(
        &[b"prog"],
        &[b"NIX_LD=/ld.so", b"OTHER=x"],
        &[(AT_PAGESZ, 4096)],
    );
    let mut it = args.iter_env().unwrap();
    let h = it.next(&args, &arena).unwrap();
    assert_eq!(h.name(), &b"NIX_LD".to_vec());
    assert_eq!(h.value(), b"/ld.so".to_vec());
    assert_eq!(h.value_cstr(), &b"/ld.so\0".to_vec());
    let h2 = it.next(&args, &arena).unwrap();
    assert_eq!(h2.name(), &b"OTHER".to_vec());
    assert!(it.next(&args, &arena).is_none());
    // A second walk is refused, keeping handles unique.
    assert!(args.iter_env().is_none());
}

#[test]
fn test_env_iteration_stops_at_bad_entry() {
    // A slot with no `=` in it ends the walk early.
    let (mut args, arena) = build_state(
        &[b"prog"],
        &[b"GOOD=1", b"BADENTRY", b"LATER=2"],
        &[(AT_PAGESZ, 4096)],
    );
    let mut it = args.iter_env().unwrap();
    let h = it.next(&args, &arena).unwrap();
    assert_eq!(h.name(), &b"GOOD".to_vec());
    assert!(it.next(&args, &arena).is_none());
    assert!(it.next(&args, &arena).is_none());
}

#[test]
fn test_prepare_env_default_loader_when_unset() {
    let (mut args, mut arena) = build_state(&[b"prog"], &[b"HOME=/root"], &[(AT_PAGESZ, 4096)]);
    let plan = prepare_env(&mut args, &mut arena).unwrap();
    assert_eq!(
        plan.loader_path,
        b"/run/current-system/sw/share/nix-ld/lib/ld.so\0".to_vec()
    );
    assert!(plan.log_level.is_none());
}

#[test]
fn test_rename_shorter_keeps_buffer() {
    let (mut args, mut arena) = build_state(
        &[b"prog"],
        &[b"NIX_LD_LIBRARY_PATH=/libs"],
        &[(AT_PAGESZ, 4096)],
    );
    let slot_ptr = args.stack[2 + 1];
    let bufs_before = arena.bufs.len();
    let mut it = args.iter_env().unwrap();
    let h = it.next(&args, &arena).unwrap();
    let edit = h.rename(&mut args, &mut arena, &b"LD_LIBRARY_PATH".to_vec());
    // The slot still points at the same buffer, rewritten in place.
    assert_eq!(args.stack[2 + 1], slot_ptr);
    assert_eq!(arena.bufs.len(), bufs_before);
    assert_eq!(str_of(&arena, slot_ptr), b"LD_LIBRARY_PATH=/libs\0".to_vec());
    // No swap happened, so the edit is the sentinel.
    assert_eq!(edit.entry, None);
}

#[test]
fn test_rename_longer_swaps_buffer() {
    let (mut args, mut arena) = build_state(&[b"prog"], &[b"AB=xy"], &[(AT_PAGESZ, 4096)]);
    let slot_ptr = args.stack[2 + 1];
    let mut it = args.iter_env().unwrap();
    let h = it.next(&args, &arena).unwrap();
    let edit = h.rename(&mut args, &mut arena, &b"LONGER_NAME".to_vec());
    let new_ptr = args.stack[2 + 1];
    assert_ne!(new_ptr, slot_ptr);
    assert_eq!(str_of(&arena, new_ptr), b"LONGER_NAME=xy\0".to_vec());
    // The record remembers the slot and the original pointer.
    assert_eq!(edit.entry, Some(2 + 1));
    assert_eq!(edit.old_string, slot_ptr);
    // The original bytes are untouched.
    assert_eq!(str_of(&arena, slot_ptr), b"AB=xy\0".to_vec());
}

#[test]
fn test_edit_writes_name_equals_value() {
    let (mut args, mut arena) = build_state(&[b"prog"], &[b"PATH=/bin"], &[(AT_PAGESZ, 4096)]);
    let mut it = args.iter_env().unwrap();
    let h = it.next(&args, &arena).unwrap();
    let edit = h.edit(&mut args, &mut arena, None, &b"/bin:/extra".to_vec());
    let new_ptr = args.stack[2 + 1];
    assert_eq!(str_of(&arena, new_ptr), b"PATH=/bin:/extra\0".to_vec());
    assert_eq!(edit.entry, Some(2 + 1));
}

#[test]
fn test_second_extra_env_is_refused() {
    let (mut args, mut arena) = build_state(&[b"prog"], &[b"A=1"], &[(AT_PAGESZ, 4096)]);
    args
        .add_env(&mut arena, &b"LD_LIBRARY_PATH".to_vec(), &b"/libs".to_vec())
        .unwrap();
    let again = args.add_env(&mut arena, &b"OTHER".to_vec(), &b"x".to_vec());
    assert!(matches!(again, Err(Fatal::ExtraEnvTaken)));
}

#[test]
fn test_handoff_without_extra_env() {
    let (args, arena) = build_state(&[b"prog"], &[b"A=1"], &[(AT_PAGESZ, 4096)]);
    let start = args.handoff(&arena);
    assert_eq!(start.sp, BASE);
    assert_eq!(start.sp % 16, 0);
    assert_eq!(start.words, args.stack);
    assert_eq!(start.argv, 1);
    assert_eq!(start.envp, 3);
    assert!(start.extra_env.is_none());
}

#[test]
fn test_handoff_with_extra_env_shifts_stack() {
    let (mut args, mut arena) = build_state(
        &[b"prog"],
        &[b"A=1", b"B=2"],
        &[(AT_PAGESZ, 4096), (AT_BASE, 7)],
    );
    args
        .add_env(&mut arena, &b"LD_LIBRARY_PATH".to_vec(), &b"/libs".to_vec())
        .unwrap();
    let extra_ptr = args.extra_env.unwrap();
    let start = args.handoff(&arena);
    // The published stack pointer is aligned and sits below the old one.
    assert_eq!(start.sp % 16, 0);
    assert!(start.sp < BASE);
    // argc and argv carried over, argv NULL-terminated.
    assert_eq!(start.words[0], 1);
    assert_eq!(start.words[1], args.stack[1]);
    assert_eq!(start.words[2], 0);
    // envp carried over, with the extra entry spliced before the NULL.
    assert_eq!(start.words[3], args.stack[3]);
    assert_eq!(start.words[4], args.stack[4]);
    assert_eq!(start.words[5], extra_ptr);
    assert_eq!(start.words[6], 0);
    assert_eq!(start.extra_env, Some(5));
    // The aux pairs follow, byte for byte, with their terminator.
    assert_eq!(&start.words[7..13], &args.stack[6..12]);
    assert_eq!(str_of(&arena, extra_ptr), b"LD_LIBRARY_PATH=/libs\0".to_vec());
}

#[test]
fn test_trampoline_restores_edited_slot() {
    let (mut args, mut arena) = build_state(
        &[b"prog"],
        &[b"LD_LIBRARY_PATH=/orig"],
        &[(AT_PAGESZ, 4096)],
    );
    let orig_ptr = args.stack[2 + 1];
    let mut it = args.iter_env().unwrap();
    let h = it.next(&args, &arena).unwrap();
    let edit = h.edit(&mut args, &mut arena, None, &b"/orig:/extra".to_vec());
    let mut tramp = TrampolineContext::new();
    tramp.set_elf_entry(0xdead0);
    tramp.revert_env(&edit);
    let start = args.handoff(&arena);
    let mut published = start.words;
    let entry = entry_trampoline(&tramp, &mut published);
    assert_eq!(entry, 0xdead0);
    // The slot holds the pointer it held before the loader ran, and the
    // bytes behind it were never touched.
    assert_eq!(published[2 + 1], orig_ptr);
    assert_eq!(str_of(&arena, orig_ptr), b"LD_LIBRARY_PATH=/orig\0".to_vec());
}

#[test]
fn test_scan_env_precedence() {
    let (mut args, arena) = build_state(
        &[b"prog"],
        &[
            b"NIX_LD=/generic",
            b"NIX_LD_x86_64_linux=/system",
            b"NIX_LD_LIBRARY_PATH=/generic-libs",
            b"NIX_LD_LOG=debug",
        ],
        &[(AT_PAGESZ, 4096)],
    );
    let (ctx, log) = scan_env(&mut args, &arena).unwrap();
    // The system-specific loader path wins over the generic one.
    assert_eq!(ctx.nix_ld.unwrap().value(), b"/system".to_vec());
    assert_eq!(
        ctx.nix_ld_library_path.unwrap().value(),
        b"/generic-libs".to_vec()
    );
    assert!(ctx.ld_library_path.is_none());
    assert_eq!(log.unwrap(), b"debug".to_vec());
}

#[test]
fn test_prepare_env_uses_default_when_unset() {
    // Hello-binary setting: only the loader path is given.
    let (mut args, mut arena) = build_state(
        &[b"prog"],
        &[b"NIX_LD=/fixtures/ld.so"],
        &[(AT_PAGESZ, 4096), (AT_BASE, 0x1000)],
    );
    let plan = prepare_env(&mut args, &mut arena).unwrap();
    assert_eq!(plan.loader_path, b"/fixtures/ld.so\0".to_vec());
    assert_eq!(plan.pagesz, 4096);
    // With neither library-path variable set, an extra entry with the
    // default is recorded, restored to empty by the trampoline.
    let extra = args.extra_env.unwrap();
    assert_eq!(
        str_of(&arena, extra),
        b"LD_LIBRARY_PATH=/run/current-system/sw/share/nix-ld/lib\0".to_vec()
    );
    assert_eq!(plan.edit.entry, None);
    assert_eq!(
        str_of(&arena, plan.edit.old_string),
        b"LD_LIBRARY_PATH=\0".to_vec()
    );
}

#[test]
fn test_prepare_env_empty_nix_ld_falls_back() {
    let (mut args, mut arena) = build_state(
        &[b"prog"],
        &[b"NIX_LD="],
        &[(AT_PAGESZ, 4096)],
    );
    let plan = prepare_env(&mut args, &mut arena).unwrap();
    assert_eq!(
        plan.loader_path,
        b"/run/current-system/sw/share/nix-ld/lib/ld.so\0".to_vec()
    );
}

#[test]
fn test_pagesz_missing_is_fatal() {
    let (mut args, mut arena) = build_state(
        &[b"prog"],
        &[b"NIX_LD=/ld.so"],
        &[(AT_BASE, 0x1000)],
    );
    assert!(matches!(prepare_env(&mut args, &mut arena), Err(Fatal::NoPagesz)));
}

#[test]
fn test_restore_semantics_end_to_end() {
    // Existing LD_LIBRARY_PATH=NEEDLE, extra path /fixtures:POISON: the
    // loader sees the concatenation, and after the trampoline a child
    // sees NEEDLE again.
    let (mut args, mut arena) = build_state(
        &[b"prog"],
        &[
            b"LD_LIBRARY_PATH=NEEDLE",
            b"NIX_LD_LIBRARY_PATH=/fixtures:POISON",
            b"NIX_LD=/fixtures/ld.so",
        ],
        &[(AT_PAGESZ, 4096), (AT_BASE, 0x7000), (AT_ENTRY, 0x400500)],
    );
    let orig_ptr = args.stack[2 + 1];
    let plan = prepare_env(&mut args, &mut arena).unwrap();
    // The loader will see the appended search path.
    let edited_ptr = args.stack[2 + 1];
    assert_eq!(
        str_of(&arena, edited_ptr),
        b"LD_LIBRARY_PATH=NEEDLE:/fixtures:POISON\0".to_vec()
    );
    let mut tramp = TrampolineContext::new();
    let decision = finish_handoff(
        &mut args,
        &arena,
        &plan.edit,
        0x7f00aa000000,
        0x7f00aa000010,
        Some(0x9000),
        &mut tramp,
    );
    let (start, entry) = match decision {
        HandoffDecision::Jump { start, entry } => (start, entry),
        _ => panic!("expected a jump"),
    };
    assert_eq!(entry, 0x7f00aa000010);
    // AT_BASE now carries the loader's base; AT_ENTRY the trampoline.
    let at_base = args.auxv.at_base.unwrap();
    assert_eq!(at_base.value(&args.stack), 0x7f00aa000000);
    // The trampoline saved the real entry and the edit to undo.
    assert_eq!(tramp.elf_entry, 0x400500);
    assert_eq!(tramp.env_string, orig_ptr);
    // Running the trampoline restores the slot for child processes.
    let mut published = start.words;
    let jump = entry_trampoline(&tramp, &mut published);
    assert_eq!(jump, 0x400500);
    assert_eq!(published[2 + 1], orig_ptr);
    assert_eq!(str_of(&arena, orig_ptr), b"LD_LIBRARY_PATH=NEEDLE\0".to_vec());
}

#[test]
fn test_direct_invocation_shows_banner() {
    // No PT_INTERP parent: AT_BASE is 0 and there is at most one
    // argument, so the decision is to execve the loader after a banner.
    let (mut args, mut arena) = build_state(
        &[b"prog"],
        &[b"NIX_LD=/fixtures/ld.so"],
        &[(AT_PAGESZ, 4096), (AT_BASE, 0)],
    );
    let plan = prepare_env(&mut args, &mut arena).unwrap();
    let mut tramp = TrampolineContext::new();
    let decision = finish_handoff(&mut args, &arena, &plan.edit, 0, 0, Some(0x9000), &mut tramp);
    match decision {
        HandoffDecision::ExecDirect { show_banner, start } => {
            assert!(show_banner);
            // The extra entry is spliced in for the execve environment.
            assert!(start.extra_env.is_some());
            assert_eq!(start.sp % 16, 0);
        }
        _ => panic!("expected a direct exec"),
    }
}

#[test]
fn test_auxv_keys_preserved_by_handoff() {
    let (mut args, mut arena) = build_state(
        &[b"prog"],
        &[b"NIX_LD=/ld.so", b"LD_LIBRARY_PATH=/keep"],
        &[(AT_PHDR, 0x40), (AT_PAGESZ, 4096), (AT_BASE, 0x7000), (AT_ENTRY, 0x400500)],
    );
    let aux_start = 3 + 1 + 2;
    let kernel_keys: Vec<usize> = (0..4).map(|j| args.stack[aux_start + 2 * j]).collect();
    let kernel_vals: Vec<usize> = (0..4).map(|j| args.stack[aux_start + 2 * j + 1]).collect();
    let plan = prepare_env(&mut args, &mut arena).unwrap();
    let mut tramp = TrampolineContext::new();
    let decision = finish_handoff(&mut args, &arena, &plan.edit, 0xbb0000, 0xbb0010, Some(0x9000), &mut tramp);
    let start = match decision {
        HandoffDecision::Jump { start, .. } => start,
        _ => panic!("expected a jump"),
    };
    // No extra entry was spliced (LD_LIBRARY_PATH existed), so the aux
    // area sits where it was.
    for j in 0..4 {
        assert_eq!(start.words[aux_start + 2 * j], kernel_keys[j]);
    }
    // Only AT_BASE and AT_ENTRY changed their values.
    for j in 0..4 {
        let key = kernel_keys[j];
        let val = start.words[aux_start + 2 * j + 1];
        if key == AT_BASE {
            assert_eq!(val, 0xbb0000);
        } else if key == AT_ENTRY {
            assert_eq!(val, 0x9000);
        } else {
            assert_eq!(val, kernel_vals[j]);
        }
    }
}
