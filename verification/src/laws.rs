//! The properties the loader promises, stated and proved once over the
//! contracts of the pieces.

use vstd::prelude::*;

use crate::arch::TrampolineContext;
use crate::args::{
    spec_parse_env, start_context_ok, valid_env_name, valid_env_value, Args, EnvEdit,
    StartContext, StringArena,
};
use crate::cstr::lemma_find_byte_first;

verus! {

/// An environment edit, undone by the trampoline, restores the slot: the
/// pointer the trampoline stores into the published environment slot is
/// exactly the pointer that slot held before the loader ran, and the
/// string it names is untouched byte for byte.
pub proof fn lemma_edit_reverted(
    a0: &Args,
    a1: &Args,
    ar0: &StringArena,
    ar1: &StringArena,
    edit: EnvEdit,
    tramp: TrampolineContext,
    start: StartContext,
    published: Seq<usize>,
    slot: int,
)
    requires
        a0.wf(ar0),
        ar1.extends(ar0),
        a0.env_start() <= slot < a0.env_start() + a0.envc,
        // What `VarHandle::edit` guarantees about the record and the slot:
        edit.entry == Some(slot as usize),
        edit.old_string == a0.stack@[slot],
        a1.stack@ == a0.stack@.update(slot, (ar0.bufs@.len() + 1) as usize),
        a1.argc == a0.argc,
        a1.envc == a0.envc,
        a1.extra_env is None,
        // What `TrampolineContext::revert_env` records:
        tramp.env_entry == edit.entry,
        tramp.env_string == edit.old_string,
        // What `Args::handoff` publishes:
        start_context_ok(a1, &start),
        // What the entry trampoline then does:
        published == start.words@.update(slot, tramp.env_string),
    ensures
        published[slot] == a0.stack@[slot],
        ar1.str_at(published[slot] as usize) == ar0.str_at(a0.stack@[slot] as usize),
{
    assert(a0.env_slot_ok(ar0, slot - a0.env_start()));
}

/// After a handoff, the published `argv` and `envp` are NULL-terminated:
/// `argv[argc]` is NULL, and so is `envp[envc']`, where `envc'` counts
/// the spliced extra entry if there is one.
pub proof fn lemma_handoff_terminators(a: &Args, arena: &StringArena, r: &StartContext)
    requires
        a.wf(arena),
        start_context_ok(a, r),
    ensures
        r.words@[r.argv + a.argc] == 0,
        (match a.extra_env {
            Some(_) => r.words@[r.envp + a.envc + 1] == 0,
            None => r.words@[r.envp + a.envc] == 0,
        }),
{
    assert(r.words@[1 + (a.argc as int)] == a.stack@[1 + (a.argc as int)]);
}

/// The aux vector the real loader sees is the one the kernel provided:
/// same keys in the same order, and every value unchanged except
/// possibly the two the loader publishes, `AT_BASE` and `AT_ENTRY`.
pub proof fn lemma_auxv_preserved(
    a0: &Args,
    a1: &Args,
    arena: &StringArena,
    r: &StartContext,
    p1: int,
    p2: int,
)
    requires
        a0.wf(arena),
        a1.wf(arena),
        a1.argc == a0.argc,
        a1.envc == a0.envc,
        a1.auxv == a0.auxv,
        a1.extra_env == a0.extra_env,
        // The two published values sit at value words of the aux area.
        a0.aux_start() <= p1 && (p1 - a0.aux_start()) % 2 == 1,
        a0.aux_start() <= p2 && (p2 - a0.aux_start()) % 2 == 1,
        forall|k: int|
            0 <= k < a0.stack@.len() && k != p1 && k != p2 ==> a1.stack@[k] == #[trigger] a0.stack@[
                k
            ],
        start_context_ok(a1, r),
    ensures
        ({
            let aux_old = a0.aux_start();
            let aux_new = aux_old + (if a0.extra_env is Some {
                1int
            } else {
                0
            });
            &&& (forall|j: int|
                0 <= j < a0.auxv.auxvc ==> #[trigger] r.words@[aux_new + 2 * j]
                    == a0.stack@[aux_old + 2 * j])
            &&& (forall|j: int|
                0 <= j < a0.auxv.auxvc && aux_old + 2 * j + 1 != p1 && aux_old + 2 * j + 1 != p2
                    ==> #[trigger] r.words@[aux_new + 2 * j + 1] == a0.stack@[aux_old + 2 * j + 1])
        }),
{
    let aux_old = a0.aux_start();
    let aux_new = aux_old + (if a0.extra_env is Some {
        1int
    } else {
        0
    });
    crate::auxv::lemma_aux_count_facts(a0.stack@, a0.auxv.start as int, a0.auxv.auxvc as int);
    assert forall|j: int| 0 <= j < a0.auxv.auxvc implies #[trigger] r.words@[aux_new + 2 * j]
        == a0.stack@[aux_old + 2 * j] by {
        match a1.extra_env {
            Some(_) => {
                assert(r.words@[aux_old + 1 + (2 * j)] == a1.stack@[aux_old + 2 * j]);
            },
            None => {},
        }
        assert((2 * j) % 2 == 0);
        assert(a1.stack@[aux_old + 2 * j] == a0.stack@[aux_old + 2 * j]);
    }
    assert forall|j: int|
        0 <= j < a0.auxv.auxvc && aux_old + 2 * j + 1 != p1 && aux_old + 2 * j + 1
            != p2 implies #[trigger] r.words@[aux_new + 2 * j + 1] == a0.stack@[aux_old + 2 * j
        + 1] by {
        match a1.extra_env {
            Some(_) => {
                assert(r.words@[aux_old + 1 + (2 * j + 1)] == a1.stack@[aux_old + 2 * j + 1]);
            },
            None => {},
        }
        assert(a1.stack@[aux_old + 2 * j + 1] == a0.stack@[aux_old + 2 * j + 1]);
    }
}

/// The corollary for the finished handoff: after the loader's base and
/// the trampoline are published in `AT_BASE` and `AT_ENTRY` and the
/// stack is handed off, the loader sees the kernel's aux keys in the
/// kernel's order, with at most those two values changed.
pub proof fn lemma_finished_handoff_auxv(
    a0: &Args,
    a1: &Args,
    arena: &StringArena,
    r: &StartContext,
    lb: usize,
    tr: usize,
)
    requires
        a0.wf(arena),
        a1.wf(arena),
        a1.argc == a0.argc,
        a1.envc == a0.envc,
        a1.auxv == a0.auxv,
        a1.extra_env == a0.extra_env,
        a0.auxv.at_base is Some,
        a0.auxv.at_entry is Some,
        a1.stack@ == a0.stack@.update(a0.auxv.at_base->Some_0.pos + 1, lb).update(
            a0.auxv.at_entry->Some_0.pos + 1,
            tr,
        ),
        start_context_ok(a1, r),
    ensures
        ({
            let aux_old = a0.aux_start();
            let aux_new = aux_old + (if a0.extra_env is Some {
                1int
            } else {
                0
            });
            let pb = a0.auxv.at_base->Some_0.pos + 1;
            let pe = a0.auxv.at_entry->Some_0.pos + 1;
            &&& (forall|j: int|
                0 <= j < a0.auxv.auxvc ==> #[trigger] r.words@[aux_new + 2 * j]
                    == a0.stack@[aux_old + 2 * j])
            &&& (forall|j: int|
                0 <= j < a0.auxv.auxvc && aux_old + 2 * j + 1 != pb && aux_old + 2 * j + 1 != pe
                    ==> #[trigger] r.words@[aux_new + 2 * j + 1] == a0.stack@[aux_old + 2 * j + 1])
        }),
{
    let pb = a0.auxv.at_base->Some_0.pos + 1;
    let pe = a0.auxv.at_entry->Some_0.pos + 1;
    assert(crate::auxv::entry_ok(
        a0.auxv.at_base,
        crate::auxv::AT_BASE,
        a0.stack@,
        a0.auxv.start as int,
        a0.auxv.auxvc as int,
    ));
    assert(crate::auxv::entry_ok(
        a0.auxv.at_entry,
        crate::auxv::AT_ENTRY,
        a0.stack@,
        a0.auxv.start as int,
        a0.auxv.auxvc as int,
    ));
    assert forall|k: int|
        0 <= k < a0.stack@.len() && k != pb && k != pe implies a1.stack@[k] == #[trigger] a0.stack@[
        k] by {}
    assert(a0.aux_start() <= pb && (pb - a0.aux_start()) % 2 == 1);
    assert(a0.aux_start() <= pe && (pe - a0.aux_start()) % 2 == 1);
    lemma_auxv_preserved(a0, a1, arena, r, pb, pe);
    let aux_old = a0.aux_start();
    let aux_new = aux_old + (if a0.extra_env is Some {
        1int
    } else {
        0
    });
    crate::auxv::lemma_aux_count_facts(a0.stack@, a0.auxv.start as int, a0.auxv.auxvc as int);
    assert forall|j: int|
        0 <= j < a0.auxv.auxvc && aux_old + 2 * j + 1 != pb && aux_old + 2 * j + 1
            != pe implies #[trigger] r.words@[aux_new + 2 * j + 1] == a0.stack@[aux_old + 2 * j
        + 1] by {
        match a1.extra_env {
            Some(_) => {
                assert(r.words@[aux_old + 1 + (2 * j + 1)] == a1.stack@[aux_old + 2 * j + 1]);
            },
            None => {},
        }
        assert(a1.stack@[aux_old + 2 * j + 1] == a0.stack@[aux_old + 2 * j + 1]);
    }
}

/// A rename that had to swap the slot, once reverted, leaves the slot
/// holding the original pointer, whose bytes were never touched: a child
/// process sees the environment entry exactly as it was.
///
/// (A rename to a name no longer than the old one rewrites the buffer in
/// place and records no swap, so this round trip concerns the swapping
/// case.)
pub proof fn lemma_rename_reverted(
    a0: &Args,
    a1: &Args,
    ar0: &StringArena,
    ar1: &StringArena,
    edit: EnvEdit,
    tramp: TrampolineContext,
    start: StartContext,
    published: Seq<usize>,
    slot: int,
)
    requires
        a0.wf(ar0),
        ar1.extends(ar0),
        a0.env_start() <= slot < a0.env_start() + a0.envc,
        // What `VarHandle::rename` guarantees when the new name is longer:
        edit.entry == Some(slot as usize),
        edit.old_string == a0.stack@[slot],
        a1.stack@ == a0.stack@.update(slot, (ar0.bufs@.len() + 1) as usize),
        a1.argc == a0.argc,
        a1.envc == a0.envc,
        a1.extra_env is None,
        tramp.env_entry == edit.entry,
        tramp.env_string == edit.old_string,
        start_context_ok(a1, &start),
        published == start.words@.update(slot, tramp.env_string),
    ensures
        published[slot] == a0.stack@[slot],
        ar1.str_at(published[slot] as usize) == ar0.str_at(a0.stack@[slot] as usize),
{
    lemma_edit_reverted(a0, a1, ar0, ar1, edit, tramp, start, published, slot);
}

/// A freshly edited entry parses back to exactly the name and the value
/// bytes that were written.
pub proof fn lemma_edit_parses_back(name: Seq<u8>, value: Seq<u8>)
    requires
        valid_env_name(name),
        valid_env_value(value),
    ensures
        spec_parse_env(name + seq![('=' as u8)] + value + seq![0u8]) == Some(
            (name, value + seq![0u8]),
        ),
{
    let s = name + seq![('=' as u8)] + value + seq![0u8];
    assert(s[name.len() as int] == ('=' as u8));
    assert forall|j: int| 0 <= j < name.len() implies s[j] != ('=' as u8) by {
        assert(s[j] == name[j]);
    }
    lemma_find_byte_first(s, '=' as u8, name.len() as int);
    assert(s.subrange(0, name.len() as int) =~= name);
    assert(s.subrange(name.len() as int + 1, s.len() as int) =~= value + seq![0u8]);
}

} // verus!
